//! The display object graph and its one-way registration.
//!
//! The pipeline has a fixed topology: one connector, one encoder, one
//! CRTC, one primary plane. Registration binds them into the host's
//! object graph in the order plane, CRTC, encoder, connector, negotiates
//! the plane's pixel-format list and a trivial modifier set, and is a
//! one-way transition: a second registration fails with
//! [`DriverError::AlreadyRegistered`] and has no side effects.

use vstd::prelude::*;

use crate::error::DriverError;
use crate::pixel::{fourcc, FOURCC_RG24, FOURCC_XR24};

verus! {

/// The driver exposes GEM buffer management.
pub const FEAT_GEM: u32 = 0x1;

/// The driver can set display modes.
pub const FEAT_MODESET: u32 = 0x2;

/// The driver offers a render node.
pub const FEAT_RENDER: u32 = 0x8;

/// The driver supports atomic commits.
pub const FEAT_ATOMIC: u32 = 0x10;

/// The linear format modifier.
pub const MOD_LINEAR: u64 = 0;

/// The "any modifier" marker: all ones across the 56-bit modifier value.
pub const MOD_ANY: u64 = 0xFF_FFFF_FFFF_FFFF;

/// Connector type code of a serial display interface connector.
pub const CONNECTOR_TYPE_DSI: u32 = 16;

/// Identity and version of the driver, as reported to the host.
#[derive(Clone, Copy, Debug)]
pub struct DriverInfo {
    pub major: i32,
    pub minor: i32,
    pub patchlevel: i32,
    pub name: &'static str,
    pub desc: &'static str,
    pub date: &'static str,
}

/// Capability limits and preferences of the device's mode configuration.
#[derive(Clone, Copy, Debug, PartialEq, Eq, Structural)]
pub struct ModeConfig {
    pub min_width: i32,
    pub min_height: i32,
    pub max_width: i32,
    pub max_height: i32,
    pub preferred_depth: u32,
}

/// The four kinds of display object, in the graph's fixed topology.
#[derive(Clone, Copy, Debug, PartialEq, Eq, Structural)]
pub enum ObjectKind {
    Plane,
    Crtc,
    Encoder,
    Connector,
}

/// What registration has bound into the host's object graph.
pub struct ObjectGraph {
    /// The order in which objects were bound.
    pub bind_order: Vec<ObjectKind>,
    /// The plane's negotiated pixel formats, native first.
    pub plane_formats: Vec<u32>,
    /// The plane's supported format modifiers.
    pub plane_modifiers: Vec<u64>,
    /// Bit mask of the CRTCs the encoder may drive.
    pub encoder_possible_crtcs: u32,
    /// Whether the plane honours per-frame damage clips.
    pub fb_damage_clips: bool,
    /// The connector's type code.
    pub connector_type: u32,
}

/// An empty graph: nothing bound yet.
pub open spec fn spec_empty_graph(g: ObjectGraph) -> bool {
    &&& g.bind_order@ == Seq::<ObjectKind>::empty()
    &&& g.plane_formats@ == Seq::<u32>::empty()
    &&& g.plane_modifiers@ == Seq::<u64>::empty()
    &&& g.encoder_possible_crtcs == 0
    &&& g.fb_damage_clips == false
    &&& g.connector_type == 0
}

/// The fully bound graph: plane, CRTC, encoder, connector in order, the
/// negotiated formats (native 24-bit layout first, then the compatible
/// 32-bit layout), the trivial modifier set, the encoder tied to the one
/// CRTC, damage clips on, and a serial-interface connector.
pub open spec fn spec_bound_graph(g: ObjectGraph) -> bool {
    &&& g.bind_order@ == seq![
        ObjectKind::Plane,
        ObjectKind::Crtc,
        ObjectKind::Encoder,
        ObjectKind::Connector,
    ]
    &&& g.plane_formats@ == seq![FOURCC_RG24, FOURCC_XR24]
    &&& g.plane_modifiers@ == seq![MOD_LINEAR, MOD_ANY]
    &&& g.encoder_possible_crtcs == 1
    &&& g.fb_damage_clips == true
    &&& g.connector_type == CONNECTOR_TYPE_DSI
}

impl ObjectGraph {
    /// A graph with nothing bound.
    pub fn empty() -> (g: ObjectGraph)
        ensures
            spec_empty_graph(g),
    {
        ObjectGraph {
            bind_order: Vec::new(),
            plane_formats: Vec::new(),
            plane_modifiers: Vec::new(),
            encoder_possible_crtcs: 0,
            fb_damage_clips: false,
            connector_type: 0,
        }
    }
}

/// The adapter: owns the object graph, the capability limits and the
/// teardown flag. Created at probe; outlives every display object.
pub struct DisplayDevice {
    /// False once device teardown has begun. A commit must re-check this
    /// flag every time, never cache it.
    pub alive: bool,
    /// Open device-alive guard sections.
    pub entered: u32,
    /// Open CPU-access windows on a committed framebuffer.
    pub cpu_access: u32,
    /// Capability limits, set once at probe.
    pub mode_config: ModeConfig,
    /// What registration has bound.
    pub graph: ObjectGraph,
}

/// The two registration states. Registration is one-way: there is no
/// transition back, and teardown is terminal.
#[derive(Clone, Copy, Debug, PartialEq, Eq, Structural)]
pub enum RegState {
    Unregistered,
    Registered,
}

/// A registration of a display device with the host subsystem.
pub struct Registration {
    pub device: DisplayDevice,
    pub state: RegState,
    pub info: DriverInfo,
    pub features: u32,
}

impl Registration {
    /// Create a registration without registering it yet: a live device,
    /// an empty graph, a zeroed mode configuration.
    pub fn new(info: DriverInfo, features: u32) -> (r: Registration)
        ensures
            r.state is Unregistered,
            r.device.alive == true,
            r.device.entered == 0,
            r.device.cpu_access == 0,
            r.device.mode_config == (ModeConfig {
                min_width: 0,
                min_height: 0,
                max_width: 0,
                max_height: 0,
                preferred_depth: 0,
            }),
            spec_empty_graph(r.device.graph),
            r.info == info,
            r.features == features,
    {
        Registration {
            device: DisplayDevice {
                alive: true,
                entered: 0,
                cpu_access: 0,
                mode_config: ModeConfig {
                    min_width: 0,
                    min_height: 0,
                    max_width: 0,
                    max_height: 0,
                    preferred_depth: 0,
                },
                graph: ObjectGraph::empty(),
            },
            state: RegState::Unregistered,
            info,
            features,
        }
    }

    /// Register the device with the host. A second call fails with
    /// [`DriverError::AlreadyRegistered`] and changes nothing.
    pub fn register(&mut self) -> (r: Result<(), DriverError>)
        ensures
            old(self).state is Registered ==> r == Err::<(), DriverError>(
                DriverError::AlreadyRegistered,
            ) && *final(self) == *old(self),
            old(self).state is Unregistered ==> {
                &&& r == Ok::<(), DriverError>(())
                &&& final(self).state is Registered
                &&& final(self).device == old(self).device
                &&& final(self).info == old(self).info
                &&& final(self).features == old(self).features
            },
    {
        match self.state {
            RegState::Registered => Err(DriverError::AlreadyRegistered),
            RegState::Unregistered => {
                self.state = RegState::Registered;
                Ok(())
            },
        }
    }

    /// The device owned by this registration.
    pub fn device(&self) -> (r: &DisplayDevice)
        ensures
            *r == self.device,
    {
        &self.device
    }

    /// The device owned by this registration, for mutation.
    pub fn device_mut(&mut self) -> (r: &mut DisplayDevice)
        ensures
            *r == old(self).device,
            final(self).device == *final(r),
            final(self).state == old(self).state,
            final(self).info == old(self).info,
            final(self).features == old(self).features,
    {
        &mut self.device
    }

    /// Begin device teardown: from here on no commit touches hardware.
    /// A no-op when the device was never registered, and idempotent.
    pub fn unregister(&mut self)
        ensures
            final(self).state == old(self).state,
            final(self).info == old(self).info,
            final(self).features == old(self).features,
            old(self).state is Registered ==> final(self).device == (DisplayDevice {
                alive: false,
                ..old(self).device
            }),
            old(self).state is Unregistered ==> final(self).device == old(self).device,
    {
        match self.state {
            RegState::Registered => {
                self.device.alive = false;
            },
            RegState::Unregistered => {},
        }
    }
}

/// Merge a native format list with the compatible formats: the native
/// formats stay first, and each compatible format is appended once unless
/// already present.
pub open spec fn spec_format_list(native: Seq<u32>, supported: Seq<u32>) -> Seq<u32>
    decreases supported.len(),
{
    if supported.len() == 0 {
        native
    } else {
        let rest = spec_format_list(native, supported.drop_last());
        if rest.contains(supported.last()) {
            rest
        } else {
            rest.push(supported.last())
        }
    }
}

/// Whether a format list holds the given code.
fn formats_contain(list: &Vec<u32>, f: u32) -> (b: bool)
    ensures
        b == list@.contains(f),
{
    let mut i: usize = 0;
    while i < list.len()
        invariant
            i <= list@.len(),
            forall|j: int| 0 <= j < i ==> list@[j] != f,
        decreases list@.len() - i,
    {
        if list[i] == f {
            return true;
        }
        i = i + 1;
    }
    false
}

/// Build the plane's format list: the native formats first, then each
/// compatible format not already present, in order.
pub fn build_format_list(native: &Vec<u32>, supported: &Vec<u32>) -> (out: Vec<u32>)
    ensures
        out@ == spec_format_list(native@, supported@),
{
    let mut out: Vec<u32> = native.clone();
    let mut i: usize = 0;
    while i < supported.len()
        invariant
            i <= supported@.len(),
            out@ == spec_format_list(native@, supported@.take(i as int)),
        decreases supported@.len() - i,
    {
        proof {
            assert(supported@.take(i + 1).drop_last() =~= supported@.take(i as int));
            assert(supported@.take(i + 1).last() == supported@[i as int]);
        }
        if !formats_contain(&out, supported[i]) {
            out.push(supported[i]);
        }
        i = i + 1;
    }
    proof {
        assert(supported@.take(supported@.len() as int) =~= supported@);
    }
    out
}

/// The registration of the object graph: binds the fixed plane, CRTC,
/// encoder and connector into the host's graph, once.
pub struct ConnectorRegistration {
    pub state: RegState,
}

impl ConnectorRegistration {
    /// A connector registration that has not been bound yet.
    pub fn new() -> (r: ConnectorRegistration)
        ensures
            r.state is Unregistered,
    {
        ConnectorRegistration { state: RegState::Unregistered }
    }

    /// Bind the object graph into the host's: plane, CRTC, encoder,
    /// connector, in that order, with the negotiated formats and the
    /// trivial modifier set. A second call fails with
    /// [`DriverError::AlreadyRegistered`] and performs no binding at all.
    pub fn register(&mut self, drmreg: &mut Registration) -> (r: Result<(), DriverError>)
        ensures
            old(self).state is Registered ==> r == Err::<(), DriverError>(
                DriverError::AlreadyRegistered,
            ) && *final(self) == *old(self) && *final(drmreg) == *old(drmreg),
            old(self).state is Unregistered ==> {
                &&& r == Ok::<(), DriverError>(())
                &&& final(self).state is Registered
                &&& spec_bound_graph(final(drmreg).device.graph)
                &&& final(drmreg).device.alive == old(drmreg).device.alive
                &&& final(drmreg).device.entered == old(drmreg).device.entered
                &&& final(drmreg).device.cpu_access == old(drmreg).device.cpu_access
                &&& final(drmreg).device.mode_config == old(drmreg).device.mode_config
                &&& final(drmreg).state == old(drmreg).state
                &&& final(drmreg).info == old(drmreg).info
                &&& final(drmreg).features == old(drmreg).features
            },
    {
        match self.state {
            RegState::Registered => Err(DriverError::AlreadyRegistered),
            RegState::Unregistered => {
                let native: Vec<u32> = vec![fourcc(0x52, 0x47, 0x32, 0x34)];
                let supported: Vec<u32> = vec![
                    fourcc(0x58, 0x52, 0x32, 0x34),
                    fourcc(0x52, 0x47, 0x32, 0x34),
                ];
                let formats = build_format_list(&native, &supported);
                proof {
                    crate::pixel::lemma_fourcc_codes();
                    let n = seq![FOURCC_RG24];
                    let s = seq![FOURCC_XR24, FOURCC_RG24];
                    assert(native@ =~= n);
                    assert(supported@ =~= s);
                    assert(s.drop_last() =~= seq![FOURCC_XR24]);
                    assert(seq![FOURCC_XR24].drop_last() =~= Seq::<u32>::empty());
                    assert(spec_format_list(n, Seq::<u32>::empty()) == n);
                    assert(!n.contains(FOURCC_XR24));
                    assert(spec_format_list(n, seq![FOURCC_XR24]) == n.push(FOURCC_XR24));
                    assert(n.push(FOURCC_XR24).contains(FOURCC_RG24)) by {
                        assert(n.push(FOURCC_XR24)[0] == FOURCC_RG24);
                    }
                    assert(spec_format_list(n, s) == n.push(FOURCC_XR24));
                    assert(formats@ =~= seq![FOURCC_RG24, FOURCC_XR24]);
                }
                let mut bind_order: Vec<ObjectKind> = Vec::new();
                bind_order.push(ObjectKind::Plane);
                bind_order.push(ObjectKind::Crtc);
                bind_order.push(ObjectKind::Encoder);
                bind_order.push(ObjectKind::Connector);
                let modifiers: Vec<u64> = vec![MOD_LINEAR, MOD_ANY];
                let graph = ObjectGraph {
                    bind_order,
                    plane_formats: formats,
                    plane_modifiers: modifiers,
                    encoder_possible_crtcs: 1,
                    fb_damage_clips: true,
                    connector_type: CONNECTOR_TYPE_DSI,
                };
                proof {
                    assert(graph.bind_order@ =~= seq![
                        ObjectKind::Plane,
                        ObjectKind::Crtc,
                        ObjectKind::Encoder,
                        ObjectKind::Connector,
                    ]);
                    assert(graph.plane_modifiers@ =~= seq![MOD_LINEAR, MOD_ANY]);
                }
                drmreg.device.graph = graph;
                self.state = RegState::Registered;
                Ok(())
            },
        }
    }

    /// Reverse-order teardown of the object graph: empties what was
    /// bound. A no-op when never registered, and idempotent.
    pub fn unregister(&mut self, drmreg: &mut Registration)
        ensures
            *final(self) == *old(self),
            old(self).state is Registered ==> {
                &&& spec_empty_graph(final(drmreg).device.graph)
                &&& final(drmreg).device.alive == old(drmreg).device.alive
                &&& final(drmreg).device.entered == old(drmreg).device.entered
                &&& final(drmreg).device.cpu_access == old(drmreg).device.cpu_access
                &&& final(drmreg).device.mode_config == old(drmreg).device.mode_config
                &&& final(drmreg).state == old(drmreg).state
                &&& final(drmreg).info == old(drmreg).info
                &&& final(drmreg).features == old(drmreg).features
            },
            old(self).state is Unregistered ==> *final(drmreg) == *old(drmreg),
    {
        match self.state {
            RegState::Registered => {
                drmreg.device.graph = ObjectGraph::empty();
            },
            RegState::Unregistered => {},
        }
    }
}

} // verus!
