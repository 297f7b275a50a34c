//! The concrete controller driver: the fixed display mode, the device
//! capability limits, and probe.
//!
//! The panel has exactly one timing — 240 x 376 pixels at a 31.5 MHz
//! pixel clock, 30 x 47 mm — always reported as the sole, preferred
//! mode. Probe enables the controller interface, sets the capability
//! limits, binds the object graph and registers the device.

use vstd::prelude::*;

use crate::error::DriverError;
use crate::regs::{RegWrite, CON_ENABLE, REG_CON};
use crate::registry::{
    ConnectorRegistration, DisplayDevice, DriverInfo, ModeConfig, Registration, spec_bound_graph,
};
use crate::transport::{delay_at, delay_ok, TransportSession};

verus! {

/// The panel's horizontal resolution in pixels.
pub const PANEL_WIDTH: i32 = 240;

/// The panel's vertical resolution in pixels.
pub const PANEL_HEIGHT: i32 = 376;

/// Mode type flag: the mode comes from the driver.
pub const MODE_TYPE_DRIVER: u32 = 0x40;

/// One display timing, as reported to the host.
#[derive(Clone, Copy, Debug, PartialEq, Eq, Structural)]
pub struct DisplayMode {
    /// Pixel clock in kHz.
    pub clock: i32,
    pub hdisplay: i32,
    pub hsync_start: i32,
    pub hsync_end: i32,
    pub htotal: i32,
    pub vdisplay: i32,
    pub vsync_start: i32,
    pub vsync_end: i32,
    pub vtotal: i32,
    /// Physical width in millimetres.
    pub width_mm: i32,
    /// Physical height in millimetres.
    pub height_mm: i32,
    pub type_flags: u32,
    /// Whether the host should prefer this mode.
    pub preferred: bool,
}

/// The one supported timing: 240 x 376 pixels, 31.5 MHz pixel clock,
/// 30 x 47 mm, no blanking beyond the active area, always preferred.
pub open spec fn spec_fixed_mode() -> DisplayMode {
    DisplayMode {
        clock: 31500,
        hdisplay: PANEL_WIDTH as i32,
        hsync_start: PANEL_WIDTH as i32,
        hsync_end: PANEL_WIDTH as i32,
        htotal: PANEL_WIDTH as i32,
        vdisplay: PANEL_HEIGHT as i32,
        vsync_start: PANEL_HEIGHT as i32,
        vsync_end: PANEL_HEIGHT as i32,
        vtotal: PANEL_HEIGHT as i32,
        width_mm: 30,
        height_mm: 47,
        type_flags: MODE_TYPE_DRIVER,
        preferred: true,
    }
}

/// Build the one supported timing.
pub fn fixed_mode() -> (m: DisplayMode)
    ensures
        m == spec_fixed_mode(),
{
    DisplayMode {
        clock: 31500,
        hdisplay: PANEL_WIDTH,
        hsync_start: PANEL_WIDTH,
        hsync_end: PANEL_WIDTH,
        htotal: PANEL_WIDTH,
        vdisplay: PANEL_HEIGHT,
        vsync_start: PANEL_HEIGHT,
        vsync_end: PANEL_HEIGHT,
        vtotal: PANEL_HEIGHT,
        width_mm: 30,
        height_mm: 47,
        type_flags: MODE_TYPE_DRIVER,
        preferred: true,
    }
}

/// The host-visible probe state of the connector: the modes it has
/// reported.
pub struct ConnectorState {
    pub probed_modes: Vec<DisplayMode>,
}

impl ConnectorState {
    /// A connector that has reported nothing yet.
    pub fn new() -> (c: ConnectorState)
        ensures
            c.probed_modes@ == Seq::<DisplayMode>::empty(),
    {
        ConnectorState { probed_modes: Vec::new() }
    }
}

/// Report the connector's modes: always exactly the one fixed timing,
/// marked preferred, and a count of one. Never fails.
pub fn get_modes(conn: &mut ConnectorState) -> (count: i32)
    ensures
        count == 1,
        final(conn).probed_modes@ == old(conn).probed_modes@.push(spec_fixed_mode()),
{
    conn.probed_modes.push(fixed_mode());
    1
}

/// Set the device's fixed capability limits: surfaces up to 1024 x 1024
/// pixels, preferred framebuffer depth 24 bits.
pub fn fixed_init(dev: &mut DisplayDevice)
    ensures
        final(dev).mode_config == (ModeConfig {
            min_width: 0,
            min_height: 0,
            max_width: 1024,
            max_height: 1024,
            preferred_depth: 24,
        }),
        final(dev).alive == old(dev).alive,
        final(dev).entered == old(dev).entered,
        final(dev).cpu_access == old(dev).cpu_access,
        final(dev).graph == old(dev).graph,
{
    dev.mode_config = ModeConfig {
        min_width: 0,
        min_height: 0,
        max_width: 1024,
        max_height: 1024,
        preferred_depth: 24,
    };
}

/// Everything probe hands back: the registered device, the bound object
/// graph and the transport session.
pub struct DeviceData {
    pub registration: Registration,
    pub conreg: ConnectorRegistration,
    pub session: TransportSession,
}

/// Probe the device: reset the controller interface, set the capability
/// limits, bind the object graph and register the device with the host.
/// Succeeds exactly when the controller acknowledges the reset in time;
/// the one register write of a successful probe is the interface-enable
/// value.
pub fn probe(session: TransportSession, info: DriverInfo, features: u32) -> (r: Result<
    DeviceData,
    DriverError,
>)
    ensures
        r is Ok <==> delay_ok(delay_at(session.tx_delays@, 0)),
        r is Err ==> r == Err::<DeviceData, DriverError>(DriverError::Timeout),
        r matches Ok(d) ==> {
            &&& d.registration.state is Registered
            &&& d.conreg.state is Registered
            &&& d.registration.device.alive == true
            &&& d.registration.device.entered == 0
            &&& d.registration.device.cpu_access == 0
            &&& d.registration.device.mode_config == (ModeConfig {
                min_width: 0,
                min_height: 0,
                max_width: 1024,
                max_height: 1024,
                preferred_depth: 24,
            })
            &&& spec_bound_graph(d.registration.device.graph)
            &&& d.registration.info == info
            &&& d.registration.features == features
            &&& d.session.writes@ == session.writes@.push(
                RegWrite { offset: REG_CON, value: CON_ENABLE },
            )
            &&& d.session.rx_delays == session.rx_delays
            &&& d.session.read_data == session.read_data
        },
{
    let mut session = session;
    let mut reg = Registration::new(info, features);
    match session.reset() {
        Ok(()) => {},
        Err(e) => {
            return Err(e);
        },
    }
    fixed_init(reg.device_mut());
    let mut conreg = ConnectorRegistration::new();
    match conreg.register(&mut reg) {
        Ok(()) => {},
        Err(e) => {
            return Err(e);
        },
    }
    match reg.register() {
        Ok(()) => {},
        Err(e) => {
            return Err(e);
        },
    }
    Ok(DeviceData { registration: reg, conreg, session })
}

} // verus!
