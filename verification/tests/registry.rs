use lcdcon::driver::{fixed_init, fixed_mode, get_modes, ConnectorState};
use lcdcon::error::DriverError;
use lcdcon::pixel::{FOURCC_RG24, FOURCC_XR24};
use lcdcon::registry::{
    build_format_list, ConnectorRegistration, DriverInfo, ObjectKind, RegState, Registration,
    FEAT_ATOMIC, FEAT_GEM, FEAT_MODESET, MOD_ANY, MOD_LINEAR,
};
use lcdcon::timing::{duration_nanos, Duration};

fn info() -> DriverInfo {
    DriverInfo {
        major: 0,
        minor: 1,
        patchlevel: 0,
        name: "s5l8730",
        desc: "S5L8730 Framebuffer",
        date: "20230122",
    }
}

fn features() -> u32 {
    FEAT_GEM | FEAT_MODESET | FEAT_ATOMIC
}

#[test]
fn connector_registration_binds_graph_in_order() {
    let mut reg = Registration::new(info(), features());
    let mut conreg = ConnectorRegistration::new();
    assert_eq!(conreg.register(&mut reg), Ok(()));
    let graph = &reg.device.graph;
    assert_eq!(
        graph.bind_order,
        vec![ObjectKind::Plane, ObjectKind::Crtc, ObjectKind::Encoder, ObjectKind::Connector]
    );
    // Native format first, then the compatible one, no duplicates.
    assert_eq!(graph.plane_formats, vec![FOURCC_RG24, FOURCC_XR24]);
    assert_eq!(graph.plane_modifiers, vec![MOD_LINEAR, MOD_ANY]);
    assert_eq!(graph.encoder_possible_crtcs, 1);
    assert!(graph.fb_damage_clips);
}

#[test]
fn second_registration_fails_with_no_side_effects() {
    let mut reg = Registration::new(info(), features());
    let mut conreg = ConnectorRegistration::new();
    assert_eq!(conreg.register(&mut reg), Ok(()));
    let formats_before = reg.device.graph.plane_formats.clone();
    let order_before = reg.device.graph.bind_order.clone();
    assert_eq!(conreg.register(&mut reg), Err(DriverError::AlreadyRegistered));
    assert_eq!(reg.device.graph.plane_formats, formats_before);
    assert_eq!(reg.device.graph.bind_order, order_before);
}

#[test]
fn device_registration_is_one_way() {
    let mut reg = Registration::new(info(), features());
    assert!(matches!(reg.state, RegState::Unregistered));
    assert_eq!(reg.register(), Ok(()));
    assert!(matches!(reg.state, RegState::Registered));
    assert_eq!(reg.register(), Err(DriverError::AlreadyRegistered));
}

#[test]
fn unregister_begins_teardown_and_is_idempotent() {
    let mut reg = Registration::new(info(), features());
    assert_eq!(reg.register(), Ok(()));
    assert!(reg.device.alive);
    reg.unregister();
    assert!(!reg.device.alive);
    reg.unregister();
    assert!(!reg.device.alive);
}

#[test]
fn unregister_before_register_is_a_no_op() {
    let mut reg = Registration::new(info(), features());
    reg.unregister();
    assert!(reg.device.alive);
}

#[test]
fn format_list_keeps_native_first_and_dedups() {
    let native = vec![7, 8];
    let supported = vec![9, 7, 9, 10];
    assert_eq!(build_format_list(&native, &supported), vec![7, 8, 9, 10]);
}

#[test]
fn get_modes_reports_the_one_preferred_mode() {
    let mut conn = ConnectorState::new();
    let count = get_modes(&mut conn);
    assert_eq!(count, 1);
    assert_eq!(conn.probed_modes.len(), 1);
    let m = conn.probed_modes[0];
    assert_eq!(m.hdisplay, 240);
    assert_eq!(m.vdisplay, 376);
    assert_eq!(m.clock, 31500);
    assert_eq!(m.width_mm, 30);
    assert_eq!(m.height_mm, 47);
    assert!(m.preferred);
    assert_eq!(m, fixed_mode());
}

#[test]
fn fixed_init_sets_capability_limits() {
    let mut reg = Registration::new(info(), features());
    fixed_init(reg.device_mut());
    let mc = reg.device().mode_config;
    assert_eq!(mc.min_width, 0);
    assert_eq!(mc.min_height, 0);
    assert_eq!(mc.max_width, 1024);
    assert_eq!(mc.max_height, 1024);
    assert_eq!(mc.preferred_depth, 24);
}

#[test]
fn duration_nanos_exact_and_saturating() {
    assert_eq!(duration_nanos(Duration { secs: 0, subsec_nanos: 0 }), 0);
    assert_eq!(duration_nanos(Duration { secs: 1, subsec_nanos: 500 }), 1_000_000_500);
    assert_eq!(duration_nanos(Duration { secs: 0, subsec_nanos: 20_000_000 }), 20_000_000);
    assert_eq!(
        duration_nanos(Duration { secs: u64::MAX, subsec_nanos: 999_999_999 }),
        u64::MAX
    );
}

#[test]
fn error_descriptions() {
    assert_eq!(DriverError::Timeout.describe(), "status poll timed out");
    assert_eq!(DriverError::AlreadyRegistered.describe(), "already registered");
}
