use lcdcon::commit::{atomic_update, FrameBuffer};
use lcdcon::driver::probe;
use lcdcon::error::DriverError;
use lcdcon::pixel::PixelFormat;
use lcdcon::rect::Rect;
use lcdcon::registry::{
    DisplayDevice, DriverInfo, ModeConfig, ObjectGraph, FEAT_ATOMIC, FEAT_GEM, FEAT_MODESET,
};
use lcdcon::regs::{RegWrite, CON_ENABLE, REG_CMD, REG_CON, REG_WRITE};
use lcdcon::transport::{TransportSession, OP_COLUMN_SET, OP_MEMORY_WRITE, OP_PAGE_SET};

fn probe_info() -> DriverInfo {
    DriverInfo {
        major: 0,
        minor: 1,
        patchlevel: 0,
        name: "s5l8730",
        desc: "S5L8730 Framebuffer",
        date: "20230122",
    }
}

fn live_device() -> DisplayDevice {
    DisplayDevice {
        alive: true,
        entered: 0,
        cpu_access: 0,
        mode_config: ModeConfig {
            min_width: 0,
            min_height: 0,
            max_width: 1024,
            max_height: 1024,
            preferred_depth: 24,
        },
        graph: ObjectGraph::empty(),
    }
}

fn area(x1: i32, y1: i32, x2: i32, y2: i32) -> Rect {
    Rect { x1, y1, x2, y2 }
}

fn cmd(op: u8) -> RegWrite {
    RegWrite { offset: REG_CMD, value: op as u32 }
}

fn word(v: u32) -> RegWrite {
    RegWrite { offset: REG_WRITE, value: v }
}

#[test]
fn full_frame_commit_streams_every_scanline() {
    let mut dev = live_device();
    let mut session = TransportSession::new();
    let fb = FrameBuffer {
        bytes: vec![248, 0, 0, 0, 252, 0, 0, 0, 248, 255, 255, 255],
        pitch: 6,
        height: 2,
        format: PixelFormat::Rg24,
    };
    let no_damage: Vec<Rect> = vec![];
    let dst = area(0, 0, 2, 2);
    assert_eq!(atomic_update(&mut dev, &mut session, &fb, &no_damage, dst), Ok(()));
    assert_eq!(
        session.writes,
        vec![
            // Scanline 0: red then green.
            cmd(OP_COLUMN_SET),
            word(0),
            word(240),
            cmd(OP_PAGE_SET),
            word(0),
            word(0x278),
            cmd(OP_MEMORY_WRITE),
            word(0x001F),
            word(0x07E0),
            // Scanline 1: blue then white.
            cmd(OP_COLUMN_SET),
            word(0),
            word(240),
            cmd(OP_PAGE_SET),
            word(1),
            word(0x278),
            cmd(OP_MEMORY_WRITE),
            word(0xF800),
            word(0xFFFF),
        ]
    );
    // The guards were released.
    assert_eq!(dev.entered, 0);
    assert_eq!(dev.cpu_access, 0);
}

#[test]
fn sub_rectangle_commit_touches_only_its_lines() {
    let mut dev = live_device();
    let mut session = TransportSession::new();
    let fb = FrameBuffer {
        bytes: vec![1, 1, 1, 1, 1, 1, 9, 9, 9, 248, 0, 0],
        pitch: 6,
        height: 2,
        format: PixelFormat::Rg24,
    };
    // Damage only the second pixel of the second line.
    let damage = vec![area(1, 1, 2, 2)];
    let dst = area(0, 0, 2, 2);
    assert_eq!(atomic_update(&mut dev, &mut session, &fb, &damage, dst), Ok(()));
    assert_eq!(
        session.writes,
        vec![
            cmd(OP_COLUMN_SET),
            word(1),
            word(240),
            cmd(OP_PAGE_SET),
            word(1),
            word(0x278),
            cmd(OP_MEMORY_WRITE),
            word(0x001F),
        ]
    );
}

#[test]
fn damage_hanging_over_the_clip_is_trimmed() {
    let mut dev = live_device();
    let mut session = TransportSession::new();
    let fb = FrameBuffer {
        bytes: vec![248, 0, 0, 0, 252, 0, 0, 0, 248, 255, 255, 255],
        pitch: 6,
        height: 2,
        format: PixelFormat::Rg24,
    };
    // Damage reaches past the plane's visible area on both axes.
    let damage = vec![area(1, 1, 50, 50)];
    let dst = area(0, 0, 2, 2);
    assert_eq!(atomic_update(&mut dev, &mut session, &fb, &damage, dst), Ok(()));
    // Only the clipped single pixel line goes out.
    assert_eq!(
        session.writes,
        vec![
            cmd(OP_COLUMN_SET),
            word(1),
            word(240),
            cmd(OP_PAGE_SET),
            word(1),
            word(0x278),
            cmd(OP_MEMORY_WRITE),
            word(0xFFFF),
        ]
    );
}

#[test]
fn damage_outside_the_clip_writes_nothing() {
    let mut dev = live_device();
    let mut session = TransportSession::new();
    let fb = FrameBuffer {
        bytes: vec![0; 12],
        pitch: 6,
        height: 2,
        format: PixelFormat::Rg24,
    };
    let damage = vec![area(100, 100, 200, 200)];
    let dst = area(0, 0, 2, 2);
    assert_eq!(atomic_update(&mut dev, &mut session, &fb, &damage, dst), Ok(()));
    assert!(session.writes.is_empty());
}

#[test]
fn commit_in_xr24_layout() {
    let mut dev = live_device();
    let mut session = TransportSession::new();
    let fb = FrameBuffer {
        bytes: vec![10, 20, 30, 0, 30, 20, 10, 0],
        pitch: 8,
        height: 1,
        format: PixelFormat::Xr24,
    };
    let no_damage: Vec<Rect> = vec![];
    let dst = area(0, 0, 2, 1);
    assert_eq!(atomic_update(&mut dev, &mut session, &fb, &no_damage, dst), Ok(()));
    let n = session.writes.len();
    assert_eq!(session.writes[n - 2], word(0x08A3));
    assert_eq!(session.writes[n - 1], word(0x18A1));
}

#[test]
fn commit_after_teardown_performs_zero_register_writes() {
    let session = TransportSession::new();
    let mut data = probe(session, probe_info(), FEAT_GEM | FEAT_MODESET | FEAT_ATOMIC).unwrap();
    // Teardown begins: the device is no longer to be touched.
    data.registration.unregister();
    let writes_before = data.session.writes.clone();
    assert_eq!(writes_before, vec![RegWrite { offset: REG_CON, value: CON_ENABLE }]);
    let fb = FrameBuffer {
        bytes: vec![0; 12],
        pitch: 6,
        height: 2,
        format: PixelFormat::Rg24,
    };
    let no_damage: Vec<Rect> = vec![];
    let dst = area(0, 0, 2, 2);
    let r = atomic_update(
        &mut data.registration.device,
        &mut data.session,
        &fb,
        &no_damage,
        dst,
    );
    // Success, and not a single register write.
    assert_eq!(r, Ok(()));
    assert_eq!(data.session.writes, writes_before);
}

#[test]
fn first_transport_failure_aborts_the_commit() {
    let mut dev = live_device();
    let mut session = TransportSession::new();
    // The very first transmit wait never becomes ready.
    session.tx_delays = vec![u64::MAX];
    let fb = FrameBuffer {
        bytes: vec![0; 12],
        pitch: 6,
        height: 2,
        format: PixelFormat::Rg24,
    };
    let no_damage: Vec<Rect> = vec![];
    let dst = area(0, 0, 2, 2);
    let r = atomic_update(&mut dev, &mut session, &fb, &no_damage, dst);
    assert_eq!(r, Err(DriverError::Timeout));
    assert!(session.writes.is_empty());
    // The guards were still released.
    assert_eq!(dev.entered, 0);
    assert_eq!(dev.cpu_access, 0);
}

#[test]
fn mid_commit_failure_keeps_already_sent_writes() {
    let mut dev = live_device();
    let mut session = TransportSession::new();
    // The opcode latch and the first coordinate go out; the second
    // coordinate's wait times out.
    session.tx_delays = vec![0, 0, u64::MAX];
    let fb = FrameBuffer {
        bytes: vec![0; 12],
        pitch: 6,
        height: 2,
        format: PixelFormat::Rg24,
    };
    let no_damage: Vec<Rect> = vec![];
    let dst = area(0, 0, 2, 2);
    let r = atomic_update(&mut dev, &mut session, &fb, &no_damage, dst);
    assert_eq!(r, Err(DriverError::Timeout));
    assert_eq!(session.writes, vec![cmd(OP_COLUMN_SET), word(0)]);
}

#[test]
fn probe_reports_timeout_when_the_controller_never_answers() {
    let mut session = TransportSession::new();
    session.tx_delays = vec![u64::MAX];
    let r = probe(session, probe_info(), FEAT_GEM | FEAT_MODESET | FEAT_ATOMIC);
    assert!(matches!(r, Err(DriverError::Timeout)));
}

#[test]
fn probe_registers_everything_once() {
    let session = TransportSession::new();
    let data = probe(session, probe_info(), FEAT_GEM | FEAT_MODESET | FEAT_ATOMIC).unwrap();
    assert!(data.registration.device.alive);
    assert_eq!(data.registration.device.mode_config.max_width, 1024);
    assert_eq!(data.registration.device.graph.bind_order.len(), 4);
    assert_eq!(data.session.writes, vec![RegWrite { offset: REG_CON, value: CON_ENABLE }]);
}
