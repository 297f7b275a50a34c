use lcdcon::error::DriverError;
use lcdcon::regs::{RegWrite, CON_ENABLE, REG_ACK, REG_CMD, REG_CON, REG_WRITE};
use lcdcon::transport::{TransportSession, OP_COLUMN_SET, OP_MEMORY_WRITE, OP_PAGE_SET};

fn session() -> TransportSession {
    TransportSession::new()
}

#[test]
fn mangle_matches_formula() {
    let samples: Vec<u32> = vec![0, 1, 0xFF, 0x100, 0x101, 0x178, 0x1234, 0xFFFF, u32::MAX];
    for v in samples {
        assert_eq!(lcdcon::transport::mangle(v), ((v >> 8) << 9) | (v & 0xFF));
    }
}

#[test]
fn mangle_splices_reserved_bit() {
    assert_eq!(lcdcon::transport::mangle(0), 0);
    assert_eq!(lcdcon::transport::mangle(0xFF), 0xFF);
    assert_eq!(lcdcon::transport::mangle(0x100), 0x200);
    assert_eq!(lcdcon::transport::mangle(0x1FF), 0x2FF);
    assert_eq!(lcdcon::transport::mangle(376), 0x278);
}

#[test]
fn reset_writes_enable_value() {
    let mut s = session();
    assert_eq!(s.reset(), Ok(()));
    assert_eq!(s.writes, vec![RegWrite { offset: REG_CON, value: CON_ENABLE }]);
    assert_eq!(CON_ENABLE, 0x01100DB8);
}

#[test]
fn reset_timeout_writes_nothing() {
    let mut s = session();
    s.tx_delays = vec![u64::MAX];
    assert_eq!(s.reset(), Err(DriverError::Timeout));
    assert!(s.writes.is_empty());
}

#[test]
fn wait_succeeds_when_bit_flips_within_deadline() {
    // The instant the bit flips.
    let mut s = session();
    s.tx_delays = vec![0];
    assert_eq!(s.tx_reg_empty_wait(), Ok(()));

    // Just inside the 20 ms deadline.
    let mut s = session();
    s.tx_delays = vec![20_000_000];
    assert_eq!(s.tx_reg_empty_wait(), Ok(()));

    let mut s = session();
    s.rx_delays = vec![19_999_999];
    assert_eq!(s.fifo_rx_ne_wait(), Ok(()));
}

#[test]
fn wait_times_out_when_bit_never_flips() {
    let mut s = session();
    s.tx_delays = vec![u64::MAX];
    assert_eq!(s.tx_reg_empty_wait(), Err(DriverError::Timeout));

    let mut s = session();
    s.rx_delays = vec![u64::MAX];
    assert_eq!(s.fifo_rx_ne_wait(), Err(DriverError::Timeout));
}

#[test]
fn wait_boundary_one_poll_past_deadline() {
    // The poll loop reads the status once more before giving up: a flip
    // exactly one interval past the deadline is still caught...
    let mut s = session();
    s.tx_delays = vec![20_100_000];
    assert_eq!(s.tx_reg_empty_wait(), Ok(()));

    // ...and one nanosecond later it is not.
    let mut s = session();
    s.tx_delays = vec![20_100_001];
    assert_eq!(s.tx_reg_empty_wait(), Err(DriverError::Timeout));
}

#[test]
fn wait_advances_the_simulated_clock() {
    let mut s = session();
    s.tx_delays = vec![250_000];
    assert_eq!(s.tx_reg_empty_wait(), Ok(()));
    // Three sleeps of the 100 microsecond interval reach 300 us.
    assert_eq!(s.now_ns, 300_000);
}

#[test]
fn write_word_logs_one_fifo_write() {
    let mut s = session();
    assert_eq!(s.write_word(0xABCD), Ok(()));
    assert_eq!(s.writes, vec![RegWrite { offset: REG_WRITE, value: 0xABCD }]);
}

#[test]
fn read_byte_strobes_shifts_and_truncates() {
    let mut s = session();
    s.read_data = vec![0x1FF];
    assert_eq!(s.read_byte(), Ok(0xFF));
    assert_eq!(s.writes, vec![RegWrite { offset: REG_ACK, value: 0 }]);

    let mut s = session();
    s.read_data = vec![0x2AA];
    assert_eq!(s.read_byte(), Ok(0x55));
}

#[test]
fn transact_read_discards_leading_byte_and_returns_n() {
    let mut s = session();
    s.read_data = vec![2, 4, 6, 8];
    let got = s.transact_read(0x04, 3).unwrap();
    // The first strobed byte (2 >> 1 == 1) is the protocol artifact and
    // never shows up; the next three bytes come back shifted.
    assert_eq!(got, vec![2, 3, 4]);
    assert_eq!(
        s.writes,
        vec![
            RegWrite { offset: REG_CMD, value: 0x04 },
            RegWrite { offset: REG_ACK, value: 0 },
            RegWrite { offset: REG_ACK, value: 0 },
            RegWrite { offset: REG_ACK, value: 0 },
            RegWrite { offset: REG_ACK, value: 0 },
        ]
    );
}

#[test]
fn transact_read_timeout_gives_no_partial_buffer() {
    let mut s = session();
    s.read_data = vec![2, 4, 6, 8];
    // The third strobe (second payload byte) never becomes ready.
    s.rx_delays = vec![0, 0, u64::MAX];
    assert_eq!(s.transact_read(0x04, 3), Err(DriverError::Timeout));
}

#[test]
fn transact_write_aborts_on_first_timeout() {
    let mut s = session();
    s.tx_delays = vec![0, 0, u64::MAX];
    let words: Vec<u32> = vec![10, 20, 30];
    assert_eq!(s.transact_write(0x2C, &words), Err(DriverError::Timeout));
    // The opcode and the first word went out; nothing after the failure.
    assert_eq!(
        s.writes,
        vec![
            RegWrite { offset: REG_CMD, value: 0x2C },
            RegWrite { offset: REG_WRITE, value: 10 },
        ]
    );
}

#[test]
fn pio_write_rg24_frames_window_and_packs() {
    let mut s = session();
    // One pixel, pure red, streamed into the window starting at (1, 2).
    let pixels: Vec<u8> = vec![248, 0, 0];
    assert_eq!(s.pio_write_rg24(1, 2, 240, 376, &pixels), Ok(()));
    assert_eq!(
        s.writes,
        vec![
            RegWrite { offset: REG_CMD, value: OP_COLUMN_SET as u32 },
            RegWrite { offset: REG_WRITE, value: 1 },
            RegWrite { offset: REG_WRITE, value: 240 },
            RegWrite { offset: REG_CMD, value: OP_PAGE_SET as u32 },
            RegWrite { offset: REG_WRITE, value: 2 },
            RegWrite { offset: REG_WRITE, value: 0x278 },
            RegWrite { offset: REG_CMD, value: OP_MEMORY_WRITE as u32 },
            RegWrite { offset: REG_WRITE, value: 0x001F },
        ]
    );
}

#[test]
fn pio_write_xr24_discards_padding_byte() {
    let mut s = session();
    // One pixel in the 32-bit layout: B, G, R, pad.
    let pixels: Vec<u8> = vec![0, 0, 248, 0x99];
    assert_eq!(s.pio_write_xr24(0, 0, 240, 376, &pixels), Ok(()));
    let last = s.writes.last().unwrap();
    assert_eq!(last.value, 0x001F);
}
