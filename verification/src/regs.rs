//! The controller's register map and status bits.
//!
//! All offsets lie within a 4 KiB register window. The transaction
//! protocol only ever writes the registers below and reads `READ` and
//! `STATUS`; every write is recorded as a [`RegWrite`] in the session's
//! log, in order.

use vstd::prelude::*;

verus! {

/// Mode control register: the interface-enable value is written here.
pub const REG_CON: u32 = 0x00;

/// Opcode latch: a command byte written here starts a transaction.
pub const REG_CMD: u32 = 0x04;

/// Read-acknowledge strobe: writing 0 requests the next byte.
pub const REG_ACK: u32 = 0x10;

/// Read data register.
pub const REG_READ: u32 = 0x14;

/// FIFO status flags; see [`fifo_rx_ne`] and [`tx_reg_empty`].
pub const REG_STATUS: u32 = 0x1c;

/// Write-data FIFO.
pub const REG_WRITE: u32 = 0x40;

/// The vendor-specific interface-enable value written to `CON` on reset.
/// Preserved bit-exact; the hardware gives it no further meaning.
pub const CON_ENABLE: u32 = 0x01100DB8;

/// Receive-FIFO-not-empty: status bit 0 is set.
pub fn fifo_rx_ne(status: u32) -> (b: bool)
    ensures
        b == spec_fifo_rx_ne(status),
{
    (status & 0x1) != 0
}

/// Whether status bit 0 (receive FIFO not empty) is set.
pub open spec fn spec_fifo_rx_ne(status: u32) -> bool {
    status & 0x1 != 0
}

/// Transmit-register-empty: status bit 4 is clear (0 means ready).
pub fn tx_reg_empty(status: u32) -> (b: bool)
    ensures
        b == spec_tx_reg_empty(status),
{
    (status & 0x10) == 0
}

/// Whether status bit 4 (transmit register busy) is clear.
pub open spec fn spec_tx_reg_empty(status: u32) -> bool {
    status & 0x10 == 0
}

/// One register write, as recorded in the session's write log.
#[derive(Clone, Copy, Debug, PartialEq, Eq, Structural)]
pub struct RegWrite {
    /// Offset within the register window.
    pub offset: u32,
    /// The value written.
    pub value: u32,
}

} // verus!
