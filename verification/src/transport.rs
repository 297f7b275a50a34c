//! The polling transaction protocol of the LCD controller.
//!
//! A [`TransportSession`] is the sole owner of the register window. The
//! hardware offers no interrupts: every transaction busy-polls a status
//! bit, with a 100 microsecond interval and a 20 millisecond deadline, and
//! a poll that runs past the deadline is a hard, unretried error.
//!
//! The register window is modeled so that the protocol is deterministic
//! and checkable: every register write is logged in order, and the two
//! status bits are driven by scripts. Each entry of a script gives, for
//! one readiness wait, how many nanoseconds pass from the start of that
//! wait until the bit reads ready; an exhausted script means ready at
//! once, and `u64::MAX` serves as a bit that never flips. Values of the
//! `READ` register come from a third script. The simulated clock advances
//! by the poll interval on every sleep, so a wait on a bit that never
//! flips still reaches its deadline.

use vstd::prelude::*;

use crate::error::DriverError;
use crate::pixel::{wire_words, pack_pixels, PixelFormat};
use crate::regs::{
    fifo_rx_ne, spec_fifo_rx_ne, spec_tx_reg_empty, tx_reg_empty, RegWrite, CON_ENABLE, REG_ACK,
    REG_CMD, REG_CON, REG_WRITE,
};
use crate::timing::{SLEEP_NS, TIMEOUT_NS};

verus! {

/// Opcode that sets the horizontal window bounds.
pub const OP_COLUMN_SET: u8 = 0x2A;

/// Opcode that sets the vertical window bounds.
pub const OP_PAGE_SET: u8 = 0x2B;

/// Opcode that streams pixel words into the set window.
pub const OP_MEMORY_WRITE: u8 = 0x2C;

/// The scripted delay of the `i`-th coming readiness wait: an exhausted
/// script means the bit reads ready at once.
pub open spec fn delay_at(s: Seq<u64>, i: int) -> u64 {
    if 0 <= i < s.len() {
        s[i]
    } else {
        0
    }
}

/// Whether one scripted delay lets its wait succeed: the bit must flip no
/// later than one poll interval past the deadline, the last instant at
/// which the poll loop still reads the status before giving up.
pub open spec fn delay_ok(d: u64) -> bool {
    d <= TIMEOUT_NS + SLEEP_NS
}

/// The first `n` waits of the script all succeed.
pub open spec fn delays_ok(s: Seq<u64>, n: int) -> bool {
    forall|i: int| 0 <= i < n ==> delay_ok(#[trigger] delay_at(s, i))
}

/// Every wait the script can ever drive succeeds.
pub open spec fn all_delays_ok(s: Seq<u64>) -> bool {
    forall|i: int| 0 <= i < s.len() ==> delay_ok(#[trigger] s[i])
}

/// The script after `n` of its entries have been consumed.
pub open spec fn consumed<T>(s: Seq<T>, n: int) -> Seq<T> {
    if n >= s.len() {
        Seq::empty()
    } else {
        s.skip(n)
    }
}

/// The `i`-th coming value of the `READ` register: an exhausted script
/// reads as zero.
pub open spec fn read_at(s: Seq<u32>, i: int) -> u32 {
    if 0 <= i < s.len() {
        s[i]
    } else {
        0
    }
}

/// The byte a `READ` register value yields: the hardware places the data
/// one bit lane over, so the value is shifted right once and truncated.
pub open spec fn spec_read_byte_value(v: u32) -> u8 {
    ((v >> 1) & 0xFF) as u8
}

/// Indexing a consumed script reaches the same entries, shifted.
pub proof fn lemma_delay_at_consumed(s: Seq<u64>, n: int, i: int)
    requires
        0 <= n,
        0 <= i,
    ensures
        delay_at(consumed(s, n), i) == delay_at(s, n + i),
{
}

/// Consuming twice is consuming once, for the combined count.
pub proof fn lemma_consumed_consumed<T>(s: Seq<T>, a: int, b: int)
    requires
        0 <= a,
        0 <= b,
    ensures
        consumed(consumed(s, a), b) == consumed(s, a + b),
{
    assert(consumed(consumed(s, a), b) =~= consumed(s, a + b));
}

/// Reading a consumed value script reaches the same entries, shifted.
pub proof fn lemma_read_at_consumed(s: Seq<u32>, n: int, i: int)
    requires
        0 <= n,
        0 <= i,
    ensures
        read_at(consumed(s, n), i) == read_at(s, n + i),
{
}

/// A wholly good script lets any number of waits succeed, and stays
/// wholly good as it is consumed.
pub proof fn lemma_all_delays_ok(s: Seq<u64>, n: int, m: int)
    requires
        all_delays_ok(s),
        0 <= m,
    ensures
        delays_ok(s, n),
        all_delays_ok(consumed(s, m)),
{
    assert forall|i: int| 0 <= i < n implies delay_ok(#[trigger] delay_at(s, i)) by {
        if i < s.len() {
            assert(delay_ok(s[i]));
        }
    }
    assert forall|i: int| 0 <= i < consumed(s, m).len() implies delay_ok(
        #[trigger] consumed(s, m)[i],
    ) by {
        assert(consumed(s, m)[i] == s[m + i]);
        assert(delay_ok(s[m + i]));
    }
}

/// A run of `a + b` good waits splits at `a`, and conversely.
pub proof fn lemma_delays_ok_split(s: Seq<u64>, a: int, b: int)
    requires
        0 <= a,
        0 <= b,
    ensures
        delays_ok(s, a + b) <==> (delays_ok(s, a) && delays_ok(consumed(s, a), b)),
{
    if delays_ok(s, a + b) {
        assert forall|i: int| 0 <= i < b implies delay_ok(
            #[trigger] delay_at(consumed(s, a), i),
        ) by {
            lemma_delay_at_consumed(s, a, i);
            assert(delay_ok(delay_at(s, a + i)));
        }
    }
    if delays_ok(s, a) && delays_ok(consumed(s, a), b) {
        assert forall|i: int| 0 <= i < a + b implies delay_ok(#[trigger] delay_at(s, i)) by {
            if i >= a {
                lemma_delay_at_consumed(s, a, i - a);
                assert(delay_ok(delay_at(consumed(s, a), i - a)));
            }
        }
    }
}

/// The coordinate encoding the controller expects: the value's upper 24
/// bits shifted left one extra position, with the low 8 bits kept in
/// place — a reserved bit spliced between the high and low fields.
pub open spec fn spec_mangle(v: u32) -> u32 {
    ((v >> 8) << 9) | (v & 0xFF)
}

/// The register writes of the payload words of one transaction.
pub open spec fn spec_word_writes(words: Seq<u32>) -> Seq<RegWrite> {
    Seq::new(words.len(), |i: int| RegWrite { offset: REG_WRITE, value: words[i] })
}

/// The register writes of one complete write transaction: the opcode
/// latched into `CMD`, then each payload word into the write FIFO.
pub open spec fn spec_cmd_writes(cmd: u8, words: Seq<u32>) -> Seq<RegWrite> {
    seq![RegWrite { offset: REG_CMD, value: cmd as u32 }] + spec_word_writes(words)
}

/// `n` read-acknowledge strobes.
pub open spec fn spec_ack_writes(n: int) -> Seq<RegWrite> {
    Seq::new(n as nat, |i: int| RegWrite { offset: REG_ACK, value: 0 })
}

/// The register writes that program the coordinate window
/// `[x1, x2] x [y1, y2]`, each bound mangled.
pub open spec fn spec_window_writes(x1: u32, x2: u32, y1: u32, y2: u32) -> Seq<RegWrite> {
    spec_cmd_writes(OP_COLUMN_SET, seq![spec_mangle(x1), spec_mangle(x2)]) + spec_cmd_writes(
        OP_PAGE_SET,
        seq![spec_mangle(y1), spec_mangle(y2)],
    )
}

/// The register writes of one whole windowed pixel transaction: the
/// coordinate window, then the source bytes packed into wire words and
/// streamed under the memory-write opcode.
pub open spec fn spec_pio_writes(
    fmt: PixelFormat,
    x1: u32,
    y1: u32,
    x2: u32,
    y2: u32,
    pixels: Seq<u8>,
) -> Seq<RegWrite> {
    spec_window_writes(x1, x2, y1, y2) + spec_cmd_writes(OP_MEMORY_WRITE, wire_words(fmt, pixels))
}

/// A sequence is a prefix of itself extended by anything.
pub proof fn lemma_prefix_extend(a: Seq<RegWrite>, b: Seq<RegWrite>)
    ensures
        a.is_prefix_of(a + b),
{
    assert(a =~= (a + b).subrange(0, a.len() as int));
}

/// Being a prefix carries over along a chain.
pub proof fn lemma_prefix_trans(a: Seq<RegWrite>, b: Seq<RegWrite>, c: Seq<RegWrite>)
    requires
        a.is_prefix_of(b),
        b.is_prefix_of(c),
    ensures
        a.is_prefix_of(c),
{
    assert forall|i: int| 0 <= i < a.len() implies a[i] == c[i] by {
        assert(a[i] == b.subrange(0, a.len() as int)[i]);
        assert(b[i] == c.subrange(0, b.len() as int)[i]);
    }
    assert(a =~= c.subrange(0, a.len() as int));
}

/// Splice a reserved bit between a coordinate's high and low fields:
/// the upper 24 bits move up one extra position, the low 8 bits stay.
pub fn mangle(v: u32) -> (w: u32)
    ensures
        w == spec_mangle(v),
        w == ((v >> 8) << 9) | (v & 0xFF),
{
    let h: u32 = v >> 8;
    let l: u32 = v & 0xFF;
    (h << 9) | l
}

/// The STATUS register value as the simulated controller reports it
/// `elapsed` nanoseconds into a readiness wait whose scripted delay is
/// `ready_in`. During a receive wait bit 0 (receive FIFO not empty) sets
/// once the delay has passed; during a transmit wait bit 4 (transmit
/// register busy) clears once the delay has passed.
fn status_word(elapsed: u64, ready_in: u64, wait_rx: bool) -> (st: u32)
    ensures
        spec_fifo_rx_ne(st) == (wait_rx && elapsed >= ready_in),
        spec_tx_reg_empty(st) == (wait_rx || elapsed >= ready_in),
{
    let rx_bit: u32 = if wait_rx && elapsed >= ready_in {
        0x1
    } else {
        0x0
    };
    let tx_busy: u32 = if !wait_rx && elapsed < ready_in {
        0x10
    } else {
        0x0
    };
    let st: u32 = rx_bit | tx_busy;
    proof {
        assert((0x0u32 | 0x0u32) == 0x0u32 && (0x1u32 | 0x0u32) == 0x1u32 && (0x0u32
            | 0x10u32) == 0x10u32) by (bit_vector);
        assert((0x0u32 & 0x1) == 0 && (0x1u32 & 0x1) == 1 && (0x10u32 & 0x1) == 0)
            by (bit_vector);
        assert((0x0u32 & 0x10) == 0 && (0x1u32 & 0x10) == 0 && (0x10u32 & 0x10) == 0x10u32)
            by (bit_vector);
    }
    st
}

/// The register window of one controller, with the scripts that drive it.
/// There is exactly one session per device, and all transactions
/// serialize through it: the host is expected to never run two commits on
/// one device at a time, and this layer adds no locking of its own.
pub struct TransportSession {
    /// The simulated monotonic clock, in nanoseconds.
    pub now_ns: u64,
    /// Delays of the coming transmit-readiness waits (status bit 4).
    pub tx_delays: Vec<u64>,
    /// Delays of the coming receive-readiness waits (status bit 0).
    pub rx_delays: Vec<u64>,
    /// Successive values of the `READ` register.
    pub read_data: Vec<u32>,
    /// Every register write so far, in order.
    pub writes: Vec<RegWrite>,
}

impl TransportSession {
    /// A fresh session: empty scripts, so every wait succeeds at once and
    /// every read yields zero.
    pub fn new() -> (s: TransportSession)
        ensures
            s.now_ns == 0,
            s.tx_delays@ =~= Seq::<u64>::empty(),
            s.rx_delays@ =~= Seq::<u64>::empty(),
            s.read_data@ =~= Seq::<u32>::empty(),
            s.writes@ =~= Seq::<RegWrite>::empty(),
    {
        TransportSession {
            now_ns: 0,
            tx_delays: Vec::new(),
            rx_delays: Vec::new(),
            read_data: Vec::new(),
            writes: Vec::new(),
        }
    }

    /// Record one register write in the log.
    fn write_reg(&mut self, offset: u32, value: u32)
        ensures
            final(self).writes@ == old(self).writes@.push(RegWrite { offset, value }),
            final(self).tx_delays == old(self).tx_delays,
            final(self).rx_delays == old(self).rx_delays,
            final(self).read_data == old(self).read_data,
            final(self).now_ns == old(self).now_ns,
    {
        self.writes.push(RegWrite { offset, value });
    }

    /// Consume the next value of the `READ` register.
    fn read_reg(&mut self) -> (v: u32)
        ensures
            v == read_at(old(self).read_data@, 0),
            final(self).read_data@ == consumed(old(self).read_data@, 1),
            final(self).tx_delays == old(self).tx_delays,
            final(self).rx_delays == old(self).rx_delays,
            final(self).writes == old(self).writes,
            final(self).now_ns == old(self).now_ns,
    {
        if self.read_data.len() > 0 {
            let v = self.read_data.remove(0);
            proof {
                assert(old(self).read_data@.remove(0) =~= consumed(old(self).read_data@, 1));
            }
            v
        } else {
            proof {
                assert(old(self).read_data@ =~= consumed(old(self).read_data@, 1));
            }
            0
        }
    }

    /// Busy-poll one status bit until it reads ready or the deadline
    /// passes. Consumes the next scripted delay of that bit; the wait
    /// succeeds exactly when the bit flips within the poll window.
    fn wait_status(&mut self, wait_rx: bool) -> (r: Result<(), DriverError>)
        ensures
            wait_rx ==> final(self).rx_delays@ == consumed(old(self).rx_delays@, 1)
                && final(self).tx_delays == old(self).tx_delays,
            !wait_rx ==> final(self).tx_delays@ == consumed(old(self).tx_delays@, 1)
                && final(self).rx_delays == old(self).rx_delays,
            final(self).read_data == old(self).read_data,
            final(self).writes == old(self).writes,
            r is Ok <==> delay_ok(
                delay_at(
                    if wait_rx {
                        old(self).rx_delays@
                    } else {
                        old(self).tx_delays@
                    },
                    0,
                ),
            ),
            r is Err ==> r == Err::<(), DriverError>(DriverError::Timeout),
    {
        let d: u64 = if wait_rx {
            if self.rx_delays.len() > 0 {
                let d = self.rx_delays.remove(0);
                proof {
                    assert(old(self).rx_delays@.remove(0) =~= consumed(old(self).rx_delays@, 1));
                }
                d
            } else {
                proof {
                    assert(old(self).rx_delays@ =~= consumed(old(self).rx_delays@, 1));
                }
                0
            }
        } else {
            if self.tx_delays.len() > 0 {
                let d = self.tx_delays.remove(0);
                proof {
                    assert(old(self).tx_delays@.remove(0) =~= consumed(old(self).tx_delays@, 1));
                }
                d
            } else {
                proof {
                    assert(old(self).tx_delays@ =~= consumed(old(self).tx_delays@, 1));
                }
                0
            }
        };
        let ghost popped = *self;
        let mut elapsed: u64 = 0;
        loop
            invariant
                self.tx_delays == popped.tx_delays,
                self.rx_delays == popped.rx_delays,
                self.read_data == popped.read_data,
                self.writes == popped.writes,
                wait_rx ==> popped.rx_delays@ == consumed(old(self).rx_delays@, 1)
                    && popped.tx_delays == old(self).tx_delays,
                !wait_rx ==> popped.tx_delays@ == consumed(old(self).tx_delays@, 1)
                    && popped.rx_delays == old(self).rx_delays,
                popped.read_data == old(self).read_data,
                popped.writes == old(self).writes,
                d == delay_at(
                    if wait_rx {
                        old(self).rx_delays@
                    } else {
                        old(self).tx_delays@
                    },
                    0,
                ),
                elapsed % SLEEP_NS == 0,
                elapsed <= TIMEOUT_NS + SLEEP_NS,
            decreases TIMEOUT_NS + 2 * SLEEP_NS - elapsed,
        {
            let st = status_word(elapsed, d, wait_rx);
            let ready = if wait_rx {
                fifo_rx_ne(st)
            } else {
                tx_reg_empty(st)
            };
            if ready {
                return Ok(());
            }
            if elapsed > TIMEOUT_NS {
                return Err(DriverError::Timeout);
            }
            elapsed = elapsed + SLEEP_NS;
            self.now_ns = self.now_ns.saturating_add(SLEEP_NS);
        }
    }

    /// Wait for the transmit register to drain (status bit 4 clear).
    pub fn tx_reg_empty_wait(&mut self) -> (r: Result<(), DriverError>)
        ensures
            final(self).tx_delays@ == consumed(old(self).tx_delays@, 1),
            final(self).rx_delays == old(self).rx_delays,
            final(self).read_data == old(self).read_data,
            final(self).writes == old(self).writes,
            r is Ok <==> delay_ok(delay_at(old(self).tx_delays@, 0)),
            r is Err ==> r == Err::<(), DriverError>(DriverError::Timeout),
    {
        self.wait_status(false)
    }

    /// Wait for the receive FIFO to hold a byte (status bit 0 set).
    pub fn fifo_rx_ne_wait(&mut self) -> (r: Result<(), DriverError>)
        ensures
            final(self).rx_delays@ == consumed(old(self).rx_delays@, 1),
            final(self).tx_delays == old(self).tx_delays,
            final(self).read_data == old(self).read_data,
            final(self).writes == old(self).writes,
            r is Ok <==> delay_ok(delay_at(old(self).rx_delays@, 0)),
            r is Err ==> r == Err::<(), DriverError>(DriverError::Timeout),
    {
        self.wait_status(true)
    }

    /// Strobe the next byte out of the controller: write 0 to `ACK`, wait
    /// for the receive FIFO, read `READ`, shift right one bit lane and
    /// truncate to 8 bits.
    pub fn read_byte(&mut self) -> (r: Result<u8, DriverError>)
        ensures
            final(self).writes@ == old(self).writes@.push(
                RegWrite { offset: REG_ACK, value: 0 },
            ),
            final(self).rx_delays@ == consumed(old(self).rx_delays@, 1),
            final(self).tx_delays == old(self).tx_delays,
            r is Ok <==> delay_ok(delay_at(old(self).rx_delays@, 0)),
            r is Ok ==> final(self).read_data@ == consumed(old(self).read_data@, 1) && r == Ok::<
                u8,
                DriverError,
            >(spec_read_byte_value(read_at(old(self).read_data@, 0))),
            r is Err ==> final(self).read_data == old(self).read_data && r == Err::<
                u8,
                DriverError,
            >(DriverError::Timeout),
    {
        self.write_reg(REG_ACK, 0);
        match self.fifo_rx_ne_wait() {
            Ok(()) => {},
            Err(e) => {
                return Err(e);
            },
        }
        let v = self.read_reg();
        proof {
            assert((v >> 1) as u8 == ((v >> 1) & 0xFF) as u8) by (bit_vector);
        }
        Ok((v >> 1) as u8)
    }

    /// Push one word into the write-data FIFO once the transmit register
    /// has drained.
    pub fn write_word(&mut self, w: u32) -> (r: Result<(), DriverError>)
        ensures
            final(self).tx_delays@ == consumed(old(self).tx_delays@, 1),
            final(self).rx_delays == old(self).rx_delays,
            final(self).read_data == old(self).read_data,
            r is Ok <==> delay_ok(delay_at(old(self).tx_delays@, 0)),
            r is Ok ==> final(self).writes@ == old(self).writes@.push(
                RegWrite { offset: REG_WRITE, value: w },
            ),
            r is Err ==> final(self).writes == old(self).writes && r == Err::<(), DriverError>(
                DriverError::Timeout,
            ),
    {
        match self.tx_reg_empty_wait() {
            Ok(()) => {},
            Err(e) => {
                return Err(e);
            },
        }
        self.write_reg(REG_WRITE, w);
        Ok(())
    }

    /// Enable the controller interface: wait for the transmit register,
    /// then write the vendor-specific enable value to `CON`.
    pub fn reset(&mut self) -> (r: Result<(), DriverError>)
        ensures
            final(self).tx_delays@ == consumed(old(self).tx_delays@, 1),
            final(self).rx_delays == old(self).rx_delays,
            final(self).read_data == old(self).read_data,
            r is Ok <==> delay_ok(delay_at(old(self).tx_delays@, 0)),
            r is Ok ==> final(self).writes@ == old(self).writes@.push(
                RegWrite { offset: REG_CON, value: CON_ENABLE },
            ),
            r is Err ==> final(self).writes == old(self).writes && r == Err::<(), DriverError>(
                DriverError::Timeout,
            ),
    {
        match self.tx_reg_empty_wait() {
            Ok(()) => {},
            Err(e) => {
                return Err(e);
            },
        }
        self.write_reg(REG_CON, CON_ENABLE);
        Ok(())
    }

    /// One write transaction: latch the opcode, then stream each payload
    /// word, each step gated on the transmit register draining. The first
    /// timeout aborts the rest; nothing is retried or undone.
    pub fn transact_write(&mut self, cmd: u8, data: &[u32]) -> (r: Result<(), DriverError>)
        ensures
            final(self).rx_delays == old(self).rx_delays,
            final(self).read_data == old(self).read_data,
            r is Ok <==> delays_ok(old(self).tx_delays@, 1 + data@.len() as int),
            r is Ok ==> final(self).tx_delays@ == consumed(
                old(self).tx_delays@,
                1 + data@.len() as int,
            ) && final(self).writes@ == old(self).writes@ + spec_cmd_writes(cmd, data@),
            r is Err ==> r == Err::<(), DriverError>(DriverError::Timeout) && exists|p: int|
                {
                    &&& 0 <= p <= data@.len()
                    &&& delays_ok(old(self).tx_delays@, p)
                    &&& !delay_ok(#[trigger] delay_at(old(self).tx_delays@, p))
                    &&& final(self).tx_delays@ == consumed(old(self).tx_delays@, p + 1)
                    &&& final(self).writes@ == old(self).writes@ + spec_cmd_writes(
                        cmd,
                        data@,
                    ).take(p)
                },
    {
        match self.tx_reg_empty_wait() {
            Ok(()) => {},
            Err(e) => {
                proof {
                    let p: int = 0;
                    assert(spec_cmd_writes(cmd, data@).take(0) =~= Seq::<RegWrite>::empty());
                    assert(old(self).writes@ + spec_cmd_writes(cmd, data@).take(0) =~= old(
                        self,
                    ).writes@);
                    assert(delays_ok(old(self).tx_delays@, p) && !delay_ok(
                        delay_at(old(self).tx_delays@, p),
                    ));
                }
                return Err(e);
            },
        }
        self.write_reg(REG_CMD, cmd as u32);
        proof {
            assert(self.writes@ =~= old(self).writes@ + spec_cmd_writes(cmd, data@).take(1));
        }
        let mut i: usize = 0;
        while i < data.len()
            invariant
                i <= data@.len(),
                delays_ok(old(self).tx_delays@, 1 + i),
                self.tx_delays@ == consumed(old(self).tx_delays@, 1 + i),
                self.rx_delays == old(self).rx_delays,
                self.read_data == old(self).read_data,
                self.writes@ == old(self).writes@ + spec_cmd_writes(cmd, data@).take(1 + i),
            decreases data@.len() - i,
        {
            match self.write_word(data[i]) {
                Ok(()) => {
                    proof {
                        lemma_delay_at_consumed(old(self).tx_delays@, 1 + i, 0);
                        lemma_consumed_consumed(old(self).tx_delays@, 1 + i, 1);
                        assert forall|j: int| 0 <= j < 2 + i implies delay_ok(
                            #[trigger] delay_at(old(self).tx_delays@, j),
                        ) by {
                            if j < 1 + i {
                                assert(delays_ok(old(self).tx_delays@, 1 + i));
                            }
                        }
                        assert(spec_cmd_writes(cmd, data@).take(1 + i).push(
                            RegWrite { offset: REG_WRITE, value: data@[i as int] },
                        ) =~= spec_cmd_writes(cmd, data@).take(2 + i));
                        assert(self.writes@ =~= old(self).writes@ + spec_cmd_writes(
                            cmd,
                            data@,
                        ).take(2 + i));
                    }
                },
                Err(e) => {
                    proof {
                        let p: int = 1 + i;
                        lemma_delay_at_consumed(old(self).tx_delays@, 1 + i, 0);
                        lemma_consumed_consumed(old(self).tx_delays@, 1 + i, 1);
                        assert(!delay_ok(delay_at(old(self).tx_delays@, p)));
                        assert(final(self).tx_delays@ == consumed(old(self).tx_delays@, p + 1));
                        assert(final(self).writes@ == old(self).writes@ + spec_cmd_writes(
                            cmd,
                            data@,
                        ).take(p));
                    }
                    return Err(e);
                },
            }
            i = i + 1;
        }
        proof {
            assert(spec_cmd_writes(cmd, data@).take(1 + data@.len() as int) =~= spec_cmd_writes(
                cmd,
                data@,
            ));
        }
        Ok(())
    }

    /// One read transaction: latch the opcode, strobe and discard the
    /// protocol's leading byte, then strobe exactly `length` bytes. Any
    /// timeout fails the whole call; no partial buffer is returned.
    pub fn transact_read(&mut self, cmd: u8, length: usize) -> (r: Result<Vec<u8>, DriverError>)
        ensures
            final(self).tx_delays@ == consumed(old(self).tx_delays@, 1),
            r is Ok <==> delay_ok(delay_at(old(self).tx_delays@, 0)) && delays_ok(
                old(self).rx_delays@,
                1 + length,
            ),
            r is Err ==> r == Err::<Vec<u8>, DriverError>(DriverError::Timeout),
            !delay_ok(delay_at(old(self).tx_delays@, 0)) ==> final(self).writes == old(
                self,
            ).writes && final(self).rx_delays == old(self).rx_delays && final(self).read_data
                == old(self).read_data,
            r matches Ok(v) ==> {
                &&& final(self).rx_delays@ == consumed(old(self).rx_delays@, 1 + length)
                &&& final(self).read_data@ == consumed(old(self).read_data@, 1 + length)
                &&& final(self).writes@ == old(self).writes@ + spec_cmd_writes(
                    cmd,
                    Seq::empty(),
                ) + spec_ack_writes(1 + length)
                &&& v@.len() == length
                &&& forall|j: int|
                    0 <= j < length ==> v@[j] == spec_read_byte_value(
                        read_at(old(self).read_data@, 1 + j),
                    )
            },
            delay_ok(delay_at(old(self).tx_delays@, 0)) && r is Err ==> exists|p: int|
                {
                    &&& 0 <= p <= length
                    &&& delays_ok(old(self).rx_delays@, p)
                    &&& !delay_ok(#[trigger] delay_at(old(self).rx_delays@, p))
                    &&& final(self).rx_delays@ == consumed(old(self).rx_delays@, p + 1)
                    &&& final(self).read_data@ == consumed(old(self).read_data@, p)
                    &&& final(self).writes@ == old(self).writes@ + spec_cmd_writes(
                        cmd,
                        Seq::empty(),
                    ) + spec_ack_writes(p + 1)
                },
    {
        match self.tx_reg_empty_wait() {
            Ok(()) => {},
            Err(e) => {
                return Err(e);
            },
        }
        self.write_reg(REG_CMD, cmd as u32);
        proof {
            assert(self.writes@ =~= old(self).writes@ + spec_cmd_writes(cmd, Seq::empty()));
        }
        match self.read_byte() {
            Ok(_) => {
                proof {
                    assert(self.writes@ =~= old(self).writes@ + spec_cmd_writes(
                        cmd,
                        Seq::empty(),
                    ) + spec_ack_writes(1));
                }
            },
            Err(e) => {
                proof {
                    let p: int = 0;
                    assert(self.writes@ =~= old(self).writes@ + spec_cmd_writes(
                        cmd,
                        Seq::empty(),
                    ) + spec_ack_writes(1));
                    assert(delays_ok(old(self).rx_delays@, p) && !delay_ok(
                        delay_at(old(self).rx_delays@, p),
                    ));
                }
                return Err(e);
            },
        }
        let mut res: Vec<u8> = Vec::new();
        let mut i: usize = 0;
        while i < length
            invariant
                i <= length,
                delay_ok(delay_at(old(self).tx_delays@, 0)),
                delays_ok(old(self).rx_delays@, 1 + i),
                self.tx_delays@ == consumed(old(self).tx_delays@, 1),
                self.rx_delays@ == consumed(old(self).rx_delays@, 1 + i),
                self.read_data@ == consumed(old(self).read_data@, 1 + i),
                self.writes@ == old(self).writes@ + spec_cmd_writes(cmd, Seq::empty())
                    + spec_ack_writes(1 + i),
                res@.len() == i,
                forall|j: int|
                    0 <= j < i ==> res@[j] == spec_read_byte_value(
                        read_at(old(self).read_data@, 1 + j),
                    ),
            decreases length - i,
        {
            match self.read_byte() {
                Ok(b) => {
                    res.push(b);
                    proof {
                        lemma_delay_at_consumed(old(self).rx_delays@, 1 + i, 0);
                        lemma_consumed_consumed(old(self).rx_delays@, 1 + i, 1);
                        lemma_consumed_consumed(old(self).read_data@, 1 + i, 1);
                        lemma_read_at_consumed(old(self).read_data@, 1 + i, 0);
                        assert forall|j: int| 0 <= j < 2 + i implies delay_ok(
                            #[trigger] delay_at(old(self).rx_delays@, j),
                        ) by {
                            if j < 1 + i {
                                assert(delays_ok(old(self).rx_delays@, 1 + i));
                            }
                        }
                        assert(self.writes@ =~= old(self).writes@ + spec_cmd_writes(
                            cmd,
                            Seq::empty(),
                        ) + spec_ack_writes(2 + i));
                    }
                },
                Err(e) => {
                    proof {
                        let p: int = 1 + i;
                        lemma_delay_at_consumed(old(self).rx_delays@, 1 + i, 0);
                        lemma_consumed_consumed(old(self).rx_delays@, 1 + i, 1);
                        assert(!delay_ok(delay_at(old(self).rx_delays@, p)));
                        assert(self.writes@ =~= old(self).writes@ + spec_cmd_writes(
                            cmd,
                            Seq::empty(),
                        ) + spec_ack_writes(p + 1));
                    }
                    return Err(e);
                },
            }
            i = i + 1;
        }
        Ok(res)
    }

    /// One whole windowed pixel write (the controller's memory-write
    /// protocol): program the horizontal and vertical window bounds, pack
    /// the source bytes into RGB565 wire words, and stream them. The
    /// first timeout aborts everything that remains.
    pub fn pixel_transaction(
        &mut self,
        fmt: PixelFormat,
        x1: i32,
        y1: i32,
        x2: i32,
        y2: i32,
        pixels: &[u8],
    ) -> (r: Result<(), DriverError>)
        requires
            pixels@.len() < usize::MAX,
        ensures
            final(self).rx_delays == old(self).rx_delays,
            final(self).read_data == old(self).read_data,
            r is Ok <==> delays_ok(old(self).tx_delays@, 7 + wire_words(fmt, pixels@).len() as int),
            r is Ok ==> final(self).tx_delays@ == consumed(
                old(self).tx_delays@,
                7 + wire_words(fmt, pixels@).len() as int,
            ) && final(self).writes@ == old(self).writes@ + spec_pio_writes(
                fmt,
                x1 as u32,
                y1 as u32,
                x2 as u32,
                y2 as u32,
                pixels@,
            ),
            r is Err ==> r == Err::<(), DriverError>(DriverError::Timeout) && old(
                self,
            ).writes@.is_prefix_of(final(self).writes@) && !delays_ok(
                old(self).tx_delays@,
                7 + wire_words(fmt, pixels@).len() as int,
            ),
    {
        let cols: Vec<u32> = vec![mangle(x1 as u32), mangle(x2 as u32)];
        match self.transact_write(OP_COLUMN_SET, cols.as_slice()) {
            Ok(()) => {},
            Err(e) => {
                proof {
                    let p = choose|p: int|
                        {
                            &&& 0 <= p <= cols@.len()
                            &&& delays_ok(old(self).tx_delays@, p)
                            &&& !delay_ok(#[trigger] delay_at(old(self).tx_delays@, p))
                            &&& final(self).tx_delays@ == consumed(old(self).tx_delays@, p + 1)
                            &&& final(self).writes@ == old(self).writes@ + spec_cmd_writes(
                                OP_COLUMN_SET,
                                cols@,
                            ).take(p)
                        };
                    lemma_prefix_extend(
                        old(self).writes@,
                        spec_cmd_writes(OP_COLUMN_SET, cols@).take(p),
                    );
                }
                return Err(e);
            },
        }
        let ghost tx1 = self.tx_delays@;
        let ghost w1 = self.writes@;
        let rows: Vec<u32> = vec![mangle(y1 as u32), mangle(y2 as u32)];
        match self.transact_write(OP_PAGE_SET, rows.as_slice()) {
            Ok(()) => {},
            Err(e) => {
                proof {
                    let p = choose|p: int|
                        {
                            &&& 0 <= p <= rows@.len()
                            &&& delays_ok(tx1, p)
                            &&& !delay_ok(#[trigger] delay_at(tx1, p))
                            &&& final(self).tx_delays@ == consumed(tx1, p + 1)
                            &&& final(self).writes@ == w1 + spec_cmd_writes(
                                OP_PAGE_SET,
                                rows@,
                            ).take(p)
                        };
                    lemma_delay_at_consumed(old(self).tx_delays@, 3, p);
                    lemma_prefix_extend(w1, spec_cmd_writes(OP_PAGE_SET, rows@).take(p));
                    lemma_prefix_extend(
                        old(self).writes@,
                        spec_cmd_writes(OP_COLUMN_SET, cols@),
                    );
                }
                return Err(e);
            },
        }
        proof {
            lemma_consumed_consumed(old(self).tx_delays@, 3, 3);
            lemma_delays_ok_split(old(self).tx_delays@, 3, 3);
        }
        let ghost tx2 = self.tx_delays@;
        let ghost w2 = self.writes@;
        let words: Vec<u32> = pack_pixels(fmt, pixels);
        match self.transact_write(OP_MEMORY_WRITE, words.as_slice()) {
            Ok(()) => {},
            Err(e) => {
                proof {
                    let p = choose|p: int|
                        {
                            &&& 0 <= p <= words@.len()
                            &&& delays_ok(tx2, p)
                            &&& !delay_ok(#[trigger] delay_at(tx2, p))
                            &&& final(self).tx_delays@ == consumed(tx2, p + 1)
                            &&& final(self).writes@ == w2 + spec_cmd_writes(
                                OP_MEMORY_WRITE,
                                words@,
                            ).take(p)
                        };
                    lemma_delay_at_consumed(old(self).tx_delays@, 6, p);
                    lemma_prefix_extend(w2, spec_cmd_writes(OP_MEMORY_WRITE, words@).take(p));
                    lemma_prefix_extend(old(self).writes@, w2.skip(old(self).writes@.len() as int));
                    assert(old(self).writes@.is_prefix_of(w2)) by {
                        assert(old(self).writes@ =~= w2.subrange(
                            0,
                            old(self).writes@.len() as int,
                        ));
                    }
                }
                return Err(e);
            },
        }
        proof {
            lemma_consumed_consumed(old(self).tx_delays@, 6, 1 + words@.len() as int);
            lemma_delays_ok_split(old(self).tx_delays@, 6, 1 + words@.len() as int);
            assert(final(self).writes@ =~= old(self).writes@ + spec_pio_writes(
                fmt,
                x1 as u32,
                y1 as u32,
                x2 as u32,
                y2 as u32,
                pixels@,
            ));
        }
        Ok(())
    }

    /// Stream a window of 32-bit packed source pixels (`B, G, R, pad`
    /// per pixel, the padding byte discarded).
    pub fn pio_write_xr24(
        &mut self,
        x1: i32,
        y1: i32,
        x2: i32,
        y2: i32,
        pixels: &[u8],
    ) -> (r: Result<(), DriverError>)
        requires
            pixels@.len() < usize::MAX,
        ensures
            final(self).rx_delays == old(self).rx_delays,
            final(self).read_data == old(self).read_data,
            r is Ok <==> delays_ok(
                old(self).tx_delays@,
                7 + wire_words(PixelFormat::Xr24, pixels@).len() as int,
            ),
            r is Ok ==> final(self).writes@ == old(self).writes@ + spec_pio_writes(
                PixelFormat::Xr24,
                x1 as u32,
                y1 as u32,
                x2 as u32,
                y2 as u32,
                pixels@,
            ),
            r is Err ==> r == Err::<(), DriverError>(DriverError::Timeout) && old(
                self,
            ).writes@.is_prefix_of(final(self).writes@),
    {
        self.pixel_transaction(PixelFormat::Xr24, x1, y1, x2, y2, pixels)
    }

    /// Stream a window of 24-bit packed source pixels (`R, G, B` per
    /// pixel).
    pub fn pio_write_rg24(
        &mut self,
        x1: i32,
        y1: i32,
        x2: i32,
        y2: i32,
        pixels: &[u8],
    ) -> (r: Result<(), DriverError>)
        requires
            pixels@.len() < usize::MAX,
        ensures
            final(self).rx_delays == old(self).rx_delays,
            final(self).read_data == old(self).read_data,
            r is Ok <==> delays_ok(
                old(self).tx_delays@,
                7 + wire_words(PixelFormat::Rg24, pixels@).len() as int,
            ),
            r is Ok ==> final(self).writes@ == old(self).writes@ + spec_pio_writes(
                PixelFormat::Rg24,
                x1 as u32,
                y1 as u32,
                x2 as u32,
                y2 as u32,
                pixels@,
            ),
            r is Err ==> r == Err::<(), DriverError>(DriverError::Timeout) && old(
                self,
            ).writes@.is_prefix_of(final(self).writes@),
    {
        self.pixel_transaction(PixelFormat::Rg24, x1, y1, x2, y2, pixels)
    }
}

} // verus!
