//! The atomic commit pipeline: turn one plane-state transition into the
//! minimal set of hardware writes.
//!
//! A commit resolves the committed framebuffer's byte view, takes the
//! damage rectangles of the transition, clips each to the plane's
//! destination, and streams every scanline of every surviving rectangle
//! through one windowed pixel transaction. The device-alive flag is
//! re-checked on entry every time: once teardown has begun the commit
//! touches no register and reports success. The CPU-access window and
//! the device-alive guard are released on every exit path. The first
//! transport failure abandons the rest of the commit; nothing already
//! sent is undone, and the error propagates unchanged.

use vstd::prelude::*;

use crate::driver::{PANEL_HEIGHT, PANEL_WIDTH};
use crate::error::DriverError;
use crate::pixel::{wire_words, PixelFormat};
use crate::rect::{
    effective_damage, lemma_effective_damage_in_dst, spec_effective_damage, spec_rect_in,
    spec_visible, Rect,
};
use crate::regs::RegWrite;
use crate::registry::DisplayDevice;
use crate::transport::{
    consumed, delay_at, delay_ok, delays_ok, lemma_consumed_consumed, lemma_delay_at_consumed,
    lemma_delays_ok_split, lemma_prefix_extend, lemma_prefix_trans, spec_pio_writes,
    TransportSession,
};
use vstd::slice::slice_subrange;

verus! {

/// A CPU-readable byte view of a committed framebuffer, with its layout:
/// `height` scanlines of `pitch` bytes each, holding pixels in `format`.
/// The view is borrowed for one commit's duration and consumed read-only.
pub struct FrameBuffer {
    pub bytes: Vec<u8>,
    /// Bytes per scanline.
    pub pitch: usize,
    /// Scanlines in the buffer.
    pub height: usize,
    /// The layout of each pixel.
    pub format: PixelFormat,
}

impl FrameBuffer {
    /// The byte view is exactly `height` scanlines of `pitch` bytes.
    pub open spec fn wf(self) -> bool {
        &&& self.bytes@.len() == self.pitch * self.height
        &&& self.bytes@.len() < usize::MAX
    }
}

/// The source bytes of one scanline of a damage rectangle: the slice
/// `[line * pitch + x1 * bpp, line * pitch + x2 * bpp)` of the byte view.
pub open spec fn spec_line_bytes(fb: FrameBuffer, r: Rect, line: int) -> Seq<u8> {
    fb.bytes@.subrange(
        line * fb.pitch + r.x1 * fb.format.spec_bpp(),
        line * fb.pitch + r.x2 * fb.format.spec_bpp(),
    )
}

/// The register writes that stream one scanline of a damage rectangle:
/// one windowed pixel transaction carrying that scanline's bytes.
pub open spec fn spec_line_writes(fb: FrameBuffer, r: Rect, line: int) -> Seq<RegWrite> {
    spec_pio_writes(
        fb.format,
        r.x1 as u32,
        line as u32,
        PANEL_WIDTH as u32,
        PANEL_HEIGHT as u32,
        spec_line_bytes(fb, r, line),
    )
}

/// The transmit-readiness waits one scanline's transaction consumes:
/// seven for the window framing and the opcodes, one per wire word.
pub open spec fn spec_line_waits(fb: FrameBuffer, r: Rect, line: int) -> int {
    7 + wire_words(fb.format, spec_line_bytes(fb, r, line)).len() as int
}

/// The register writes of the first `k` scanlines of one damage
/// rectangle, top down.
pub open spec fn spec_rect_writes(fb: FrameBuffer, r: Rect, k: int) -> Seq<RegWrite>
    decreases k,
{
    if k <= 0 {
        Seq::empty()
    } else {
        spec_rect_writes(fb, r, k - 1) + spec_line_writes(fb, r, r.y1 + k - 1)
    }
}

/// The transmit waits of the first `k` scanlines of one damage
/// rectangle.
pub open spec fn spec_rect_waits(fb: FrameBuffer, r: Rect, k: int) -> int
    decreases k,
{
    if k <= 0 {
        0
    } else {
        spec_rect_waits(fb, r, k - 1) + spec_line_waits(fb, r, r.y1 + k - 1)
    }
}

/// The register writes of the first `k` damage rectangles, in order.
pub open spec fn spec_damage_writes(fb: FrameBuffer, rects: Seq<Rect>, k: int) -> Seq<RegWrite>
    decreases k,
{
    if k <= 0 {
        Seq::empty()
    } else {
        spec_damage_writes(fb, rects, k - 1) + spec_rect_writes(
            fb,
            rects[k - 1],
            rects[k - 1].y2 - rects[k - 1].y1,
        )
    }
}

/// The transmit waits of the first `k` damage rectangles.
pub open spec fn spec_damage_waits(fb: FrameBuffer, rects: Seq<Rect>, k: int) -> int
    decreases k,
{
    if k <= 0 {
        0
    } else {
        spec_damage_waits(fb, rects, k - 1) + spec_rect_waits(
            fb,
            rects[k - 1],
            rects[k - 1].y2 - rects[k - 1].y1,
        )
    }
}

/// Every register write of one commit: every scanline of every surviving
/// damage rectangle, in order.
pub open spec fn spec_commit_writes(fb: FrameBuffer, rects: Seq<Rect>) -> Seq<RegWrite> {
    spec_damage_writes(fb, rects, rects.len() as int)
}

/// Every transmit-readiness wait of one commit: the commit succeeds
/// exactly when the controller answers each of them in time.
pub open spec fn spec_commit_waits(fb: FrameBuffer, rects: Seq<Rect>) -> int {
    spec_damage_waits(fb, rects, rects.len() as int)
}

/// A rectangle's wait count is never negative.
proof fn lemma_rect_waits_nonneg(fb: FrameBuffer, r: Rect, k: int)
    ensures
        0 <= spec_rect_waits(fb, r, k),
    decreases k,
{
    if 0 < k {
        lemma_rect_waits_nonneg(fb, r, k - 1);
        assert(spec_line_waits(fb, r, r.y1 + k - 1) >= 0);
    }
}

/// A rectangle's wait count grows with its scanlines.
proof fn lemma_rect_waits_monotone(fb: FrameBuffer, r: Rect, k1: int, k2: int)
    requires
        k1 <= k2,
    ensures
        spec_rect_waits(fb, r, k1) <= spec_rect_waits(fb, r, k2),
    decreases k2,
{
    if k1 < k2 && 0 < k2 {
        lemma_rect_waits_monotone(fb, r, k1, k2 - 1);
        assert(spec_line_waits(fb, r, r.y1 + k2 - 1) >= 0);
    }
}

/// The commit's wait count grows with its rectangles, and each
/// rectangle's own waits are non-negative.
proof fn lemma_damage_waits_monotone(fb: FrameBuffer, rects: Seq<Rect>, k1: int, k2: int)
    requires
        k1 <= k2,
    ensures
        spec_damage_waits(fb, rects, k1) <= spec_damage_waits(fb, rects, k2),
    decreases k2,
{
    if k1 < k2 && 0 < k2 {
        lemma_damage_waits_monotone(fb, rects, k1, k2 - 1);
        lemma_rect_waits_nonneg(fb, rects[k2 - 1], rects[k2 - 1].y2 - rects[k2 - 1].y1);
    }
}

/// A damage rectangle the streaming loop can take as it stands: visible,
/// non-negative, and within the framebuffer's layout.
pub open spec fn spec_rect_streamable(r: Rect, fb: FrameBuffer) -> bool {
    &&& spec_visible(r)
    &&& 0 <= r.x1
    &&& 0 <= r.y1
    &&& r.x2 * fb.format.spec_bpp() <= fb.pitch
    &&& r.y2 <= fb.height
}

/// Stream every scanline of every given damage rectangle to the
/// controller. Succeeds exactly when the controller answers every poll
/// in time; the first timeout aborts the rest.
fn stream_damage(session: &mut TransportSession, fb: &FrameBuffer, rects: &Vec<Rect>) -> (r:
    Result<(), DriverError>)
    requires
        fb.wf(),
        forall|i: int| 0 <= i < rects@.len() ==> spec_rect_streamable(#[trigger] rects@[i], *fb),
    ensures
        final(session).rx_delays == old(session).rx_delays,
        final(session).read_data == old(session).read_data,
        r is Ok <==> delays_ok(old(session).tx_delays@, spec_commit_waits(*fb, rects@)),
        r is Ok ==> final(session).writes@ == old(session).writes@ + spec_commit_writes(
            *fb,
            rects@,
        ) && final(session).tx_delays@ == consumed(
            old(session).tx_delays@,
            spec_commit_waits(*fb, rects@),
        ),
        r is Err ==> r == Err::<(), DriverError>(DriverError::Timeout) && old(
            session,
        ).writes@.is_prefix_of(final(session).writes@),
{
    let bpp: usize = fb.format.bytes_per_pixel();
    let mut i: usize = 0;
    while i < rects.len()
        invariant
            i <= rects@.len(),
            fb.wf(),
            bpp == fb.format.spec_bpp(),
            forall|j: int| 0 <= j < rects@.len() ==> spec_rect_streamable(
                #[trigger] rects@[j],
                *fb,
            ),
            session.rx_delays == old(session).rx_delays,
            session.read_data == old(session).read_data,
            session.writes@ == old(session).writes@ + spec_damage_writes(*fb, rects@, i as int),
            session.tx_delays@ == consumed(
                old(session).tx_delays@,
                spec_damage_waits(*fb, rects@, i as int),
            ),
            delays_ok(old(session).tx_delays@, spec_damage_waits(*fb, rects@, i as int)),
            0 <= spec_damage_waits(*fb, rects@, i as int),
        decreases rects@.len() - i,
    {
        let d: Rect = rects[i];
        let ghost done_rects: int = spec_damage_waits(*fb, rects@, i as int);
        proof {
            assert(old(session).writes@ + spec_damage_writes(*fb, rects@, i as int)
                + spec_rect_writes(*fb, d, 0) =~= old(session).writes@ + spec_damage_writes(
                *fb,
                rects@,
                i as int,
            ));
        }
        let mut line: i32 = d.y1;
        while line < d.y2
            invariant
                d == rects@[i as int],
                0 <= i < rects@.len(),
                fb.wf(),
                bpp == fb.format.spec_bpp(),
                spec_rect_streamable(d, *fb),
                d.y1 <= line <= d.y2,
                done_rects == spec_damage_waits(*fb, rects@, i as int),
                0 <= done_rects,
                0 <= spec_rect_waits(*fb, d, line - d.y1),
                session.rx_delays == old(session).rx_delays,
                session.read_data == old(session).read_data,
                session.writes@ == old(session).writes@ + spec_damage_writes(
                    *fb,
                    rects@,
                    i as int,
                ) + spec_rect_writes(*fb, d, line - d.y1),
                session.tx_delays@ == consumed(
                    old(session).tx_delays@,
                    done_rects + spec_rect_waits(*fb, d, line - d.y1),
                ),
                delays_ok(
                    old(session).tx_delays@,
                    done_rects + spec_rect_waits(*fb, d, line - d.y1),
                ),
            decreases d.y2 - line,
        {
            proof {
                assert(line * fb.pitch + d.x2 * fb.format.spec_bpp() <= fb.bytes@.len()
                    && d.x1 * fb.format.spec_bpp() <= d.x2 * fb.format.spec_bpp() && 0 <= line
                    * fb.pitch + d.x1 * fb.format.spec_bpp()) by (nonlinear_arith)
                    requires
                        0 <= d.x1 < d.x2,
                        0 <= d.y1 <= line < d.y2,
                        d.x2 * fb.format.spec_bpp() <= fb.pitch,
                        d.y2 <= fb.height,
                        fb.bytes@.len() == fb.pitch * fb.height,
                        0 <= fb.format.spec_bpp(),
                ;
            }
            let line_us: usize = line as usize;
            let start: usize = line_us * fb.pitch + (d.x1 as usize) * bpp;
            let end: usize = line_us * fb.pitch + (d.x2 as usize) * bpp;
            let range = slice_subrange(fb.bytes.as_slice(), start, end);
            proof {
                assert(range@ =~= spec_line_bytes(*fb, d, line as int));
            }
            let ghost done: int = done_rects + spec_rect_waits(*fb, d, line - d.y1);
            let ghost need: int = spec_line_waits(*fb, d, line as int);
            let ghost pre = *session;
            match session.pixel_transaction(fb.format, d.x1, line, PANEL_WIDTH, PANEL_HEIGHT,
                range) {
                Ok(()) => {
                    proof {
                        lemma_consumed_consumed(old(session).tx_delays@, done, need);
                        lemma_delays_ok_split(old(session).tx_delays@, done, need);
                        assert(spec_rect_waits(*fb, d, line + 1 - d.y1) == spec_rect_waits(
                            *fb,
                            d,
                            line - d.y1,
                        ) + need);
                        assert(spec_rect_writes(*fb, d, line + 1 - d.y1) == spec_rect_writes(
                            *fb,
                            d,
                            line - d.y1,
                        ) + spec_line_writes(*fb, d, line as int));
                        assert(session.writes@ =~= old(session).writes@ + spec_damage_writes(
                            *fb,
                            rects@,
                            i as int,
                        ) + spec_rect_writes(*fb, d, line + 1 - d.y1));
                    }
                },
                Err(e) => {
                    proof {
                        // The failed wait lies within this commit's wait
                        // budget, so the whole budget is not met.
                        let p = choose|p: int|
                            0 <= p < need && !delay_ok(#[trigger] delay_at(pre.tx_delays@, p));
                        lemma_delay_at_consumed(old(session).tx_delays@, done, p);
                        assert(spec_rect_waits(*fb, d, line + 1 - d.y1) == spec_rect_waits(
                            *fb,
                            d,
                            line - d.y1,
                        ) + need);
                        lemma_rect_waits_monotone(*fb, d, line + 1 - d.y1, d.y2 - d.y1);
                        lemma_damage_waits_monotone(*fb, rects@, i + 1, rects@.len() as int);
                        assert(spec_damage_waits(*fb, rects@, i + 1) == done_rects
                            + spec_rect_waits(*fb, d, d.y2 - d.y1));
                        assert(done + need <= spec_commit_waits(*fb, rects@));
                        assert(!delay_ok(delay_at(old(session).tx_delays@, done + p)));
                        assert(!delays_ok(old(session).tx_delays@, spec_commit_waits(*fb, rects@)));
                        lemma_prefix_extend(
                            old(session).writes@,
                            spec_damage_writes(*fb, rects@, i as int) + spec_rect_writes(
                                *fb,
                                d,
                                line - d.y1,
                            ),
                        );
                        assert(old(session).writes@.is_prefix_of(pre.writes@)) by {
                            assert(pre.writes@ =~= old(session).writes@ + (spec_damage_writes(
                                *fb,
                                rects@,
                                i as int,
                            ) + spec_rect_writes(*fb, d, line - d.y1)));
                        }
                        lemma_prefix_trans(
                            old(session).writes@,
                            pre.writes@,
                            final(session).writes@,
                        );
                    }
                    return Err(e);
                },
            }
            line = line + 1;
        }
        proof {
            assert(spec_damage_writes(*fb, rects@, i + 1) == spec_damage_writes(
                *fb,
                rects@,
                i as int,
            ) + spec_rect_writes(*fb, rects@[i as int], rects@[i as int].y2 - rects@[i as int].y1));
            assert(spec_damage_waits(*fb, rects@, i + 1) == spec_damage_waits(
                *fb,
                rects@,
                i as int,
            ) + spec_rect_waits(*fb, rects@[i as int], rects@[i as int].y2 - rects@[i as int].y1));
            assert(session.writes@ =~= old(session).writes@ + spec_damage_writes(
                *fb,
                rects@,
                i + 1,
            ));
            lemma_rect_waits_monotone(*fb, rects@[i as int], 0, rects@[i as int].y2
                - rects@[i as int].y1);
        }
        i = i + 1;
    }
    Ok(())
}

/// One atomic commit: clip the damage to the plane's destination and
/// stream every surviving scanline. Once teardown has begun the commit
/// performs no register write at all and reports success; the guards it
/// takes are released on every path, so the device comes back exactly as
/// it went in. On a live device the commit succeeds exactly when the
/// controller answers every status poll of the streamed damage in time.
pub fn atomic_update(
    dev: &mut DisplayDevice,
    session: &mut TransportSession,
    fb: &FrameBuffer,
    damage_clips: &Vec<Rect>,
    dst: Rect,
) -> (r: Result<(), DriverError>)
    requires
        fb.wf(),
        old(dev).entered < u32::MAX,
        old(dev).cpu_access < u32::MAX,
        spec_visible(dst) ==> {
            &&& 0 <= dst.x1
            &&& 0 <= dst.y1
            &&& dst.x2 * fb.format.spec_bpp() <= fb.pitch
            &&& dst.y2 <= fb.height
        },
    ensures
        *final(dev) == *old(dev),
        final(session).rx_delays == old(session).rx_delays,
        final(session).read_data == old(session).read_data,
        !old(dev).alive ==> r == Ok::<(), DriverError>(()) && *final(session) == *old(session),
        old(dev).alive ==> (r is Ok <==> delays_ok(
            old(session).tx_delays@,
            spec_commit_waits(*fb, spec_effective_damage(damage_clips@, dst)),
        )),
        old(dev).alive && r is Ok ==> final(session).writes@ == old(session).writes@
            + spec_commit_writes(*fb, spec_effective_damage(damage_clips@, dst)),
        r is Err ==> r == Err::<(), DriverError>(DriverError::Timeout) && old(
            session,
        ).writes@.is_prefix_of(final(session).writes@),
{
    // The CPU-access window on the committed buffer, held for the
    // commit's duration.
    dev.cpu_access = dev.cpu_access + 1;
    // The device-alive guard: checked now, never cached from before.
    if !dev.alive {
        dev.cpu_access = dev.cpu_access - 1;
        return Ok(());
    }
    dev.entered = dev.entered + 1;
    let rects = effective_damage(damage_clips, dst);
    proof {
        lemma_effective_damage_in_dst(damage_clips@, dst);
        assert forall|j: int| 0 <= j < rects@.len() implies spec_rect_streamable(
            #[trigger] rects@[j],
            *fb,
        ) by {
            let rj = rects@[j];
            assert(spec_visible(rj) && spec_rect_in(rj, dst));
            assert(spec_visible(dst));
            assert(rj.x2 * fb.format.spec_bpp() <= dst.x2 * fb.format.spec_bpp())
                by (nonlinear_arith)
                requires
                    rj.x2 <= dst.x2,
                    0 <= fb.format.spec_bpp(),
            ;
        }
    }
    let r = stream_damage(session, fb, &rects);
    dev.entered = dev.entered - 1;
    dev.cpu_access = dev.cpu_access - 1;
    r
}

} // verus!
