//! Damage rectangles and clipping.
//!
//! A damage rectangle is an axis-aligned region `[x1, x2) x [y1, y2)` in
//! device pixel coordinates, known to have changed since the last displayed
//! frame. Before any hardware work, every damage rectangle is intersected
//! with the plane's destination clip; empty intersections are dropped.

use vstd::prelude::*;

verus! {

/// An axis-aligned rectangle `[x1, x2) x [y1, y2)` in device pixel
/// coordinates.
#[derive(Clone, Copy, Debug, PartialEq, Eq, Structural)]
pub struct Rect {
    pub x1: i32,
    pub y1: i32,
    pub x2: i32,
    pub y2: i32,
}

/// A rectangle is visible when it spans at least one pixel on both axes.
pub open spec fn spec_visible(r: Rect) -> bool {
    r.x1 < r.x2 && r.y1 < r.y2
}

/// The intersection of two rectangles, before any visibility test.
pub open spec fn spec_clip(a: Rect, b: Rect) -> Rect {
    Rect {
        x1: if a.x1 > b.x1 { a.x1 } else { b.x1 },
        y1: if a.y1 > b.y1 { a.y1 } else { b.y1 },
        x2: if a.x2 < b.x2 { a.x2 } else { b.x2 },
        y2: if a.y2 < b.y2 { a.y2 } else { b.y2 },
    }
}

/// `a` lies entirely within `b`.
pub open spec fn spec_rect_in(a: Rect, b: Rect) -> bool {
    b.x1 <= a.x1 && a.x2 <= b.x2 && b.y1 <= a.y1 && a.y2 <= b.y2
}

impl Rect {
    /// Whether this rectangle spans at least one pixel on both axes.
    pub fn visible(&self) -> (b: bool)
        ensures
            b == spec_visible(*self),
    {
        self.x1 < self.x2 && self.y1 < self.y2
    }
}

/// Intersect two rectangles: the overlap when it is visible, nothing
/// otherwise.
pub fn rect_intersect(a: Rect, b: Rect) -> (r: Option<Rect>)
    ensures
        r == if spec_visible(spec_clip(a, b)) {
            Some(spec_clip(a, b))
        } else {
            None::<Rect>
        },
{
    let c = Rect {
        x1: if a.x1 > b.x1 { a.x1 } else { b.x1 },
        y1: if a.y1 > b.y1 { a.y1 } else { b.y1 },
        x2: if a.x2 < b.x2 { a.x2 } else { b.x2 },
        y2: if a.y2 < b.y2 { a.y2 } else { b.y2 },
    };
    if c.visible() {
        Some(c)
    } else {
        None
    }
}

/// The surviving rectangles of a damage list: each one clipped to `dst`,
/// invisible intersections dropped, order kept.
pub open spec fn spec_clipped_list(clips: Seq<Rect>, dst: Rect) -> Seq<Rect>
    decreases clips.len(),
{
    if clips.len() == 0 {
        Seq::empty()
    } else {
        let rest = spec_clipped_list(clips.drop_last(), dst);
        let c = spec_clip(clips.last(), dst);
        if spec_visible(c) {
            rest.push(c)
        } else {
            rest
        }
    }
}

/// The damage to stream for one commit: with no damage list supplied the
/// whole plane changed, so the plane's destination clip itself is the one
/// damage rectangle; otherwise each listed rectangle, clipped to the
/// destination, with empty intersections dropped.
pub open spec fn spec_effective_damage(clips: Seq<Rect>, dst: Rect) -> Seq<Rect> {
    if clips.len() == 0 {
        spec_clipped_list(seq![dst], dst)
    } else {
        spec_clipped_list(clips, dst)
    }
}

/// Compute the damage rectangles a commit must stream, clipped to the
/// plane's destination.
pub fn effective_damage(clips: &Vec<Rect>, dst: Rect) -> (out: Vec<Rect>)
    ensures
        out@ == spec_effective_damage(clips@, dst),
{
    let mut out: Vec<Rect> = Vec::new();
    if clips.len() == 0 {
        if let Some(c) = rect_intersect(dst, dst) {
            out.push(c);
        }
        proof {
            let one = seq![dst];
            assert(one.drop_last() =~= Seq::<Rect>::empty());
            assert(one.last() == dst);
            assert(spec_clipped_list(Seq::<Rect>::empty(), dst) =~= Seq::<Rect>::empty());
            assert(spec_clip(dst, dst) == dst);
            if spec_visible(dst) {
                assert(spec_clipped_list(one, dst) =~= Seq::<Rect>::empty().push(dst));
                assert(out@ =~= Seq::<Rect>::empty().push(dst));
            } else {
                assert(spec_clipped_list(one, dst) =~= Seq::<Rect>::empty());
            }
            assert(out@ =~= spec_effective_damage(clips@, dst));
        }
        return out;
    }
    let mut i: usize = 0;
    while i < clips.len()
        invariant
            i <= clips@.len(),
            out@ == spec_clipped_list(clips@.take(i as int), dst),
        decreases clips@.len() - i,
    {
        proof {
            assert(clips@.take(i + 1).drop_last() =~= clips@.take(i as int));
            assert(clips@.take(i + 1).last() == clips@[i as int]);
        }
        if let Some(c) = rect_intersect(clips[i], dst) {
            out.push(c);
        }
        i = i + 1;
    }
    proof {
        assert(clips@.take(clips@.len() as int) =~= clips@);
    }
    out
}

/// Every surviving damage rectangle is visible and lies within the
/// destination clip.
pub proof fn lemma_effective_damage_in_dst(clips: Seq<Rect>, dst: Rect)
    ensures
        forall|i: int|
            0 <= i < spec_effective_damage(clips, dst).len() ==> {
                &&& spec_visible(#[trigger] spec_effective_damage(clips, dst)[i])
                &&& spec_rect_in(spec_effective_damage(clips, dst)[i], dst)
            },
{
    if clips.len() == 0 {
        lemma_clipped_list_in_dst(seq![dst], dst);
    } else {
        lemma_clipped_list_in_dst(clips, dst);
    }
}

/// Every rectangle of a clipped list is visible and lies within `dst`.
pub proof fn lemma_clipped_list_in_dst(clips: Seq<Rect>, dst: Rect)
    ensures
        forall|i: int|
            0 <= i < spec_clipped_list(clips, dst).len() ==> {
                &&& spec_visible(#[trigger] spec_clipped_list(clips, dst)[i])
                &&& spec_rect_in(spec_clipped_list(clips, dst)[i], dst)
            },
    decreases clips.len(),
{
    if clips.len() == 0 {
    } else {
        lemma_clipped_list_in_dst(clips.drop_last(), dst);
        let rest = spec_clipped_list(clips.drop_last(), dst);
        let c = spec_clip(clips.last(), dst);
        if spec_visible(c) {
            assert forall|i: int| 0 <= i < spec_clipped_list(clips, dst).len() implies {
                &&& spec_visible(#[trigger] spec_clipped_list(clips, dst)[i])
                &&& spec_rect_in(spec_clipped_list(clips, dst)[i], dst)
            } by {
                if i < rest.len() {
                    assert(spec_clipped_list(clips, dst)[i] == rest[i]);
                } else {
                    assert(spec_clipped_list(clips, dst)[i] == c);
                }
            }
        }
    }
}

} // verus!
