use lcdcon::rect::{effective_damage, rect_intersect, Rect};

fn rect(x1: i32, y1: i32, x2: i32, y2: i32) -> Rect {
    Rect { x1, y1, x2, y2 }
}

#[test]
fn intersect_overlapping() {
    let a = rect(0, 0, 10, 10);
    let b = rect(5, 5, 15, 15);
    assert_eq!(rect_intersect(a, b), Some(rect(5, 5, 10, 10)));
}

#[test]
fn intersect_disjoint_is_empty() {
    let a = rect(0, 0, 10, 10);
    let b = rect(10, 0, 20, 10);
    assert_eq!(rect_intersect(a, b), None);
}

#[test]
fn intersect_contained() {
    let outer = rect(0, 0, 240, 376);
    let inner = rect(3, 4, 5, 6);
    assert_eq!(rect_intersect(inner, outer), Some(inner));
}

#[test]
fn full_frame_damage_is_the_whole_clip() {
    // No damage list: the whole plane changed, so the one rectangle is
    // the plane's clip itself.
    let dst = rect(0, 0, 240, 376);
    let none: Vec<Rect> = vec![];
    assert_eq!(effective_damage(&none, dst), vec![dst]);
}

#[test]
fn sub_rectangle_damage_is_clipped() {
    let dst = rect(0, 0, 240, 376);
    // Fully inside: survives as it is.
    let inside = vec![rect(10, 20, 30, 40)];
    assert_eq!(effective_damage(&inside, dst), vec![rect(10, 20, 30, 40)]);
    // Hanging over the edge: clipped to the visible area.
    let hanging = vec![rect(230, 370, 300, 400)];
    assert_eq!(effective_damage(&hanging, dst), vec![rect(230, 370, 240, 376)]);
}

#[test]
fn damage_outside_the_clip_yields_no_work() {
    let dst = rect(0, 0, 240, 376);
    let outside = vec![rect(240, 0, 300, 376), rect(-10, -10, 0, 0)];
    assert_eq!(effective_damage(&outside, dst), vec![]);
}

#[test]
fn damage_order_is_kept_and_empties_dropped() {
    let dst = rect(0, 0, 100, 100);
    let clips = vec![rect(50, 50, 60, 60), rect(200, 200, 210, 210), rect(0, 0, 1, 1)];
    assert_eq!(
        effective_damage(&clips, dst),
        vec![rect(50, 50, 60, 60), rect(0, 0, 1, 1)]
    );
}

#[test]
fn invisible_clip_yields_no_full_frame_rect() {
    let dst = rect(10, 10, 10, 20);
    let none: Vec<Rect> = vec![];
    assert_eq!(effective_damage(&none, dst), vec![]);
}
