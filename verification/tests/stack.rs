use nanaimo::geometry::{Point, PointerLocation, Size};
use nanaimo::stack::{Window, WindowStack};

fn window(id: u64, x: i32, y: i32, w: i32, h: i32) -> Window {
    Window { id, location: Point { x, y }, size: Size { w, h }, activated: false }
}

fn px(x: i64, y: i64) -> PointerLocation {
    PointerLocation { x: x * 256, y: y * 256 }
}

fn ids(s: &WindowStack) -> Vec<u64> {
    s.windows.iter().map(|w| w.id).collect()
}

fn three() -> WindowStack {
    let mut s = WindowStack::new();
    s.push(window(1, 0, 0, 100, 100));
    s.push(window(2, 50, 50, 100, 100));
    s.push(window(3, 500, 500, 10, 10));
    s
}

#[test]
fn window_contains_left_and_top_but_not_right_and_bottom() {
    let w = window(1, 10, 20, 30, 40);
    assert!(w.contains(px(10, 20)));
    assert!(w.contains(px(39, 59)));
    assert!(w.contains(PointerLocation { x: 40 * 256 - 1, y: 60 * 256 - 1 }));
    assert!(!w.contains(px(40, 20)));
    assert!(!w.contains(px(10, 60)));
    assert!(!w.contains(PointerLocation { x: 10 * 256 - 1, y: 20 * 256 }));
    assert!(!w.contains(px(9, 20)));
}

#[test]
fn window_without_extent_contains_nothing() {
    assert!(!window(1, 0, 0, 0, 0).contains(px(0, 0)));
    assert!(!window(1, 0, 0, -5, 10).contains(px(0, 0)));
    assert!(!window(1, 0, 0, -5, 10).contains(px(-1, 0)));
}

#[test]
fn window_maps_a_point_into_its_own_space() {
    let w = window(1, 10, -20, 30, 40);
    let p = PointerLocation { x: 12 * 256 + 7, y: -256 };
    assert_eq!(w.to_local(p), PointerLocation { x: 2 * 256 + 7, y: 19 * 256 });
}

#[test]
fn hit_test_finds_the_topmost_window() {
    let s = three();
    assert_eq!(s.hit_test(px(10, 10)), Some((1, px(10, 10))));
    assert_eq!(s.hit_test(px(60, 60)), Some((2, px(10, 10))));
    assert_eq!(s.hit_test(px(149, 149)), Some((2, px(99, 99))));
    assert_eq!(s.hit_test(px(505, 505)), Some((3, px(5, 5))));
    assert_eq!(s.hit_index(px(60, 60)), Some(1));
}

#[test]
fn hit_test_finds_nothing_on_empty_space() {
    let s = three();
    assert_eq!(s.hit_test(px(300, 300)), None);
    assert_eq!(s.hit_test(px(-1, -1)), None);
    assert_eq!(s.hit_test(px(150, 150)), None);
    assert_eq!(WindowStack::new().hit_test(px(0, 0)), None);
    assert_eq!(s.hit_index(px(300, 300)), None);
}

#[test]
fn hit_test_follows_the_z_order() {
    let mut s = three();
    assert_eq!(s.hit_test(px(60, 60)).map(|h| h.0), Some(2));
    assert!(s.raise(1));
    assert_eq!(s.hit_test(px(60, 60)), Some((1, px(60, 60))));
}

#[test]
fn raise_moves_to_the_top_and_keeps_the_rest_in_order() {
    let mut s = three();
    assert!(s.raise(1));
    assert_eq!(ids(&s), vec![2, 3, 1]);
    assert!(s.raise(3));
    assert_eq!(ids(&s), vec![2, 1, 3]);
    assert!(s.raise(3));
    assert_eq!(ids(&s), vec![2, 1, 3]);
    assert!(!s.raise(9));
    assert_eq!(ids(&s), vec![2, 1, 3]);
    assert_eq!(s.len(), 3);
}

#[test]
fn find_and_get_go_by_identity() {
    let s = three();
    assert_eq!(s.find(1), Some(0));
    assert_eq!(s.find(3), Some(2));
    assert_eq!(s.find(4), None);
    assert_eq!(s.get(2), Some(window(2, 50, 50, 100, 100)));
    assert_eq!(s.get(0), None);
}

#[test]
fn set_location_and_size_touch_one_window() {
    let mut s = three();
    assert!(s.set_location(2, Point { x: -7, y: 8 }));
    assert!(s.set_size(2, Size { w: 1, h: 2 }));
    assert_eq!(s.get(2), Some(window(2, -7, 8, 1, 2)));
    assert_eq!(s.get(1), Some(window(1, 0, 0, 100, 100)));
    assert_eq!(ids(&s), vec![1, 2, 3]);
    assert!(!s.set_location(9, Point { x: 0, y: 0 }));
    assert!(!s.set_size(9, Size { w: 0, h: 0 }));
}

#[test]
fn remove_takes_one_window_out() {
    let mut s = three();
    assert_eq!(s.remove(2), Some(window(2, 50, 50, 100, 100)));
    assert_eq!(ids(&s), vec![1, 3]);
    assert_eq!(s.remove(2), None);
    assert_eq!(ids(&s), vec![1, 3]);
}

#[test]
fn at_most_one_window_is_activated() {
    let mut s = three();
    assert_eq!(s.active(), None);
    s.activate_only(2);
    assert_eq!(s.active(), Some(2));
    assert_eq!(s.windows.iter().filter(|w| w.activated).count(), 1);
    s.activate_only(3);
    assert_eq!(s.active(), Some(3));
    assert_eq!(s.windows.iter().filter(|w| w.activated).count(), 1);
    assert_eq!(ids(&s), vec![1, 2, 3]);
    s.activate_only(99);
    assert_eq!(s.active(), None);
    assert_eq!(s.windows.iter().filter(|w| w.activated).count(), 0);
}

#[test]
fn activation_survives_raise_and_goes_with_remove() {
    let mut s = three();
    s.activate_only(1);
    s.raise(1);
    assert_eq!(s.active(), Some(1));
    s.raise(2);
    assert_eq!(s.active(), Some(1));
    s.remove(3);
    assert_eq!(s.active(), Some(1));
    s.remove(1);
    assert_eq!(s.active(), None);
}
