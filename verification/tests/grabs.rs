use nanaimo::edges::{CursorIcon, ResizeEdge};
use nanaimo::geometry::{Point, PointerLocation, Size};
use nanaimo::grabs::{
    GrabStartData, PointerMoveSurfaceGrab, PointerResizeSurfaceGrab, ResizeData, ResizeState,
    SurfaceData,
};

fn at(x: f64, y: f64) -> PointerLocation {
    PointerLocation { x: (x * 256.0).round() as i64, y: (y * 256.0).round() as i64 }
}

fn start_at(x: f64, y: f64) -> GrabStartData {
    GrabStartData { focus: None, button: 272, location: at(x, y) }
}

fn resize_grab(edges: ResizeEdge, w: i32, h: i32) -> PointerResizeSurfaceGrab {
    PointerResizeSurfaceGrab {
        start_data: start_at(100.0, 100.0),
        window: 1,
        edges,
        initial_window_location: Point { x: 10, y: 20 },
        initial_window_size: Size { w, h },
        last_window_size: Size { w, h },
    }
}

fn data(edges: ResizeEdge) -> ResizeData {
    ResizeData {
        edges,
        initial_window_location: Point { x: 10, y: 20 },
        initial_window_size: Size { w: 200, h: 100 },
    }
}

#[test]
fn move_follows_the_pointer() {
    let g = PointerMoveSurfaceGrab {
        start_data: start_at(100.0, 100.0),
        window: 1,
        initial_window_location: Point { x: 10, y: 20 },
    };
    assert_eq!(g.motion(at(100.0, 100.0)), Point { x: 10, y: 20 });
    assert_eq!(g.motion(at(130.0, 95.0)), Point { x: 40, y: 15 });
    assert_eq!(g.motion(at(0.0, 0.0)), Point { x: -90, y: -80 });
}

#[test]
fn move_rounds_to_the_nearest_unit() {
    let g = PointerMoveSurfaceGrab {
        start_data: start_at(100.0, 100.0),
        window: 1,
        initial_window_location: Point { x: 10, y: 20 },
    };
    assert_eq!(g.motion(at(150.5, 90.25)), Point { x: 61, y: 10 });
    assert_eq!(g.motion(at(150.25, 89.5)), Point { x: 60, y: 10 });
    assert_eq!(g.motion(at(49.5, 60.5)), Point { x: -41, y: -20 });
    let expected_x = (10.0f64 + (150.5 - 100.0)).round() as i32;
    assert_eq!(g.motion(at(150.5, 100.0)).x, expected_x);
}

#[test]
fn move_stops_at_the_ends_of_i32() {
    let g = PointerMoveSurfaceGrab {
        start_data: GrabStartData {
            focus: None,
            button: 272,
            location: PointerLocation { x: i64::MIN, y: i64::MAX },
        },
        window: 1,
        initial_window_location: Point { x: i32::MAX, y: i32::MIN },
    };
    let p = g.motion(PointerLocation { x: i64::MAX, y: i64::MIN });
    assert_eq!(p, Point { x: i32::MAX, y: i32::MIN });
}

#[test]
fn move_ends_when_no_button_is_held() {
    let g = PointerMoveSurfaceGrab {
        start_data: start_at(0.0, 0.0),
        window: 1,
        initial_window_location: Point { x: 0, y: 0 },
    };
    assert!(g.button(0));
    assert!(!g.button(1));
    assert!(!g.button(3));
}

#[test]
fn resize_right_edge_clamps_width_to_one() {
    let mut g = resize_grab(ResizeEdge::Right, 200, 100);
    let step = g.motion(at(100.0 - 500.0, 100.0));
    assert_eq!(step.size, Size { w: 1, h: 100 });
    assert!(step.size.w > 0);
    assert_eq!(g.last_window_size, Size { w: 1, h: 100 });
}

#[test]
fn resize_grows_with_the_pointer_on_right_and_bottom() {
    let mut g = resize_grab(ResizeEdge::BottomRight, 200, 100);
    let step = g.motion(at(130.0, 150.0));
    assert_eq!(step.size, Size { w: 230, h: 150 });
    assert_eq!(step.cursor, CursorIcon::SeResize);
    assert_eq!(step.ledger, ResizeState::Resizing(data(ResizeEdge::BottomRight)));
    let step = g.motion(at(90.0, 80.0));
    assert_eq!(step.size, Size { w: 190, h: 80 });
}

#[test]
fn resize_grows_against_the_pointer_on_left_and_top() {
    let mut g = resize_grab(ResizeEdge::TopLeft, 200, 100);
    let step = g.motion(at(70.0, 60.0));
    assert_eq!(step.size, Size { w: 230, h: 140 });
    assert_eq!(step.cursor, CursorIcon::NwResize);
    let step = g.motion(at(350.0, 250.0));
    assert_eq!(step.size, Size { w: 1, h: 1 });
}

#[test]
fn resize_leaves_the_other_extent_alone() {
    let mut g = resize_grab(ResizeEdge::Top, 200, 100);
    assert_eq!(g.motion(at(500.0, 90.0)).size, Size { w: 200, h: 110 });
    let mut g = resize_grab(ResizeEdge::Left, 200, 100);
    assert_eq!(g.motion(at(90.0, 500.0)).size, Size { w: 210, h: 100 });
    let mut g = resize_grab(ResizeEdge::Bottom, 200, 100);
    assert_eq!(g.motion(at(0.0, 101.0)).size, Size { w: 200, h: 101 });
    let mut g = resize_grab(ResizeEdge::Right, 200, 100);
    assert_eq!(g.motion(at(101.0, 0.0)).size, Size { w: 201, h: 100 });
}

#[test]
fn resize_drops_the_fraction() {
    let mut g = resize_grab(ResizeEdge::BottomRight, 200, 100);
    assert_eq!(g.motion(at(100.75, 99.25)).size, Size { w: 200, h: 99 });
    let mut g = resize_grab(ResizeEdge::TopLeft, 200, 100);
    assert_eq!(g.motion(at(100.75, 99.25)).size, Size { w: 199, h: 100 });
    let expected = (200.0f64 + 0.75) as i32;
    let mut g = resize_grab(ResizeEdge::Right, 200, 100);
    assert_eq!(g.motion(at(100.75, 100.0)).size.w, expected);
}

#[test]
fn resize_floors_a_degenerate_initial_size() {
    let mut g = resize_grab(ResizeEdge::Right, 0, -5);
    assert_eq!(g.motion(at(100.0, 100.0)).size, Size { w: 1, h: 1 });
}

#[test]
fn resize_stops_at_the_end_of_i32() {
    let mut g = resize_grab(ResizeEdge::BottomRight, i32::MAX, i32::MAX);
    let step = g.motion(PointerLocation { x: i64::MAX, y: i64::MAX });
    assert_eq!(step.size, Size { w: i32::MAX, h: i32::MAX });
    let step = g.motion(PointerLocation { x: i64::MIN, y: i64::MIN });
    assert_eq!(step.size, Size { w: 1, h: 1 });
}

#[test]
fn resize_motion_is_idempotent_per_sample() {
    let mut g = resize_grab(ResizeEdge::TopRight, 200, 100);
    let first = g.motion(at(140.0, 60.0));
    let second = g.motion(at(140.0, 60.0));
    assert_eq!(first, second);
    assert_eq!(g.resize_data(), data(ResizeEdge::TopRight));
}

#[test]
fn resize_release_proposes_the_last_size() {
    let mut g = resize_grab(ResizeEdge::Right, 200, 100);
    assert_eq!(g.button(1), None);
    g.motion(at(150.0, 100.0));
    assert_eq!(g.button(2), None);
    assert_eq!(g.button(0), Some(Size { w: 250, h: 100 }));
}

#[test]
fn ledger_starts_at_rest() {
    assert_eq!(SurfaceData::new().resize_state, ResizeState::NotResizing);
    assert_eq!(ResizeState::default(), ResizeState::NotResizing);
}

#[test]
fn ledger_walks_through_the_handshake() {
    let d = data(ResizeEdge::TopLeft);
    let mut s = SurfaceData::new();
    s.resize_motion(d);
    assert_eq!(s.resize_state, ResizeState::Resizing(d));
    s.resize_motion(d);
    assert_eq!(s.resize_state, ResizeState::Resizing(d));
    s.resize_finished(17);
    assert_eq!(s.resize_state, ResizeState::WaitingForFinalAck(d, 17));
    assert!(s.ack_configure(17));
    assert_eq!(s.resize_state, ResizeState::WaitingForCommit(d));
    let p = s.commit(Point { x: 0, y: 0 }, Size { w: 150, h: 120 });
    assert_eq!(p, Point { x: 60, y: 0 });
    assert_eq!(s.resize_state, ResizeState::NotResizing);
}

#[test]
fn ledger_ignores_a_stale_ack() {
    let d = data(ResizeEdge::Left);
    let mut s = SurfaceData { resize_state: ResizeState::WaitingForFinalAck(d, 17) };
    assert!(!s.ack_configure(16));
    assert!(!s.ack_configure(18));
    assert!(!s.ack_configure(0));
    assert_eq!(s.resize_state, ResizeState::WaitingForFinalAck(d, 17));
}

#[test]
fn ledger_ignores_an_ack_in_every_other_state() {
    let d = data(ResizeEdge::Left);
    for state in
        [ResizeState::NotResizing, ResizeState::Resizing(d), ResizeState::WaitingForCommit(d)]
    {
        let mut s = SurfaceData { resize_state: state };
        assert!(!s.ack_configure(17));
        assert_eq!(s.resize_state, state);
    }
}

#[test]
fn ledger_never_skips_the_acknowledgement() {
    let mut s = SurfaceData::new();
    assert!(!s.ack_configure(1));
    s.resize_finished(1);
    s.commit(Point { x: 0, y: 0 }, Size { w: 1, h: 1 });
    assert_eq!(s.resize_state, ResizeState::NotResizing);
    let d = data(ResizeEdge::Right);
    let mut s = SurfaceData { resize_state: ResizeState::WaitingForFinalAck(d, 5) };
    s.resize_finished(6);
    assert_eq!(s.resize_state, ResizeState::WaitingForFinalAck(d, 5));
    s.commit(Point { x: 0, y: 0 }, Size { w: 1, h: 1 });
    assert_eq!(s.resize_state, ResizeState::WaitingForFinalAck(d, 5));
}

#[test]
fn commit_while_dragging_keeps_resizing() {
    let d = data(ResizeEdge::TopLeft);
    let mut s = SurfaceData { resize_state: ResizeState::Resizing(d) };
    let p = s.commit(Point { x: 10, y: 20 }, Size { w: 230, h: 140 });
    assert_eq!(p, Point { x: -20, y: -20 });
    assert_eq!(s.resize_state, ResizeState::Resizing(d));
}

#[test]
fn commit_anchors_top_left_and_leaves_bottom_right() {
    let (x0, y0, w0, h0) = (10, 20, 200, 100);
    let (w2, h2) = (180, 130);
    let top_left = data(ResizeEdge::TopLeft);
    let mut s = SurfaceData { resize_state: ResizeState::WaitingForCommit(top_left) };
    let p = s.commit(Point { x: 999, y: -999 }, Size { w: w2, h: h2 });
    assert_eq!(p, Point { x: x0 + (w0 - w2), y: y0 + (h0 - h2) });
    assert_eq!(p.x + w2, x0 + w0);
    assert_eq!(p.y + h2, y0 + h0);
    let bottom_right = data(ResizeEdge::BottomRight);
    let mut s = SurfaceData { resize_state: ResizeState::WaitingForCommit(bottom_right) };
    let p = s.commit(Point { x: 999, y: -999 }, Size { w: w2, h: h2 });
    assert_eq!(p, Point { x: 999, y: -999 });
}

#[test]
fn commit_anchors_each_axis_by_its_own_edge() {
    let current = Point { x: 1, y: 2 };
    let size = Size { w: 150, h: 150 };
    assert_eq!(data(ResizeEdge::Left).anchored_location(current, size), Some(Point { x: 60, y: 2 }));
    assert_eq!(data(ResizeEdge::Top).anchored_location(current, size), Some(Point { x: 1, y: -30 }));
    assert_eq!(
        data(ResizeEdge::BottomLeft).anchored_location(current, size),
        Some(Point { x: 60, y: 2 })
    );
    assert_eq!(
        data(ResizeEdge::TopRight).anchored_location(current, size),
        Some(Point { x: 1, y: -30 })
    );
    assert_eq!(data(ResizeEdge::Right).anchored_location(current, size), Some(current));
    assert_eq!(data(ResizeEdge::NoEdge).anchored_location(current, size), Some(current));
}

#[test]
fn commit_outside_a_resize_leaves_the_window() {
    let d = data(ResizeEdge::TopLeft);
    for state in [ResizeState::NotResizing, ResizeState::WaitingForFinalAck(d, 3)] {
        let mut s = SurfaceData { resize_state: state };
        let p = s.commit(Point { x: 5, y: 6 }, Size { w: 1, h: 1 });
        assert_eq!(p, Point { x: 5, y: 6 });
        assert_eq!(s.resize_state, state);
    }
}

#[test]
fn commit_that_cannot_be_anchored_leaves_the_window() {
    let d = ResizeData {
        edges: ResizeEdge::TopLeft,
        initial_window_location: Point { x: i32::MAX, y: 0 },
        initial_window_size: Size { w: 2, h: 2 },
    };
    assert_eq!(d.anchored_location(Point { x: 7, y: 8 }, Size { w: 1, h: 1 }), None);
    let mut s = SurfaceData { resize_state: ResizeState::WaitingForCommit(d) };
    let p = s.commit(Point { x: 7, y: 8 }, Size { w: 1, h: 1 });
    assert_eq!(p, Point { x: 7, y: 8 });
    assert_eq!(s.resize_state, ResizeState::NotResizing);
}
