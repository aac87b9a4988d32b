use nanaimo::edges::ResizeEdge;
use nanaimo::events::Event;
use nanaimo::geometry::{Point, PointerLocation, Size};
use nanaimo::grabs::ResizeState;
use nanaimo::state::{Action, AxisEvent, Grab, NanaimoState};

fn at(x: i64, y: i64) -> PointerLocation {
    PointerLocation { x: x * 256, y: y * 256 }
}

fn script() -> Vec<Event> {
    vec![
        Event::NewSurface { surface: 1 },
        Event::NewToplevel { surface: 1, serial: 1, now: 0 },
        Event::Commit { surface: 1, size: Size { w: 200, h: 100 } },
        Event::NewSurface { surface: 2 },
        Event::NewToplevel { surface: 2, serial: 2, now: 10 },
        Event::Commit { surface: 2, size: Size { w: 50, h: 50 } },
        Event::Tick { now: 100 },
        Event::PointerMotion { location: at(120, 60), time: 1, serial: 3 },
        Event::PointerButton { button: 272, pressed: true, time: 2, serial: 4 },
        Event::ResizeRequest { surface: 1, serial: 4, edges: ResizeEdge::TopLeft },
        Event::MoveRequest { surface: 2, serial: 4 },
        Event::PointerMotion { location: at(100, 50), time: 3, serial: 5 },
        Event::AckConfigure { surface: 1, serial: 5 },
        Event::Commit { surface: 1, size: Size { w: 220, h: 110 } },
        Event::PointerAxis {
            event: AxisEvent {
                time: 4,
                vertical_v120: Some(120),
                vertical: None,
                horizontal_v120: None,
                horizontal: None,
            },
        },
        Event::Key { keycode: 30, pressed: true, time: 5, serial: 6 },
        Event::PointerButton { button: 272, pressed: false, time: 6, serial: 7 },
        Event::FinalConfigureSent { surface: 1, serial: 40 },
        Event::AckConfigure { surface: 1, serial: 39 },
        Event::RequestActivation { surface: 2 },
        Event::AckConfigure { surface: 1, serial: 40 },
        Event::Commit { surface: 1, size: Size { w: 220, h: 110 } },
        Event::PointerMotion { location: at(10, 10), time: 7, serial: 8 },
        Event::PointerButton { button: 272, pressed: true, time: 8, serial: 9 },
        Event::PointerButton { button: 272, pressed: false, time: 9, serial: 10 },
        Event::ToplevelDestroyed { surface: 2 },
        Event::Tick { now: 10_000 },
        Event::ToplevelDestroyed { surface: 1 },
    ]
}

#[test]
fn the_invariant_holds_after_every_event() {
    let mut s = NanaimoState::new();
    assert!(s.is_valid());
    for event in script() {
        s.handle(event);
        assert!(s.is_valid(), "after {:?}", event);
        assert!(s.space.windows.iter().filter(|w| w.activated).count() <= 1);
        let active = s.space.windows.iter().find(|w| w.activated).map(|w| w.id);
        assert_eq!(active, s.keyboard_focus);
        assert_eq!(s.grab == Grab::Idle, s.pressed_buttons.is_empty());
    }
    assert_eq!(s.space.len(), 0);
}

#[test]
fn the_invariant_check_finds_a_broken_state() {
    let mut s = NanaimoState::new();
    s.handle(Event::NewToplevel { surface: 1, serial: 1, now: 0 });
    s.handle(Event::NewToplevel { surface: 2, serial: 2, now: 0 });
    assert!(s.is_valid());
    let mut two_active = NanaimoState::new();
    two_active.space.windows = s.space.windows.clone();
    two_active.space.windows[0].activated = true;
    two_active.keyboard_focus = Some(2);
    assert!(!two_active.is_valid());
    let mut twins = NanaimoState::new();
    twins.space.windows = s.space.windows.clone();
    twins.space.windows[0].id = 2;
    twins.keyboard_focus = Some(2);
    assert!(!twins.is_valid());
    s.keyboard_focus = Some(1);
    assert!(!s.is_valid());
    s.keyboard_focus = Some(2);
    assert!(s.is_valid());
    s.pressed_buttons.push(272);
    assert!(!s.is_valid());
}

#[test]
fn the_ledger_never_skips_a_station() {
    let mut s = NanaimoState::new();
    let mut before = s.resize_state(1);
    for event in script() {
        s.handle(event);
        let after = s.resize_state(1);
        if matches!(before, ResizeState::NotResizing) {
            assert!(!matches!(after, ResizeState::WaitingForCommit(_)));
        }
        if matches!(after, ResizeState::WaitingForCommit(_)) {
            assert!(matches!(
                before,
                ResizeState::WaitingForFinalAck(_, _) | ResizeState::WaitingForCommit(_)
            ));
        }
        if matches!(before, ResizeState::WaitingForFinalAck(_, _))
            && matches!(after, ResizeState::Resizing(_))
        {
            assert!(matches!(event, Event::PointerMotion { .. }));
        }
        before = after;
    }
}

#[test]
fn the_script_visits_every_station() {
    let mut s = NanaimoState::new();
    let mut seen = Vec::new();
    for event in script() {
        s.handle(event);
        let station = match s.resize_state(1) {
            ResizeState::NotResizing => 0,
            ResizeState::Resizing(_) => 1,
            ResizeState::WaitingForFinalAck(_, _) => 2,
            ResizeState::WaitingForCommit(_) => 3,
        };
        if seen.last() != Some(&station) {
            seen.push(station);
        }
    }
    assert_eq!(seen, vec![0, 1, 2, 3, 0]);
}

#[test]
fn handle_does_what_the_entry_points_do() {
    let mut by_event = NanaimoState::new();
    let mut by_call = NanaimoState::new();
    for event in script() {
        let left = by_event.handle(event);
        let right: Vec<Action> = match event {
            Event::NewSurface { surface } => {
                by_call.new_surface(surface);
                vec![]
            }
            Event::NewToplevel { surface, serial, now } => by_call.new_toplevel(surface, serial, now),
            Event::ToplevelDestroyed { surface } => {
                by_call.toplevel_destroyed(surface);
                vec![]
            }
            Event::AckConfigure { surface, serial } => {
                by_call.ack_configure(surface, serial);
                vec![]
            }
            Event::FinalConfigureSent { surface, serial } => {
                by_call.final_configure_sent(surface, serial);
                vec![]
            }
            Event::Commit { surface, size } => by_call.commit(surface, size),
            Event::MoveRequest { surface, serial } => by_call.move_request(surface, serial),
            Event::ResizeRequest { surface, serial, edges } => {
                by_call.resize_request(surface, serial, edges)
            }
            Event::RequestActivation { surface } => by_call.request_activation(surface),
            Event::PointerMotion { location, time, serial } => {
                by_call.on_pointer_move_absolute(location, time, serial)
            }
            Event::PointerButton { button, pressed, time, serial } => {
                by_call.on_pointer_button(button, pressed, time, serial)
            }
            Event::PointerAxis { event } => by_call.on_pointer_axis(event),
            Event::Key { keycode, pressed, time, serial } => {
                by_call.on_keyboard_key(keycode, pressed, time, serial)
            }
            Event::Tick { now } => {
                by_call.tick(now);
                vec![]
            }
        };
        assert_eq!(left, right);
        assert_eq!(by_event.space.windows, by_call.space.windows);
        assert_eq!(by_event.grab, by_call.grab);
        assert_eq!(by_event.keyboard_focus, by_call.keyboard_focus);
        assert_eq!(by_event.resize_state(1), by_call.resize_state(1));
        assert_eq!(by_event.get_alpha(1), by_call.get_alpha(1));
    }
}

#[test]
fn a_resize_through_events_anchors_the_far_corner() {
    let mut s = NanaimoState::new();
    for event in script().into_iter().take(22) {
        s.handle(event);
    }
    let w = s.space.get(1).unwrap();
    assert_eq!(w.size, Size { w: 220, h: 110 });
    assert_eq!(w.location, Point { x: -20, y: -10 });
    assert_eq!(w.location.x + w.size.w, 200);
    assert_eq!(w.location.y + w.size.h, 100);
    assert_eq!(s.resize_state(1), ResizeState::NotResizing);
}

#[test]
fn a_stale_ack_changes_nothing_at_all() {
    let mut s = NanaimoState::new();
    for event in script().into_iter().take(18) {
        s.handle(event);
    }
    assert!(matches!(s.resize_state(1), ResizeState::WaitingForFinalAck(_, 40)));
    let windows = s.space.windows.clone();
    let grab = s.grab;
    for serial in [0u32, 1, 39, 41, u32::MAX] {
        assert_eq!(s.handle(Event::AckConfigure { surface: 1, serial }), vec![]);
        assert!(matches!(s.resize_state(1), ResizeState::WaitingForFinalAck(_, 40)));
        assert_eq!(s.space.windows, windows);
        assert_eq!(s.grab, grab);
    }
    assert_eq!(s.handle(Event::AckConfigure { surface: 2, serial: 40 }), vec![]);
    assert!(matches!(s.resize_state(1), ResizeState::WaitingForFinalAck(_, 40)));
    assert_eq!(s.resize_state(2), ResizeState::NotResizing);
}
