//! The interaction state as one state machine: every entry point is a case
//! of one step from state and event to state and intents, and what holds of
//! every step holds of every run.

use vstd::prelude::*;
use crate::animations::all_ticked;
use crate::edges::ResizeEdge;
use crate::geometry::{PointerLocation, Size};
use crate::grabs::ResizeState;
use crate::stack::{
    activated_only, active_window, at_most_one_activated, distinct_ids, has_window,
    lemma_activated_only, lemma_active_is_window, lemma_push_active,
    lemma_raised_keeps_windows, lemma_remove_active, lemma_remove_keeps_others,
    lemma_update_keeps_windows, placed, position_of, sized, Window,
};
use crate::state::{
    axis_frame, lemma_focus_on_press_keeps_invariant, without, Action, AxisEvent, Grab, Model,
    NanaimoState,
};

verus! {

/// Everything that can happen to the interaction state.
#[derive(Clone, Copy, Debug, PartialEq, Eq, Structural)]
pub enum Event {
    /// A surface was created.
    NewSurface { surface: u64 },
    /// A top-level window was created on the surface, at time `now`.
    NewToplevel { surface: u64, serial: u32, now: u64 },
    /// The window of the surface was unmapped or destroyed.
    ToplevelDestroyed { surface: u64 },
    /// The client acknowledged a configure.
    AckConfigure { surface: u64, serial: u32 },
    /// The final configure of a resize went out under `serial`.
    FinalConfigureSent { surface: u64, serial: u32 },
    /// The client committed a buffer; its window geometry has `size`.
    Commit { surface: u64, size: Size },
    /// The client asked for an interactive move.
    MoveRequest { surface: u64, serial: u32 },
    /// The client asked for an interactive resize.
    ResizeRequest { surface: u64, serial: u32, edges: ResizeEdge },
    /// The client asked for attention to its window.
    RequestActivation { surface: u64 },
    /// The pointer moved.
    PointerMotion { location: PointerLocation, time: u32, serial: u32 },
    /// A pointer button went down or came up.
    PointerButton { button: u32, pressed: bool, time: u32, serial: u32 },
    /// The pointer scrolled.
    PointerAxis { event: AxisEvent },
    /// A key went down or came up.
    Key { keycode: u32, pressed: bool, time: u32, serial: u32 },
    /// A frame is about to be drawn, at time `now`.
    Tick { now: u64 },
}

impl Model {
    /// The state and the intents after `event`.
    pub open spec fn step(self, event: Event) -> (Model, Seq<Action>) {
        match event {
            Event::NewSurface { surface } => (self.on_new_surface(surface), Seq::empty()),
            Event::NewToplevel { surface, serial, now } => self.on_new_toplevel(
                surface,
                serial,
                now,
            ),
            Event::ToplevelDestroyed { surface } => (
                self.on_toplevel_destroyed(surface),
                Seq::empty(),
            ),
            Event::AckConfigure { surface, serial } => (
                self.on_ack_configure(surface, serial),
                Seq::empty(),
            ),
            Event::FinalConfigureSent { surface, serial } => (
                self.on_final_configure_sent(surface, serial),
                Seq::empty(),
            ),
            Event::Commit { surface, size } => self.on_commit(surface, size),
            Event::MoveRequest { surface, serial } => self.on_move_request(surface, serial),
            Event::ResizeRequest { surface, serial, edges } => self.on_resize_request(
                surface,
                serial,
                edges,
            ),
            Event::RequestActivation { surface } => self.on_request_activation(surface),
            Event::PointerMotion { location, time, serial } => self.on_motion(
                location,
                time,
                serial,
            ),
            Event::PointerButton { button, pressed, time, serial } => self.on_button(
                button,
                pressed,
                time,
                serial,
            ),
            Event::PointerAxis { event } => (
                self,
                seq![Action::Axis { frame: axis_frame(event) }, Action::Frame],
            ),
            Event::Key { keycode, pressed, time, serial } => (
                self,
                seq![Action::Key { keycode, pressed, serial, time }],
            ),
            Event::Tick { now } => (
                Model { animations: all_ticked(self.animations, now), ..self },
                Seq::empty(),
            ),
        }
    }

    /// The state after every event of `events`, in order.
    pub open spec fn run(self, events: Seq<Event>) -> Model
        decreases events.len(),
    {
        if events.len() == 0 {
            self
        } else {
            self.run(events.drop_last()).step(events.last()).0
        }
    }
}

impl NanaimoState {
    /// Takes one event, moves the state on, and returns what is to be
    /// carried out.
    pub fn handle(&mut self, event: Event) -> (actions: Vec<Action>)
        requires
            old(self).wf(),
        ensures
            final(self)@ == old(self)@.step(event).0,
            actions@ == old(self)@.step(event).1,
            final(self).wf(),
    {
        match event {
            Event::NewSurface { surface } => {
                self.new_surface(surface);
                Vec::new()
            },
            Event::NewToplevel { surface, serial, now } => self.new_toplevel(surface, serial, now),
            Event::ToplevelDestroyed { surface } => {
                self.toplevel_destroyed(surface);
                Vec::new()
            },
            Event::AckConfigure { surface, serial } => {
                self.ack_configure(surface, serial);
                Vec::new()
            },
            Event::FinalConfigureSent { surface, serial } => {
                self.final_configure_sent(surface, serial);
                Vec::new()
            },
            Event::Commit { surface, size } => self.commit(surface, size),
            Event::MoveRequest { surface, serial } => self.move_request(surface, serial),
            Event::ResizeRequest { surface, serial, edges } => self.resize_request(
                surface,
                serial,
                edges,
            ),
            Event::RequestActivation { surface } => self.request_activation(surface),
            Event::PointerMotion { location, time, serial } => self.on_pointer_move_absolute(
                location,
                time,
                serial,
            ),
            Event::PointerButton { button, pressed, time, serial } => self.on_pointer_button(
                button,
                pressed,
                time,
                serial,
            ),
            Event::PointerAxis { event } => self.on_pointer_axis(event),
            Event::Key { keycode, pressed, time, serial } => self.on_keyboard_key(
                keycode,
                pressed,
                time,
                serial,
            ),
            Event::Tick { now } => {
                self.tick(now);
                Vec::new()
            },
        }
    }
}

/// A window on top of a stack of others keeps identities unique where its
/// own is new.
proof fn lemma_push_keeps_ids(s: Seq<Window>, w: Window)
    requires
        distinct_ids(s),
        at_most_one_activated(s),
        !has_window(s, w.id),
        w.activated ==> active_window(s) is None,
    ensures
        distinct_ids(s.push(w)),
        at_most_one_activated(s.push(w)),
{
    let t = s.push(w);
    lemma_active_is_window(s);
    assert forall|i: int, j: int|
        0 <= i < t.len() && 0 <= j < t.len() && #[trigger] t[i].id == #[trigger] t[j].id
        implies i == j by {
        if i < s.len() {
            assert(s[i].id == t[i].id);
        }
        if j < s.len() {
            assert(s[j].id == t[j].id);
        }
    }
    assert forall|i: int, j: int|
        0 <= i < t.len() && 0 <= j < t.len() && #[trigger] t[i].activated
            && #[trigger] t[j].activated implies i == j by {
        if i < s.len() {
            assert(s[i].activated);
        }
        if j < s.len() {
            assert(s[j].activated);
        }
    }
}

/// Every step keeps the state's invariant. So whatever has happened, at
/// most one window is activated, the activated window is the one that holds
/// the keyboard focus, and the pointer is grabbed exactly while a button is
/// held.
pub proof fn lemma_step_keeps_invariant(m: Model, event: Event)
    requires
        m.wf(),
    ensures
        m.step(event).0.wf(),
{
    match event {
        Event::NewToplevel { surface, serial, now } => {
            if !has_window(m.windows, surface) {
                lemma_activated_only(m.windows, surface);
                let cleared = activated_only(m.windows, surface);
                let w = crate::handlers::fresh_window(surface);
                lemma_push_keeps_ids(cleared, w);
                lemma_push_active(cleared, w);
            }
        },
        Event::ToplevelDestroyed { surface } => {
            lemma_active_is_window(m.windows);
            if has_window(m.windows, surface) {
                let i = position_of(m.windows, surface);
                lemma_remove_keeps_others(m.windows, i);
                lemma_remove_active(m.windows, i);
            }
        },
        Event::Commit { surface, size } => {
            if has_window(m.windows, surface) {
                lemma_commit_keeps_windows(m, surface, size);
            }
        },
        Event::RequestActivation { surface } => {
            if has_window(m.windows, surface) {
                lemma_raised_keeps_windows(m.windows, position_of(m.windows, surface));
            }
        },
        Event::PointerMotion { location, time, serial } => {
            if let Grab::Move(g) = m.grab {
                if has_window(m.windows, g.window) {
                    let i = position_of(m.windows, g.window);
                    lemma_update_keeps_windows(
                        m.windows,
                        i,
                        Window { location: g.spec_motion(location), ..m.windows[i] },
                    );
                }
            }
        },
        Event::PointerButton { button, pressed, time, serial } => {
            lemma_focus_on_press_keeps_invariant(m, serial);
            assert(without(Seq::<u32>::empty(), button) =~= Seq::<u32>::empty());
        },
        _ => {},
    }
}

/// A commit keeps the set of windows, their order and their flags.
proof fn lemma_commit_keeps_windows(m: Model, surface: u64, size: Size)
    requires
        m.wf(),
        has_window(m.windows, surface),
    ensures
        m.on_commit(surface, size).0.wf(),
        m.on_commit(surface, size).0.windows.len() == m.windows.len(),
        forall|k: int|
            0 <= k < m.windows.len() ==> (#[trigger] m.on_commit(surface, size).0.windows[k]).id
                == m.windows[k].id && m.on_commit(surface, size).0.windows[k].activated
                == m.windows[k].activated,
{
    let i = position_of(m.windows, surface);
    let resized = sized(m.windows, surface, size);
    lemma_update_keeps_windows(m.windows, i, Window { size, ..m.windows[i] });
    assert(has_window(resized, surface));
    let j = position_of(resized, surface);
    assert(j == i);
    let to = crate::grabs::spec_commit_location(
        m.resize_state(surface),
        m.windows[i].location,
        size,
    );
    lemma_update_keeps_windows(resized, j, Window { location: to, ..resized[j] });
}

/// Every run from a state that meets the invariant ends in one that does:
/// at any time at most one window is activated.
pub proof fn lemma_run_keeps_invariant(m: Model, events: Seq<Event>)
    requires
        m.wf(),
    ensures
        m.run(events).wf(),
        at_most_one_activated(m.run(events).windows),
        m.run(events).keyboard_focus == active_window(m.run(events).windows),
    decreases events.len(),
{
    if events.len() > 0 {
        lemma_run_keeps_invariant(m, events.drop_last());
        lemma_step_keeps_invariant(m.run(events.drop_last()), events.last());
    }
}

/// The state before any event meets the invariant.
pub proof fn lemma_initial_state_is_valid()
    ensures
        Model::initial().wf(),
{
    lemma_active_is_window(Model::initial().windows);
}

/// What storing a ledger state does to the ledger of each surface.
proof fn lemma_with_resize_state(m: Model, stored: u64, state: ResizeState, surface: u64)
    ensures
        m.with_resize_state(stored, state).resize_state(surface) == (if surface == stored
            && m.surfaces.contains_key(stored) {
            state
        } else {
            m.resize_state(surface)
        }),
        m.with_resize_state(stored, state).windows == m.windows,
        m.with_resize_state(stored, state).grab == m.grab,
{
}

/// The ledger of `surface` after `event` is the ledger before it, moved on by
/// at most one ledger event; a surface whose window is destroyed loses its
/// ledger.
proof fn lemma_step_moves_ledger(m: Model, event: Event, surface: u64)
    ensures
        ({
            let before = m.resize_state(surface);
            let after = m.step(event).0.resize_state(surface);
            ||| after == before
            ||| event matches Event::AckConfigure { serial, .. } && after == before.after_ack(
                serial,
            )
            ||| event matches Event::FinalConfigureSent { serial, .. } && after
                == before.after_finish(serial)
            ||| event is Commit && after == before.after_commit()
            ||| event is ToplevelDestroyed && after is NotResizing
            ||| {
                &&& event is PointerMotion
                &&& m.grab matches Grab::Resize(g)
                &&& g.window == surface
                &&& after is Resizing
            }
        }),
{
    match event {
        Event::AckConfigure { surface: stored, serial } => {
            lemma_with_resize_state(
                m,
                stored,
                m.resize_state(stored).after_ack(serial),
                surface,
            );
        },
        Event::FinalConfigureSent { surface: stored, serial } => {
            lemma_with_resize_state(
                m,
                stored,
                m.resize_state(stored).after_finish(serial),
                surface,
            );
        },
        Event::Commit { surface: stored, size } => {
            if has_window(m.windows, stored) {
                let state = m.resize_state(stored);
                let current = m.windows[position_of(m.windows, stored)].location;
                let to = crate::grabs::spec_commit_location(state, current, size);
                let placed_model = Model {
                    windows: placed(sized(m.windows, stored, size), stored, to),
                    ..m
                };
                lemma_with_resize_state(placed_model, stored, state.after_commit(), surface);
                assert(placed_model.resize_state(surface) == m.resize_state(surface));
            }
        },
        Event::PointerMotion { location, time, serial } => {},
        Event::PointerButton { button, pressed, time, serial } => {
            let (m1, _) = if pressed && m.pressed.len() == 0 {
                m.focus_on_press(serial)
            } else {
                (m, Seq::<Action>::empty())
            };
            assert(m1.surfaces == m.surfaces);
            let m2 = Model { pressed: crate::state::after_button(m1.pressed, button, pressed), ..m1 };
            assert(m2.dispatch_button(button, pressed, time, serial).0.surfaces == m.surfaces);
        },
        Event::MoveRequest { surface: asked, serial } => {},
        Event::ResizeRequest { surface: asked, serial, edges } => {},
        _ => {},
    }
}

/// No step of the whole state skips a station of the resize handshake, on
/// any surface: a ledger comes to wait for a commit only from waiting for
/// the final acknowledgement, so never straight from rest; and one that
/// waits for the final acknowledgement goes back to `Resizing` only by a
/// motion sample of a resize grab on that very surface.
pub proof fn lemma_step_keeps_ledger_order(m: Model, event: Event, surface: u64)
    ensures
        ({
            let before = m.resize_state(surface);
            let after = m.step(event).0.resize_state(surface);
            &&& after is WaitingForCommit ==> before is WaitingForFinalAck || before
                is WaitingForCommit
            &&& before is NotResizing ==> !(after is WaitingForCommit)
            &&& before is WaitingForFinalAck && after is Resizing ==> {
                &&& event is PointerMotion
                &&& m.grab matches Grab::Resize(g)
                &&& g.window == surface
            }
        }),
{
    lemma_step_moves_ledger(m, event, surface);
}

/// An acknowledgement of any serial but the awaited one changes nothing at
/// all, and neither does one for a surface whose ledger does not wait for an
/// acknowledgement.
pub proof fn lemma_stale_ack_changes_nothing(m: Model, surface: u64, serial: u32)
    requires
        !(m.resize_state(surface) matches ResizeState::WaitingForFinalAck(_, s) && s == serial),
    ensures
        m.step(Event::AckConfigure { surface, serial }) == (m, Seq::<Action>::empty()),
{
    let after = m.step(Event::AckConfigure { surface, serial }).0;
    assert(after.surfaces =~= m.surfaces);
}

/// While a move or resize grab is active it owns the pointer: a request for
/// another grab is turned down, and nothing but the release of the last
/// held button ends it.
pub proof fn lemma_active_grab_owns_the_pointer(m: Model, event: Event)
    requires
        m.wf(),
        m.grab is Move || m.grab is Resize,
    ensures
        event is MoveRequest || event is ResizeRequest ==> m.step(event) == (
            m,
            Seq::<Action>::empty(),
        ),
        m.step(event).0.grab is Idle ==> event is PointerButton && m.step(event).0.pressed.len()
            == 0,
        !(m.step(event).0.grab is Idle) ==> {
            &&& m.grab is Move ==> m.step(event).0.grab == m.grab
            &&& m.grab is Resize ==> m.step(event).0.grab is Resize
        },
{
}

} // verus!
