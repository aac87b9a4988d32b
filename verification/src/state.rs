//! The compositor's interaction state and its entry points.
//!
//! Every entry point takes one event, moves the state on, and returns what
//! the embedding program has to carry out: protocol messages to clients and
//! events to hand to the default input pipeline.

use vstd::prelude::*;
use crate::animations::{AnimationManager, WindowAnimationState};
use crate::edges::{spec_cursor_icon_for_edge, CursorIcon};
use crate::geometry::{Point, PointerLocation, Size};
use crate::grabs::{
    GrabStartData, PointerFocus, PointerMoveSurfaceGrab, PointerResizeSurfaceGrab, ResizeState,
    SurfaceData,
};
use crate::stack::{
    activated_only, active_window, at_most_one_activated, has_window, is_topmost_at,
    lemma_activated_only, lemma_active_is_window, lemma_position_of, lemma_raised_keeps_windows,
    lemma_topmost_at, nothing_at, placed, raised, topmost_at, Window, WindowStack,
};
use crate::table::Table;

verus! {

/// Who owns the pointer's event stream.
#[derive(Clone, Copy, Debug, PartialEq, Eq, Structural)]
pub enum Grab {
    /// Nobody: events take the default path.
    Idle,
    /// The client that was clicked, since the press with the given serial.
    Click(GrabStartData, u32),
    /// An interactive move.
    Move(PointerMoveSurfaceGrab),
    /// An interactive resize.
    Resize(PointerResizeSurfaceGrab),
}

/// How far one axis was scrolled.
#[derive(Clone, Copy, Debug, PartialEq, Eq, Structural)]
pub enum AxisAmount {
    /// Not at all.
    Still,
    /// By wheel steps, in 120ths of a notch.
    Discrete(i32),
    /// By a distance in sub-pixels.
    Continuous(i64),
}

/// A scroll event as the input backend reports it.
#[derive(Clone, Copy, Debug, PartialEq, Eq, Structural)]
pub struct AxisEvent {
    pub time: u32,
    pub vertical_v120: Option<i32>,
    pub vertical: Option<i64>,
    pub horizontal_v120: Option<i32>,
    pub horizontal: Option<i64>,
}

/// A scroll event as it is handed to the client.
#[derive(Clone, Copy, Debug, PartialEq, Eq, Structural)]
pub struct AxisFrame {
    pub time: u32,
    pub vertical: AxisAmount,
    pub horizontal: AxisAmount,
}

/// What the embedding program is asked to carry out.
#[derive(Clone, Copy, Debug, PartialEq, Eq, Structural)]
pub enum Action {
    /// Hand a motion sample to the default pointer pipeline under `focus`.
    Motion { focus: Option<PointerFocus>, location: PointerLocation, serial: u32, time: u32 },
    /// Take the pointer focus away from whoever holds it.
    ClearFocus { serial: u32 },
    /// Hand a button event to the default pointer pipeline.
    Button { button: u32, pressed: bool, serial: u32, time: u32 },
    /// Hand a scroll event to the default pointer pipeline.
    Axis { frame: AxisFrame },
    /// Close the group of pointer events handed over so far.
    Frame,
    /// Hand a key event to the client that holds the keyboard focus.
    Key { keycode: u32, pressed: bool, serial: u32, time: u32 },
    /// Set or clear the window's activated flag and send it a configure.
    Activated { window: u64, activated: bool },
    /// Propose `size` to the window in a configure, flagged as resizing or
    /// not. The serial of one that is not flagged is to be reported back.
    Resize { window: u64, size: Size, resizing: bool },
    /// Give the keyboard and selection focus to the window.
    KeyboardFocus { window: u64, serial: u32 },
    /// Show the window at `position`.
    Place { window: u64, position: Point },
    /// Show the window above all others.
    Raise { window: u64 },
    /// Show this cursor.
    Cursor { icon: CursorIcon },
}

/// The whole interaction state as plain mathematics.
#[verifier::ext_equal]
pub struct Model {
    /// The windows in z-order, the bottom one first.
    pub windows: Seq<Window>,
    /// The resize ledger, by surface.
    pub surfaces: Map<u64, SurfaceData>,
    /// The presentation state, by window.
    pub animations: Map<u64, WindowAnimationState>,
    /// Where the pointer is.
    pub pointer_location: PointerLocation,
    /// Who receives pointer events.
    pub pointer_focus: Option<PointerFocus>,
    /// Who would receive them if no grab were active.
    pub pending_focus: Option<PointerFocus>,
    /// The buttons that are held, in the order they went down.
    pub pressed: Seq<u32>,
    /// Who owns the pointer's event stream.
    pub grab: Grab,
    /// Who receives key events.
    pub keyboard_focus: Option<u64>,
    /// The cursor that is shown.
    pub cursor: CursorIcon,
}

/// The compositor's interaction state.
pub struct NanaimoState {
    pub space: WindowStack,
    pub surfaces: Table<SurfaceData>,
    pub animation_manager: AnimationManager,
    pub pointer_location: PointerLocation,
    pub pointer_focus: Option<PointerFocus>,
    pub pending_focus: Option<PointerFocus>,
    pub pressed_buttons: Vec<u32>,
    pub grab: Grab,
    pub keyboard_focus: Option<u64>,
    pub cursor_status: CursorIcon,
}

impl View for NanaimoState {
    type V = Model;

    open spec fn view(&self) -> Model {
        Model {
            windows: self.space@,
            surfaces: self.surfaces@,
            animations: self.animation_manager@,
            pointer_location: self.pointer_location,
            pointer_focus: self.pointer_focus,
            pending_focus: self.pending_focus,
            pressed: self.pressed_buttons@,
            grab: self.grab,
            keyboard_focus: self.keyboard_focus,
            cursor: self.cursor_status,
        }
    }
}

/// `s` without any occurrence of `button`, the rest in its order.
pub open spec fn without(s: Seq<u32>, button: u32) -> Seq<u32>
    decreases s.len(),
{
    if s.len() == 0 {
        s
    } else if s.last() == button {
        without(s.drop_last(), button)
    } else {
        without(s.drop_last(), button).push(s.last())
    }
}

/// The held buttons after `button` went down or came up.
pub open spec fn after_button(held: Seq<u32>, button: u32, pressed: bool) -> Seq<u32> {
    if pressed {
        held.push(button)
    } else {
        without(held, button)
    }
}

/// The window under `p` as a pointer focus.
pub open spec fn focus_under(s: Seq<Window>, p: PointerLocation) -> Option<PointerFocus> {
    match topmost_at(s, p) {
        Some(i) => Some(PointerFocus { window: s[i].id, origin: s[i].location }),
        None => None,
    }
}

impl Model {
    /// The state's invariant: window identities are unique; the activated
    /// window, if any, is the one that holds the keyboard focus, so at most
    /// one window is activated; and the pointer is grabbed exactly while a
    /// button is held.
    pub open spec fn wf(self) -> bool {
        &&& crate::stack::distinct_ids(self.windows)
        &&& crate::stack::at_most_one_activated(self.windows)
        &&& self.keyboard_focus == active_window(self.windows)
        &&& self.grab is Idle <==> self.pressed.len() == 0
    }

    /// The state before any event.
    pub open spec fn initial() -> Model {
        Model {
            windows: Seq::empty(),
            surfaces: Map::empty(),
            animations: Map::empty(),
            pointer_location: PointerLocation { x: 0, y: 0 },
            pointer_focus: None,
            pending_focus: None,
            pressed: Seq::empty(),
            grab: Grab::Idle,
            keyboard_focus: None,
            cursor: CursorIcon::Default,
        }
    }

    /// The ledger state of `surface`: at rest where none is recorded.
    pub open spec fn resize_state(self, surface: u64) -> ResizeState {
        if self.surfaces.contains_key(surface) {
            self.surfaces[surface].resize_state
        } else {
            ResizeState::NotResizing
        }
    }
}

impl Model {
    /// The state and the intents after a press on whatever is under the
    /// pointer. A press on a window raises it; unless that window holds the
    /// keyboard focus already, the window that does is deactivated, and the
    /// pressed one is activated and given the focus. A press on no window
    /// changes nothing.
    pub open spec fn focus_on_press(self, serial: u32) -> (Model, Seq<Action>) {
        match topmost_at(self.windows, self.pointer_location) {
            None => (self, Seq::empty()),
            Some(i) => {
                let id = self.windows[i].id;
                let lifted = raised(self.windows, i);
                if self.keyboard_focus == Some(id) {
                    (Model { windows: lifted, ..self }, seq![Action::Raise { window: id }])
                } else {
                    let deactivate = match self.keyboard_focus {
                        Some(previous) => seq![
                            Action::Activated { window: previous, activated: false },
                        ],
                        None => Seq::empty(),
                    };
                    (
                        Model {
                            windows: activated_only(lifted, id),
                            keyboard_focus: Some(id),
                            ..self
                        },
                        seq![Action::Raise { window: id }] + deactivate + seq![
                            Action::Activated { window: id, activated: true },
                            Action::KeyboardFocus { window: id, serial },
                        ],
                    )
                }
            },
        }
    }
}

impl Model {
    /// The state and the intent after a move or resize grab has let go of
    /// the pointer: events take the default path again, and the focus goes
    /// back to whatever was under the pointer at its last motion.
    pub open spec fn release(self, serial: u32, time: u32) -> (Model, Seq<Action>) {
        (
            Model { grab: Grab::Idle, pointer_focus: self.pending_focus, ..self },
            seq![
                Action::Motion {
                    focus: self.pending_focus,
                    location: self.pointer_location,
                    serial,
                    time,
                },
            ],
        )
    }

    /// What the owner of the pointer makes of a button event, once the
    /// button is noted as held or let go. A press that finds the pointer free
    /// starts a click grab at the pointer's place; every grab ends exactly
    /// when no button is held any more; a resize that ends proposes its last
    /// size once more, no longer flagged as resizing.
    pub open spec fn dispatch_button(self, button: u32, pressed: bool, time: u32, serial: u32) -> (
        Model,
        Seq<Action>,
    ) {
        match self.grab {
            Grab::Idle => if pressed {
                (
                    Model {
                        grab: Grab::Click(
                            GrabStartData {
                                focus: self.pointer_focus,
                                button,
                                location: self.pointer_location,
                            },
                            serial,
                        ),
                        ..self
                    },
                    Seq::empty(),
                )
            } else {
                (self, Seq::empty())
            },
            Grab::Click(_, _) => if self.pressed.len() == 0 {
                (Model { grab: Grab::Idle, ..self }, Seq::empty())
            } else {
                (self, Seq::empty())
            },
            Grab::Move(_) => if self.pressed.len() == 0 {
                self.release(serial, time)
            } else {
                (self, Seq::empty())
            },
            Grab::Resize(g) => if self.pressed.len() == 0 {
                let (m, a) = self.release(serial, time);
                if has_window(self.windows, g.window) {
                    (
                        m,
                        a + seq![
                            Action::Resize {
                                window: g.window,
                                size: g.last_window_size,
                                resizing: false,
                            },
                        ],
                    )
                } else {
                    (m, a)
                }
            } else {
                (self, Seq::empty())
            },
        }
    }

    /// The state and the intents after a button event. A press while no
    /// other button is held applies the focus policy first. Then the button
    /// is noted as held or let go, the event is handed on, and the owner of
    /// the pointer has its say.
    pub open spec fn on_button(self, button: u32, pressed: bool, time: u32, serial: u32) -> (
        Model,
        Seq<Action>,
    ) {
        let (m1, a1) = if pressed && self.pressed.len() == 0 {
            self.focus_on_press(serial)
        } else {
            (self, Seq::empty())
        };
        let m2 = Model { pressed: after_button(m1.pressed, button, pressed), ..m1 };
        let (m3, a3) = m2.dispatch_button(button, pressed, time, serial);
        (m3, a1 + seq![Action::Button { button, pressed, serial, time }] + a3 + seq![Action::Frame])
    }

    /// The state and the intents after a motion sample. The pointer is at
    /// its new place. Without a grab the window under it gets the event;
    /// under a click grab the clicked one does; under a move or resize grab
    /// no client does, and the grabbed window follows the pointer or is
    /// asked to take the size that the pointer has dragged it to.
    pub open spec fn on_motion(self, pos: PointerLocation, time: u32, serial: u32) -> (
        Model,
        Seq<Action>,
    ) {
        let under = focus_under(self.windows, pos);
        let m = Model { pointer_location: pos, pending_focus: under, ..self };
        let nobody = Action::Motion { focus: None, location: pos, serial, time };
        match self.grab {
            Grab::Idle => (
                Model { pointer_focus: under, ..m },
                seq![Action::Motion { focus: under, location: pos, serial, time }, Action::Frame],
            ),
            Grab::Click(start, _) => (
                Model { pointer_focus: start.focus, ..m },
                seq![
                    Action::Motion { focus: start.focus, location: pos, serial, time },
                    Action::Frame,
                ],
            ),
            Grab::Move(g) => if has_window(self.windows, g.window) {
                (
                    Model {
                        pointer_focus: None,
                        windows: placed(self.windows, g.window, g.spec_motion(pos)),
                        ..m
                    },
                    seq![
                        nobody,
                        Action::Place { window: g.window, position: g.spec_motion(pos) },
                        Action::Frame,
                    ],
                )
            } else {
                (Model { pointer_focus: None, ..m }, seq![nobody, Action::Frame])
            },
            Grab::Resize(g) => {
                let size = g.spec_size_at(pos);
                let icon = spec_cursor_icon_for_edge(g.edges);
                let dragged = Grab::Resize(PointerResizeSurfaceGrab { last_window_size: size, ..g });
                if has_window(self.windows, g.window) {
                    (
                        Model {
                            pointer_focus: None,
                            grab: dragged,
                            cursor: icon,
                            surfaces: self.surfaces.insert(
                                g.window,
                                SurfaceData {
                                    resize_state: ResizeState::Resizing(g.spec_resize_data()),
                                },
                            ),
                            ..m
                        },
                        seq![
                            nobody,
                            Action::Cursor { icon },
                            Action::Resize { window: g.window, size, resizing: true },
                            Action::Frame,
                        ],
                    )
                } else {
                    (
                        Model { pointer_focus: None, grab: dragged, cursor: icon, ..m },
                        seq![nobody, Action::Cursor { icon }, Action::Frame],
                    )
                }
            },
        }
    }
}

/// The scroll amount to hand on for one axis: the wheel steps where the
/// device reports them, else the distance, else nothing.
pub open spec fn axis_amount(v120: Option<i32>, distance: Option<i64>) -> AxisAmount {
    match v120 {
        Some(steps) => AxisAmount::Discrete(steps),
        None => match distance {
            Some(d) => AxisAmount::Continuous(d),
            None => AxisAmount::Still,
        },
    }
}

/// The frame to hand on for a scroll event.
pub open spec fn axis_frame(event: AxisEvent) -> AxisFrame {
    AxisFrame {
        time: event.time,
        vertical: axis_amount(event.vertical_v120, event.vertical),
        horizontal: axis_amount(event.horizontal_v120, event.horizontal),
    }
}

impl NanaimoState {
    /// The state's invariant.
    pub open spec fn wf(&self) -> bool {
        &&& self.space.wf()
        &&& self.surfaces.wf()
        &&& self.animation_manager.wf()
        &&& self@.wf()
    }

    /// Whether the state's invariant holds.
    pub fn is_valid(&self) -> (ok: bool)
        ensures
            ok == self.wf(),
    {
        if !self.space.is_valid() || !self.surfaces.is_valid() || !self.animation_manager.is_valid() {
            return false;
        }
        let active = self.space.active();
        let focus_agrees = match (self.keyboard_focus, active) {
            (Some(f), Some(a)) => f == a,
            (None, None) => true,
            _ => false,
        };
        let idle = match self.grab {
            Grab::Idle => true,
            _ => false,
        };
        focus_agrees && idle == (self.pressed_buttons.len() == 0)
    }

    /// The state before any event: no window, no focus, no grab.
    pub fn new() -> (s: NanaimoState)
        ensures
            s@ == Model::initial(),
            s.wf(),
    {
        let s = NanaimoState {
            space: WindowStack::new(),
            surfaces: Table::new(),
            animation_manager: AnimationManager::new(),
            pointer_location: PointerLocation { x: 0, y: 0 },
            pointer_focus: None,
            pending_focus: None,
            pressed_buttons: Vec::new(),
            grab: Grab::Idle,
            keyboard_focus: None,
            cursor_status: CursorIcon::Default,
        };
        assert(s@ =~= Model::initial());
        s
    }

    /// The topmost window under `pos`, with the place of its top-left
    /// corner; `None` where no window is under `pos`.
    pub fn surface_under(&self, pos: PointerLocation) -> (under: Option<PointerFocus>)
        ensures
            under == focus_under(self@.windows, pos),
            under is None <==> crate::stack::nothing_at(self@.windows, pos),
    {
        proof {
            crate::stack::lemma_topmost_at(self.space@, pos);
        }
        match self.space.hit_index(pos) {
            Some(i) => {
                let w = self.space.windows[i];
                Some(PointerFocus { window: w.id, origin: w.location })
            },
            None => None,
        }
    }

    /// Applies the focus policy to a press at the pointer's place, and adds
    /// what it asks for to `actions`.
    pub fn update_keyboard_focus(&mut self, serial: u32, actions: &mut Vec<Action>)
        requires
            old(self).wf(),
        ensures
            final(self)@ == old(self)@.focus_on_press(serial).0,
            final(actions)@ == old(actions)@ + old(self)@.focus_on_press(serial).1,
            final(self).wf(),
    {
        let ghost before = self@;
        let ghost sent = actions@;
        match self.space.hit_index(self.pointer_location) {
            None => {
                assert(actions@ =~= sent + before.focus_on_press(serial).1);
            },
            Some(i) => {
                let id = self.space.windows[i].id;
                proof {
                    lemma_position_of(before.windows, i as int);
                    lemma_raised_keeps_windows(before.windows, i as int);
                }
                let _ = self.space.raise(id);
                actions.push(Action::Raise { window: id });
                let focused = match self.keyboard_focus {
                    Some(f) => f == id,
                    None => false,
                };
                if focused {
                    assert(self@ =~= before.focus_on_press(serial).0);
                    assert(actions@ =~= sent + before.focus_on_press(serial).1);
                } else {
                    match self.keyboard_focus {
                        Some(previous) => {
                            actions.push(Action::Activated { window: previous, activated: false });
                        },
                        None => {},
                    }
                    self.space.activate_only(id);
                    actions.push(Action::Activated { window: id, activated: true });
                    actions.push(Action::KeyboardFocus { window: id, serial });
                    self.keyboard_focus = Some(id);
                    assert(self@ =~= before.focus_on_press(serial).0);
                    assert(actions@ =~= sent + before.focus_on_press(serial).1);
                }
            },
        }
    }

    /// Notes that `button` went down or came up.
    fn note_button(&mut self, button: u32, pressed: bool)
        ensures
            final(self)@ == (Model {
                pressed: after_button(old(self)@.pressed, button, pressed),
                ..old(self)@
            }),
            final(self).space == old(self).space,
            final(self).surfaces == old(self).surfaces,
            final(self).animation_manager == old(self).animation_manager,
    {
        if pressed {
            self.pressed_buttons.push(button);
        } else {
            let mut kept: Vec<u32> = Vec::new();
            let mut i: usize = 0;
            while i < self.pressed_buttons.len()
                invariant
                    i <= self.pressed_buttons.len(),
                    kept@ == without(self.pressed_buttons@.take(i as int), button),
                decreases self.pressed_buttons.len() - i,
            {
                proof {
                    let next = self.pressed_buttons@.take(i + 1);
                    assert(next.drop_last() =~= self.pressed_buttons@.take(i as int));
                    assert(next.last() == self.pressed_buttons@[i as int]);
                }
                let b: u32 = self.pressed_buttons[i];
                if b != button {
                    kept.push(b);
                }
                i = i + 1;
            }
            assert(self.pressed_buttons@.take(i as int) =~= self.pressed_buttons@);
            self.pressed_buttons = kept;
        }
    }

    /// Ends a move or resize grab and restores the pointer focus.
    fn release_grab(&mut self, serial: u32, time: u32, actions: &mut Vec<Action>)
        ensures
            final(self)@ == old(self)@.release(serial, time).0,
            final(actions)@ == old(actions)@ + old(self)@.release(serial, time).1,
            final(self).space == old(self).space,
            final(self).surfaces == old(self).surfaces,
            final(self).animation_manager == old(self).animation_manager,
    {
        self.grab = Grab::Idle;
        self.pointer_focus = self.pending_focus;
        actions.push(
            Action::Motion {
                focus: self.pending_focus,
                location: self.pointer_location,
                serial,
                time,
            },
        );
        assert(final(actions)@ =~= old(actions)@ + old(self)@.release(serial, time).1);
    }

    /// Lets the owner of the pointer have its say on a button event.
    fn dispatch_button(
        &mut self,
        button: u32,
        pressed: bool,
        time: u32,
        serial: u32,
        actions: &mut Vec<Action>,
    )
        requires
            old(self).space.wf(),
        ensures
            final(self)@ == old(self)@.dispatch_button(button, pressed, time, serial).0,
            final(actions)@ == old(actions)@ + old(self)@.dispatch_button(
                button,
                pressed,
                time,
                serial,
            ).1,
            final(self).space == old(self).space,
            final(self).surfaces == old(self).surfaces,
            final(self).animation_manager == old(self).animation_manager,
    {
        let held = self.pressed_buttons.len();
        match self.grab {
            Grab::Idle => {
                if pressed {
                    self.grab = Grab::Click(
                        GrabStartData {
                            focus: self.pointer_focus,
                            button,
                            location: self.pointer_location,
                        },
                        serial,
                    );
                }
                assert(actions@ =~= old(actions)@ + Seq::<Action>::empty());
            },
            Grab::Click(_, _) => {
                if held == 0 {
                    self.grab = Grab::Idle;
                }
                assert(actions@ =~= old(actions)@ + Seq::<Action>::empty());
            },
            Grab::Move(g) => {
                if g.button(held) {
                    self.release_grab(serial, time, actions);
                } else {
                    assert(actions@ =~= old(actions)@ + Seq::<Action>::empty());
                }
            },
            Grab::Resize(g) => {
                match g.button(held) {
                    Some(size) => {
                        self.release_grab(serial, time, actions);
                        if self.space.find(g.window).is_some() {
                            actions.push(
                                Action::Resize { window: g.window, size, resizing: false },
                            );
                        }
                        assert(actions@ =~= old(actions)@ + old(self)@.dispatch_button(
                            button,
                            pressed,
                            time,
                            serial,
                        ).1);
                    },
                    None => {
                        assert(actions@ =~= old(actions)@ + Seq::<Action>::empty());
                    },
                }
            },
        }
    }

    /// A pointer button went down or came up.
    pub fn on_pointer_button(&mut self, button: u32, pressed: bool, time: u32, serial: u32) -> (actions:
        Vec<Action>)
        requires
            old(self).wf(),
        ensures
            final(self)@ == old(self)@.on_button(button, pressed, time, serial).0,
            actions@ == old(self)@.on_button(button, pressed, time, serial).1,
            final(self).wf(),
    {
        let mut actions: Vec<Action> = Vec::new();
        if pressed && self.pressed_buttons.len() == 0 {
            self.update_keyboard_focus(serial, &mut actions);
        }
        let ghost a1 = actions@;
        self.note_button(button, pressed);
        actions.push(Action::Button { button, pressed, serial, time });
        let ghost m2 = self@;
        self.dispatch_button(button, pressed, time, serial, &mut actions);
        actions.push(Action::Frame);
        proof {
            let a3 = m2.dispatch_button(button, pressed, time, serial).1;
            assert(actions@ =~= a1 + seq![Action::Button { button, pressed, serial, time }] + a3
                + seq![Action::Frame]);
            assert(without(Seq::<u32>::empty(), button) =~= Seq::<u32>::empty());
        }
        actions
    }

    /// The pointer moved to `pos`, in absolute logical coordinates.
    pub fn on_pointer_move_absolute(&mut self, pos: PointerLocation, time: u32, serial: u32) -> (actions:
        Vec<Action>)
        requires
            old(self).wf(),
        ensures
            final(self)@ == old(self)@.on_motion(pos, time, serial).0,
            actions@ == old(self)@.on_motion(pos, time, serial).1,
            final(self).wf(),
    {
        let mut actions: Vec<Action> = Vec::new();
        let under = self.surface_under(pos);
        self.pointer_location = pos;
        self.pending_focus = under;
        match self.grab {
            Grab::Idle => {
                self.pointer_focus = under;
                actions.push(Action::Motion { focus: under, location: pos, serial, time });
            },
            Grab::Click(start, _) => {
                self.pointer_focus = start.focus;
                actions.push(Action::Motion { focus: start.focus, location: pos, serial, time });
            },
            Grab::Move(g) => {
                self.pointer_focus = None;
                actions.push(Action::Motion { focus: None, location: pos, serial, time });
                let to = g.motion(pos);
                if self.space.set_location(g.window, to) {
                    actions.push(Action::Place { window: g.window, position: to });
                }
            },
            Grab::Resize(g) => {
                self.pointer_focus = None;
                actions.push(Action::Motion { focus: None, location: pos, serial, time });
                let mut dragged = g;
                let step = dragged.motion(pos);
                self.grab = Grab::Resize(dragged);
                self.cursor_status = step.cursor;
                actions.push(Action::Cursor { icon: step.cursor });
                if self.space.find(g.window).is_some() {
                    self.surfaces.insert(g.window, SurfaceData { resize_state: step.ledger });
                    actions.push(
                        Action::Resize { window: g.window, size: step.size, resizing: true },
                    );
                }
            },
        }
        actions.push(Action::Frame);
        proof {
            assert(self@ =~= old(self)@.on_motion(pos, time, serial).0);
            assert(actions@ =~= old(self)@.on_motion(pos, time, serial).1);
        }
        actions
    }

    /// The pointer scrolled: the scroll goes to the client whoever owns the
    /// pointer, and the state stays as it is.
    pub fn on_pointer_axis(&self, event: AxisEvent) -> (actions: Vec<Action>)
        ensures
            actions@ == seq![Action::Axis { frame: axis_frame(event) }, Action::Frame],
    {
        let mut frame = AxisFrame {
            time: event.time,
            vertical: AxisAmount::Still,
            horizontal: AxisAmount::Still,
        };
        if let Some(v) = event.vertical_v120 {
            frame.vertical = AxisAmount::Discrete(v);
        } else if let Some(v) = event.vertical {
            frame.vertical = AxisAmount::Continuous(v);
        }
        if let Some(v) = event.horizontal_v120 {
            frame.horizontal = AxisAmount::Discrete(v);
        } else if let Some(v) = event.horizontal {
            frame.horizontal = AxisAmount::Continuous(v);
        }
        let mut actions: Vec<Action> = Vec::new();
        actions.push(Action::Axis { frame });
        actions.push(Action::Frame);
        assert(actions@ =~= seq![Action::Axis { frame: axis_frame(event) }, Action::Frame]);
        actions
    }

    /// A key went down or came up: it goes to whoever holds the keyboard
    /// focus, and the state stays as it is.
    pub fn on_keyboard_key(&self, keycode: u32, pressed: bool, time: u32, serial: u32) -> (actions:
        Vec<Action>)
        ensures
            actions@ == seq![Action::Key { keycode, pressed, serial, time }],
    {
        let mut actions: Vec<Action> = Vec::new();
        actions.push(Action::Key { keycode, pressed, serial, time });
        assert(actions@ =~= seq![Action::Key { keycode, pressed, serial, time }]);
        actions
    }

    /// Advances the animations to time `now`; to be called once per frame.
    pub fn tick(&mut self, now: u64)
        requires
            old(self).wf(),
        ensures
            final(self)@ == (Model {
                animations: crate::animations::all_ticked(old(self)@.animations, now),
                ..old(self)@
            }),
            final(self).wf(),
    {
        self.animation_manager.tick(now);
    }

    /// The opacity at which to draw `window`.
    pub fn get_alpha(&self, window: u64) -> (alpha: i32)
        requires
            self.wf(),
        ensures
            alpha == crate::animations::alpha_of(self@.animations, window),
    {
        self.animation_manager.get_alpha(window)
    }
}


/// A press on window `b` while another window `a` is the activated one, with
/// no other button held: in that one step `b` is raised to the top, `a` is
/// deactivated, and `b` is activated and given the keyboard focus, so that
/// `b` is the only activated window afterwards.
pub proof fn lemma_click_moves_activation(
    m: Model,
    a: int,
    b: int,
    button: u32,
    time: u32,
    serial: u32,
)
    requires
        m.wf(),
        m.pressed.len() == 0,
        0 <= a < m.windows.len(),
        m.windows[a].activated,
        a != b,
        is_topmost_at(m.windows, m.pointer_location, b),
    ensures
        ({
            let (after, actions) = m.on_button(button, true, time, serial);
            let id_a = m.windows[a].id;
            let id_b = m.windows[b].id;
            &&& after.keyboard_focus == Some(id_b)
            &&& active_window(after.windows) == Some(id_b)
            &&& at_most_one_activated(after.windows)
            &&& after.windows.len() == m.windows.len()
            &&& after.windows.last().id == id_b
            &&& forall|k: int|
                0 <= k < after.windows.len() ==> ((#[trigger] after.windows[k]).activated
                    <==> after.windows[k].id == id_b)
            &&& actions == seq![
                Action::Raise { window: id_b },
                Action::Activated { window: id_a, activated: false },
                Action::Activated { window: id_b, activated: true },
                Action::KeyboardFocus { window: id_b, serial },
                Action::Button { button, pressed: true, serial, time },
                Action::Frame,
            ]
        }),
{
    lemma_topmost_at(m.windows, m.pointer_location);
    lemma_active_is_window(m.windows);
    lemma_raised_keeps_windows(m.windows, b);
    let id_b = m.windows[b].id;
    let lifted = raised(m.windows, b);
    lemma_activated_only(lifted, id_b);
    let (focused, asked) = m.focus_on_press(serial);
    assert(m.keyboard_focus == Some(m.windows[a].id));
    assert(m.windows[a].id != id_b);
    assert(lifted.last().id == id_b);
    assert(focused.windows == activated_only(lifted, id_b));
    let (after, actions) = m.on_button(button, true, time, serial);
    assert(after.windows == focused.windows);
    assert(actions =~= seq![
        Action::Raise { window: id_b },
        Action::Activated { window: m.windows[a].id, activated: false },
        Action::Activated { window: id_b, activated: true },
        Action::KeyboardFocus { window: id_b, serial },
        Action::Button { button, pressed: true, serial, time },
        Action::Frame,
    ]);
}

/// A press where no window is under the pointer leaves every window, the
/// activation and the keyboard focus as they were; the button event is
/// handed on and nothing else is asked for.
pub proof fn lemma_click_on_nothing(m: Model, button: u32, time: u32, serial: u32)
    requires
        nothing_at(m.windows, m.pointer_location),
    ensures
        ({
            let (after, actions) = m.on_button(button, true, time, serial);
            &&& after.windows == m.windows
            &&& after.keyboard_focus == m.keyboard_focus
            &&& actions == seq![
                Action::Button { button, pressed: true, serial, time },
                Action::Frame,
            ]
        }),
{
    lemma_topmost_at(m.windows, m.pointer_location);
    let (after, actions) = m.on_button(button, true, time, serial);
    assert(actions =~= seq![
        Action::Button { button, pressed: true, serial, time },
        Action::Frame,
    ]);
}

/// The focus policy keeps the state's invariant: after any press at most
/// one window is activated, and it is the one that holds the keyboard focus.
pub proof fn lemma_focus_on_press_keeps_invariant(m: Model, serial: u32)
    requires
        m.wf(),
    ensures
        m.focus_on_press(serial).0.wf(),
{
    lemma_topmost_at(m.windows, m.pointer_location);
    match topmost_at(m.windows, m.pointer_location) {
        Some(i) => {
            lemma_raised_keeps_windows(m.windows, i);
            lemma_position_of(m.windows, i);
            let lifted = raised(m.windows, i);
            lemma_activated_only(lifted, m.windows[i].id);
        },
        None => {},
    }
}

} // verus!
