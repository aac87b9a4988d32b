//! The protocol's lifecycle entry points: surfaces and windows come and go,
//! clients ask for moves and resizes, acknowledge configures and commit
//! buffers.

use vstd::prelude::*;
use crate::animations::{spec_fade_in, state_or_default, AnimationName};
use crate::edges::{cursor_icon_for_edge, spec_cursor_icon_for_edge, ResizeEdge};
use crate::geometry::{Point, Size};
use crate::grabs::{
    spec_commit_location, PointerMoveSurfaceGrab, PointerResizeSurfaceGrab, ResizeState,
    SurfaceData,
};
use crate::stack::{
    activated_only, has_window, lemma_activated_only, lemma_placed_and_sized,
    lemma_update_keeps_windows, placed, position_of, raised, sized, Window,
};
use crate::state::{Action, Grab, Model, NanaimoState};

verus! {

/// A window as it enters the stack: at the origin, without size until its
/// first commit, activated.
pub open spec fn fresh_window(surface: u64) -> Window {
    Window {
        id: surface,
        location: Point { x: 0, y: 0 },
        size: Size { w: 0, h: 0 },
        activated: true,
    }
}

impl Model {
    /// The state with the ledger of `surface` at `state`, if the surface has
    /// a ledger.
    pub open spec fn with_resize_state(self, surface: u64, state: ResizeState) -> Model {
        if self.surfaces.contains_key(surface) {
            Model {
                surfaces: self.surfaces.insert(surface, SurfaceData { resize_state: state }),
                ..self
            }
        } else {
            self
        }
    }

    /// The state after a surface was created: its ledger is at rest, unless
    /// it has one already.
    pub open spec fn on_new_surface(self, surface: u64) -> Model {
        if self.surfaces.contains_key(surface) {
            self
        } else {
            Model {
                surfaces: self.surfaces.insert(
                    surface,
                    SurfaceData { resize_state: ResizeState::NotResizing },
                ),
                ..self
            }
        }
    }

    /// The state and the intents after a top-level window was created: it
    /// sits on top, is the activated one and holds the keyboard focus, and
    /// fades in from `now` on. A surface that has a window already gets no
    /// second one.
    pub open spec fn on_new_toplevel(self, surface: u64, serial: u32, now: u64) -> (
        Model,
        Seq<Action>,
    ) {
        if has_window(self.windows, surface) {
            (self, Seq::empty())
        } else {
            (
                Model {
                    windows: activated_only(self.windows, surface).push(fresh_window(surface)),
                    keyboard_focus: Some(surface),
                    animations: self.animations.insert(
                        surface,
                        state_or_default(self.animations, surface).with_animation(
                            AnimationName::Fade,
                            spec_fade_in(now),
                        ),
                    ),
                    ..self
                },
                seq![
                    Action::Activated { window: surface, activated: true },
                    Action::KeyboardFocus { window: surface, serial },
                ],
            )
        }
    }

    /// The state after the window of `surface` is gone: out of the stack,
    /// out of every focus, its ledger and its presentation state dropped.
    pub open spec fn on_toplevel_destroyed(self, surface: u64) -> Model {
        Model {
            windows: if has_window(self.windows, surface) {
                self.windows.remove(position_of(self.windows, surface))
            } else {
                self.windows
            },
            surfaces: self.surfaces.remove(surface),
            animations: self.animations.remove(surface),
            keyboard_focus: if self.keyboard_focus == Some(surface) {
                None
            } else {
                self.keyboard_focus
            },
            pointer_focus: match self.pointer_focus {
                Some(f) => if f.window == surface {
                    None
                } else {
                    self.pointer_focus
                },
                None => None,
            },
            pending_focus: match self.pending_focus {
                Some(f) => if f.window == surface {
                    None
                } else {
                    self.pending_focus
                },
                None => None,
            },
            ..self
        }
    }

    /// The state after the client acknowledged the configure `serial`.
    pub open spec fn on_ack_configure(self, surface: u64, serial: u32) -> Model {
        self.with_resize_state(surface, self.resize_state(surface).after_ack(serial))
    }

    /// The state after the final configure of a resize went out under
    /// `serial`.
    pub open spec fn on_final_configure_sent(self, surface: u64, serial: u32) -> Model {
        self.with_resize_state(surface, self.resize_state(surface).after_finish(serial))
    }

    /// The state and the intents after the client of a window committed a
    /// buffer of `size`: the window has that size, sits where the ledger
    /// anchors it, and an awaited commit ends the resize. A commit on a
    /// surface without a window changes nothing.
    pub open spec fn on_commit(self, surface: u64, size: Size) -> (Model, Seq<Action>) {
        if has_window(self.windows, surface) {
            let state = self.resize_state(surface);
            let current = self.windows[position_of(self.windows, surface)].location;
            let to = spec_commit_location(state, current, size);
            let m = Model {
                windows: placed(sized(self.windows, surface, size), surface, to),
                ..self
            }.with_resize_state(surface, state.after_commit());
            let anchored = match state.commit_anchor() {
                Some(d) => d.anchors() && d.anchor_fits(current, size),
                None => false,
            };
            if anchored {
                (m, seq![Action::Place { window: surface, position: to }])
            } else {
                (m, Seq::empty())
            }
        } else {
            (self, Seq::empty())
        }
    }

    /// Whether a move or resize of `surface` may start under `serial`: the
    /// surface has a window, and the pointer is held by the click whose
    /// press carried that serial. In particular none may start while a move
    /// or resize grab is active.
    pub open spec fn may_grab(self, surface: u64, serial: u32) -> bool {
        &&& has_window(self.windows, surface)
        &&& self.grab matches Grab::Click(_, pressed_at)
        &&& pressed_at == serial
    }

    /// The state and the intents after a client asked for an interactive
    /// move: where it may start, the move grab takes the pointer over from
    /// the click, from the click's start and the window's place now, and
    /// no client has the pointer focus any more. Elsewhere nothing changes.
    pub open spec fn on_move_request(self, surface: u64, serial: u32) -> (Model, Seq<Action>) {
        if self.may_grab(surface, serial) {
            (
                Model {
                    grab: Grab::Move(
                        PointerMoveSurfaceGrab {
                            start_data: self.grab->Click_0,
                            window: surface,
                            initial_window_location: self.windows[position_of(
                                self.windows,
                                surface,
                            )].location,
                        },
                    ),
                    pointer_focus: None,
                    ..self
                },
                seq![Action::ClearFocus { serial }],
            )
        } else {
            (self, Seq::empty())
        }
    }

    /// The state and the intents after a client asked for an interactive
    /// resize on `edges`: without an edge it is a move; else, where it may
    /// start, the resize grab takes the pointer over from the click, from
    /// the window's place and size now, and the cursor shows the edge.
    pub open spec fn on_resize_request(self, surface: u64, serial: u32, edges: ResizeEdge) -> (
        Model,
        Seq<Action>,
    ) {
        if edges == ResizeEdge::NoEdge {
            self.on_move_request(surface, serial)
        } else if self.may_grab(surface, serial) {
            let w = self.windows[position_of(self.windows, surface)];
            (
                Model {
                    grab: Grab::Resize(
                        PointerResizeSurfaceGrab {
                            start_data: self.grab->Click_0,
                            window: surface,
                            edges,
                            initial_window_location: w.location,
                            initial_window_size: w.size,
                            last_window_size: w.size,
                        },
                    ),
                    pointer_focus: None,
                    cursor: spec_cursor_icon_for_edge(edges),
                    ..self
                },
                seq![
                    Action::ClearFocus { serial },
                    Action::Cursor { icon: spec_cursor_icon_for_edge(edges) },
                ],
            )
        } else {
            (self, Seq::empty())
        }
    }

    /// The state and the intent after a client asked for attention to its
    /// window: the window is raised; focus and activation stay.
    pub open spec fn on_request_activation(self, surface: u64) -> (Model, Seq<Action>) {
        if has_window(self.windows, surface) {
            (
                Model { windows: raised(self.windows, position_of(self.windows, surface)), ..self },
                seq![Action::Raise { window: surface }],
            )
        } else {
            (self, Seq::empty())
        }
    }
}

impl NanaimoState {
    /// Stores `state` in the ledger of `surface`, if it has one.
    fn set_resize_state(&mut self, surface: u64, state: ResizeState)
        requires
            old(self).wf(),
        ensures
            final(self)@ == old(self)@.with_resize_state(surface, state),
            final(self).wf(),
    {
        if self.surfaces.contains_key(surface) {
            self.surfaces.insert(surface, SurfaceData { resize_state: state });
        }
    }

    /// The ledger state of `surface`.
    pub fn resize_state(&self, surface: u64) -> (state: ResizeState)
        requires
            self.wf(),
        ensures
            state == self@.resize_state(surface),
    {
        match self.surfaces.get(surface) {
            Some(d) => d.resize_state,
            None => ResizeState::NotResizing,
        }
    }

    /// A surface was created.
    pub fn new_surface(&mut self, surface: u64)
        requires
            old(self).wf(),
        ensures
            final(self)@ == old(self)@.on_new_surface(surface),
            final(self).wf(),
    {
        let _ = self.surfaces.insert_if_missing(surface, SurfaceData::new());
    }

    /// A top-level window was created on `surface`, at time `now`.
    pub fn new_toplevel(&mut self, surface: u64, serial: u32, now: u64) -> (actions: Vec<Action>)
        requires
            old(self).wf(),
        ensures
            final(self)@ == old(self)@.on_new_toplevel(surface, serial, now).0,
            actions@ == old(self)@.on_new_toplevel(surface, serial, now).1,
            final(self).wf(),
    {
        let mut actions: Vec<Action> = Vec::new();
        if self.space.find(surface).is_some() {
            return actions;
        }
        proof {
            lemma_activated_only(self.space@, surface);
        }
        self.space.activate_only(surface);
        self.space.push(
            Window {
                id: surface,
                location: Point { x: 0, y: 0 },
                size: Size { w: 0, h: 0 },
                activated: true,
            },
        );
        self.keyboard_focus = Some(surface);
        self.animation_manager.start_fade_in(surface, now);
        actions.push(Action::Activated { window: surface, activated: true });
        actions.push(Action::KeyboardFocus { window: surface, serial });
        proof {
            assert(self@ =~= old(self)@.on_new_toplevel(surface, serial, now).0);
            assert(actions@ =~= old(self)@.on_new_toplevel(surface, serial, now).1);
        }
        actions
    }

    /// The window of `surface` was unmapped or destroyed.
    pub fn toplevel_destroyed(&mut self, surface: u64)
        requires
            old(self).wf(),
        ensures
            final(self)@ == old(self)@.on_toplevel_destroyed(surface),
            final(self).wf(),
    {
        let _ = self.space.remove(surface);
        let _ = self.surfaces.remove(surface);
        self.animation_manager.forget(surface);
        if let Some(f) = self.keyboard_focus {
            if f == surface {
                self.keyboard_focus = None;
            }
        }
        if let Some(f) = self.pointer_focus {
            if f.window == surface {
                self.pointer_focus = None;
            }
        }
        if let Some(f) = self.pending_focus {
            if f.window == surface {
                self.pending_focus = None;
            }
        }
        proof {
            assert(self@ =~= old(self)@.on_toplevel_destroyed(surface));
        }
    }

    /// The client acknowledged the configure `serial` on `surface`.
    pub fn ack_configure(&mut self, surface: u64, serial: u32)
        requires
            old(self).wf(),
        ensures
            final(self)@ == old(self)@.on_ack_configure(surface, serial),
            final(self).wf(),
    {
        if let Some(mut data) = self.surfaces.get(surface) {
            let _ = data.ack_configure(serial);
            self.surfaces.insert(surface, data);
        }
    }

    /// The final configure of the resize of `surface` went out under
    /// `serial`.
    pub fn final_configure_sent(&mut self, surface: u64, serial: u32)
        requires
            old(self).wf(),
        ensures
            final(self)@ == old(self)@.on_final_configure_sent(surface, serial),
            final(self).wf(),
    {
        if let Some(mut data) = self.surfaces.get(surface) {
            data.resize_finished(serial);
            self.surfaces.insert(surface, data);
        }
    }

    /// The client of `surface` committed a buffer; its window geometry now
    /// has `size`.
    pub fn commit(&mut self, surface: u64, size: Size) -> (actions: Vec<Action>)
        requires
            old(self).wf(),
        ensures
            final(self)@ == old(self)@.on_commit(surface, size).0,
            actions@ == old(self)@.on_commit(surface, size).1,
            final(self).wf(),
    {
        let mut actions: Vec<Action> = Vec::new();
        let window = match self.space.get(surface) {
            Some(w) => w,
            None => {
                return actions;
            },
        };
        let before = self.resize_state(surface);
        let mut data = SurfaceData { resize_state: before };
        let to = data.commit(window.location, size);
        let anchored = match before {
            ResizeState::Resizing(d) | ResizeState::WaitingForCommit(d) => (d.edges.has_left()
                || d.edges.has_top()) && d.anchored_location(window.location, size).is_some(),
            _ => false,
        };
        let _ = self.space.set_size(surface, size);
        let _ = self.space.set_location(surface, to);
        self.set_resize_state(surface, data.resize_state);
        if anchored {
            actions.push(Action::Place { window: surface, position: to });
        }
        proof {
            assert(self@ =~= old(self)@.on_commit(surface, size).0);
            assert(actions@ =~= old(self)@.on_commit(surface, size).1);
        }
        actions
    }

    /// A client asked for an interactive move of its window.
    pub fn move_request(&mut self, surface: u64, serial: u32) -> (actions: Vec<Action>)
        requires
            old(self).wf(),
        ensures
            final(self)@ == old(self)@.on_move_request(surface, serial).0,
            actions@ == old(self)@.on_move_request(surface, serial).1,
            final(self).wf(),
    {
        let mut actions: Vec<Action> = Vec::new();
        if let Grab::Click(start, pressed_at) = self.grab {
            if pressed_at == serial {
                if let Some(w) = self.space.get(surface) {
                    self.grab = Grab::Move(
                        PointerMoveSurfaceGrab {
                            start_data: start,
                            window: surface,
                            initial_window_location: w.location,
                        },
                    );
                    self.pointer_focus = None;
                    actions.push(Action::ClearFocus { serial });
                }
            }
        }
        proof {
            assert(self@ =~= old(self)@.on_move_request(surface, serial).0);
            assert(actions@ =~= old(self)@.on_move_request(surface, serial).1);
        }
        actions
    }

    /// A client asked for an interactive resize of its window on `edges`.
    pub fn resize_request(&mut self, surface: u64, serial: u32, edges: ResizeEdge) -> (actions:
        Vec<Action>)
        requires
            old(self).wf(),
        ensures
            final(self)@ == old(self)@.on_resize_request(surface, serial, edges).0,
            actions@ == old(self)@.on_resize_request(surface, serial, edges).1,
            final(self).wf(),
    {
        if let ResizeEdge::NoEdge = edges {
            return self.move_request(surface, serial);
        }
        let mut actions: Vec<Action> = Vec::new();
        if let Grab::Click(start, pressed_at) = self.grab {
            if pressed_at == serial {
                if let Some(w) = self.space.get(surface) {
                    self.grab = Grab::Resize(
                        PointerResizeSurfaceGrab {
                            start_data: start,
                            window: surface,
                            edges,
                            initial_window_location: w.location,
                            initial_window_size: w.size,
                            last_window_size: w.size,
                        },
                    );
                    self.pointer_focus = None;
                    let icon = cursor_icon_for_edge(edges);
                    self.cursor_status = icon;
                    actions.push(Action::ClearFocus { serial });
                    actions.push(Action::Cursor { icon });
                }
            }
        }
        proof {
            assert(self@ =~= old(self)@.on_resize_request(surface, serial, edges).0);
            assert(actions@ =~= old(self)@.on_resize_request(surface, serial, edges).1);
        }
        actions
    }

    /// A client asked for attention to its window.
    pub fn request_activation(&mut self, surface: u64) -> (actions: Vec<Action>)
        requires
            old(self).wf(),
        ensures
            final(self)@ == old(self)@.on_request_activation(surface).0,
            actions@ == old(self)@.on_request_activation(surface).1,
            final(self).wf(),
    {
        let mut actions: Vec<Action> = Vec::new();
        if self.space.raise(surface) {
            actions.push(Action::Raise { window: surface });
        }
        proof {
            assert(self@ =~= old(self)@.on_request_activation(surface).0);
            assert(actions@ =~= old(self)@.on_request_activation(surface).1);
        }
        actions
    }
}

/// A commit gives the committing window its new size and its anchored
/// place and leaves every other window as it is, in the same order. While a
/// resize from the top-left corner is dragged or its commit awaited, the
/// window's bottom-right corner stays where the resize found it; under a
/// resize from the bottom-right corner the window stays where it stands.
pub proof fn lemma_commit_anchors_window(m: Model, surface: u64, size: Size)
    requires
        m.wf(),
        has_window(m.windows, surface),
    ensures
        ({
            let i = position_of(m.windows, surface);
            let before = m.windows[i];
            let after = m.on_commit(surface, size).0.windows;
            let state = m.resize_state(surface);
            &&& after.len() == m.windows.len()
            &&& after[i] == (Window {
                size,
                location: spec_commit_location(state, before.location, size),
                ..before
            })
            &&& forall|k: int| 0 <= k < after.len() && k != i ==> #[trigger] after[k] == m.windows[k]
            &&& state.commit_anchor() matches Some(d) ==> {
                &&& d.edges == ResizeEdge::TopLeft && d.anchor_fits(before.location, size) ==> {
                    &&& after[i].location.x + size.w == d.initial_window_location.x
                        + d.initial_window_size.w
                    &&& after[i].location.y + size.h == d.initial_window_location.y
                        + d.initial_window_size.h
                }
                &&& d.edges == ResizeEdge::BottomRight ==> after[i].location == before.location
            }
            &&& state.commit_anchor() is None ==> after[i].location == before.location
        }),
{
    let i = position_of(m.windows, surface);
    let resized = sized(m.windows, surface, size);
    let to = spec_commit_location(m.resize_state(surface), m.windows[i].location, size);
    lemma_placed_and_sized(m.windows, surface, to, size);
    lemma_update_keeps_windows(m.windows, i, Window { size, ..m.windows[i] });
    assert(resized[i].id == surface);
    lemma_placed_and_sized(resized, surface, to, size);
    let after = m.on_commit(surface, size).0.windows;
    assert(after == placed(resized, surface, to));
    assert forall|k: int| 0 <= k < after.len() && k != i implies #[trigger] after[k]
        == m.windows[k] by {
        if m.windows[k].id == surface {
            assert(m.windows[k].id == m.windows[i].id);
        }
        assert(resized[k] == m.windows[k]);
    }
}

} // verus!
