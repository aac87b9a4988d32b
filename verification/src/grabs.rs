//! Interactive move and resize grabs, and the per-surface resize ledger that
//! carries a resize through the client's acknowledgement and commit.

use vstd::prelude::*;
use crate::edges::{cursor_icon_for_edge, spec_cursor_icon_for_edge, CursorIcon, ResizeEdge};
use crate::geometry::{
    clamp_i32, fits_i32, round_to_units, round_units, saturate_i32, trunc_to_units, trunc_units,
    Point, PointerLocation, Size,
};

verus! {

/// Information about the resize operation.
#[derive(Clone, Copy, Debug, PartialEq, Eq, Structural)]
pub struct ResizeData {
    /// The edges the surface is being resized with.
    pub edges: ResizeEdge,
    /// The initial window location.
    pub initial_window_location: Point,
    /// The initial window size (geometry width and height).
    pub initial_window_size: Size,
}

/// State of the resize operation.
#[derive(Clone, Copy, Debug, PartialEq, Eq, Structural)]
pub enum ResizeState {
    /// The surface is not being resized.
    NotResizing,
    /// The surface is currently being resized.
    Resizing(ResizeData),
    /// The resize has finished, and the surface needs to ack the final configure.
    WaitingForFinalAck(ResizeData, u32),
    /// The resize has finished, and the surface needs to commit its final state.
    WaitingForCommit(ResizeData),
}

/// What can happen to a surface's resize state.
#[derive(Clone, Copy, Debug, PartialEq, Eq, Structural)]
pub enum LedgerEvent {
    /// A motion sample of a resize grab on the surface.
    Motion(ResizeData),
    /// The grab ended and its final configure went out under this serial.
    Finished(u32),
    /// The client acknowledged the configure with this serial.
    Ack(u32),
    /// The client committed a buffer.
    Commit,
}

/// The compositor's private data on a surface.
#[derive(Clone, Copy, Debug, PartialEq, Eq, Structural)]
pub struct SurfaceData {
    pub resize_state: ResizeState,
}

/// The window that pointer events go to, and where its top-left corner sat
/// when it took the focus.
#[derive(Clone, Copy, Debug, PartialEq, Eq, Structural)]
pub struct PointerFocus {
    pub window: u64,
    pub origin: Point,
}

/// Where the pointer was when the button went down.
#[derive(Clone, Copy, Debug, PartialEq, Eq, Structural)]
pub struct GrabStartData {
    /// The focus of the pointer at that moment, if any.
    pub focus: Option<PointerFocus>,
    /// The button that started the grab.
    pub button: u32,
    /// The pointer location at that moment.
    pub location: PointerLocation,
}

/// An interactive move of one window.
#[derive(Clone, Copy, Debug, PartialEq, Eq, Structural)]
pub struct PointerMoveSurfaceGrab {
    pub start_data: GrabStartData,
    pub window: u64,
    pub initial_window_location: Point,
}

/// An interactive resize of one window.
#[derive(Clone, Copy, Debug, PartialEq, Eq, Structural)]
pub struct PointerResizeSurfaceGrab {
    pub start_data: GrabStartData,
    pub window: u64,
    pub edges: ResizeEdge,
    pub initial_window_location: Point,
    pub initial_window_size: Size,
    pub last_window_size: Size,
}

/// What one motion sample of a resize grab asks for.
#[derive(Clone, Copy, Debug, PartialEq, Eq, Structural)]
pub struct ResizeStep {
    /// The size to propose to the client, flagged as resizing.
    pub size: Size,
    /// The value to store in the surface's ledger.
    pub ledger: ResizeState,
    /// The cursor to show.
    pub cursor: CursorIcon,
}

/// One coordinate of a dragged window: where it started plus how far the
/// pointer has travelled, to the nearest unit, kept within `i32`.
pub open spec fn moved_coordinate(initial: int, start: int, current: int) -> int {
    clamp_i32(round_units(initial * 256 + (current - start)))
}

/// One extent of a resized window: the initial extent plus `delta`
/// sub-pixels, the fraction dropped, kept within `i32` and at least 1.
pub open spec fn dragged_extent(initial: int, delta: int) -> int {
    let v = clamp_i32(trunc_units(initial * 256 + delta));
    if v < 1 {
        1
    } else {
        v
    }
}

/// The width after the pointer has travelled `dx` sub-pixels to the right:
/// a left edge grows against the pointer, a right edge with it, and without
/// either the width stays, but for the floor of 1.
pub open spec fn resized_width(edges: ResizeEdge, initial: int, dx: int) -> int {
    if edges.spec_has_left() {
        dragged_extent(initial, -dx)
    } else if edges.spec_has_right() {
        dragged_extent(initial, dx)
    } else if initial < 1 {
        1
    } else {
        initial
    }
}

/// The height after the pointer has travelled `dy` sub-pixels downwards.
pub open spec fn resized_height(edges: ResizeEdge, initial: int, dy: int) -> int {
    if edges.spec_has_top() {
        dragged_extent(initial, -dy)
    } else if edges.spec_has_bottom() {
        dragged_extent(initial, dy)
    } else if initial < 1 {
        1
    } else {
        initial
    }
}

/// The horizontal position that keeps the right side in place once the
/// client has committed width `new_w`; only a left edge moves the window.
pub open spec fn anchored_x(data: ResizeData, current_x: int, new_w: int) -> int {
    if data.edges.spec_has_left() {
        data.initial_window_location.x + (data.initial_window_size.w - new_w)
    } else {
        current_x
    }
}

/// The vertical position that keeps the bottom side in place once the
/// client has committed height `new_h`; only a top edge moves the window.
pub open spec fn anchored_y(data: ResizeData, current_y: int, new_h: int) -> int {
    if data.edges.spec_has_top() {
        data.initial_window_location.y + (data.initial_window_size.h - new_h)
    } else {
        current_y
    }
}

impl ResizeData {
    /// Whether a commit under this resize moves the window at all.
    pub open spec fn anchors(self) -> bool {
        self.edges.spec_has_left() || self.edges.spec_has_top()
    }

    /// Whether the anchored position for a commit of `new_size` can be held
    /// in a `Point`.
    pub open spec fn anchor_fits(self, current: Point, new_size: Size) -> bool {
        &&& fits_i32(anchored_x(self, current.x as int, new_size.w as int))
        &&& fits_i32(anchored_y(self, current.y as int, new_size.h as int))
    }

    /// The window position after a commit of `new_size`, or `None` where a
    /// coordinate of it would leave the range of `i32`.
    pub fn anchored_location(&self, current: Point, new_size: Size) -> (p: Option<Point>)
        ensures
            p.is_some() <==> self.anchor_fits(current, new_size),
            p matches Some(q) ==> {
                &&& q.x == anchored_x(*self, current.x as int, new_size.w as int)
                &&& q.y == anchored_y(*self, current.y as int, new_size.h as int)
            },
    {
        let x: i64 = if self.edges.has_left() {
            self.initial_window_location.x as i64 + (self.initial_window_size.w as i64
                - new_size.w as i64)
        } else {
            current.x as i64
        };
        let y: i64 = if self.edges.has_top() {
            self.initial_window_location.y as i64 + (self.initial_window_size.h as i64
                - new_size.h as i64)
        } else {
            current.y as i64
        };
        if x < -2147483648 || x > 2147483647 || y < -2147483648 || y > 2147483647 {
            None
        } else {
            Some(Point { x: x as i32, y: y as i32 })
        }
    }
}

impl ResizeState {
    /// The resize that the state belongs to, if one is under way.
    pub open spec fn data(self) -> Option<ResizeData> {
        match self {
            ResizeState::NotResizing => None,
            ResizeState::Resizing(d) => Some(d),
            ResizeState::WaitingForFinalAck(d, _) => Some(d),
            ResizeState::WaitingForCommit(d) => Some(d),
        }
    }

    /// The state after a motion sample of a resize grab: resizing, whatever
    /// was there before.
    pub open spec fn after_motion(self, data: ResizeData) -> ResizeState {
        ResizeState::Resizing(data)
    }

    /// The state after the grab has ended and its final configure carries
    /// `serial`: a resize in progress now waits for that acknowledgement.
    pub open spec fn after_finish(self, serial: u32) -> ResizeState {
        match self {
            ResizeState::Resizing(d) => ResizeState::WaitingForFinalAck(d, serial),
            _ => self,
        }
    }

    /// The state after the client has acknowledged `serial`: only the awaited
    /// serial moves the state on.
    pub open spec fn after_ack(self, serial: u32) -> ResizeState {
        match self {
            ResizeState::WaitingForFinalAck(d, s) => if s == serial {
                ResizeState::WaitingForCommit(d)
            } else {
                self
            },
            _ => self,
        }
    }

    /// The state after a commit: an awaited commit ends the resize.
    pub open spec fn after_commit(self) -> ResizeState {
        match self {
            ResizeState::WaitingForCommit(_) => ResizeState::NotResizing,
            _ => self,
        }
    }

    /// The state after `event`.
    pub open spec fn step(self, event: LedgerEvent) -> ResizeState {
        match event {
            LedgerEvent::Motion(d) => self.after_motion(d),
            LedgerEvent::Finished(s) => self.after_finish(s),
            LedgerEvent::Ack(s) => self.after_ack(s),
            LedgerEvent::Commit => self.after_commit(),
        }
    }

    /// The resize against which a commit in this state is anchored: one that
    /// is still being dragged, or one whose final size was acknowledged.
    pub open spec fn commit_anchor(self) -> Option<ResizeData> {
        match self {
            ResizeState::Resizing(d) => Some(d),
            ResizeState::WaitingForCommit(d) => Some(d),
            _ => None,
        }
    }

    /// The state after every event of `events`, in order.
    pub open spec fn run(self, events: Seq<LedgerEvent>) -> ResizeState
        decreases events.len(),
    {
        if events.len() == 0 {
            self
        } else {
            self.run(events.drop_last()).step(events.last())
        }
    }
}

impl Default for ResizeState {
    fn default() -> (s: ResizeState)
        ensures
            s == ResizeState::NotResizing,
    {
        ResizeState::NotResizing
    }
}

impl SurfaceData {
    /// The data of a new surface: no resize under way.
    pub fn new() -> (d: SurfaceData)
        ensures
            d.resize_state == ResizeState::NotResizing,
    {
        SurfaceData { resize_state: ResizeState::NotResizing }
    }

    /// Records a motion sample of a resize grab.
    pub fn resize_motion(&mut self, data: ResizeData)
        ensures
            final(self).resize_state == old(self).resize_state.after_motion(data),
    {
        self.resize_state = ResizeState::Resizing(data);
    }

    /// Records that the grab ended and that its final configure went out
    /// under `serial`.
    pub fn resize_finished(&mut self, serial: u32)
        ensures
            final(self).resize_state == old(self).resize_state.after_finish(serial),
    {
        if let ResizeState::Resizing(d) = self.resize_state {
            self.resize_state = ResizeState::WaitingForFinalAck(d, serial);
        }
    }

    /// Records the client's acknowledgement of `serial`; tells whether it was
    /// the awaited one.
    pub fn ack_configure(&mut self, serial: u32) -> (advanced: bool)
        ensures
            final(self).resize_state == old(self).resize_state.after_ack(serial),
            advanced <==> (old(self).resize_state matches ResizeState::WaitingForFinalAck(_, s)
                && s == serial),
            !advanced ==> *final(self) == *old(self),
    {
        if let ResizeState::WaitingForFinalAck(d, s) = self.resize_state {
            if s == serial {
                self.resize_state = ResizeState::WaitingForCommit(d);
                return true;
            }
        }
        false
    }

    /// Records a commit of a buffer of `new_size` by a window now at
    /// `current`, and returns where the window belongs afterwards: the
    /// anchored position while a resize is dragged or its commit awaited,
    /// `current` otherwise, and also where the anchored position cannot be
    /// held in a `Point`.
    pub fn commit(&mut self, current: Point, new_size: Size) -> (location: Point)
        ensures
            final(self).resize_state == old(self).resize_state.after_commit(),
            location == spec_commit_location(old(self).resize_state, current, new_size),
    {
        let state = self.resize_state;
        let location = match state {
            ResizeState::Resizing(d) | ResizeState::WaitingForCommit(d) => {
                match d.anchored_location(current, new_size) {
                    Some(p) => p,
                    None => current,
                }
            },
            _ => current,
        };
        if let ResizeState::WaitingForCommit(_) = state {
            self.resize_state = ResizeState::NotResizing;
        }
        location
    }
}

/// Where a window at `current` belongs after a commit of `new_size` in
/// ledger state `state`.
pub open spec fn spec_commit_location(state: ResizeState, current: Point, new_size: Size) -> Point {
    match state.commit_anchor() {
        Some(d) => if d.anchor_fits(current, new_size) {
            Point {
                x: anchored_x(d, current.x as int, new_size.w as int) as i32,
                y: anchored_y(d, current.y as int, new_size.h as int) as i32,
            }
        } else {
            current
        },
        None => current,
    }
}

impl PointerMoveSurfaceGrab {
    /// Where the window belongs when the pointer is at `location`.
    pub open spec fn spec_motion(self, location: PointerLocation) -> Point {
        Point {
            x: moved_coordinate(
                self.initial_window_location.x as int,
                self.start_data.location.x as int,
                location.x as int,
            ) as i32,
            y: moved_coordinate(
                self.initial_window_location.y as int,
                self.start_data.location.y as int,
                location.y as int,
            ) as i32,
        }
    }

    /// A motion sample: the window follows the pointer.
    pub fn motion(&self, location: PointerLocation) -> (p: Point)
        ensures
            p == self.spec_motion(location),
    {
        let nx: i128 = self.initial_window_location.x as i128 * 256 + (location.x as i128
            - self.start_data.location.x as i128);
        let ny: i128 = self.initial_window_location.y as i128 * 256 + (location.y as i128
            - self.start_data.location.y as i128);
        Point { x: saturate_i32(round_to_units(nx)), y: saturate_i32(round_to_units(ny)) }
    }

    /// A button event, after which `pressed` buttons are held: the grab ends
    /// exactly when none is.
    pub fn button(&self, pressed: usize) -> (released: bool)
        ensures
            released <==> pressed == 0,
    {
        pressed == 0
    }
}

impl PointerResizeSurfaceGrab {
    /// The resize as the ledger records it.
    pub open spec fn spec_resize_data(&self) -> ResizeData {
        ResizeData {
            edges: self.edges,
            initial_window_location: self.initial_window_location,
            initial_window_size: self.initial_window_size,
        }
    }

    /// The size to propose when the pointer is at `location`.
    pub open spec fn spec_size_at(self, location: PointerLocation) -> Size {
        Size {
            w: resized_width(
                self.edges,
                self.initial_window_size.w as int,
                location.x - self.start_data.location.x,
            ) as i32,
            h: resized_height(
                self.edges,
                self.initial_window_size.h as int,
                location.y - self.start_data.location.y,
            ) as i32,
        }
    }

    #[verifier::when_used_as_spec(spec_resize_data)]
    pub fn resize_data(&self) -> (d: ResizeData)
        ensures
            d == self.spec_resize_data(),
    {
        ResizeData {
            edges: self.edges,
            initial_window_location: self.initial_window_location,
            initial_window_size: self.initial_window_size,
        }
    }

    /// A motion sample: the size follows the pointer on the pulled edges and
    /// is remembered; the ledger is to read `Resizing`.
    pub fn motion(&mut self, location: PointerLocation) -> (step: ResizeStep)
        ensures
            *final(self) == (PointerResizeSurfaceGrab {
                last_window_size: old(self).spec_size_at(location),
                ..*old(self)
            }),
            step.size == old(self).spec_size_at(location),
            step.size.w >= 1,
            step.size.h >= 1,
            step.ledger == ResizeState::Resizing(old(self).spec_resize_data()),
            step.cursor == spec_cursor_icon_for_edge(old(self).edges),
    {
        let dx: i128 = location.x as i128 - self.start_data.location.x as i128;
        let dy: i128 = location.y as i128 - self.start_data.location.y as i128;
        let w0: i128 = self.initial_window_size.w as i128;
        let h0: i128 = self.initial_window_size.h as i128;
        let mut w: i32 = self.initial_window_size.w;
        let mut h: i32 = self.initial_window_size.h;
        if self.edges.has_left() {
            w = saturate_i32(trunc_to_units(w0 * 256 - dx));
        } else if self.edges.has_right() {
            w = saturate_i32(trunc_to_units(w0 * 256 + dx));
        }
        if self.edges.has_top() {
            h = saturate_i32(trunc_to_units(h0 * 256 - dy));
        } else if self.edges.has_bottom() {
            h = saturate_i32(trunc_to_units(h0 * 256 + dy));
        }
        if w < 1 {
            w = 1;
        }
        if h < 1 {
            h = 1;
        }
        self.last_window_size = Size { w, h };
        ResizeStep {
            size: self.last_window_size,
            ledger: ResizeState::Resizing(self.resize_data()),
            cursor: cursor_icon_for_edge(self.edges),
        }
    }

    /// A button event, after which `pressed` buttons are held: the grab ends
    /// exactly when none is, and then the last computed size is the one to
    /// propose, no longer flagged as resizing.
    pub fn button(&self, pressed: usize) -> (last: Option<Size>)
        ensures
            last.is_some() <==> pressed == 0,
            last matches Some(s) ==> s == self.last_window_size,
    {
        if pressed == 0 {
            Some(self.last_window_size)
        } else {
            None
        }
    }
}


/// One step never skips the acknowledgement: the ledger comes to wait for a
/// commit only from waiting for the final acknowledgement (or by staying),
/// so never straight from `NotResizing`; it comes to rest only from rest or
/// by the awaited commit; and while it waits for the final acknowledgement,
/// nothing but a motion sample of a new grab takes it back to `Resizing`.
pub proof fn lemma_ledger_step_moves_forward(state: ResizeState, event: LedgerEvent)
    ensures
        state.step(event) is WaitingForCommit ==> state is WaitingForFinalAck || state
            is WaitingForCommit,
        state is NotResizing ==> !(state.step(event) is WaitingForCommit),
        state.step(event) is WaitingForFinalAck ==> state is Resizing || state
            is WaitingForFinalAck,
        state.step(event) is NotResizing ==> state is NotResizing || (state is WaitingForCommit
            && event is Commit),
        state is WaitingForFinalAck && !(event is Motion) ==> !(state.step(event) is Resizing),
{
}

/// The same along any sequence of events from any state: between two
/// consecutive states of the run, the ledger never goes from `NotResizing`
/// to `WaitingForCommit`, and never from `WaitingForFinalAck` to `Resizing`
/// unless the event between them is a motion sample of a new grab.
pub proof fn lemma_ledger_run_moves_forward(state: ResizeState, events: Seq<LedgerEvent>, i: int)
    requires
        0 <= i < events.len(),
    ensures
        state.run(events.take(i + 1)) == state.run(events.take(i)).step(events[i]),
        state.run(events.take(i)) is NotResizing ==> !(state.run(events.take(i + 1))
            is WaitingForCommit),
        state.run(events.take(i)) is WaitingForFinalAck && !(events[i] is Motion) ==> !(state.run(
            events.take(i + 1),
        ) is Resizing),
{
    let upto = events.take(i + 1);
    assert(upto.drop_last() =~= events.take(i));
    assert(upto.last() == events[i]);
}

/// An acknowledgement of any serial but the awaited one leaves the ledger as
/// it was, in every state.
pub proof fn lemma_stale_ack_is_ignored(state: ResizeState, serial: u32)
    requires
        !(state matches ResizeState::WaitingForFinalAck(_, s) && s == serial),
    ensures
        state.after_ack(serial) == state,
{
}

/// A commit of size `(w2, h2)` under a resize from the top-left corner that
/// began at `(x0, y0)` with size `(w0, h0)` puts the window at
/// `(x0 + (w0 - w2), y0 + (h0 - h2))`, wherever it stood, so that the
/// bottom-right corner stays where it was; under a resize from the
/// bottom-right corner the window stays where it stands. Both hold while
/// the resize is dragged and while its commit is awaited.
pub proof fn lemma_anchor_stability(
    initial_location: Point,
    initial_size: Size,
    current: Point,
    new_size: Size,
)
    requires
        fits_i32(initial_location.x + (initial_size.w - new_size.w)),
        fits_i32(initial_location.y + (initial_size.h - new_size.h)),
    ensures
        ({
            let d = ResizeData {
                edges: ResizeEdge::TopLeft,
                initial_window_location: initial_location,
                initial_window_size: initial_size,
            };
            let p = Point {
                x: (initial_location.x + (initial_size.w - new_size.w)) as i32,
                y: (initial_location.y + (initial_size.h - new_size.h)) as i32,
            };
            &&& spec_commit_location(ResizeState::Resizing(d), current, new_size) == p
            &&& spec_commit_location(ResizeState::WaitingForCommit(d), current, new_size) == p
            &&& p.x + new_size.w == initial_location.x + initial_size.w
            &&& p.y + new_size.h == initial_location.y + initial_size.h
        }),
        ({
            let d = ResizeData {
                edges: ResizeEdge::BottomRight,
                initial_window_location: initial_location,
                initial_window_size: initial_size,
            };
            &&& spec_commit_location(ResizeState::Resizing(d), current, new_size) == current
            &&& spec_commit_location(ResizeState::WaitingForCommit(d), current, new_size)
                == current
        }),
{
}

/// A resized extent is never below 1, however far the pointer travels.
pub proof fn lemma_resized_size_is_positive(edges: ResizeEdge, initial: int, delta: int)
    ensures
        resized_width(edges, initial, delta) >= 1,
        resized_height(edges, initial, delta) >= 1,
        fits_i32(initial) ==> fits_i32(resized_width(edges, initial, delta)) && fits_i32(
            resized_height(edges, initial, delta),
        ),
{
}

} // verus!
