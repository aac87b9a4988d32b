//! The window stack: z-order, hit testing and the activation flag.

use vstd::prelude::*;
use crate::geometry::{Point, PointerLocation, Size};

verus! {

/// One client's top-level window as the compositor places it.
#[derive(Clone, Copy, Debug, PartialEq, Eq, Structural)]
pub struct Window {
    /// The identity of the window's surface.
    pub id: u64,
    /// Where the window's top-left corner sits.
    pub location: Point,
    /// The size that the client last committed.
    pub size: Size,
    /// Whether the window is the activated one.
    pub activated: bool,
}

/// The windows in z-order, the bottom one first.
pub struct WindowStack {
    pub windows: Vec<Window>,
}

/// Whether `p` lies inside `w`: the left and top sides belong to the window,
/// the right and bottom sides do not.
pub open spec fn window_contains(w: Window, p: PointerLocation) -> bool {
    &&& w.location.x * 256 <= p.x < (w.location.x + w.size.w) * 256
    &&& w.location.y * 256 <= p.y < (w.location.y + w.size.h) * 256
}

/// `p` as seen from the top-left corner of `w`.
pub open spec fn local_position(w: Window, p: PointerLocation) -> PointerLocation {
    PointerLocation { x: (p.x - w.location.x * 256) as i64, y: (p.y - w.location.y * 256) as i64 }
}

/// Whether some window of `s` has identity `id`.
pub open spec fn has_window(s: Seq<Window>, id: u64) -> bool {
    exists|i: int| 0 <= i < s.len() && #[trigger] s[i].id == id
}

/// The place in `s` of the window with identity `id`.
pub open spec fn position_of(s: Seq<Window>, id: u64) -> int {
    choose|i: int| 0 <= i < s.len() && #[trigger] s[i].id == id
}

/// No two windows of `s` share an identity.
pub open spec fn distinct_ids(s: Seq<Window>) -> bool {
    forall|i: int, j: int|
        0 <= i < s.len() && 0 <= j < s.len() && #[trigger] s[i].id == #[trigger] s[j].id ==> i
            == j
}

/// At most one window of `s` is activated.
pub open spec fn at_most_one_activated(s: Seq<Window>) -> bool {
    forall|i: int, j: int|
        0 <= i < s.len() && 0 <= j < s.len() && #[trigger] s[i].activated
            && #[trigger] s[j].activated ==> i == j
}

/// Whether `i` is the topmost window of `s` that contains `p`.
pub open spec fn is_topmost_at(s: Seq<Window>, p: PointerLocation, i: int) -> bool {
    &&& 0 <= i < s.len()
    &&& window_contains(s[i], p)
    &&& forall|j: int| i < j < s.len() ==> !window_contains(#[trigger] s[j], p)
}

/// Whether no window of `s` contains `p`.
pub open spec fn nothing_at(s: Seq<Window>, p: PointerLocation) -> bool {
    forall|j: int| 0 <= j < s.len() ==> !window_contains(#[trigger] s[j], p)
}

/// The place of the topmost window of `s` that contains `p`, if any does.
pub open spec fn topmost_at(s: Seq<Window>, p: PointerLocation) -> Option<int> {
    if exists|i: int| is_topmost_at(s, p, i) {
        Some(choose|i: int| is_topmost_at(s, p, i))
    } else {
        None
    }
}

/// The topmost window of `s` that contains `p`, with `p` as that window
/// sees it.
pub open spec fn spec_hit_test(s: Seq<Window>, p: PointerLocation) -> Option<
    (u64, PointerLocation),
> {
    match topmost_at(s, p) {
        Some(i) => Some((s[i].id, local_position(s[i], p))),
        None => None,
    }
}

/// The topmost window at a point is unique, and there is none exactly where
/// no window contains the point.
pub proof fn lemma_topmost_at(s: Seq<Window>, p: PointerLocation)
    ensures
        forall|i: int| is_topmost_at(s, p, i) ==> topmost_at(s, p) == Some(i),
        topmost_at(s, p) matches Some(i) ==> is_topmost_at(s, p, i),
        topmost_at(s, p) is None <==> nothing_at(s, p),
{
    assert forall|i: int| is_topmost_at(s, p, i) implies topmost_at(s, p) == Some(i) by {
        let j = choose|j: int| is_topmost_at(s, p, j);
        if i < j {
            assert(!window_contains(s[j], p));
        }
        if j < i {
            assert(!window_contains(s[i], p));
        }
    }
    if nothing_at(s, p) {
        if exists|i: int| is_topmost_at(s, p, i) {
            let j = choose|j: int| is_topmost_at(s, p, j);
            assert(!window_contains(s[j], p));
        }
    }
    if topmost_at(s, p) is None {
        assert forall|j: int| 0 <= j < s.len() implies !window_contains(#[trigger] s[j], p) by {
            if window_contains(s[j], p) {
                lemma_some_window_is_topmost(s, p, j);
            }
        }
    }
}

/// Where some window contains the point, one of them is the topmost.
pub proof fn lemma_some_window_is_topmost(s: Seq<Window>, p: PointerLocation, j: int)
    requires
        0 <= j < s.len(),
        window_contains(s[j], p),
    ensures
        exists|i: int| is_topmost_at(s, p, i),
    decreases s.len() - j,
{
    if exists|k: int| j < k < s.len() && window_contains(#[trigger] s[k], p) {
        let k = choose|k: int| j < k < s.len() && window_contains(#[trigger] s[k], p);
        lemma_some_window_is_topmost(s, p, k);
    } else {
        assert(is_topmost_at(s, p, j));
    }
}

/// `s` with the window at `i` moved to the top, the others in their order.
pub open spec fn raised(s: Seq<Window>, i: int) -> Seq<Window> {
    s.remove(i).push(s[i])
}

/// `s` with the window `id` at `location`.
pub open spec fn placed(s: Seq<Window>, id: u64, location: Point) -> Seq<Window> {
    let i = position_of(s, id);
    s.update(i, Window { location, ..s[i] })
}

/// `s` with the window `id` at size `size`.
pub open spec fn sized(s: Seq<Window>, id: u64, size: Size) -> Seq<Window> {
    let i = position_of(s, id);
    s.update(i, Window { size, ..s[i] })
}

/// `s` with the activation flag set on the window `id` and cleared on every
/// other one.
pub open spec fn activated_only(s: Seq<Window>, id: u64) -> Seq<Window> {
    Seq::new(s.len(), |i: int| Window { activated: s[i].id == id, ..s[i] })
}

/// The identity of the activated window of `s`, if there is one.
pub open spec fn active_window(s: Seq<Window>) -> Option<u64> {
    if exists|i: int| 0 <= i < s.len() && #[trigger] s[i].activated {
        Some(s[choose|i: int| 0 <= i < s.len() && #[trigger] s[i].activated].id)
    } else {
        None
    }
}

impl View for WindowStack {
    type V = Seq<Window>;

    open spec fn view(&self) -> Seq<Window> {
        self.windows@
    }
}

impl Window {
    /// Whether `p` lies inside the window.
    pub fn contains(&self, p: PointerLocation) -> (b: bool)
        ensures
            b == window_contains(*self, p),
    {
        let left: i64 = self.location.x as i64 * 256;
        let top: i64 = self.location.y as i64 * 256;
        let right: i64 = (self.location.x as i64 + self.size.w as i64) * 256;
        let bottom: i64 = (self.location.y as i64 + self.size.h as i64) * 256;
        left <= p.x && p.x < right && top <= p.y && p.y < bottom
    }

    /// `p` as seen from the window's top-left corner.
    pub fn to_local(&self, p: PointerLocation) -> (l: PointerLocation)
        requires
            i64::MIN <= p.x - self.location.x * 256 <= i64::MAX,
            i64::MIN <= p.y - self.location.y * 256 <= i64::MAX,
        ensures
            l == local_position(*self, p),
            window_contains(*self, p) ==> 0 <= l.x < self.size.w * 256 && 0 <= l.y < self.size.h
                * 256,
    {
        PointerLocation {
            x: p.x - self.location.x as i64 * 256,
            y: p.y - self.location.y as i64 * 256,
        }
    }
}

impl WindowStack {
    /// The stack's invariant: identities are unique and at most one window is
    /// activated.
    pub open spec fn wf(&self) -> bool {
        &&& distinct_ids(self@)
        &&& at_most_one_activated(self@)
    }

    /// An empty stack.
    pub fn new() -> (s: WindowStack)
        ensures
            s@ == Seq::<Window>::empty(),
            s.wf(),
    {
        WindowStack { windows: Vec::new() }
    }

    /// The number of windows.
    pub fn len(&self) -> (n: usize)
        ensures
            n == self@.len(),
    {
        self.windows.len()
    }

    /// Whether the stack's invariant holds.
    pub fn is_valid(&self) -> (ok: bool)
        ensures
            ok == self.wf(),
    {
        let n = self.windows.len();
        let mut seen_active: bool = false;
        let ghost mut active_at: int = 0;
        let mut i: usize = 0;
        while i < n
            invariant
                i <= n,
                n == self@.len(),
                forall|a: int, b: int|
                    0 <= a < i && 0 <= b < a ==> (#[trigger] self@[a]).id != (#[trigger] self@[b]).id,
                seen_active ==> 0 <= active_at < i && self@[active_at].activated,
                forall|a: int|
                    0 <= a < i && (#[trigger] self@[a]).activated ==> seen_active && a
                        == active_at,
            decreases n - i,
        {
            let mut j: usize = 0;
            while j < i
                invariant
                    j <= i,
                    i < n,
                    n == self@.len(),
                    forall|b: int| 0 <= b < j ==> self@[i as int].id != (#[trigger] self@[b]).id,
                decreases i - j,
            {
                if self.windows[i].id == self.windows[j].id {
                    return false;
                }
                j = j + 1;
            }
            if self.windows[i].activated {
                if seen_active {
                    assert(self@[active_at].activated && self@[i as int].activated);
                    return false;
                }
                seen_active = true;
                proof {
                    active_at = i as int;
                }
            }
            i = i + 1;
        }
        proof {
            assert forall|a: int, b: int|
                0 <= a < n && 0 <= b < n && #[trigger] self@[a].id == #[trigger] self@[b].id
                implies a == b by {
                if a < b {
                    assert(self@[b].id != self@[a].id);
                }
                if b < a {
                    assert(self@[a].id != self@[b].id);
                }
            }
        }
        true
    }

    /// The place of the window `id`, counted from the bottom.
    pub fn find(&self, id: u64) -> (r: Option<usize>)
        ensures
            r.is_some() <==> has_window(self@, id),
            r matches Some(i) ==> i < self@.len() && self@[i as int].id == id,
            r matches Some(i) ==> distinct_ids(self@) ==> i == position_of(self@, id),
    {
        let mut i: usize = 0;
        while i < self.windows.len()
            invariant
                i <= self.windows.len(),
                forall|j: int| 0 <= j < i ==> self@[j].id != id,
            decreases self.windows.len() - i,
        {
            if self.windows[i].id == id {
                return Some(i);
            }
            i = i + 1;
        }
        None
    }

    /// The window `id`, if it is in the stack.
    pub fn get(&self, id: u64) -> (r: Option<Window>)
        ensures
            r.is_some() <==> has_window(self@, id),
            r matches Some(w) ==> w.id == id && self@.contains(w),
            r matches Some(w) ==> distinct_ids(self@) ==> w == self@[position_of(self@, id)],
    {
        match self.find(id) {
            Some(i) => {
                let w = self.windows[i];
                assert(self@[i as int] == w);
                Some(w)
            },
            None => None,
        }
    }

    /// The topmost window that contains `p`, as its place in the stack.
    pub fn hit_index(&self, p: PointerLocation) -> (r: Option<usize>)
        ensures
            r matches Some(i) ==> is_topmost_at(self@, p, i as int) && topmost_at(self@, p) == Some(
                i as int,
            ),
            r is None ==> nothing_at(self@, p) && topmost_at(self@, p) is None,
    {
        let mut i: usize = self.windows.len();
        while i > 0
            invariant
                i <= self.windows.len(),
                forall|j: int| i <= j < self@.len() ==> !window_contains(#[trigger] self@[j], p),
            decreases i,
        {
            i = i - 1;
            if self.windows[i].contains(p) {
                proof {
                    lemma_topmost_at(self@, p);
                }
                return Some(i);
            }
        }
        proof {
            lemma_topmost_at(self@, p);
        }
        None
    }

    /// The topmost window that contains `p`, with `p` as seen from that
    /// window's top-left corner; `None` where no window contains `p`.
    pub fn hit_test(&self, p: PointerLocation) -> (r: Option<(u64, PointerLocation)>)
        ensures
            r == spec_hit_test(self@, p),
            r matches Some((id, local)) ==> exists|i: int|
                {
                    &&& is_topmost_at(self@, p, i)
                    &&& id == self@[i].id
                    &&& local == local_position(self@[i], p)
                },
            r is None <==> nothing_at(self@, p),
    {
        proof {
            lemma_topmost_at(self@, p);
        }
        match self.hit_index(p) {
            Some(i) => {
                let w = self.windows[i];
                assert(is_topmost_at(self@, p, i as int));
                Some((w.id, w.to_local(p)))
            },
            None => None,
        }
    }

    /// Puts a new window on top of the stack.
    pub fn push(&mut self, window: Window)
        requires
            old(self).wf(),
            !has_window(old(self)@, window.id),
            window.activated ==> active_window(old(self)@) is None,
        ensures
            final(self)@ == old(self)@.push(window),
            final(self).wf(),
            active_window(final(self)@) == (if window.activated {
                Some(window.id)
            } else {
                active_window(old(self)@)
            }),
    {
        proof {
            let s = self@;
            let t = s.push(window);
            lemma_push_active(s, window);
            assert forall|i: int, j: int|
                0 <= i < t.len() && 0 <= j < t.len() && #[trigger] t[i].id == #[trigger] t[j].id
                implies i == j by {
                if i < s.len() {
                    assert(s[i].id == t[i].id);
                }
                if j < s.len() {
                    assert(s[j].id == t[j].id);
                }
            }
            assert forall|i: int, j: int|
                0 <= i < t.len() && 0 <= j < t.len() && #[trigger] t[i].activated
                    && #[trigger] t[j].activated implies i == j by {
                if i < s.len() {
                    assert(s[i].activated);
                }
                if j < s.len() {
                    assert(s[j].activated);
                }
            }
        }
        self.windows.push(window);
    }

    /// Moves the window `id` to the top; the others keep their order. A
    /// stack without that window stays as it is.
    pub fn raise(&mut self, id: u64) -> (found: bool)
        requires
            old(self).wf(),
        ensures
            found <==> has_window(old(self)@, id),
            found ==> final(self)@ == raised(old(self)@, position_of(old(self)@, id)),
            !found ==> final(self)@ == old(self)@,
            final(self).wf(),
            forall|other: u64| has_window(final(self)@, other) <==> has_window(old(self)@, other),
            active_window(final(self)@) == active_window(old(self)@),
    {
        match self.find(id) {
            Some(i) => {
                let ghost s = self@;
                let w = self.windows.remove(i);
                self.windows.push(w);
                proof {
                    lemma_raised_keeps_windows(s, i as int);
                }
                true
            },
            None => false,
        }
    }

    /// Places the window `id` at `location`, leaving order and flags alone.
    pub fn set_location(&mut self, id: u64, location: Point) -> (found: bool)
        requires
            old(self).wf(),
        ensures
            found <==> has_window(old(self)@, id),
            found ==> final(self)@ == placed(old(self)@, id, location),
            !found ==> final(self)@ == old(self)@,
            final(self).wf(),
            forall|other: u64| has_window(final(self)@, other) <==> has_window(old(self)@, other),
            active_window(final(self)@) == active_window(old(self)@),
    {
        match self.find(id) {
            Some(i) => {
                let ghost s = self@;
                let w = self.windows[i];
                let moved = Window { id: w.id, location, size: w.size, activated: w.activated };
                self.windows.set(i, moved);
                proof {
                    lemma_update_keeps_windows(s, i as int, moved);
                }
                true
            },
            None => false,
        }
    }

    /// Records the size that the window `id` has committed.
    pub fn set_size(&mut self, id: u64, size: Size) -> (found: bool)
        requires
            old(self).wf(),
        ensures
            found <==> has_window(old(self)@, id),
            found ==> final(self)@ == sized(old(self)@, id, size),
            !found ==> final(self)@ == old(self)@,
            final(self).wf(),
            forall|other: u64| has_window(final(self)@, other) <==> has_window(old(self)@, other),
            active_window(final(self)@) == active_window(old(self)@),
    {
        match self.find(id) {
            Some(i) => {
                let ghost s = self@;
                let w = self.windows[i];
                let sized = Window { id: w.id, location: w.location, size, activated: w.activated };
                self.windows.set(i, sized);
                proof {
                    lemma_update_keeps_windows(s, i as int, sized);
                }
                true
            },
            None => false,
        }
    }

    /// Takes the window `id` out of the stack.
    pub fn remove(&mut self, id: u64) -> (removed: Option<Window>)
        requires
            old(self).wf(),
        ensures
            removed.is_some() <==> has_window(old(self)@, id),
            removed matches Some(w) ==> w == old(self)@[position_of(old(self)@, id)]
                && final(self)@ == old(self)@.remove(position_of(old(self)@, id)),
            removed is None ==> final(self)@ == old(self)@,
            final(self).wf(),
            active_window(final(self)@) == (if active_window(old(self)@) == Some(id) {
                None
            } else {
                active_window(old(self)@)
            }),
            !has_window(final(self)@, id),
            forall|other: u64|
                other != id ==> (has_window(final(self)@, other) <==> has_window(
                    old(self)@,
                    other,
                )),
    {
        match self.find(id) {
            Some(i) => {
                let ghost s = self@;
                let w = self.windows.remove(i);
                proof {
                    lemma_remove_keeps_others(s, i as int);
                    lemma_remove_active(s, i as int);
                }
                Some(w)
            },
            None => {
                proof {
                    lemma_active_is_window(self@);
                }
                None
            },
        }
    }

    /// The identity of the activated window, if there is one.
    pub fn active(&self) -> (r: Option<u64>)
        requires
            self.wf(),
        ensures
            r == active_window(self@),
            r matches Some(id) ==> has_window(self@, id),
    {
        let mut i: usize = 0;
        while i < self.windows.len()
            invariant
                i <= self.windows.len(),
                self.wf(),
                forall|j: int| 0 <= j < i ==> !(#[trigger] self@[j]).activated,
            decreases self.windows.len() - i,
        {
            if self.windows[i].activated {
                proof {
                    let k = choose|k: int| 0 <= k < self@.len() && #[trigger] self@[k].activated;
                    assert(self@[i as int].activated);
                    assert(k == i);
                }
                return Some(self.windows[i].id);
            }
            i = i + 1;
        }
        None
    }

    /// Sets the activation flag on the window `id` and clears it on every
    /// other one; order and geometry stay.
    pub fn activate_only(&mut self, id: u64)
        requires
            old(self).wf(),
        ensures
            final(self)@ == activated_only(old(self)@, id),
            final(self).wf(),
            has_window(old(self)@, id) ==> active_window(final(self)@) == Some(id),
            !has_window(old(self)@, id) ==> active_window(final(self)@) is None,
            forall|other: u64| has_window(final(self)@, other) <==> has_window(old(self)@, other),
    {
        let ghost s = self@;
        let mut i: usize = 0;
        while i < self.windows.len()
            invariant
                i <= self.windows.len(),
                self@.len() == s.len(),
                forall|j: int| 0 <= j < i ==> self@[j] == activated_only(s, id)[j],
                forall|j: int| i <= j < s.len() ==> self@[j] == s[j],
            decreases self.windows.len() - i,
        {
            let w = self.windows[i];
            self.windows.set(
                i,
                Window { id: w.id, location: w.location, size: w.size, activated: w.id == id },
            );
            i = i + 1;
        }
        proof {
            assert(self@ =~= activated_only(s, id));
            lemma_activated_only(s, id);
        }
    }
}

/// The activated window, if there is one, is a window of the stack, and
/// there is none exactly where no window is flagged.
pub proof fn lemma_active_is_window(s: Seq<Window>)
    ensures
        active_window(s) matches Some(id) ==> has_window(s, id),
        active_window(s) is None <==> forall|k: int| 0 <= k < s.len() ==> !(#[trigger] s[k]).activated,
        forall|k: int|
            0 <= k < s.len() && (#[trigger] s[k]).activated && at_most_one_activated(s)
                ==> active_window(s) == Some(s[k].id),
{
    if exists|k: int| 0 <= k < s.len() && #[trigger] s[k].activated {
        let a = choose|k: int| 0 <= k < s.len() && #[trigger] s[k].activated;
        assert(s[a].id == s[a].id);
    }
}

/// A new window on top becomes the activated one if it is flagged, and
/// leaves the activated one alone if it is not.
pub proof fn lemma_push_active(s: Seq<Window>, w: Window)
    requires
        at_most_one_activated(s),
        w.activated ==> active_window(s) is None,
    ensures
        active_window(s.push(w)) == (if w.activated {
            Some(w.id)
        } else {
            active_window(s)
        }),
{
    let t = s.push(w);
    lemma_active_is_window(s);
    assert forall|k: int| 0 <= k < s.len() implies #[trigger] t[k] == s[k] by {}
    assert(t[s.len() as int] == w);
    if w.activated {
        let b = choose|k: int| 0 <= k < t.len() && #[trigger] t[k].activated;
        if b < s.len() {
            assert(s[b].activated);
        }
    } else {
        if exists|k: int| 0 <= k < s.len() && #[trigger] s[k].activated {
            let a = choose|k: int| 0 <= k < s.len() && #[trigger] s[k].activated;
            assert(t[a].activated);
            let b = choose|k: int| 0 <= k < t.len() && #[trigger] t[k].activated;
            assert(s[b].activated);
        } else {
            if exists|k: int| 0 <= k < t.len() && #[trigger] t[k].activated {
                let b = choose|k: int| 0 <= k < t.len() && #[trigger] t[k].activated;
                assert(s[b].activated);
            }
        }
    }
}

/// Taking the activated window out leaves none activated; taking another
/// one out leaves the activated one alone.
pub proof fn lemma_remove_active(s: Seq<Window>, i: int)
    requires
        0 <= i < s.len(),
        distinct_ids(s),
        at_most_one_activated(s),
    ensures
        active_window(s.remove(i)) == (if active_window(s) == Some(s[i].id) {
            None
        } else {
            active_window(s)
        }),
{
    let t = s.remove(i);
    let from = |k: int| if k < i { k } else { k + 1 };
    let to = |k: int| if k < i { k } else { k - 1 };
    assert forall|k: int| 0 <= k < t.len() implies #[trigger] t[k] == s[from(k)] && 0 <= from(k)
        < s.len() && from(k) != i by {}
    lemma_active_is_window(s);
    lemma_active_is_window(t);
    if exists|k: int| 0 <= k < s.len() && #[trigger] s[k].activated {
        let a = choose|k: int| 0 <= k < s.len() && #[trigger] s[k].activated;
        if s[a].id == s[i].id {
            assert(a == i);
            if exists|k: int| 0 <= k < t.len() && #[trigger] t[k].activated {
                let b = choose|k: int| 0 <= k < t.len() && #[trigger] t[k].activated;
                assert(s[from(b)].activated);
            }
        } else {
            assert(t[to(a)] == s[a]);
            assert(t[to(a)].activated);
            let b = choose|k: int| 0 <= k < t.len() && #[trigger] t[k].activated;
            assert(s[from(b)].activated);
        }
    } else {
        if exists|k: int| 0 <= k < t.len() && #[trigger] t[k].activated {
            let b = choose|k: int| 0 <= k < t.len() && #[trigger] t[k].activated;
            assert(s[from(b)].activated);
        }
    }
}

/// With unique identities a window is found at its own place.
pub proof fn lemma_position_of(s: Seq<Window>, i: int)
    requires
        distinct_ids(s),
        0 <= i < s.len(),
    ensures
        has_window(s, s[i].id),
        position_of(s, s[i].id) == i,
{
    assert(s[i].id == s[i].id);
    let p = position_of(s, s[i].id);
    assert(s[p].id == s[i].id);
}

/// Placing or sizing a window touches that window alone: it gets the new
/// place or size, and every other window stays as it is.
pub proof fn lemma_placed_and_sized(s: Seq<Window>, id: u64, location: Point, size: Size)
    requires
        distinct_ids(s),
        has_window(s, id),
    ensures
        placed(s, id, location).len() == s.len(),
        sized(s, id, size).len() == s.len(),
        forall|k: int|
            0 <= k < s.len() ==> #[trigger] placed(s, id, location)[k] == (if s[k].id == id {
                Window { location, ..s[k] }
            } else {
                s[k]
            }),
        forall|k: int|
            0 <= k < s.len() ==> #[trigger] sized(s, id, size)[k] == (if s[k].id == id {
                Window { size, ..s[k] }
            } else {
                s[k]
            }),
{
    let i = position_of(s, id);
    assert forall|k: int| 0 <= k < s.len() && s[k].id == id implies k == i by {
        assert(s[k].id == s[i].id);
    }
}

/// Raising a window keeps the set of windows, their identities unique and
/// the activation flags.
pub proof fn lemma_raised_keeps_windows(s: Seq<Window>, i: int)
    requires
        0 <= i < s.len(),
        distinct_ids(s),
        at_most_one_activated(s),
    ensures
        distinct_ids(raised(s, i)),
        at_most_one_activated(raised(s, i)),
        raised(s, i).len() == s.len(),
        raised(s, i).last() == s[i],
        forall|id: u64| has_window(raised(s, i), id) <==> has_window(s, id),
        forall|id: u64|
            has_window(s, id) ==> raised(s, i)[position_of(raised(s, i), id)] == s[position_of(
                s,
                id,
            )],
        active_window(raised(s, i)) == active_window(s),
{
    let t = raised(s, i);
    let n = s.len() as int;
    // where each place of `t` comes from
    let from = |k: int| if k < i { k } else if k < n - 1 { k + 1 } else { i };
    assert forall|k: int| 0 <= k < n implies #[trigger] t[k] == s[from(k)] && 0 <= from(k) < n by {}
    assert forall|a: int, b: int|
        0 <= a < n && 0 <= b < n && #[trigger] t[a].id == #[trigger] t[b].id implies a == b by {
        assert(s[from(a)].id == s[from(b)].id);
    }
    assert forall|a: int, b: int|
        0 <= a < n && 0 <= b < n && #[trigger] t[a].activated
            && #[trigger] t[b].activated implies a == b by {
        assert(s[from(a)].activated && s[from(b)].activated);
    }
    // where each place of `s` goes
    let to = |k: int| if k < i { k } else if k == i { n - 1 } else { k - 1 };
    assert forall|k: int| 0 <= k < n implies #[trigger] s[k] == t[to(k)] && 0 <= to(k) < n by {}
    assert forall|id: u64| has_window(t, id) <==> has_window(s, id) by {
        if has_window(t, id) {
            let k = choose|k: int| 0 <= k < t.len() && #[trigger] t[k].id == id;
            assert(s[from(k)].id == id);
        }
        if has_window(s, id) {
            let k = choose|k: int| 0 <= k < s.len() && #[trigger] s[k].id == id;
            assert(t[to(k)].id == id);
        }
    }
    assert forall|id: u64| has_window(s, id) implies t[position_of(t, id)] == s[position_of(
        s,
        id,
    )] by {
        let a = position_of(s, id);
        let b = position_of(t, id);
        assert(has_window(t, id));
        assert(s[from(b)].id == s[a].id);
    }
    if exists|k: int| 0 <= k < s.len() && #[trigger] s[k].activated {
        let a = choose|k: int| 0 <= k < s.len() && #[trigger] s[k].activated;
        assert(t[to(a)].activated);
        let b = choose|k: int| 0 <= k < t.len() && #[trigger] t[k].activated;
        assert(s[from(b)].activated);
        assert(from(b) == a);
    } else {
        if exists|k: int| 0 <= k < t.len() && #[trigger] t[k].activated {
            let b = choose|k: int| 0 <= k < t.len() && #[trigger] t[k].activated;
            assert(s[from(b)].activated);
        }
    }
}

/// Replacing a window by one of the same identity and flag keeps the set of
/// windows and the stack's invariant.
pub proof fn lemma_update_keeps_windows(s: Seq<Window>, i: int, w: Window)
    requires
        0 <= i < s.len(),
        w.id == s[i].id,
        w.activated == s[i].activated,
        distinct_ids(s),
        at_most_one_activated(s),
    ensures
        distinct_ids(s.update(i, w)),
        at_most_one_activated(s.update(i, w)),
        forall|id: u64| has_window(s.update(i, w), id) <==> has_window(s, id),
        forall|id: u64| has_window(s, id) ==> position_of(s.update(i, w), id) == position_of(s, id),
        active_window(s.update(i, w)) == active_window(s),
{
    let t = s.update(i, w);
    assert forall|k: int| 0 <= k < s.len() implies (#[trigger] t[k]).id == s[k].id
        && t[k].activated == s[k].activated by {}
    assert forall|a: int, b: int|
        0 <= a < t.len() && 0 <= b < t.len() && #[trigger] t[a].id == #[trigger] t[b].id
        implies a == b by {
        assert(s[a].id == s[b].id);
    }
    assert forall|a: int, b: int|
        0 <= a < t.len() && 0 <= b < t.len() && #[trigger] t[a].activated
            && #[trigger] t[b].activated implies a == b by {
        assert(s[a].activated && s[b].activated);
    }
    assert forall|id: u64| has_window(t, id) <==> has_window(s, id) by {
        if has_window(t, id) {
            let k = choose|k: int| 0 <= k < t.len() && #[trigger] t[k].id == id;
            assert(s[k].id == id);
        }
        if has_window(s, id) {
            let k = choose|k: int| 0 <= k < s.len() && #[trigger] s[k].id == id;
            assert(t[k].id == id);
        }
    }
    assert forall|id: u64| has_window(s, id) implies position_of(t, id) == position_of(s, id) by {
        let a = position_of(s, id);
        assert(has_window(t, id));
        let b = position_of(t, id);
        assert(s[b].id == s[a].id);
    }
    if exists|k: int| 0 <= k < s.len() && #[trigger] s[k].activated {
        let a = choose|k: int| 0 <= k < s.len() && #[trigger] s[k].activated;
        assert(t[a].activated);
        let b = choose|k: int| 0 <= k < t.len() && #[trigger] t[k].activated;
        assert(s[b].activated);
    } else {
        if exists|k: int| 0 <= k < t.len() && #[trigger] t[k].activated {
            let b = choose|k: int| 0 <= k < t.len() && #[trigger] t[k].activated;
            assert(s[b].activated);
        }
    }
}

/// Taking a window out keeps every other window and the stack's invariant.
pub proof fn lemma_remove_keeps_others(s: Seq<Window>, i: int)
    requires
        0 <= i < s.len(),
        distinct_ids(s),
        at_most_one_activated(s),
    ensures
        distinct_ids(s.remove(i)),
        at_most_one_activated(s.remove(i)),
        !has_window(s.remove(i), s[i].id),
        forall|id: u64| id != s[i].id ==> (has_window(s.remove(i), id) <==> has_window(s, id)),
        forall|id: u64|
            id != s[i].id && has_window(s, id) ==> s.remove(i)[position_of(s.remove(i), id)]
                == s[position_of(s, id)],
        i == position_of(s, s[i].id),
{
    let t = s.remove(i);
    let from = |k: int| if k < i { k } else { k + 1 };
    assert forall|k: int| 0 <= k < t.len() implies #[trigger] t[k] == s[from(k)] && 0 <= from(k)
        < s.len() && from(k) != i by {}
    assert forall|a: int, b: int|
        0 <= a < t.len() && 0 <= b < t.len() && #[trigger] t[a].id == #[trigger] t[b].id
        implies a == b by {
        assert(s[from(a)].id == s[from(b)].id);
    }
    assert forall|a: int, b: int|
        0 <= a < t.len() && 0 <= b < t.len() && #[trigger] t[a].activated
            && #[trigger] t[b].activated implies a == b by {
        assert(s[from(a)].activated && s[from(b)].activated);
    }
    if has_window(t, s[i].id) {
        let k = choose|k: int| 0 <= k < t.len() && #[trigger] t[k].id == s[i].id;
        assert(s[from(k)].id == s[i].id);
    }
    let to = |k: int| if k < i { k } else { k - 1 };
    assert forall|id: u64| id != s[i].id implies (has_window(t, id) <==> has_window(s, id)) by {
        if has_window(t, id) {
            let k = choose|k: int| 0 <= k < t.len() && #[trigger] t[k].id == id;
            assert(s[from(k)].id == id);
        }
        if has_window(s, id) {
            let k = choose|k: int| 0 <= k < s.len() && #[trigger] s[k].id == id;
            assert(k != i);
            assert(t[to(k)] == s[k]);
            assert(t[to(k)].id == id);
        }
    }
    assert forall|id: u64| id != s[i].id && has_window(s, id) implies t[position_of(t, id)]
        == s[position_of(s, id)] by {
        let a = position_of(s, id);
        assert(has_window(t, id));
        let b = position_of(t, id);
        assert(s[from(b)].id == s[a].id);
    }
    assert(s[i].id == s[i].id);
    let p = position_of(s, s[i].id);
    assert(s[p].id == s[i].id);
}

/// After activating only `id`, that window is the activated one if it is in
/// the stack, and otherwise none is.
pub proof fn lemma_activated_only(s: Seq<Window>, id: u64)
    requires
        distinct_ids(s),
    ensures
        distinct_ids(activated_only(s, id)),
        at_most_one_activated(activated_only(s, id)),
        forall|other: u64| has_window(activated_only(s, id), other) <==> has_window(s, other),
        forall|other: u64|
            has_window(s, other) ==> position_of(activated_only(s, id), other) == position_of(
                s,
                other,
            ),
        has_window(s, id) ==> active_window(activated_only(s, id)) == Some(id),
        !has_window(s, id) ==> active_window(activated_only(s, id)) is None,
{
    let t = activated_only(s, id);
    assert forall|k: int| 0 <= k < s.len() implies (#[trigger] t[k]).id == s[k].id
        && t[k].activated == (s[k].id == id) by {}
    assert forall|a: int, b: int|
        0 <= a < t.len() && 0 <= b < t.len() && #[trigger] t[a].id == #[trigger] t[b].id
        implies a == b by {
        assert(s[a].id == s[b].id);
    }
    assert forall|a: int, b: int|
        0 <= a < t.len() && 0 <= b < t.len() && #[trigger] t[a].activated
            && #[trigger] t[b].activated implies a == b by {
        assert(s[a].id == s[b].id);
    }
    assert forall|other: u64| has_window(t, other) <==> has_window(s, other) by {
        if has_window(t, other) {
            let k = choose|k: int| 0 <= k < t.len() && #[trigger] t[k].id == other;
            assert(s[k].id == other);
        }
        if has_window(s, other) {
            let k = choose|k: int| 0 <= k < s.len() && #[trigger] s[k].id == other;
            assert(t[k].id == other);
        }
    }
    assert forall|other: u64| has_window(s, other) implies position_of(t, other) == position_of(
        s,
        other,
    ) by {
        let a = position_of(s, other);
        assert(has_window(t, other));
        let b = position_of(t, other);
        assert(s[b].id == s[a].id);
    }
    if has_window(s, id) {
        let a = position_of(s, id);
        assert(t[a].activated);
        let b = choose|k: int| 0 <= k < t.len() && #[trigger] t[k].activated;
        assert(s[b].id == id);
    } else {
        if exists|k: int| 0 <= k < t.len() && #[trigger] t[k].activated {
            let b = choose|k: int| 0 <= k < t.len() && #[trigger] t[k].activated;
            assert(s[b].id == id);
        }
    }
}

} // verus!
