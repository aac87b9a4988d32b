//! Time-keyed interpolation of a scalar, and the fade transitions that the
//! compositor runs on windows.
//!
//! Time is counted in milliseconds on a clock that the caller reads. Scalars
//! such as opacity are fixed-point numbers, [`UNIT`] to the whole.

use vstd::prelude::*;
use vstd::arithmetic::div_mod::{lemma_div_is_ordered, lemma_div_multiples_vanish};
use vstd::arithmetic::mul::lemma_mul_inequality;
use crate::table::{lemma_row_is_mapped, distinct_keys, has_key, rows_to_map, Entry, Table};

verus! {

/// The fixed-point value of one whole: full opacity, unit scale.
pub const UNIT: i32 = 65536;

/// How long a fade takes, in milliseconds.
pub const FADE_DURATION_MS: u64 = 250;

/// A transition of a scalar from one value to another over a span of time.
#[derive(Clone, Copy, Debug, PartialEq, Eq, Structural)]
pub struct Animation {
    pub start_time: u64,
    pub duration: u64,
    pub start_val: i32,
    pub end_val: i32,
}

/// The names under which a window's animations are kept.
#[derive(Clone, Copy, Debug, PartialEq, Eq, Structural)]
pub enum AnimationName {
    Fade,
    Scale,
}

/// How a window is presented, and the animations that drive it.
#[derive(Clone, Copy, Debug, PartialEq, Eq, Structural)]
pub struct WindowAnimationState {
    /// Opacity, from 0 to [`UNIT`].
    pub alpha: i32,
    /// Scale; always [`UNIT`] for now.
    pub scale: i32,
    /// The running fade, if any.
    pub fade: Option<Animation>,
    /// The running scale animation, if any.
    pub scaling: Option<Animation>,
}

/// The presentation state of every window that has had an animation.
pub struct AnimationManager {
    pub states: Table<WindowAnimationState>,
}

/// The time that has passed at `now` since `start_time`; none before it.
pub open spec fn elapsed_since(start_time: int, now: int) -> int {
    if now >= start_time {
        now - start_time
    } else {
        0
    }
}

/// The point on the straight line from `start` to `end` after `elapsed` of
/// `duration`, the fraction dropped towards `start`.
pub open spec fn interpolate(start: int, end: int, elapsed: int, duration: int) -> int {
    if end >= start {
        start + ((end - start) * elapsed) / duration
    } else {
        start - ((start - end) * elapsed) / duration
    }
}

/// A share `elapsed / duration` of `diff` lies between nothing and all of it.
pub proof fn lemma_share_is_bounded(diff: int, elapsed: int, duration: int)
    requires
        0 <= diff,
        0 <= elapsed <= duration,
        0 < duration,
    ensures
        0 <= diff * elapsed <= diff * duration,
        0 <= (diff * elapsed) / duration <= diff,
        elapsed == 0 ==> (diff * elapsed) / duration == 0,
        elapsed == duration ==> (diff * elapsed) / duration == diff,
{
    assert(0 <= diff * elapsed) by (nonlinear_arith)
        requires
            0 <= diff,
            0 <= elapsed,
    ;
    lemma_mul_inequality(elapsed, duration, diff);
    assert(elapsed * diff == diff * elapsed) by (nonlinear_arith);
    assert(duration * diff == diff * duration) by (nonlinear_arith);
    lemma_div_is_ordered(0, diff * elapsed, duration);
    lemma_div_is_ordered(diff * elapsed, diff * duration, duration);
    lemma_div_multiples_vanish(diff, duration);
    assert(0int / duration == 0) by (nonlinear_arith)
        requires
            0 < duration,
    ;
    if elapsed == 0 {
        assert(diff * elapsed == 0) by (nonlinear_arith)
            requires
                elapsed == 0,
        ;
    }
}

/// A later share of `diff` is no smaller than an earlier one.
pub proof fn lemma_share_grows(diff: int, earlier: int, later: int, duration: int)
    requires
        0 <= diff,
        0 <= earlier <= later,
        0 < duration,
    ensures
        (diff * earlier) / duration <= (diff * later) / duration,
{
    lemma_mul_inequality(earlier, later, diff);
    assert(earlier * diff == diff * earlier) by (nonlinear_arith);
    assert(later * diff == diff * later) by (nonlinear_arith);
    lemma_div_is_ordered(diff * earlier, diff * later, duration);
}

impl Animation {
    /// The value at time `now`: the end value once the duration has passed,
    /// and before that the point reached on the line from start to end.
    pub open spec fn spec_value(&self, now: u64) -> i32 {
        let elapsed = elapsed_since(self.start_time as int, now as int);
        if elapsed >= self.duration {
            self.end_val
        } else {
            interpolate(self.start_val as int, self.end_val as int, elapsed, self.duration as int)
                as i32
        }
    }

    /// Whether the whole duration has passed at time `now`.
    pub open spec fn spec_is_done(&self, now: u64) -> bool {
        now >= self.start_time + self.duration
    }

    /// An animation from `start` to `end` that begins at `now` and takes
    /// `duration_ms` milliseconds.
    pub fn new(start: i32, end: i32, duration_ms: u64, now: u64) -> (a: Animation)
        ensures
            a == (Animation { start_time: now, duration: duration_ms, start_val: start, end_val: end }),
    {
        Animation { start_time: now, duration: duration_ms, start_val: start, end_val: end }
    }

    #[verifier::when_used_as_spec(spec_value)]
    pub fn value(&self, now: u64) -> (v: i32)
        ensures
            v == self.spec_value(now),
            self.start_val <= self.end_val ==> self.start_val <= v <= self.end_val,
            self.start_val >= self.end_val ==> self.start_val >= v >= self.end_val,
    {
        let elapsed: u64 = if now >= self.start_time {
            now - self.start_time
        } else {
            0
        };
        if elapsed >= self.duration {
            return self.end_val;
        }
        let low: i64 = if self.end_val >= self.start_val {
            self.start_val as i64
        } else {
            self.end_val as i64
        };
        let high: i64 = if self.end_val >= self.start_val {
            self.end_val as i64
        } else {
            self.start_val as i64
        };
        let diff: u64 = (high - low) as u64;
        proof {
            lemma_share_is_bounded(diff as int, elapsed as int, self.duration as int);
            assert(diff * elapsed <= 0xFFFF_FFFF * 0xFFFF_FFFF_FFFF_FFFF) by (nonlinear_arith)
                requires
                    0 <= diff <= 0xFFFF_FFFF,
                    0 <= elapsed <= 0xFFFF_FFFF_FFFF_FFFF,
            ;
        }
        let share: u128 = (diff as u128 * elapsed as u128) / (self.duration as u128);
        if self.end_val >= self.start_val {
            (self.start_val as i64 + share as i64) as i32
        } else {
            (self.start_val as i64 - share as i64) as i32
        }
    }

    #[verifier::when_used_as_spec(spec_is_done)]
    pub fn is_done(&self, now: u64) -> (done: bool)
        ensures
            done == self.spec_is_done(now),
    {
        now >= self.start_time && now - self.start_time >= self.duration
    }
}

/// An animation that takes time begins at its start value.
pub proof fn lemma_value_at_start(a: Animation)
    requires
        a.duration > 0,
    ensures
        a.spec_value(a.start_time) == a.start_val,
{
    if a.end_val >= a.start_val {
        lemma_share_is_bounded(a.end_val - a.start_val, 0, a.duration as int);
    } else {
        lemma_share_is_bounded(a.start_val - a.end_val, 0, a.duration as int);
    }
}

/// Once the duration has passed the value is the end value, and the
/// animation is done exactly from that moment on. One that takes no time
/// has its end value at every moment.
pub proof fn lemma_value_at_end(a: Animation, now: u64)
    ensures
        now >= a.start_time + a.duration ==> a.spec_value(now) == a.end_val,
        a.spec_is_done(now) <==> now >= a.start_time + a.duration,
        a.spec_is_done(now) ==> a.spec_value(now) == a.end_val,
        a.duration == 0 ==> a.spec_value(now) == a.end_val,
{
}

/// The value never leaves the span between start and end value.
pub proof fn lemma_value_in_range(a: Animation, now: u64)
    ensures
        a.start_val <= a.end_val ==> a.start_val <= a.spec_value(now) <= a.end_val,
        a.start_val >= a.end_val ==> a.start_val >= a.spec_value(now) >= a.end_val,
{
    let elapsed = elapsed_since(a.start_time as int, now as int);
    if elapsed < a.duration {
        if a.end_val >= a.start_val {
            lemma_share_is_bounded(a.end_val - a.start_val, elapsed, a.duration as int);
        } else {
            lemma_share_is_bounded(a.start_val - a.end_val, elapsed, a.duration as int);
        }
    }
}

/// As time goes on the value moves from the start value towards the end
/// value and never back: it rises where the end value is the larger one and
/// falls where it is the smaller one.
pub proof fn lemma_value_is_monotonic(a: Animation, earlier: u64, later: u64)
    requires
        earlier <= later,
    ensures
        a.start_val <= a.end_val ==> a.spec_value(earlier) <= a.spec_value(later),
        a.start_val >= a.end_val ==> a.spec_value(earlier) >= a.spec_value(later),
        a.spec_is_done(earlier) ==> a.spec_is_done(later),
{
    let e1 = elapsed_since(a.start_time as int, earlier as int);
    let e2 = elapsed_since(a.start_time as int, later as int);
    lemma_value_in_range(a, earlier);
    lemma_value_in_range(a, later);
    if e2 < a.duration {
        if a.end_val >= a.start_val {
            lemma_share_is_bounded(a.end_val - a.start_val, e1, a.duration as int);
            lemma_share_is_bounded(a.end_val - a.start_val, e2, a.duration as int);
            lemma_share_grows(a.end_val - a.start_val, e1, e2, a.duration as int);
        } else {
            lemma_share_is_bounded(a.start_val - a.end_val, e1, a.duration as int);
            lemma_share_is_bounded(a.start_val - a.end_val, e2, a.duration as int);
            lemma_share_grows(a.start_val - a.end_val, e1, e2, a.duration as int);
        }
    }
}

/// A fade out is the mirror image of a fade in begun at the same moment:
/// at every time the two opacities add up to the whole.
pub proof fn lemma_fades_mirror(start_time: u64, now: u64)
    ensures
        spec_fade_in(start_time).spec_value(now) + spec_fade_out(start_time).spec_value(now)
            == UNIT,
{
    let e = elapsed_since(start_time as int, now as int);
    if e < FADE_DURATION_MS {
        lemma_share_is_bounded(UNIT as int, e, FADE_DURATION_MS as int);
    }
}

/// The fade from transparent to opaque that begins at `now`.
pub open spec fn spec_fade_in(now: u64) -> Animation {
    Animation { start_time: now, duration: FADE_DURATION_MS, start_val: 0, end_val: UNIT }
}

/// The fade from opaque to transparent that begins at `now`.
pub open spec fn spec_fade_out(now: u64) -> Animation {
    Animation { start_time: now, duration: FADE_DURATION_MS, start_val: UNIT, end_val: 0 }
}

/// An animation as it stands after a tick at `now`: gone once it is done.
pub open spec fn pruned(slot: Option<Animation>, now: u64) -> Option<Animation> {
    match slot {
        Some(a) => if a.spec_is_done(now) {
            None
        } else {
            slot
        },
        None => None,
    }
}

impl WindowAnimationState {
    /// The state of a window without animations: opaque, at unit scale.
    pub open spec fn spec_default() -> WindowAnimationState {
        WindowAnimationState { alpha: UNIT, scale: UNIT, fade: None, scaling: None }
    }

    /// The animation kept under `name`, if any.
    pub open spec fn spec_animation(&self, name: AnimationName) -> Option<Animation> {
        match name {
            AnimationName::Fade => self.fade,
            AnimationName::Scale => self.scaling,
        }
    }

    /// The state with `animation` kept under `name`, in place of what was
    /// kept there before.
    pub open spec fn with_animation(self, name: AnimationName, animation: Animation)
        -> WindowAnimationState {
        match name {
            AnimationName::Fade => WindowAnimationState { fade: Some(animation), ..self },
            AnimationName::Scale => WindowAnimationState { scaling: Some(animation), ..self },
        }
    }

    /// The state after a tick at `now`: a running fade sets the opacity to
    /// its value at `now`, and animations that are done are dropped.
    pub open spec fn ticked(self, now: u64) -> WindowAnimationState {
        WindowAnimationState {
            alpha: match self.fade {
                Some(a) => a.spec_value(now),
                None => self.alpha,
            },
            scale: self.scale,
            fade: pruned(self.fade, now),
            scaling: pruned(self.scaling, now),
        }
    }

    #[verifier::when_used_as_spec(spec_animation)]
    pub fn animation(&self, name: AnimationName) -> (a: Option<Animation>)
        ensures
            a == self.spec_animation(name),
    {
        match name {
            AnimationName::Fade => self.fade,
            AnimationName::Scale => self.scaling,
        }
    }

    /// Keeps `animation` under `name`, in place of what was kept there.
    pub fn insert(&mut self, name: AnimationName, animation: Animation)
        ensures
            *final(self) == old(self).with_animation(name, animation),
    {
        match name {
            AnimationName::Fade => {
                self.fade = Some(animation);
            },
            AnimationName::Scale => {
                self.scaling = Some(animation);
            },
        }
    }

    /// Advances the state to time `now`.
    pub fn tick(&mut self, now: u64)
        ensures
            *final(self) == old(self).ticked(now),
    {
        if let Some(a) = self.fade {
            self.alpha = a.value(now);
            if a.is_done(now) {
                self.fade = None;
            }
        }
        if let Some(a) = self.scaling {
            if a.is_done(now) {
                self.scaling = None;
            }
        }
    }
}

impl Default for WindowAnimationState {
    fn default() -> (s: WindowAnimationState)
        ensures
            s == WindowAnimationState::spec_default(),
    {
        WindowAnimationState { alpha: UNIT, scale: UNIT, fade: None, scaling: None }
    }
}

impl View for AnimationManager {
    type V = Map<u64, WindowAnimationState>;

    open spec fn view(&self) -> Map<u64, WindowAnimationState> {
        self.states@
    }
}

/// The state that `window` has in `states`; the default where none is kept.
pub open spec fn state_or_default(
    states: Map<u64, WindowAnimationState>,
    window: u64,
) -> WindowAnimationState {
    if states.contains_key(window) {
        states[window]
    } else {
        WindowAnimationState::spec_default()
    }
}

/// The opacity of `window` under `states`: opaque where no state is kept.
pub open spec fn alpha_of(states: Map<u64, WindowAnimationState>, window: u64) -> i32 {
    state_or_default(states, window).alpha
}

/// Every state of `states` after a tick at `now`.
pub open spec fn all_ticked(states: Map<u64, WindowAnimationState>, now: u64) -> Map<
    u64,
    WindowAnimationState,
> {
    states.map_values(|s: WindowAnimationState| s.ticked(now))
}

impl AnimationManager {
    /// The manager's invariant.
    pub open spec fn wf(&self) -> bool {
        self.states.wf()
    }

    /// Whether the manager's invariant holds.
    pub fn is_valid(&self) -> (ok: bool)
        ensures
            ok == self.wf(),
    {
        self.states.is_valid()
    }

    /// A manager that tracks no window.
    pub fn new() -> (m: AnimationManager)
        ensures
            m@ == Map::<u64, WindowAnimationState>::empty(),
            m.wf(),
    {
        AnimationManager { states: Table::new() }
    }

    /// Starts `animation` under `name` on `window`, in place of one that
    /// runs under that name; a window without state gets the default one
    /// first.
    pub fn start(&mut self, window: u64, name: AnimationName, animation: Animation)
        requires
            old(self).wf(),
        ensures
            final(self)@ == old(self)@.insert(
                window,
                state_or_default(old(self)@, window).with_animation(name, animation),
            ),
            final(self).wf(),
    {
        let mut state = match self.states.get(window) {
            Some(s) => s,
            None => WindowAnimationState::default(),
        };
        state.insert(name, animation);
        self.states.insert(window, state);
    }

    /// Starts the fade from transparent to opaque on `window` at time `now`.
    pub fn start_fade_in(&mut self, window: u64, now: u64)
        requires
            old(self).wf(),
        ensures
            final(self)@ == old(self)@.insert(
                window,
                state_or_default(old(self)@, window).with_animation(
                    AnimationName::Fade,
                    spec_fade_in(now),
                ),
            ),
            final(self).wf(),
    {
        self.start(window, AnimationName::Fade, Animation::new(0, UNIT, FADE_DURATION_MS, now));
    }

    /// Starts the fade from opaque to transparent on `window` at time `now`.
    pub fn start_fade_out(&mut self, window: u64, now: u64)
        requires
            old(self).wf(),
        ensures
            final(self)@ == old(self)@.insert(
                window,
                state_or_default(old(self)@, window).with_animation(
                    AnimationName::Fade,
                    spec_fade_out(now),
                ),
            ),
            final(self).wf(),
    {
        self.start(window, AnimationName::Fade, Animation::new(UNIT, 0, FADE_DURATION_MS, now));
    }

    /// Advances every tracked window to time `now`.
    pub fn tick(&mut self, now: u64)
        requires
            old(self).wf(),
        ensures
            final(self)@ == all_ticked(old(self)@, now),
            final(self).wf(),
    {
        let ghost before = self.states.entries@;
        let mut i: usize = 0;
        while i < self.states.entries.len()
            invariant
                i <= self.states.entries.len(),
                self.states.entries@.len() == before.len(),
                distinct_keys(before),
                forall|j: int|
                    0 <= j < before.len() ==> (#[trigger] self.states.entries@[j]).key
                        == before[j].key,
                forall|j: int|
                    0 <= j < i ==> (#[trigger] self.states.entries@[j]).value
                        == before[j].value.ticked(now),
                forall|j: int|
                    i <= j < before.len() ==> (#[trigger] self.states.entries@[j]).value
                        == before[j].value,
            decreases self.states.entries.len() - i,
        {
            let key = self.states.entries[i].key;
            let mut state = self.states.entries[i].value;
            state.tick(now);
            self.states.entries.set(i, Entry { key, value: state });
            i = i + 1;
        }
        proof {
            lemma_values_mapped(
                before,
                self.states.entries@,
                |s: WindowAnimationState| s.ticked(now),
            );
        }
    }

    /// The opacity of `window`: opaque unless an animation has set it.
    pub fn get_alpha(&self, window: u64) -> (alpha: i32)
        requires
            self.wf(),
        ensures
            alpha == alpha_of(self@, window),
    {
        match self.states.get(window) {
            Some(s) => s.alpha,
            None => UNIT,
        }
    }

    /// Drops the state of a window that is gone.
    pub fn forget(&mut self, window: u64)
        requires
            old(self).wf(),
        ensures
            final(self)@ == old(self)@.remove(window),
            final(self).wf(),
    {
        let _ = self.states.remove(window);
    }
}

/// Rows that keep their keys while `f` is applied to each value stand for
/// the map with `f` applied to each value.
pub proof fn lemma_values_mapped<V>(s: Seq<Entry<V>>, t: Seq<Entry<V>>, f: spec_fn(V) -> V)
    requires
        distinct_keys(s),
        s.len() == t.len(),
        forall|j: int| 0 <= j < s.len() ==> (#[trigger] t[j]).key == s[j].key,
        forall|j: int| 0 <= j < s.len() ==> (#[trigger] t[j]).value == f(s[j].value),
    ensures
        distinct_keys(t),
        rows_to_map(t) == rows_to_map(s).map_values(f),
{
    assert forall|a: int, b: int|
        0 <= a < t.len() && 0 <= b < t.len() && #[trigger] t[a].key == #[trigger] t[b].key
        implies a == b by {
        assert(s[a].key == s[b].key);
    }
    assert forall|k: u64| has_key(t, k) <==> has_key(s, k) by {
        if has_key(t, k) {
            let a = choose|a: int| 0 <= a < t.len() && #[trigger] t[a].key == k;
            assert(s[a].key == k);
        }
        if has_key(s, k) {
            let a = choose|a: int| 0 <= a < s.len() && #[trigger] s[a].key == k;
            assert(t[a].key == k);
        }
    }
    assert forall|k: u64| has_key(s, k) implies rows_to_map(t)[k] == f(rows_to_map(s)[k]) by {
        let a = choose|a: int| 0 <= a < s.len() && #[trigger] s[a].key == k;
        lemma_row_is_mapped(s, a);
        lemma_row_is_mapped(t, a);
    }
    assert(rows_to_map(t) =~= rows_to_map(s).map_values(f));
}

} // verus!
