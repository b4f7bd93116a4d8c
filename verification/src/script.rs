//! The script-visible half of the correlation protocol: the promise table,
//! the timer table and their identifier counters.
//!
//! Every asynchronous primitive allocates a correlation identifier and keeps
//! a pending entry for it. The one resolve call for that identifier settles
//! the entry and removes it; any later resolve for it does nothing.

use crate::locker::LockerScope;
use crate::v8::Function;
use std::collections::HashMap;
use vstd::prelude::*;

verus! {

broadcast use vstd::std_specs::hash::group_hash_axioms;

/// What continues when a promise settles.
#[derive(Clone, Copy, Debug, PartialEq, Eq, Structural)]
pub enum Waiter {
    /// The script that called `fetch` receives the body.
    Fetch,
    /// The fire handler of the timer `timer` runs.
    Timer { timer: u32 },
}

/// A timer that still expects a fire.
#[derive(Clone, Copy, Debug, PartialEq, Eq, Structural)]
pub struct TimerEntry {
    pub id: u32,
    pub callback: Function,
    pub delay: u32,
    pub repeat: bool,
}

/// The request for one native timer: notify `promise_id` after `delay`.
#[derive(Clone, Copy, Debug, PartialEq, Eq, Structural)]
pub struct TimerRequest {
    pub promise_id: u32,
    pub delay: u32,
}

/// What a timer primitive hands back: the timer's identifier for the script
/// and the request for the native side.
#[derive(Clone, Copy, Debug, PartialEq, Eq, Structural)]
pub struct TimerStart {
    pub timer_id: u32,
    pub request: TimerRequest,
}

/// What one resolve call did.
#[derive(Debug)]
pub enum Resolution {
    /// No entry was pending under the identifier: nothing happened.
    Ignored,
    /// The fetch promise `promise_id` settled with this payload.
    Body { promise_id: u32, payload: Vec<u8> },
    /// A timer promise settled, but the timer was cancelled meanwhile: the
    /// callback is not invoked.
    Suppressed,
    /// A timer promise settled and its callback is to be invoked once. For
    /// a repeating timer `rearm` asks for the next native timer.
    Fired { callback: Function, rearm: Option<TimerRequest> },
}

pub enum ResolutionView {
    Ignored,
    Body { promise_id: u32, payload: Seq<u8> },
    Suppressed,
    Fired { callback: Function, rearm: Option<TimerRequest> },
}

impl View for Resolution {
    type V = ResolutionView;

    open spec fn view(&self) -> ResolutionView {
        match *self {
            Resolution::Ignored => ResolutionView::Ignored,
            Resolution::Body { promise_id, payload } => ResolutionView::Body {
                promise_id,
                payload: payload@,
            },
            Resolution::Suppressed => ResolutionView::Suppressed,
            Resolution::Fired { callback, rearm } => ResolutionView::Fired { callback, rearm },
        }
    }
}

impl ResolutionView {
    /// Whether the resolve call invokes a user callback.
    pub open spec fn invokes(self) -> bool {
        self is Fired
    }
}

/// The script-side tables as plain values.
pub struct ScriptView {
    pub engine: u32,
    pub promises: Map<u32, Waiter>,
    pub next_promise: u32,
    pub timers: Map<u32, TimerEntry>,
    pub next_timer: u32,
}

/// The identifier after `id`.
pub open spec fn succ(id: u32) -> u32 {
    if id == u32::MAX {
        id
    } else {
        (id + 1) as u32
    }
}

impl ScriptView {
    /// No identifier that is live was handed out after the counter's value:
    /// the counters never hand out a live identifier again.
    pub open spec fn wf(self) -> bool {
        &&& forall|id: u32| #[trigger]
            self.promises.contains_key(id) ==> id < self.next_promise
        &&& forall|t: u32| #[trigger]
            self.timers.contains_key(t) ==> t < self.next_timer && self.timers[t].id == t
    }

    pub open spec fn fresh(engine: u32) -> ScriptView {
        ScriptView {
            engine,
            promises: Map::empty(),
            next_promise: 1,
            timers: Map::empty(),
            next_timer: 1,
        }
    }

    /// Whether both counters can hand out one more identifier.
    pub open spec fn can_allocate(self) -> bool {
        self.next_promise < u32::MAX && self.next_timer < u32::MAX
    }

    /// Allocation: the next identifier gets a pending entry.
    pub open spec fn create_resolvable(self, waiter: Waiter) -> (ScriptView, u32) {
        (
            ScriptView {
                promises: self.promises.insert(self.next_promise, waiter),
                next_promise: succ(self.next_promise),
                ..self
            },
            self.next_promise,
        )
    }

    pub open spec fn set_timer(self, callback: Function, delay: u32, repeat: bool) -> (
        ScriptView,
        TimerStart,
    ) {
        let timer_id = self.next_timer;
        let entry = TimerEntry { id: timer_id, callback, delay, repeat };
        let listed = ScriptView {
            timers: self.timers.insert(timer_id, entry),
            next_timer: succ(timer_id),
            ..self
        };
        let (after, promise_id) = listed.create_resolvable(Waiter::Timer { timer: timer_id });
        (after, TimerStart { timer_id, request: TimerRequest { promise_id, delay } })
    }

    pub open spec fn clear_timer(self, timer_id: u32) -> ScriptView {
        ScriptView { timers: self.timers.remove(timer_id), ..self }
    }

    /// Whether resolving `promise_id` asks for a further native timer, and
    /// so allocates an identifier.
    pub open spec fn rearms(self, promise_id: u32) -> bool {
        &&& self.promises.contains_key(promise_id)
        &&& match self.promises[promise_id] {
            Waiter::Fetch => false,
            Waiter::Timer { timer } => self.timers.contains_key(timer)
                && self.timers[timer].repeat,
        }
    }

    /// Settlement and removal of one identifier, and the fire handler of a
    /// timer behind it.
    pub open spec fn resolve(self, promise_id: u32, payload: Seq<u8>) -> (
        ScriptView,
        ResolutionView,
    ) {
        if !self.promises.contains_key(promise_id) {
            (self, ResolutionView::Ignored)
        } else {
            let settled = ScriptView { promises: self.promises.remove(promise_id), ..self };
            match self.promises[promise_id] {
                Waiter::Fetch => (settled, ResolutionView::Body { promise_id, payload }),
                Waiter::Timer { timer } => settled.fire(timer),
            }
        }
    }

    /// The fire handler: a re-check of the timer table, then the callback.
    pub open spec fn fire(self, timer: u32) -> (ScriptView, ResolutionView) {
        if !self.timers.contains_key(timer) {
            (self, ResolutionView::Suppressed)
        } else {
            let entry = self.timers[timer];
            if entry.repeat {
                let (after, promise_id) = self.create_resolvable(Waiter::Timer { timer });
                (
                    after,
                    ResolutionView::Fired {
                        callback: entry.callback,
                        rearm: Some(TimerRequest { promise_id, delay: entry.delay }),
                    },
                )
            } else {
                (
                    ScriptView { timers: self.timers.remove(timer), ..self },
                    ResolutionView::Fired { callback: entry.callback, rearm: None },
                )
            }
        }
    }
}

/// Where a correlation identifier stands in its life.
#[derive(Clone, Copy, Debug, PartialEq, Eq, Structural)]
pub enum PromiseState {
    /// The counter has not reached the identifier yet.
    Unallocated,
    /// An entry is pending under the identifier.
    Pending,
    /// The entry was settled and removed.
    Removed,
}

/// What the script, or the native side on its behalf, does to the tables.
pub enum ScriptEvent {
    SetTimer { callback: Function, delay: u32, repeat: bool },
    ClearTimer { timer_id: u32 },
    Fetch,
    Resolve { promise_id: u32, payload: Seq<u8> },
}

impl ScriptView {
    pub open spec fn state_of(self, promise_id: u32) -> PromiseState {
        if self.promises.contains_key(promise_id) {
            PromiseState::Pending
        } else if promise_id < self.next_promise {
            PromiseState::Removed
        } else {
            PromiseState::Unallocated
        }
    }

    /// Whether a promise is pending whose settlement fires the timer.
    pub open spec fn awaits_fire(self, timer: u32, promise_id: u32) -> bool {
        self.promises.contains_key(promise_id) && self.promises[promise_id] == (Waiter::Timer {
            timer,
        })
    }

    /// Every timer in the timer table expects a fire: some pending promise
    /// waits for its native completion.
    pub open spec fn armed(self) -> bool {
        forall|t: u32| #[trigger]
            self.timers.contains_key(t) ==> exists|p: u32| self.awaits_fire(t, p)
    }

    pub open spec fn step(self, event: ScriptEvent) -> ScriptView {
        match event {
            ScriptEvent::SetTimer { callback, delay, repeat } => self.set_timer(
                callback,
                delay,
                repeat,
            ).0,
            ScriptEvent::ClearTimer { timer_id } => self.clear_timer(timer_id),
            ScriptEvent::Fetch => self.create_resolvable(Waiter::Fetch).0,
            ScriptEvent::Resolve { promise_id, payload } => self.resolve(promise_id, payload).0,
        }
    }

    pub open spec fn run(self, events: Seq<ScriptEvent>) -> ScriptView
        decreases events.len(),
    {
        if events.len() == 0 {
            self
        } else {
            self.run(events.drop_last()).step(events.last())
        }
    }
}

/// The promise table and the timer table of one engine instance.
#[derive(Debug)]
pub struct ScriptState {
    engine: u32,
    promises: HashMap<u32, Waiter>,
    next_promise_id: u32,
    timers: HashMap<u32, TimerEntry>,
    next_timer_id: u32,
}

impl View for ScriptState {
    type V = ScriptView;

    closed spec fn view(&self) -> ScriptView {
        ScriptView {
            engine: self.engine,
            promises: self.promises@,
            next_promise: self.next_promise_id,
            timers: self.timers@,
            next_timer: self.next_timer_id,
        }
    }
}

impl ScriptState {
    pub open spec fn wf(&self) -> bool {
        self@.wf()
    }

    /// Empty tables for the engine instance `engine`; both counters start
    /// at 1.
    pub fn new(engine: u32) -> (state: ScriptState)
        ensures
            state@ == ScriptView::fresh(engine),
            state.wf(),
    {
        ScriptState {
            engine,
            promises: HashMap::new(),
            next_promise_id: 1,
            timers: HashMap::new(),
            next_timer_id: 1,
        }
    }

    pub fn can_allocate(&self) -> (ok: bool)
        ensures
            ok == self@.can_allocate(),
    {
        self.next_promise_id < u32::MAX && self.next_timer_id < u32::MAX
    }

    /// The identifier that the next promise gets.
    pub fn next_promise(&self) -> (id: u32)
        ensures
            id == self@.next_promise,
    {
        self.next_promise_id
    }

    /// Whether a promise is pending under `promise_id`.
    pub fn is_pending(&self, promise_id: u32) -> (pending: bool)
        ensures
            pending == self@.promises.contains_key(promise_id),
    {
        self.promises.contains_key(&promise_id)
    }

    /// Whether the timer `timer_id` still expects a fire.
    pub fn has_timer(&self, timer_id: u32) -> (live: bool)
        ensures
            live == self@.timers.contains_key(timer_id),
    {
        self.timers.contains_key(&timer_id)
    }

    /// Whether resolving `promise_id` would allocate an identifier.
    pub fn rearms(&self, promise_id: u32) -> (rearms: bool)
        ensures
            rearms == self@.rearms(promise_id),
    {
        match self.promises.get(&promise_id) {
            Some(Waiter::Timer { timer }) => match self.timers.get(timer) {
                Some(entry) => entry.repeat,
                None => false,
            },
            _ => false,
        }
    }

    fn create_resolvable(&mut self, waiter: Waiter) -> (promise_id: u32)
        requires
            old(self).wf(),
            old(self)@.next_promise < u32::MAX,
        ensures
            (final(self)@, promise_id) == old(self)@.create_resolvable(waiter),
            final(self).wf(),
    {
        let promise_id: u32 = self.next_promise_id;
        self.next_promise_id = promise_id + 1;
        self.promises.insert(promise_id, waiter);
        promise_id
    }

    /// Starts a timer: lists it in the timer table, allocates the promise
    /// that its first fire waits for, and returns the request for the
    /// native timer.
    pub fn set_timer(&mut self, scope: &LockerScope, callback: Function, delay: u32, repeat: bool)
        -> (start: TimerStart)
        requires
            old(self).wf(),
            old(self)@.can_allocate(),
            scope.engine() == old(self)@.engine,
        ensures
            (final(self)@, start) == old(self)@.set_timer(callback, delay, repeat),
            final(self).wf(),
    {
        let timer_id: u32 = self.next_timer_id;
        self.next_timer_id = timer_id + 1;
        self.timers.insert(timer_id, TimerEntry { id: timer_id, callback, delay, repeat });
        assert forall|t: u32| #[trigger] self@.timers.contains_key(t) implies t
            < self@.next_timer && self@.timers[t].id == t by {
            assert(t == timer_id || old(self)@.timers.contains_key(t));
        }
        assert forall|id: u32| #[trigger] self@.promises.contains_key(id) implies id
            < self@.next_promise by {
            assert(old(self)@.promises.contains_key(id));
        }
        let promise_id: u32 = self.create_resolvable(Waiter::Timer { timer: timer_id });
        TimerStart { timer_id, request: TimerRequest { promise_id, delay } }
    }

    /// Cancels a timer lazily: the entry leaves the timer table, the native
    /// timer behind it is not retracted. Returns whether the timer was
    /// listed.
    pub fn clear_timer(&mut self, scope: &LockerScope, timer_id: u32) -> (was_live: bool)
        requires
            old(self).wf(),
            scope.engine() == old(self)@.engine,
        ensures
            final(self)@ == old(self)@.clear_timer(timer_id),
            was_live == old(self)@.timers.contains_key(timer_id),
            final(self).wf(),
    {
        let removed = self.timers.remove(&timer_id);
        assert(self@.timers =~= old(self)@.timers.remove(timer_id));
        assert forall|t: u32| #[trigger] self@.timers.contains_key(t) implies t
            < self@.next_timer && self@.timers[t].id == t by {
            assert(old(self)@.timers.contains_key(t));
        }
        assert forall|id: u32| #[trigger] self@.promises.contains_key(id) implies id
            < self@.next_promise by {
            assert(old(self)@.promises.contains_key(id));
        }
        removed.is_some()
    }

    /// Allocates the promise of a fetch and returns its identifier.
    pub fn fetch(&mut self, scope: &LockerScope) -> (promise_id: u32)
        requires
            old(self).wf(),
            old(self)@.next_promise < u32::MAX,
            scope.engine() == old(self)@.engine,
        ensures
            (final(self)@, promise_id) == old(self)@.create_resolvable(Waiter::Fetch),
            final(self).wf(),
    {
        self.create_resolvable(Waiter::Fetch)
    }

    /// The engine's resolve entry point. Settles and removes the entry of
    /// `promise_id`, if one is pending, and says what follows from it.
    pub fn resolve(&mut self, scope: &LockerScope, promise_id: u32, payload: Vec<u8>)
        -> (resolution: Resolution)
        requires
            old(self).wf(),
            old(self)@.rearms(promise_id) ==> old(self)@.next_promise < u32::MAX,
            scope.engine() == old(self)@.engine,
        ensures
            (final(self)@, resolution@) == old(self)@.resolve(promise_id, payload@),
            final(self).wf(),
    {
        let waiter = match self.promises.remove(&promise_id) {
            None => {
                assert(self@.promises =~= old(self)@.promises);
                return Resolution::Ignored;
            },
            Some(waiter) => waiter,
        };
        assert(self@.promises =~= old(self)@.promises.remove(promise_id));
        let timer: u32 = match waiter {
            Waiter::Fetch => {
                return Resolution::Body { promise_id, payload };
            },
            Waiter::Timer { timer } => timer,
        };
        let entry: TimerEntry = match self.timers.get(&timer) {
            None => {
                return Resolution::Suppressed;
            },
            Some(entry) => *entry,
        };
        if entry.repeat {
            let next: u32 = self.create_resolvable(Waiter::Timer { timer });
            Resolution::Fired {
                callback: entry.callback,
                rearm: Some(TimerRequest { promise_id: next, delay: entry.delay }),
            }
        } else {
            self.timers.remove(&timer);
            assert(self@.timers =~= old(self)@.timers.remove(timer));
            assert forall|t: u32| #[trigger] self@.timers.contains_key(t) implies t
                < self@.next_timer && self@.timers[t].id == t by {
                assert(old(self)@.timers.contains_key(t));
            }
            Resolution::Fired { callback: entry.callback, rearm: None }
        }
    }
}

/// Resolving the same correlation identifier twice is idempotent: whatever
/// the first resolve did, the second one finds no entry, changes nothing
/// and invokes no callback.
pub proof fn lemma_second_resolve_is_noop(
    state: ScriptView,
    promise_id: u32,
    first: Seq<u8>,
    second: Seq<u8>,
)
    requires
        state.wf(),
    ensures
        state.resolve(promise_id, first).0.resolve(promise_id, second) == (
            state.resolve(promise_id, first).0,
            ResolutionView::Ignored,
        ),
{
}

/// One event keeps the tables well-formed and moves the promise counter
/// forward by one at most, as long as the counters have room.
pub proof fn lemma_step_keeps_wf(state: ScriptView, event: ScriptEvent)
    requires
        state.wf(),
        state.can_allocate(),
    ensures
        state.step(event).wf(),
        state.next_promise <= state.step(event).next_promise <= state.next_promise + 1,
        state.next_timer <= state.step(event).next_timer <= state.next_timer + 1,
        forall|id: u32|
            state.state_of(id) == PromiseState::Removed ==> #[trigger] state.step(event).state_of(
                id,
            ) == PromiseState::Removed,
{
    let after = state.step(event);
    assert forall|id: u32| #[trigger] after.promises.contains_key(id) implies id
        < after.next_promise by {
        assert(id == state.next_promise || state.promises.contains_key(id));
    }
    assert forall|t: u32| #[trigger] after.timers.contains_key(t) implies t < after.next_timer
        && after.timers[t].id == t by {
        assert(t == state.next_timer || state.timers.contains_key(t));
    }
    assert forall|id: u32| state.state_of(id) == PromiseState::Removed implies #[trigger] after.state_of(
        id,
    ) == PromiseState::Removed by {
        assert(after.promises.contains_key(id) ==> id == state.next_promise
            || state.promises.contains_key(id));
    }
}

/// A timer in the timer table always expects a fire: each event leaves
/// every listed timer with a pending promise that waits for its native
/// completion.
pub proof fn lemma_step_keeps_armed(state: ScriptView, event: ScriptEvent)
    requires
        state.wf(),
        state.armed(),
        state.can_allocate(),
    ensures
        state.step(event).armed(),
{
    let after = state.step(event);
    assert forall|t: u32| #[trigger] after.timers.contains_key(t) implies exists|p: u32|
        after.awaits_fire(t, p) by {
        if state.timers.contains_key(t) {
            let p = choose|p: u32| state.awaits_fire(t, p);
            assert(p < state.next_promise);
            match event {
                ScriptEvent::Resolve { promise_id, payload } => {
                    if promise_id == p {
                        // The timer fired: it stays listed only if it re-armed.
                        assert(after.awaits_fire(t, state.next_promise));
                    } else {
                        assert(after.awaits_fire(t, p));
                    }
                },
                _ => {
                    assert(after.awaits_fire(t, p));
                },
            }
        } else {
            // Only a timer primitive lists a timer, with its first promise.
            assert(after.awaits_fire(t, state.next_promise));
        }
    }
}

/// Exactly once: an identifier that was settled and removed is never
/// pending again, whatever the script and the native side do afterwards.
/// So of all the resolve calls for one identifier, over any history, at
/// most one has an effect.
pub proof fn lemma_removed_stays_removed(
    state: ScriptView,
    events: Seq<ScriptEvent>,
    promise_id: u32,
)
    requires
        state.wf(),
        state.state_of(promise_id) == PromiseState::Removed,
        state.next_promise + events.len() < u32::MAX,
        state.next_timer + events.len() < u32::MAX,
    ensures
        state.run(events).wf(),
        state.run(events).state_of(promise_id) == PromiseState::Removed,
        state.run(events).next_promise <= state.next_promise + events.len(),
        state.run(events).next_timer <= state.next_timer + events.len(),
    decreases events.len(),
{
    if events.len() > 0 {
        lemma_removed_stays_removed(state, events.drop_last(), promise_id);
        lemma_step_keeps_wf(state.run(events.drop_last()), events.last());
    }
}

/// A resolve that finds an entry pending settles and removes it.
pub proof fn lemma_resolve_removes(state: ScriptView, promise_id: u32, payload: Seq<u8>)
    requires
        state.wf(),
        state.state_of(promise_id) == PromiseState::Pending,
    ensures
        state.resolve(promise_id, payload).0.state_of(promise_id) == PromiseState::Removed,
        state.resolve(promise_id, payload).1 != ResolutionView::Ignored,
{
}

/// An interval that is cleared before its first native completion never
/// invokes its callback: the completion still arrives and settles the
/// promise, but the fire handler finds the timer gone.
pub proof fn lemma_cleared_interval_never_fires(
    state: ScriptView,
    callback: Function,
    delay: u32,
    payload: Seq<u8>,
)
    ensures
        ({
            let (started, start) = state.set_timer(callback, delay, true);
            let cleared = started.clear_timer(start.timer_id);
            let (after, resolution) = cleared.resolve(start.request.promise_id, payload);
            &&& resolution == ResolutionView::Suppressed
            &&& !resolution.invokes()
            &&& !after.promises.contains_key(start.request.promise_id)
            &&& !after.timers.contains_key(start.timer_id)
        }),
{
}

/// An interval that is cleared after a native completion was already
/// turned into a callback invocation fires that once and never again: the
/// completion of the re-armed native timer is suppressed, and so is every
/// later resolve of either identifier.
pub proof fn lemma_cleared_interval_fires_once_more(
    state: ScriptView,
    callback: Function,
    delay: u32,
    payload: Seq<u8>,
)
    requires
        state.wf(),
        state.can_allocate(),
    ensures
        ({
            let (started, start) = state.set_timer(callback, delay, true);
            let first = start.request.promise_id;
            let (fired, resolution) = started.resolve(first, payload);
            let rearmed = TimerRequest { promise_id: succ(first), delay };
            let cleared = fired.clear_timer(start.timer_id);
            let (after, last) = cleared.resolve(rearmed.promise_id, payload);
            &&& resolution == ResolutionView::Fired { callback, rearm: Some(rearmed) }
            &&& last == ResolutionView::Suppressed
            &&& after.resolve(first, payload).1 == ResolutionView::Ignored
            &&& after.resolve(rearmed.promise_id, payload).1 == ResolutionView::Ignored
        }),
{
}

} // verus!
