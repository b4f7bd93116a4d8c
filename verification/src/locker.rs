//! Scoped mutual exclusion for entry into one engine instance.

use vstd::prelude::*;

verus! {

/// The lock of one engine instance, together with a count of the scopes
/// that are currently inside the engine.
#[derive(Debug)]
pub struct Locker {
    engine: u32,
    locked: bool,
    entered: u32,
}

/// Proof of holding the locker of one engine instance. Only
/// [`Locker::acquire`] makes one, and [`Locker::release`] consumes it.
#[derive(Debug)]
pub struct LockerScope {
    engine: u32,
}

/// What a thread asks of a locker.
pub enum LockEvent {
    Acquire,
    Release,
}

/// The locker as a plain value.
pub struct LockerView {
    pub engine: u32,
    pub locked: bool,
    pub entered: nat,
}

impl LockerView {
    /// At most one scope is inside, and exactly when the lock is taken.
    pub open spec fn wf(self) -> bool {
        self.entered == (if self.locked { 1nat } else { 0nat })
    }

    pub open spec fn fresh(engine: u32) -> LockerView {
        LockerView { engine, locked: false, entered: 0 }
    }

    /// The state after one request. An acquire on a taken lock is refused and
    /// a release of a free lock does nothing.
    pub open spec fn step(self, event: LockEvent) -> LockerView {
        match event {
            LockEvent::Acquire => if self.locked {
                self
            } else {
                LockerView { engine: self.engine, locked: true, entered: self.entered + 1 }
            },
            LockEvent::Release => if self.locked {
                LockerView {
                    engine: self.engine,
                    locked: false,
                    entered: (self.entered - 1) as nat,
                }
            } else {
                self
            },
        }
    }

    /// The state after a whole history of requests, from any mix of threads.
    pub open spec fn run(self, events: Seq<LockEvent>) -> LockerView
        decreases events.len(),
    {
        if events.len() == 0 {
            self
        } else {
            self.run(events.drop_last()).step(events.last())
        }
    }
}

impl LockerScope {
    /// The engine instance whose locker this scope holds.
    pub closed spec fn engine(&self) -> u32 {
        self.engine
    }

    /// The engine instance whose locker this scope holds.
    pub fn engine_id(&self) -> (id: u32)
        ensures
            id == self.engine(),
    {
        self.engine
    }
}

impl View for Locker {
    type V = LockerView;

    closed spec fn view(&self) -> LockerView {
        LockerView { engine: self.engine, locked: self.locked, entered: self.entered as nat }
    }
}

impl Locker {
    pub open spec fn wf(&self) -> bool {
        self@.wf()
    }

    /// A free locker for the engine instance `engine`.
    pub fn new(engine: u32) -> (locker: Locker)
        ensures
            locker@ == LockerView::fresh(engine),
            locker.wf(),
    {
        Locker { engine, locked: false, entered: 0 }
    }

    /// Whether some scope holds the lock.
    pub fn is_locked(&self) -> (locked: bool)
        ensures
            locked == self@.locked,
    {
        self.locked
    }

    /// How many scopes are inside the engine right now.
    pub fn entered(&self) -> (n: u32)
        ensures
            n == self@.entered,
    {
        self.entered
    }

    /// Takes the lock if it is free. Returns the scope on success and `None`
    /// while another scope holds the lock; the caller then retries.
    pub fn acquire(&mut self) -> (scope: Option<LockerScope>)
        requires
            old(self).wf(),
        ensures
            final(self)@ == old(self)@.step(LockEvent::Acquire),
            final(self).wf(),
            scope is Some <==> !old(self)@.locked,
            scope is Some ==> scope.unwrap().engine() == old(self)@.engine,
    {
        if self.locked {
            None
        } else {
            self.locked = true;
            self.entered = 1;
            Some(LockerScope { engine: self.engine })
        }
    }

    /// Gives the lock back. The scope is consumed, so it cannot be used for
    /// further engine calls. Returns whether the scope belonged to this
    /// locker; a foreign scope leaves the locker as it was.
    pub fn release(&mut self, scope: LockerScope) -> (released: bool)
        requires
            old(self).wf(),
        ensures
            final(self).wf(),
            released == (scope.engine() == old(self)@.engine && old(self)@.locked),
            released ==> final(self)@ == old(self)@.step(LockEvent::Release),
            !released ==> final(self)@ == old(self)@,
    {
        if self.locked && scope.engine == self.engine {
            self.locked = false;
            self.entered = 0;
            true
        } else {
            false
        }
    }
}

/// Mutual exclusion: whatever sequence of acquire and release requests
/// reaches a locker, the engine never has more than one scope inside, and
/// after every prefix of the history the same holds.
pub proof fn lemma_never_two_inside(start: LockerView, events: Seq<LockEvent>)
    requires
        start.wf(),
    ensures
        start.run(events).wf(),
        start.run(events).entered <= 1,
        forall|n: int| 0 <= n <= events.len() ==> (#[trigger] start.run(events.take(n))).entered <= 1,
    decreases events.len(),
{
    if events.len() > 0 {
        lemma_never_two_inside(start, events.drop_last());
        assert forall|n: int| 0 <= n <= events.len() implies (#[trigger] start.run(
            events.take(n),
        )).entered <= 1 by {
            if n == events.len() {
                assert(events.take(n) =~= events);
            } else {
                assert(events.take(n) =~= events.drop_last().take(n));
            }
        }
    } else {
        assert forall|n: int| 0 <= n <= events.len() implies (#[trigger] start.run(
            events.take(n),
        )).entered <= 1 by {
            assert(events.take(n) =~= events);
        }
    }
}

} // verus!
