//! One engine instance: its handle, its locker, its pending operations and
//! the script-side tables, with the two directions of the dispatch bridge.

use crate::locker::{Locker, LockerScope};
use crate::pending::{
    after_complete, after_poll, completion_views, first_waiting, lemma_deliveries_bounded,
    lemma_poll_keeps_no_more, poll_result, reversed, Completion, CompletionView, OpFailure, OpKind, OpKindView, OpView,
    Outcome, PendingOps,
};
use crate::script::{
    Resolution, ResolutionView, ScriptState, ScriptView, TimerStart, Waiter,
};
use crate::v8::{Context, Function};
use vstd::prelude::*;

verus! {

/// The source of engine instance identifiers, shared by all workers of a
/// process.
#[derive(Debug)]
pub struct InstanceCounter {
    next: u32,
}

/// The identifier that the counter hands out after `id`; the counter wraps
/// at the end of its range.
pub open spec fn following(id: u32) -> u32 {
    if id == u32::MAX {
        0
    } else {
        (id + 1) as u32
    }
}

impl InstanceCounter {
    /// The identifier that the next instance gets.
    pub closed spec fn next(&self) -> u32 {
        self.next
    }

    pub fn new() -> (counter: InstanceCounter)
        ensures
            counter.next() == 0,
    {
        InstanceCounter { next: 0 }
    }

    /// Hands out the next identifier and advances the counter by one.
    pub fn next_uuid(&mut self) -> (id: u32)
        ensures
            id == old(self).next(),
            final(self).next() == following(id),
    {
        let id: u32 = self.next;
        self.next = if id == u32::MAX {
            0
        } else {
            id + 1
        };
        id
    }
}

/// Whether the worker has come to rest.
#[derive(Clone, Copy, Debug, PartialEq, Eq, Structural)]
pub enum DriveStatus {
    /// No operation is pending and none was added since the last poll.
    Quiescent,
    /// The scheduler has to drive the worker again.
    HasMoreWork,
}

/// What evaluating a script asks of the engine.
#[derive(Debug)]
pub struct Evaluation {
    /// Whether the engine's bootstrap has to run first. True exactly once
    /// per instance.
    pub initialize: bool,
    /// The script text to evaluate.
    pub source: String,
}

/// The result of one drive cycle.
#[derive(Debug)]
pub struct PollReport {
    pub status: DriveStatus,
    /// Whether operations were added during this cycle, so that the
    /// scheduler is to come back without waiting for a completion.
    pub wake: bool,
    /// One entry for each completion that was delivered into the engine,
    /// in the order of delivery.
    pub resolutions: Vec<Resolution>,
}

pub struct PollReportView {
    pub status: DriveStatus,
    pub wake: bool,
    pub resolutions: Seq<ResolutionView>,
}

pub open spec fn resolution_views(resolutions: Seq<Resolution>) -> Seq<ResolutionView> {
    resolutions.map_values(|r: Resolution| r@)
}

impl View for PollReport {
    type V = PollReportView;

    open spec fn view(&self) -> PollReportView {
        PollReportView {
            status: self.status,
            wake: self.wake,
            resolutions: resolution_views(self.resolutions@),
        }
    }
}

/// An engine instance as plain values.
pub struct IsolateView {
    pub uuid: u32,
    pub live: bool,
    pub initialized: bool,
    pub have_unpolled_ops: bool,
    pub pending: Seq<OpView>,
    pub script: ScriptView,
}

impl IsolateView {
    pub open spec fn fresh(uuid: u32) -> IsolateView {
        IsolateView {
            uuid,
            live: true,
            initialized: false,
            have_unpolled_ops: false,
            pending: Seq::empty(),
            script: ScriptView::fresh(uuid),
        }
    }

    /// Quiescent when the set is empty and nothing was added since the
    /// last poll.
    pub open spec fn status(self) -> DriveStatus {
        if self.pending.len() == 0 && !self.have_unpolled_ops {
            DriveStatus::Quiescent
        } else {
            DriveStatus::HasMoreWork
        }
    }

    /// The inbound bridge: one timer operation more, and unpolled work.
    pub open spec fn dispatch(self, promise_id: u32, delay: u32, repeat: bool) -> IsolateView {
        if self.live {
            IsolateView {
                pending: self.pending.push(
                    OpView {
                        id: promise_id,
                        kind: OpKindView::Timer { delay, repeat },
                        outcome: None,
                    },
                ),
                have_unpolled_ops: true,
                ..self
            }
        } else {
            self
        }
    }

    /// The native half of a fetch: one fetch operation more.
    pub open spec fn fetch(self, url: Seq<char>, promise_id: u32) -> IsolateView {
        if self.live {
            IsolateView {
                pending: self.pending.push(
                    OpView {
                        id: promise_id,
                        kind: OpKindView::NetworkFetch { url },
                        outcome: None,
                    },
                ),
                ..self
            }
        } else {
            self
        }
    }

    /// A timer primitive: the script side lists the timer, the inbound
    /// bridge registers its first native timer.
    pub open spec fn set_timer(self, callback: Function, delay: u32, repeat: bool) -> (
        IsolateView,
        Option<TimerStart>,
    ) {
        if self.live {
            let (script, start) = self.script.set_timer(callback, delay, repeat);
            (
                IsolateView { script, ..self }.dispatch(start.request.promise_id, delay, repeat),
                Some(start),
            )
        } else {
            (self, None)
        }
    }

    pub open spec fn clear_timer(self, timer_id: u32) -> IsolateView {
        if self.live {
            IsolateView { script: self.script.clear_timer(timer_id), ..self }
        } else {
            self
        }
    }

    pub open spec fn request_fetch(self, url: Seq<char>) -> (IsolateView, Option<u32>) {
        if self.live {
            let (script, promise_id) = self.script.create_resolvable(Waiter::Fetch);
            (IsolateView { script, ..self }.fetch(url, promise_id), Some(promise_id))
        } else {
            (self, None)
        }
    }

    /// The outbound bridge for one payload: the engine's resolve entry
    /// point, and the inbound bridge for the timer it re-arms. With the
    /// engine torn down the notification is dropped.
    pub open spec fn resolve(self, promise_id: u32, payload: Seq<u8>) -> (
        IsolateView,
        ResolutionView,
    ) {
        if self.live {
            let (script, resolution) = self.script.resolve(promise_id, payload);
            let settled = IsolateView { script, ..self };
            match resolution {
                ResolutionView::Fired { callback, rearm: Some(request) } => (
                    settled.dispatch(request.promise_id, request.delay, true),
                    resolution,
                ),
                _ => (settled, resolution),
            }
        } else {
            (self, ResolutionView::Ignored)
        }
    }

    /// Delivery of a batch of completions, one after the other.
    pub open spec fn resolve_all(self, done: Seq<CompletionView>) -> (
        IsolateView,
        Seq<ResolutionView>,
    )
        decreases done.len(),
    {
        if done.len() == 0 {
            (self, Seq::empty())
        } else {
            let (before, resolutions) = self.resolve_all(done.drop_last());
            let (after, resolution) = before.resolve(done.last().id, done.last().payload);
            (after, resolutions.push(resolution))
        }
    }

    /// One drive cycle.
    pub open spec fn poll(self) -> (IsolateView, Result<PollReportView, OpFailure>) {
        let polled = IsolateView {
            have_unpolled_ops: false,
            pending: after_poll(self.pending),
            ..self
        };
        match poll_result(self.pending) {
            Err(failure) => (polled, Err(failure)),
            Ok(done) => {
                let (after, resolutions) = polled.resolve_all(done);
                (
                    after,
                    Ok(
                        PollReportView {
                            status: after.status(),
                            wake: after.have_unpolled_ops,
                            resolutions,
                        },
                    ),
                )
            },
        }
    }

    pub open spec fn teardown(self) -> IsolateView {
        IsolateView { live: false, have_unpolled_ops: false, pending: Seq::empty(), ..self }
    }

    /// Whether the promise counter can cover one re-armed timer for every
    /// pending operation.
    pub open spec fn has_headroom(self) -> bool {
        self.script.next_promise + self.pending.len() < u32::MAX
    }
}

/// One live script execution context.
#[derive(Debug)]
pub struct Isolate {
    uuid: u32,
    deno: Context,
    have_unpolled_ops: bool,
    pending_ops: PendingOps,
    locker: Locker,
    script: ScriptState,
    initialized: bool,
}

impl View for Isolate {
    type V = IsolateView;

    closed spec fn view(&self) -> IsolateView {
        IsolateView {
            uuid: self.uuid,
            live: self.deno.live(),
            initialized: self.initialized,
            have_unpolled_ops: self.have_unpolled_ops,
            pending: self.pending_ops@,
            script: self.script@,
        }
    }
}

impl Isolate {
    /// The handle, the locker and the script tables belong to this
    /// instance, the locker is free between calls, and a torn-down
    /// instance holds no operation.
    pub closed spec fn wf(&self) -> bool {
        &&& self.consistent()
        &&& !self.locker@.locked
    }

    /// What holds of an instance also while a scope is inside its engine.
    spec fn consistent(&self) -> bool {
        &&& self.deno.instance() == self.uuid
        &&& self.locker.wf()
        &&& self.locker@.engine == self.uuid
        &&& self.script.wf()
        &&& self.script@.engine == self.uuid
        &&& !self.deno.live() ==> self.pending_ops@.len() == 0 && !self.have_unpolled_ops
    }

    /// Whether a scope is inside the engine.
    spec fn entered(&self) -> bool {
        self.locker@.locked
    }

    /// What a well-formed instance shows in its view: the script tables
    /// are well-formed and belong to the instance, and a torn-down
    /// instance holds no operation.
    pub proof fn lemma_wf_view(&self)
        requires
            self.wf(),
        ensures
            self@.script.wf(),
            self@.script.engine == self@.uuid,
            !self@.live ==> self@.pending.len() == 0 && !self@.have_unpolled_ops,
    {
    }

    /// A new instance, with the next identifier of `counter`.
    pub fn new(counter: &mut InstanceCounter) -> (isolate: Isolate)
        ensures
            isolate@ == IsolateView::fresh(old(counter).next()),
            isolate.wf(),
            final(counter).next() == following(old(counter).next()),
    {
        let uuid: u32 = counter.next_uuid();
        Isolate {
            uuid,
            deno: Context::new(uuid),
            have_unpolled_ops: false,
            pending_ops: PendingOps::new(),
            locker: Locker::new(uuid),
            script: ScriptState::new(uuid),
            initialized: false,
        }
    }

    pub fn uuid(&self) -> (uuid: u32)
        ensures
            uuid == self@.uuid,
    {
        self.uuid
    }

    pub fn is_live(&self) -> (live: bool)
        ensures
            live == self@.live,
    {
        self.deno.is_live()
    }

    pub fn have_unpolled_ops(&self) -> (flag: bool)
        ensures
            flag == self@.have_unpolled_ops,
    {
        self.have_unpolled_ops
    }

    /// Whether the instance has come to rest.
    pub fn status(&self) -> (status: DriveStatus)
        ensures
            status == self@.status(),
    {
        if self.pending_ops.is_empty() && !self.have_unpolled_ops {
            DriveStatus::Quiescent
        } else {
            DriveStatus::HasMoreWork
        }
    }

    /// How many operations are pending.
    pub fn pending_len(&self) -> (n: usize)
        ensures
            n == self@.pending.len(),
    {
        self.pending_ops.len()
    }

    /// Whether a promise is pending under `promise_id`.
    pub fn is_pending(&self, promise_id: u32) -> (pending: bool)
        ensures
            pending == self@.script.promises.contains_key(promise_id),
    {
        self.script.is_pending(promise_id)
    }

    /// Whether the timer `timer_id` still expects a fire.
    pub fn has_timer(&self, timer_id: u32) -> (live: bool)
        ensures
            live == self@.script.timers.contains_key(timer_id),
    {
        self.script.has_timer(timer_id)
    }

    /// Whether the script side can start one more timer or fetch.
    pub fn can_allocate(&self) -> (ok: bool)
        ensures
            ok == self@.script.can_allocate(),
    {
        self.script.can_allocate()
    }

    /// Whether resolving `promise_id` re-arms a timer.
    pub fn rearms(&self, promise_id: u32) -> (rearms: bool)
        ensures
            rearms == self@.script.rearms(promise_id),
    {
        self.script.rearms(promise_id)
    }

    /// Whether a drive cycle has the identifiers it may need.
    pub fn has_headroom(&self) -> (ok: bool)
        ensures
            ok == self@.has_headroom(),
    {
        let used: u32 = self.script.next_promise();
        let n: usize = self.pending_ops.len();
        n < (u32::MAX - used) as usize
    }

    /// Decides what evaluating `script` asks of the engine: the bootstrap
    /// on the first call, and the script itself. `None` when the engine was
    /// torn down.
    pub fn execute(&mut self, script: &str) -> (evaluation: Option<Evaluation>)
        requires
            old(self).wf(),
        ensures
            final(self).wf(),
            final(self)@ == (IsolateView {
                initialized: old(self)@.initialized || old(self)@.live,
                ..old(self)@
            }),
            evaluation is Some <==> old(self)@.live,
            evaluation is Some ==> evaluation.unwrap().initialize == !old(self)@.initialized
                && evaluation.unwrap().source@ == script@,
    {
        if !self.deno.is_live() {
            return None;
        }
        let initialize = !self.initialized;
        self.initialized = true;
        Some(Evaluation { initialize, source: script.to_owned() })
    }

    /// The inbound bridge: the engine asks to be notified under
    /// `promise_id` after `delay`. Returns whether the engine is live; a
    /// torn-down engine gets no timer.
    pub fn dispatch(&mut self, promise_id: u32, delay: u32, repeat: bool) -> (accepted: bool)
        requires
            old(self).wf(),
        ensures
            final(self).wf(),
            final(self)@ == old(self)@.dispatch(promise_id, delay, repeat),
            accepted == old(self)@.live,
    {
        self.push_timer(promise_id, delay, repeat)
    }

    /// The inbound bridge as the engine reaches it, with or without a
    /// scope inside.
    fn push_timer(&mut self, promise_id: u32, delay: u32, repeat: bool) -> (accepted: bool)
        requires
            old(self).consistent(),
        ensures
            final(self).consistent(),
            final(self).entered() == old(self).entered(),
            final(self)@ == old(self)@.dispatch(promise_id, delay, repeat),
            accepted == old(self)@.live,
    {
        if !self.deno.is_live() {
            return false;
        }
        self.pending_ops.push(promise_id, OpKind::Timer { delay, repeat });
        self.have_unpolled_ops = true;
        true
    }

    /// The native half of a fetch: registers the GET of `url` under
    /// `promise_id`.
    pub fn fetch(&mut self, url: String, promise_id: u32) -> (accepted: bool)
        requires
            old(self).wf(),
        ensures
            final(self).wf(),
            final(self)@ == old(self)@.fetch(url@, promise_id),
            accepted == old(self)@.live,
    {
        if !self.deno.is_live() {
            return false;
        }
        self.pending_ops.push(promise_id, OpKind::NetworkFetch { url });
        true
    }

    fn set_timer(&mut self, callback: Function, delay: u32, repeat: bool) -> (timer: Option<
        TimerStart,
    >)
        requires
            old(self).wf(),
            old(self)@.script.can_allocate(),
        ensures
            final(self).wf(),
            (final(self)@, timer) == old(self)@.set_timer(callback, delay, repeat),
    {
        if !self.deno.is_live() {
            return None;
        }
        let scope = self.locker.acquire().unwrap();
        let start: TimerStart = self.script.set_timer(&scope, callback, delay, repeat);
        self.locker.release(scope);
        self.dispatch(start.request.promise_id, delay, repeat);
        Some(start)
    }

    /// `setTimeout`: `callback` is to run once, `delay` from now. Returns
    /// the timer's identifier for the script and the request for the
    /// native timer, or `None` when the engine was torn down.
    pub fn set_timeout(&mut self, callback: Function, delay: u32) -> (timer: Option<TimerStart>)
        requires
            old(self).wf(),
            old(self)@.script.can_allocate(),
        ensures
            final(self).wf(),
            (final(self)@, timer) == old(self)@.set_timer(callback, delay, false),
    {
        self.set_timer(callback, delay, false)
    }

    /// `setInterval`: `callback` is to run every `delay`, until cleared.
    pub fn set_interval(&mut self, callback: Function, delay: u32) -> (timer: Option<TimerStart>)
        requires
            old(self).wf(),
            old(self)@.script.can_allocate(),
        ensures
            final(self).wf(),
            (final(self)@, timer) == old(self)@.set_timer(callback, delay, true),
    {
        self.set_timer(callback, delay, true)
    }

    fn clear_timer(&mut self, timer_id: u32)
        requires
            old(self).wf(),
        ensures
            final(self).wf(),
            final(self)@ == old(self)@.clear_timer(timer_id),
    {
        if self.deno.is_live() {
            let scope = self.locker.acquire().unwrap();
            self.script.clear_timer(&scope, timer_id);
            self.locker.release(scope);
        }
    }

    /// `clearTimeout`: no later fire of the timer invokes its callback.
    pub fn clear_timeout(&mut self, timer_id: u32)
        requires
            old(self).wf(),
        ensures
            final(self).wf(),
            final(self)@ == old(self)@.clear_timer(timer_id),
    {
        self.clear_timer(timer_id)
    }

    /// `clearInterval`: no later fire of the timer invokes its callback.
    pub fn clear_interval(&mut self, timer_id: u32)
        requires
            old(self).wf(),
        ensures
            final(self).wf(),
            final(self)@ == old(self)@.clear_timer(timer_id),
    {
        self.clear_timer(timer_id)
    }

    /// The script-side `fetch`: allocates the promise and registers the
    /// GET. Returns the correlation identifier, or `None` when the engine
    /// was torn down.
    pub fn request_fetch(&mut self, url: String) -> (promise_id: Option<u32>)
        requires
            old(self).wf(),
            old(self)@.script.can_allocate(),
        ensures
            final(self).wf(),
            (final(self)@, promise_id) == old(self)@.request_fetch(url@),
    {
        if !self.deno.is_live() {
            return None;
        }
        let scope = self.locker.acquire().unwrap();
        let promise_id: u32 = self.script.fetch(&scope);
        self.locker.release(scope);
        self.fetch(url, promise_id);
        Some(promise_id)
    }

    /// Records that the native task under `promise_id` has ended. The
    /// engine is not entered; the payload is delivered by the next poll.
    /// Returns `false`, and changes nothing, when no operation is in
    /// flight under `promise_id`.
    pub fn complete(&mut self, promise_id: u32, outcome: Outcome) -> (recorded: bool)
        requires
            old(self).wf(),
        ensures
            final(self).wf(),
            final(self)@ == (IsolateView {
                pending: after_complete(old(self)@.pending, promise_id, outcome@),
                ..old(self)@
            }),
            recorded == (first_waiting(old(self)@.pending, promise_id) < old(self)@.pending.len()),
    {
        self.pending_ops.complete(promise_id, outcome)
    }

    /// The outbound bridge: enters the engine under its locker and
    /// resolves `promise_id` with `payload`. A timer that re-arms gets its
    /// next pending operation. With the engine torn down the notification
    /// is dropped.
    pub fn resolve(&mut self, promise_id: u32, payload: Vec<u8>) -> (resolution: Resolution)
        requires
            old(self).wf(),
            old(self)@.live && old(self)@.script.rearms(promise_id) ==> old(self)@.script.next_promise
                < u32::MAX,
        ensures
            final(self).wf(),
            (final(self)@, resolution@) == old(self)@.resolve(promise_id, payload@),
    {
        if !self.deno.is_live() {
            return Resolution::Ignored;
        }
        let scope = self.locker.acquire().unwrap();
        let resolution = self.deliver(&scope, promise_id, payload);
        self.locker.release(scope);
        resolution
    }

    /// Delivery of one payload by a caller that is inside the engine.
    fn deliver(&mut self, scope: &LockerScope, promise_id: u32, payload: Vec<u8>) -> (resolution:
        Resolution)
        requires
            old(self).consistent(),
            old(self)@.live,
            scope.engine() == old(self)@.uuid,
            old(self)@.script.rearms(promise_id) ==> old(self)@.script.next_promise < u32::MAX,
        ensures
            final(self).consistent(),
            final(self).entered() == old(self).entered(),
            (final(self)@, resolution@) == old(self)@.resolve(promise_id, payload@),
    {
        let resolution = self.script.resolve(scope, promise_id, payload);
        match &resolution {
            Resolution::Fired { callback, rearm: Some(request) } => {
                self.push_timer(request.promise_id, request.delay, true);
            },
            _ => {},
        }
        resolution
    }

    /// One drive cycle: under the locker, polls the pending operations
    /// once and delivers every completion into the engine. An internal
    /// failure of a task is returned as the error.
    pub fn poll(&mut self) -> (report: Result<PollReport, OpFailure>)
        requires
            old(self).wf(),
            old(self)@.has_headroom(),
        ensures
            final(self).wf(),
            final(self)@ == old(self)@.poll().0,
            match report {
                Ok(report) => old(self)@.poll().1 == Ok::<PollReportView, OpFailure>(report@),
                Err(failure) => old(self)@.poll().1 == Err::<PollReportView, OpFailure>(failure),
            },
    {
        if !self.deno.is_live() {
            let report = PollReport {
                status: DriveStatus::Quiescent,
                wake: false,
                resolutions: Vec::new(),
            };
            proof {
                assert(after_poll(self@.pending) =~= self@.pending);
                assert(self@.poll().0 == self@);
                assert(report@.resolutions =~= Seq::<ResolutionView>::empty());
            }
            return Ok(report);
        }
        let scope = self.locker.acquire().unwrap();
        self.have_unpolled_ops = false;
        let done: Vec<Completion> = match self.pending_ops.poll_ready() {
            Err(failure) => {
                self.locker.release(scope);
                return Err(failure);
            },
            Ok(done) => done,
        };
        let ghost polled = self@;
        let ghost batch = completion_views(done@);
        let n: usize = done.len();
        proof {
            lemma_deliveries_bounded(old(self)@.pending);
            lemma_poll_keeps_no_more(old(self)@.pending);
        }
        let mut stack: Vec<Completion> = reversed(done);
        let mut resolutions: Vec<Resolution> = Vec::new();
        let mut j: usize = 0;
        assert(batch.take(0) =~= Seq::<CompletionView>::empty());
        while stack.len() > 0
            invariant
                self.consistent(),
                self.entered(),
                self@.live,
                scope.engine() == self@.uuid,
                batch.len() == n,
                batch == completion_views(done@),
                done@.len() == n,
                j + stack@.len() == n,
                forall|i: int| 0 <= i < stack@.len() ==> stack@[i] == done@[n - 1 - i],
                (self@, resolution_views(resolutions@)) == polled.resolve_all(batch.take(j as int)),
                self@.script.next_promise + (n - j) < u32::MAX,
            decreases stack.len(),
        {
            let completion = stack.pop().unwrap();
            assert(completion == done@[j as int]);
            assert(batch.take(j + 1).drop_last() =~= batch.take(j as int));
            assert(batch.take(j + 1).last() == completion@);
            let ghost sofar = resolution_views(resolutions@);
            let resolution = self.deliver(&scope, completion.id, completion.payload);
            resolutions.push(resolution);
            assert(resolution_views(resolutions@) =~= sofar.push(resolution@));
            j += 1;
        }
        assert(batch.take(n as int) =~= batch);
        self.locker.release(scope);
        Ok(PollReport { status: self.status(), wake: self.have_unpolled_ops, resolutions })
    }

    /// Tears the engine down: the handle is invalidated and every pending
    /// operation is dropped unresolved.
    pub fn teardown(&mut self)
        requires
            old(self).wf(),
        ensures
            final(self).wf(),
            final(self)@ == old(self)@.teardown(),
    {
        self.deno.invalidate();
        self.pending_ops.discard();
        self.have_unpolled_ops = false;
    }
}

/// The identifier that the counter hands out `steps` allocations after it
/// handed out `id`.
pub open spec fn advanced(id: u32, steps: nat) -> u32
    decreases steps,
{
    if steps == 0 {
        id
    } else {
        following(advanced(id, (steps - 1) as nat))
    }
}

proof fn lemma_advanced_is_modular(id: u32, steps: nat)
    ensures
        advanced(id, steps) == (id + steps) % 0x1_0000_0000,
    decreases steps,
{
    if steps > 0 {
        lemma_advanced_is_modular(id, (steps - 1) as nat);
        let before = (id + steps - 1) % 0x1_0000_0000;
        assert((id + steps) % 0x1_0000_0000 == if before == 0xffff_ffff {
            0
        } else {
            before + 1
        }) by (nonlinear_arith)
            requires
                before == (id + steps - 1) % 0x1_0000_0000,
                id + steps - 1 >= 0,
        ;
    }
}

/// Instance identifiers are unique: as long as fewer instances are made
/// than the counter has values, no two of them get the same identifier.
pub proof fn lemma_instance_ids_unique(first: u32, i: nat, j: nat)
    requires
        i < j < 0x1_0000_0000,
    ensures
        advanced(first, i) != advanced(first, j),
{
    lemma_advanced_is_modular(first, i);
    lemma_advanced_is_modular(first, j);
    assert((first + i) % 0x1_0000_0000 != (first + j) % 0x1_0000_0000) by (nonlinear_arith)
        requires
            i < j < 0x1_0000_0000,
            first >= 0,
    ;
}

/// Resolving the same correlation identifier twice through the outbound
/// bridge is idempotent: the second call changes nothing, invokes nothing
/// and registers no operation.
pub proof fn lemma_second_bridge_resolve_is_noop(
    isolate: IsolateView,
    promise_id: u32,
    first: Seq<u8>,
    second: Seq<u8>,
)
    requires
        isolate.script.wf(),
    ensures
        isolate.resolve(promise_id, first).0.resolve(promise_id, second) == (
            isolate.resolve(promise_id, first).0,
            ResolutionView::Ignored,
        ),
{
    crate::script::lemma_second_resolve_is_noop(isolate.script, promise_id, first, second);
}

/// No lost wakeup: whenever a resolve re-arms a timer, the operation for
/// the new correlation identifier is in the set, in flight, and the
/// instance is marked as having unpolled work.
pub proof fn lemma_rearm_registers_operation(
    isolate: IsolateView,
    promise_id: u32,
    payload: Seq<u8>,
)
    ensures
        ({
            let (after, resolution) = isolate.resolve(promise_id, payload);
            match resolution {
                ResolutionView::Fired { callback, rearm: Some(request) } => {
                    &&& after.pending == isolate.pending.push(
                        OpView {
                            id: request.promise_id,
                            kind: OpKindView::Timer { delay: request.delay, repeat: true },
                            outcome: None,
                        },
                    )
                    &&& after.have_unpolled_ops
                    &&& after.script.promises.contains_key(request.promise_id)
                    &&& after.status() == DriveStatus::HasMoreWork
                },
                _ => after.pending == isolate.pending && after.have_unpolled_ops
                    == isolate.have_unpolled_ops,
            }
        }),
{
}

/// An interval that is cleared before its first native completion never
/// invokes its callback, although the native timer is not retracted: its
/// operation stays pending, and its completion is delivered and
/// suppressed.
pub proof fn lemma_cleared_interval_is_silent(
    isolate: IsolateView,
    callback: Function,
    delay: u32,
    payload: Seq<u8>,
)
    requires
        isolate.live,
    ensures
        ({
            let (started, start) = isolate.set_timer(callback, delay, true);
            let cleared = started.clear_timer(start.unwrap().timer_id);
            let (after, resolution) = cleared.resolve(start.unwrap().request.promise_id, payload);
            &&& start is Some
            &&& cleared.pending == isolate.pending.push(
                OpView {
                    id: start.unwrap().request.promise_id,
                    kind: OpKindView::Timer { delay, repeat: true },
                    outcome: None,
                },
            )
            &&& resolution == ResolutionView::Suppressed
            &&& after.pending == cleared.pending
        }),
{
    crate::script::lemma_cleared_interval_never_fires(isolate.script, callback, delay, payload);
}

/// Two instances made from one counter get different identifiers, and each
/// starts its own correlation identifiers at 1: the identifier spaces are
/// per instance, only the instance counter is shared.
pub proof fn lemma_instances_have_own_id_spaces(first_uuid: u32, waiter: Waiter)
    ensures
        ({
            let a = IsolateView::fresh(first_uuid);
            let b = IsolateView::fresh(following(first_uuid));
            &&& a.uuid != b.uuid
            &&& a.script.create_resolvable(waiter).1 == 1
            &&& b.script.create_resolvable(waiter).1 == 1
            &&& a.script.engine != b.script.engine
        }),
{
}

} // verus!
