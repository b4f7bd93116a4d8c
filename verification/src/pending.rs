//! The set of native operations that are in flight for one engine instance.

use vstd::prelude::*;

verus! {

/// What a pending operation waits for.
#[derive(Debug)]
pub enum OpKind {
    Timer { delay: u32, repeat: bool },
    NetworkFetch { url: String },
}

pub enum OpKindView {
    Timer { delay: u32, repeat: bool },
    NetworkFetch { url: Seq<char> },
}

impl View for OpKind {
    type V = OpKindView;

    open spec fn view(&self) -> OpKindView {
        match *self {
            OpKind::Timer { delay, repeat } => OpKindView::Timer { delay, repeat },
            OpKind::NetworkFetch { url } => OpKindView::NetworkFetch { url: url@ },
        }
    }
}

/// How a native task ended: with a payload for the script, or with an
/// internal failure of the task itself.
#[derive(Debug)]
pub enum Outcome {
    Payload(Vec<u8>),
    Failure,
}

pub enum OutcomeView {
    Payload(Seq<u8>),
    Failure,
}

impl View for Outcome {
    type V = OutcomeView;

    open spec fn view(&self) -> OutcomeView {
        match *self {
            Outcome::Payload(bytes) => OutcomeView::Payload(bytes@),
            Outcome::Failure => OutcomeView::Failure,
        }
    }
}

/// One outstanding asynchronous request, as the native side sees it.
#[derive(Debug)]
pub struct PendingOperation {
    /// The correlation identifier that the script side assigned.
    pub id: u32,
    pub kind: OpKind,
    /// `None` while the task is in flight.
    pub outcome: Option<Outcome>,
}

pub struct OpView {
    pub id: u32,
    pub kind: OpKindView,
    pub outcome: Option<OutcomeView>,
}

impl View for PendingOperation {
    type V = OpView;

    open spec fn view(&self) -> OpView {
        OpView {
            id: self.id,
            kind: self.kind@,
            outcome: match self.outcome {
                Some(outcome) => Some(outcome@),
                None => None,
            },
        }
    }
}

/// A finished operation, handed out of the set exactly once.
#[derive(Debug)]
pub struct Completion {
    pub id: u32,
    pub kind: OpKind,
    pub payload: Vec<u8>,
}

pub struct CompletionView {
    pub id: u32,
    pub kind: OpKindView,
    pub payload: Seq<u8>,
}

impl View for Completion {
    type V = CompletionView;

    open spec fn view(&self) -> CompletionView {
        CompletionView { id: self.id, kind: self.kind@, payload: self.payload@ }
    }
}

/// The internal failure of one task, surfaced by a poll.
#[derive(Clone, Copy, Debug, PartialEq, Eq, Structural)]
pub struct OpFailure {
    pub id: u32,
}

impl OpView {
    pub open spec fn in_flight(self) -> bool {
        self.outcome is None
    }

    pub open spec fn failed(self) -> bool {
        self.outcome == Some(OutcomeView::Failure)
    }

    pub open spec fn ready(self) -> bool {
        self.outcome is Some && !self.failed()
    }

    pub open spec fn waits_for(self, id: u32) -> bool {
        self.id == id && self.in_flight()
    }

    /// The completion that a ready operation is delivered as.
    pub open spec fn completion(self) -> CompletionView {
        CompletionView {
            id: self.id,
            kind: self.kind,
            payload: match self.outcome {
                Some(OutcomeView::Payload(bytes)) => bytes,
                _ => Seq::empty(),
            },
        }
    }

    pub open spec fn finish(self, outcome: OutcomeView) -> OpView {
        OpView { id: self.id, kind: self.kind, outcome: Some(outcome) }
    }
}

/// Index of the first operation that failed, or the length if none did.
pub open spec fn first_failed(ops: Seq<OpView>) -> int
    decreases ops.len(),
{
    if ops.len() == 0 {
        0
    } else if ops[0].failed() {
        0
    } else {
        1 + first_failed(ops.skip(1))
    }
}

/// Index of the first operation in flight under `id`, or the length if
/// there is none.
pub open spec fn first_waiting(ops: Seq<OpView>, id: u32) -> int
    decreases ops.len(),
{
    if ops.len() == 0 {
        0
    } else if ops[0].waits_for(id) {
        0
    } else {
        1 + first_waiting(ops.skip(1), id)
    }
}

/// The operations that stay in the set over a poll: those still in flight,
/// in their order.
pub open spec fn still_in_flight(ops: Seq<OpView>) -> Seq<OpView>
    decreases ops.len(),
{
    if ops.len() == 0 {
        Seq::empty()
    } else if ops.last().in_flight() {
        still_in_flight(ops.drop_last()).push(ops.last())
    } else {
        still_in_flight(ops.drop_last())
    }
}

/// The completions that a poll hands out: one for each ready operation, in
/// their order.
pub open spec fn deliveries(ops: Seq<OpView>) -> Seq<CompletionView>
    decreases ops.len(),
{
    if ops.len() == 0 {
        Seq::empty()
    } else if ops.last().ready() {
        deliveries(ops.drop_last()).push(ops.last().completion())
    } else {
        deliveries(ops.drop_last())
    }
}

/// The set after recording `outcome` for the operation in flight under `id`.
pub open spec fn after_complete(ops: Seq<OpView>, id: u32, outcome: OutcomeView) -> Seq<OpView> {
    let k = first_waiting(ops, id);
    if k < ops.len() {
        ops.update(k, ops[k].finish(outcome))
    } else {
        ops
    }
}

/// The set after a poll.
pub open spec fn after_poll(ops: Seq<OpView>) -> Seq<OpView> {
    let k = first_failed(ops);
    if k < ops.len() {
        ops.remove(k)
    } else {
        still_in_flight(ops)
    }
}

/// What a poll returns.
pub open spec fn poll_result(ops: Seq<OpView>) -> Result<Seq<CompletionView>, OpFailure> {
    let k = first_failed(ops);
    if k < ops.len() {
        Err(OpFailure { id: ops[k].id })
    } else {
        Ok(deliveries(ops))
    }
}

pub open spec fn views_of(ops: Seq<PendingOperation>) -> Seq<OpView> {
    ops.map_values(|op: PendingOperation| op@)
}

pub open spec fn completion_views(done: Seq<Completion>) -> Seq<CompletionView> {
    done.map_values(|c: Completion| c@)
}

pub proof fn lemma_first_failed(ops: Seq<OpView>, k: int)
    requires
        0 <= k <= ops.len(),
        forall|j: int| 0 <= j < k ==> !(#[trigger] ops[j]).failed(),
        k < ops.len() ==> ops[k].failed(),
    ensures
        first_failed(ops) == k,
    decreases k,
{
    if ops.len() > 0 && k > 0 {
        let rest = ops.skip(1);
        assert forall|j: int| 0 <= j < k - 1 implies !(#[trigger] rest[j]).failed() by {
            assert(rest[j] == ops[j + 1]);
        }
        lemma_first_failed(rest, k - 1);
    }
}

pub proof fn lemma_first_waiting(ops: Seq<OpView>, id: u32, k: int)
    requires
        0 <= k <= ops.len(),
        forall|j: int| 0 <= j < k ==> !(#[trigger] ops[j]).waits_for(id),
        k < ops.len() ==> ops[k].waits_for(id),
    ensures
        first_waiting(ops, id) == k,
    decreases k,
{
    if ops.len() > 0 && k > 0 {
        let rest = ops.skip(1);
        assert forall|j: int| 0 <= j < k - 1 implies !(#[trigger] rest[j]).waits_for(id) by {
            assert(rest[j] == ops[j + 1]);
        }
        lemma_first_waiting(rest, id, k - 1);
    }
}

/// The pending operations of one engine instance.
#[derive(Debug)]
pub struct PendingOps {
    ops: Vec<PendingOperation>,
}

impl View for PendingOps {
    type V = Seq<OpView>;

    closed spec fn view(&self) -> Seq<OpView> {
        views_of(self.ops@)
    }
}

impl PendingOps {
    pub fn new() -> (set: PendingOps)
        ensures
            set@ == Seq::<OpView>::empty(),
    {
        let set = PendingOps { ops: Vec::new() };
        assert(set@ =~= Seq::<OpView>::empty());
        set
    }

    pub fn len(&self) -> (n: usize)
        ensures
            n == self@.len(),
    {
        self.ops.len()
    }

    pub fn is_empty(&self) -> (empty: bool)
        ensures
            empty == (self@.len() == 0),
    {
        self.ops.len() == 0
    }

    /// Adds one task in flight for the correlation identifier `id`.
    pub fn push(&mut self, id: u32, kind: OpKind)
        ensures
            final(self)@ == old(self)@.push(OpView { id, kind: kind@, outcome: None }),
    {
        self.ops.push(PendingOperation { id, kind, outcome: None });
        assert(self@ =~= old(self)@.push(OpView { id, kind: kind@, outcome: None }));
    }

    /// Drops every operation unresolved, as on teardown of the engine.
    pub fn discard(&mut self)
        ensures
            final(self)@ == Seq::<OpView>::empty(),
    {
        self.ops.clear();
        assert(self@ =~= Seq::<OpView>::empty());
    }

    /// Records that the native task for `id` has ended. Returns `false`, and
    /// changes nothing, when no operation is in flight under `id`: the task
    /// was completed before, or the set was discarded.
    pub fn complete(&mut self, id: u32, outcome: Outcome) -> (recorded: bool)
        ensures
            recorded == (first_waiting(old(self)@, id) < old(self)@.len()),
            final(self)@ == after_complete(old(self)@, id, outcome@),
    {
        let n: usize = self.ops.len();
        let mut k: usize = 0;
        while k < n && !(self.ops[k].id == id && self.ops[k].outcome.is_none())
            invariant
                n == self.ops.len(),
                *self == *old(self),
                0 <= k <= n,
                forall|j: int| 0 <= j < k ==> !(#[trigger] self@[j]).waits_for(id),
            decreases n - k,
        {
            k += 1;
        }
        proof {
            lemma_first_waiting(self@, id, k as int);
        }
        if k < n {
            let op = self.ops.remove(k);
            self.ops.insert(
                k,
                PendingOperation { id: op.id, kind: op.kind, outcome: Some(outcome) },
            );
            assert(self@ =~= after_complete(old(self)@, id, outcome@));
            true
        } else {
            false
        }
    }

    /// Hands out, in one batch and without blocking, every operation that
    /// has a payload, and removes them from the set. The operations still in
    /// flight stay. A task that failed internally is fatal: the first such
    /// task is removed and reported instead, and nothing else is delivered
    /// by that poll.
    pub fn poll_ready(&mut self) -> (batch: Result<Vec<Completion>, OpFailure>)
        ensures
            final(self)@ == after_poll(old(self)@),
            match batch {
                Ok(done) => poll_result(old(self)@) == Ok::<Seq<CompletionView>, OpFailure>(
                    completion_views(done@),
                ),
                Err(failure) => poll_result(old(self)@) == Err::<Seq<CompletionView>, OpFailure>(
                    failure,
                ),
            },
    {
        let n: usize = self.ops.len();
        let mut k: usize = 0;
        while k < n && !is_failed(&self.ops[k])
            invariant
                n == self.ops.len(),
                *self == *old(self),
                0 <= k <= n,
                forall|j: int| 0 <= j < k ==> !(#[trigger] self@[j]).failed(),
            decreases n - k,
        {
            k += 1;
        }
        proof {
            lemma_first_failed(self@, k as int);
        }
        if k < n {
            let op = self.ops.remove(k);
            assert(self@ =~= old(self)@.remove(k as int));
            return Err(OpFailure { id: op.id });
        }
        // Unload the set back to front, then walk the stack front to back.
        let ghost before = self.ops@;
        let mut taken: Vec<PendingOperation> = Vec::new();
        core::mem::swap(&mut self.ops, &mut taken);
        let mut stack: Vec<PendingOperation> = reversed(taken);
        assert(self@ =~= still_in_flight(views_of(before.take(0))));
        let mut done: Vec<Completion> = Vec::new();
        let mut j: usize = 0;
        while stack.len() > 0
            invariant
                before.len() == n,
                views_of(before) == old(self)@,
                first_failed(old(self)@) == n,
                j + stack@.len() == n,
                forall|i: int| 0 <= i < stack@.len() ==> stack@[i] == before[n - 1 - i],
                self@ == still_in_flight(views_of(before.take(j as int))),
                completion_views(done@) == deliveries(views_of(before.take(j as int))),
            decreases stack.len(),
        {
            let op = stack.pop().unwrap();
            assert(op == before[j as int]);
            let ghost upto = views_of(before.take(j + 1));
            assert(upto.drop_last() =~= views_of(before.take(j as int)));
            assert(upto.last() == op@);
            let ghost kept = self@;
            let ghost sent = completion_views(done@);
            match op.outcome {
                None => {
                    self.ops.push(PendingOperation { id: op.id, kind: op.kind, outcome: None });
                    assert(self@ =~= kept.push(op@));
                },
                Some(Outcome::Payload(payload)) => {
                    done.push(Completion { id: op.id, kind: op.kind, payload });
                    assert(completion_views(done@) =~= sent.push(op@.completion()));
                },
                Some(Outcome::Failure) => {
                    proof {
                        // No operation failed, or the scan above had stopped at it.
                        lemma_none_failed(old(self)@, j as int);
                    }
                },
            }
            j += 1;
        }
        assert(before.take(n as int) =~= before);
        Ok(done)
    }
}

/// The items of `items` in the opposite order.
pub(crate) fn reversed<T>(items: Vec<T>) -> (stack: Vec<T>)
    ensures
        stack@.len() == items@.len(),
        forall|i: int| 0 <= i < stack@.len() ==> stack@[i] == items@[items@.len() - 1 - i],
{
    let ghost before = items@;
    let ghost n = items@.len();
    let mut items = items;
    let mut stack: Vec<T> = Vec::new();
    while items.len() > 0
        invariant
            before.len() == n,
            items@.len() + stack@.len() == n,
            items@ == before.take(n - stack@.len()),
            forall|i: int| 0 <= i < stack@.len() ==> stack@[i] == before[n - 1 - i],
        decreases items.len(),
    {
        let item = items.pop().unwrap();
        stack.push(item);
        assert(items@ =~= before.take(n - stack@.len()));
    }
    stack
}

fn is_failed(op: &PendingOperation) -> (failed: bool)
    ensures
        failed == op@.failed(),
{
    match &op.outcome {
        Some(Outcome::Failure) => true,
        _ => false,
    }
}

/// A poll delivers no more completions than the set holds operations.
pub proof fn lemma_deliveries_bounded(ops: Seq<OpView>)
    ensures
        deliveries(ops).len() <= ops.len(),
    decreases ops.len(),
{
    if ops.len() > 0 {
        lemma_deliveries_bounded(ops.drop_last());
    }
}

/// A poll leaves no more operations in the set than it found.
pub proof fn lemma_poll_keeps_no_more(ops: Seq<OpView>)
    ensures
        after_poll(ops).len() <= ops.len(),
{
    lemma_first_failed_in_range(ops);
    lemma_in_flight_bounded(ops);
}

pub proof fn lemma_first_failed_in_range(ops: Seq<OpView>)
    ensures
        0 <= first_failed(ops) <= ops.len(),
    decreases ops.len(),
{
    if ops.len() > 0 {
        lemma_first_failed_in_range(ops.skip(1));
    }
}

pub proof fn lemma_in_flight_bounded(ops: Seq<OpView>)
    ensures
        still_in_flight(ops).len() <= ops.len(),
    decreases ops.len(),
{
    if ops.len() > 0 {
        lemma_in_flight_bounded(ops.drop_last());
    }
}

/// What happens to a set over time.
pub enum SetEvent {
    Push { id: u32, kind: OpKindView },
    Complete { id: u32, outcome: OutcomeView },
    Poll,
}

/// A set together with the count of what went in and what came out.
pub struct SetHistory {
    pub ops: Seq<OpView>,
    pub pushed: nat,
    pub delivered: nat,
    pub failed: nat,
}

impl SetHistory {
    pub open spec fn start() -> SetHistory {
        SetHistory { ops: Seq::empty(), pushed: 0, delivered: 0, failed: 0 }
    }

    pub open spec fn step(self, event: SetEvent) -> SetHistory {
        match event {
            SetEvent::Push { id, kind } => SetHistory {
                ops: self.ops.push(OpView { id, kind, outcome: None }),
                pushed: self.pushed + 1,
                ..self
            },
            SetEvent::Complete { id, outcome } => SetHistory {
                ops: after_complete(self.ops, id, outcome),
                ..self
            },
            SetEvent::Poll => match poll_result(self.ops) {
                Ok(done) => SetHistory {
                    ops: after_poll(self.ops),
                    delivered: self.delivered + done.len(),
                    ..self
                },
                Err(_) => SetHistory {
                    ops: after_poll(self.ops),
                    failed: self.failed + 1,
                    ..self
                },
            },
        }
    }

    pub open spec fn run(events: Seq<SetEvent>) -> SetHistory
        decreases events.len(),
    {
        if events.len() == 0 {
            SetHistory::start()
        } else {
            SetHistory::run(events.drop_last()).step(events.last())
        }
    }
}

/// A poll that delivers takes out of the set exactly what it delivers:
/// the set shrinks by the number of completions, and a poll right after
/// it finds nothing to deliver.
pub proof fn lemma_delivery_removes(ops: Seq<OpView>)
    requires
        poll_result(ops) is Ok,
    ensures
        after_poll(ops).len() + poll_result(ops)->Ok_0.len() == ops.len(),
        poll_result(after_poll(ops)) == Ok::<Seq<CompletionView>, OpFailure>(Seq::empty()),
        after_poll(after_poll(ops)) == after_poll(ops),
{
    lemma_first_failed_in_range(ops);
    assert forall|j: int| 0 <= j < ops.len() implies !(#[trigger] ops[j]).failed() by {
        lemma_none_failed(ops, j);
    }
    lemma_partition(ops);
    lemma_kept_in_flight(ops);
    lemma_all_in_flight(still_in_flight(ops));
}

/// Delivery comes after completion: whatever a poll delivers is the
/// completion of an operation of the set whose native task had ended with
/// a payload.
pub proof fn lemma_delivered_were_completed(ops: Seq<OpView>, i: int)
    requires
        0 <= i < deliveries(ops).len(),
    ensures
        exists|j: int|
            0 <= j < ops.len() && (#[trigger] ops[j]).ready() && deliveries(ops)[i]
                == ops[j].completion(),
    decreases ops.len(),
{
    if ops.len() > 0 {
        let front = ops.drop_last();
        if i < deliveries(front).len() {
            lemma_delivered_were_completed(front, i);
            let j = choose|j: int|
                0 <= j < front.len() && (#[trigger] front[j]).ready() && deliveries(front)[i]
                    == front[j].completion();
            assert(ops[j] == front[j]);
        } else {
            assert(ops[ops.len() - 1].ready());
        }
    }
}

/// A poll that reports a failure takes out of the set the failed task,
/// and no other.
pub proof fn lemma_failure_removes_one(ops: Seq<OpView>)
    requires
        poll_result(ops) is Err,
    ensures
        after_poll(ops).len() + 1 == ops.len(),
{
    lemma_first_failed_in_range(ops);
}

/// At most once: over any history of pushes, completions and polls, every
/// operation that was pushed is still in the set, or was delivered by one
/// poll, or was reported as failed by one poll. So no more payloads are
/// ever delivered than operations were pushed.
pub proof fn lemma_history_conserves(events: Seq<SetEvent>)
    ensures
        ({
            let history = SetHistory::run(events);
            history.pushed == history.ops.len() + history.delivered + history.failed
        }),
        SetHistory::run(events).delivered <= SetHistory::run(events).pushed,
    decreases events.len(),
{
    if events.len() > 0 {
        lemma_history_conserves(events.drop_last());
        let before = SetHistory::run(events.drop_last());
        match events.last() {
            SetEvent::Push { id, kind } => {},
            SetEvent::Complete { id, outcome } => {
                lemma_first_waiting_in_range(before.ops, id);
            },
            SetEvent::Poll => {
                if poll_result(before.ops) is Ok {
                    lemma_delivery_removes(before.ops);
                } else {
                    lemma_failure_removes_one(before.ops);
                }
            },
        }
    }
}

pub proof fn lemma_first_waiting_in_range(ops: Seq<OpView>, id: u32)
    ensures
        0 <= first_waiting(ops, id) <= ops.len(),
    decreases ops.len(),
{
    if ops.len() > 0 {
        lemma_first_waiting_in_range(ops.skip(1), id);
    }
}

/// Where no operation failed, each one is kept or delivered.
proof fn lemma_partition(ops: Seq<OpView>)
    requires
        forall|j: int| 0 <= j < ops.len() ==> !(#[trigger] ops[j]).failed(),
    ensures
        still_in_flight(ops).len() + deliveries(ops).len() == ops.len(),
    decreases ops.len(),
{
    if ops.len() > 0 {
        let front = ops.drop_last();
        assert forall|j: int| 0 <= j < front.len() implies !(#[trigger] front[j]).failed() by {
            assert(front[j] == ops[j]);
        }
        lemma_partition(front);
    }
}

/// What a poll keeps is in flight.
proof fn lemma_kept_in_flight(ops: Seq<OpView>)
    ensures
        forall|j: int|
            0 <= j < still_in_flight(ops).len() ==> (#[trigger] still_in_flight(
                ops,
            )[j]).in_flight(),
    decreases ops.len(),
{
    if ops.len() > 0 {
        let front = still_in_flight(ops.drop_last());
        lemma_kept_in_flight(ops.drop_last());
        assert forall|j: int| 0 <= j < still_in_flight(ops).len() implies (#[trigger] still_in_flight(
            ops,
        )[j]).in_flight() by {
            if j < front.len() {
                assert(still_in_flight(ops)[j] == front[j]);
            }
        }
    }
}

/// A set of operations in flight has nothing to deliver and nothing to
/// report, and a poll keeps all of it.
proof fn lemma_all_in_flight(ops: Seq<OpView>)
    requires
        forall|j: int| 0 <= j < ops.len() ==> (#[trigger] ops[j]).in_flight(),
    ensures
        first_failed(ops) == ops.len(),
        deliveries(ops) == Seq::<CompletionView>::empty(),
        still_in_flight(ops) == ops,
    decreases ops.len(),
{
    lemma_first_failed(ops, ops.len() as int);
    if ops.len() > 0 {
        let front = ops.drop_last();
        assert forall|j: int| 0 <= j < front.len() implies (#[trigger] front[j]).in_flight() by {
            assert(front[j] == ops[j]);
        }
        lemma_all_in_flight(front);
        assert(front.push(ops.last()) =~= ops);
    }
}

pub proof fn lemma_none_failed(ops: Seq<OpView>, j: int)
    requires
        first_failed(ops) == ops.len(),
        0 <= j < ops.len(),
    ensures
        !ops[j].failed(),
    decreases j,
{
    if j > 0 {
        assert(ops.skip(1)[j - 1] == ops[j]);
        lemma_none_failed(ops.skip(1), j - 1);
    }
}

} // verus!
