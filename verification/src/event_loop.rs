//! The worker: the unit that a scheduler drives until the engine instance
//! it owns has come to rest.

use crate::isolate::{
    DriveStatus, Evaluation, InstanceCounter, Isolate, IsolateView, PollReport, PollReportView,
    following,
};
use crate::pending::OpFailure;
use vstd::prelude::*;

verus! {

/// Owns one engine instance for its lifetime.
#[derive(Debug)]
pub struct Worker {
    pub inner: Isolate,
}

impl View for Worker {
    type V = IsolateView;

    open spec fn view(&self) -> IsolateView {
        self.inner@
    }
}

impl Worker {
    pub open spec fn wf(&self) -> bool {
        self.inner.wf()
    }

    /// A worker with a new engine instance, numbered by `counter`.
    pub fn new(counter: &mut InstanceCounter) -> (worker: Worker)
        ensures
            worker@ == IsolateView::fresh(old(counter).next()),
            worker.wf(),
            final(counter).next() == following(old(counter).next()),
    {
        Worker { inner: Isolate::new(counter) }
    }

    /// Decides what evaluating `script` asks of the engine. The bootstrap
    /// is asked for on the first call and never again.
    pub fn execute(&mut self, script: &str) -> (evaluation: Option<Evaluation>)
        requires
            old(self).wf(),
        ensures
            final(self).wf(),
            final(self)@ == (IsolateView {
                initialized: old(self)@.initialized || old(self)@.live,
                ..old(self)@
            }),
            evaluation is Some <==> old(self)@.live,
            evaluation is Some ==> evaluation.unwrap().initialize == !old(self)@.initialized
                && evaluation.unwrap().source@ == script@,
    {
        self.inner.execute(script)
    }

    /// One drive cycle. The worker reports that it is quiescent only when
    /// no operation is left pending; otherwise the scheduler has to drive
    /// it again.
    pub fn poll(&mut self) -> (report: Result<PollReport, OpFailure>)
        requires
            old(self).wf(),
            old(self)@.has_headroom(),
        ensures
            final(self).wf(),
            final(self)@ == old(self)@.poll().0,
            match report {
                Ok(report) => {
                    &&& old(self)@.poll().1 == Ok::<PollReportView, OpFailure>(report@)
                    &&& report.status == DriveStatus::Quiescent <==> final(self)@.pending.len()
                        == 0 && !final(self)@.have_unpolled_ops
                },
                Err(failure) => old(self)@.poll().1 == Err::<PollReportView, OpFailure>(failure),
            },
    {
        self.inner.poll()
    }
}

} // verus!
