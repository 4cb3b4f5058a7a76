//! Result aggregation: drain exactly one outcome per dispatched job and
//! decide whether the video-assembly step may run.

use vstd::prelude::*;

verus! {

/// What went wrong while a worker ran one rendering job.
#[derive(Clone, Copy, Debug, PartialEq, Eq, Structural)]
pub enum JobErrorKind {
    /// The plotting process could not be spawned.
    Spawn,
    /// The generated script could not be written to the plotting process.
    WriteScript,
    /// Waiting for the plotting process to exit failed.
    Wait,
}

/// A per-job failure: its kind together with the originating cause,
/// rendered as text by the caller.
#[derive(Clone, Debug, PartialEq, Eq)]
pub struct JobError {
    pub kind: JobErrorKind,
    pub detail: String,
}

/// A job that ran to the point of observing its child process exit:
/// the job's index and the exit status the process reported (`None`
/// when the process was terminated by a signal).
#[derive(Clone, Copy, Debug, PartialEq, Eq)]
pub struct JobSuccess {
    pub index: usize,
    pub exit_code: Option<i32>,
}

/// The message a worker sends for its job: produced exactly once per
/// dispatched job and consumed exactly once by the aggregator.
pub type JobOutcome = Result<JobSuccess, JobError>;

/// The aggregate of a fully drained batch.
#[derive(Clone, Debug, PartialEq, Eq)]
pub struct BatchResult {
    /// How many outcomes reported a known exit status.
    pub completed: usize,
    /// The first failure encountered, if any; never overwritten by a
    /// later success.
    pub failed: Option<JobError>,
}

/// How many outcomes in the sequence are successes.
pub open spec fn count_ok(outcomes: Seq<JobOutcome>) -> nat
    decreases outcomes.len(),
{
    if outcomes.len() == 0 {
        0
    } else {
        count_ok(outcomes.drop_last()) + if outcomes.last() is Ok {
            1nat
        } else {
            0nat
        }
    }
}

/// How many outcomes in the sequence are failures.
pub open spec fn count_err(outcomes: Seq<JobOutcome>) -> nat
    decreases outcomes.len(),
{
    if outcomes.len() == 0 {
        0
    } else {
        count_err(outcomes.drop_last()) + if outcomes.last() is Err {
            1nat
        } else {
            0nat
        }
    }
}

/// The first failure in the sequence, in arrival order, if any.
pub open spec fn first_failure(outcomes: Seq<JobOutcome>) -> Option<JobError>
    decreases outcomes.len(),
{
    if outcomes.len() == 0 {
        None
    } else {
        match first_failure(outcomes.drop_last()) {
            Some(e) => Some(e),
            None => match outcomes.last() {
                Ok(_) => None,
                Err(e) => Some(e),
            },
        }
    }
}

/// The single consumer of the results channel.  It must receive exactly
/// `expected` outcomes — failures included — before the batch may be
/// summarized; stopping early would leave workers blocked on the channel.
pub struct Aggregator {
    expected: usize,
    received: usize,
    completed: usize,
    failed: Option<JobError>,
    history: Ghost<Seq<JobOutcome>>,
}

impl Aggregator {
    /// How many outcomes this aggregator was told to drain.
    pub closed spec fn spec_expected(self) -> usize {
        self.expected
    }

    /// Every outcome recorded so far, in arrival order.
    pub closed spec fn outcomes(self) -> Seq<JobOutcome> {
        self.history@
    }

    /// The counters always summarize the recorded history exactly.
    pub closed spec fn wf(self) -> bool {
        &&& self.history@.len() == self.received
        &&& self.received <= self.expected
        &&& self.completed == count_ok(self.history@)
        &&& self.failed == first_failure(self.history@)
    }

    /// Start an aggregation that must drain exactly `expected` outcomes.
    pub fn new(expected: usize) -> (agg: Aggregator)
        ensures
            agg.wf(),
            agg.spec_expected() == expected,
            agg.outcomes() == Seq::<JobOutcome>::empty(),
    {
        Aggregator {
            expected,
            received: 0,
            completed: 0,
            failed: None,
            history: Ghost(Seq::empty()),
        }
    }

    /// True exactly when all expected outcomes have been drained.
    pub fn is_done(&self) -> (done: bool)
        requires
            self.wf(),
        ensures
            done == (self.outcomes().len() == self.spec_expected()),
    {
        self.received == self.expected
    }

    /// Consume one outcome from the results channel.  A success bumps the
    /// completion count; a failure is recorded only if it is the first,
    /// so the reported cause is always the earliest one.
    pub fn record(&mut self, outcome: JobOutcome)
        requires
            old(self).wf(),
            old(self).outcomes().len() < old(self).spec_expected(),
        ensures
            final(self).wf(),
            final(self).spec_expected() == old(self).spec_expected(),
            final(self).outcomes() == old(self).outcomes().push(outcome),
    {
        proof {
            lemma_count_ok_le_len(self.history@);
            assert(self.history@.push(outcome).drop_last() =~= self.history@);
        }
        self.history = Ghost(self.history@.push(outcome));
        self.received = self.received + 1;
        match outcome {
            Ok(_) => {
                self.completed = self.completed + 1;
            },
            Err(e) => {
                if self.failed.is_none() {
                    self.failed = Some(e);
                }
            },
        }
    }

    /// Summarize a fully drained batch.
    pub fn finish(self) -> (result: BatchResult)
        requires
            self.wf(),
            self.outcomes().len() == self.spec_expected(),
        ensures
            result.completed == count_ok(self.outcomes()),
            result.failed == first_failure(self.outcomes()),
            result.failed is None ==> result.completed == self.spec_expected(),
    {
        proof {
            lemma_no_failure_means_all_ok(self.history@);
        }
        BatchResult { completed: self.completed, failed: self.failed }
    }
}

/// Drain a whole batch of outcomes at once: the pure core of aggregation,
/// one `record` per outcome and nothing else.
pub fn drain_outcomes(outcomes: Vec<JobOutcome>) -> (result: BatchResult)
    ensures
        result.completed == count_ok(outcomes@),
        result.failed == first_failure(outcomes@),
        result.failed is None ==> result.completed == outcomes@.len(),
{
    let ghost orig = outcomes@;
    let expected = outcomes.len();
    let mut agg = Aggregator::new(expected);
    let mut rest = outcomes;
    while rest.len() > 0
        invariant
            agg.wf(),
            agg.spec_expected() == expected,
            orig.len() == expected,
            agg.outcomes() + rest@ =~= orig,
        decreases rest@.len(),
    {
        proof {
            assert(agg.outcomes().len() + rest@.len() == orig.len());
        }
        let ghost pre = rest@;
        let outcome = rest.remove(0);
        proof {
            assert(agg.outcomes().push(outcome) + rest@ =~= agg.outcomes() + pre);
        }
        agg.record(outcome);
    }
    proof {
        assert(agg.outcomes() =~= orig);
    }
    agg.finish()
}

/// The batch may be assembled into a video exactly when no job failed.
pub fn should_assemble(result: &BatchResult) -> (go: bool)
    ensures
        go == (result.failed is None),
{
    result.failed.is_none()
}

/// There can be no more successes in a batch than outcomes.
pub proof fn lemma_count_ok_le_len(outcomes: Seq<JobOutcome>)
    ensures
        count_ok(outcomes) <= outcomes.len(),
    decreases outcomes.len(),
{
    if outcomes.len() > 0 {
        lemma_count_ok_le_len(outcomes.drop_last());
    }
}

/// Every drained outcome is accounted for: the successes and the failures
/// of a batch partition it, so draining loses nothing even when some
/// outcomes are failures.
pub proof fn lemma_drain_partitions_outcomes(outcomes: Seq<JobOutcome>)
    ensures
        count_ok(outcomes) + count_err(outcomes) == outcomes.len(),
    decreases outcomes.len(),
{
    if outcomes.len() > 0 {
        lemma_drain_partitions_outcomes(outcomes.drop_last());
    }
}

/// Whether the aggregator is done draining depends only on how many
/// outcomes arrived, never on whether any of them failed.
pub proof fn lemma_done_ignores_failures(a: Aggregator, b: Aggregator)
    requires
        a.wf(),
        b.wf(),
        a.spec_expected() == b.spec_expected(),
        a.outcomes().len() == b.outcomes().len(),
    ensures
        (a.outcomes().len() == a.spec_expected()) <==> (b.outcomes().len() == b.spec_expected()),
{
}

/// A batch records no failure exactly when every outcome is a success.
pub proof fn lemma_no_failure_means_all_ok(outcomes: Seq<JobOutcome>)
    ensures
        (first_failure(outcomes) is None) <==> (forall|i: int|
            0 <= i < outcomes.len() ==> outcomes[i] is Ok),
        first_failure(outcomes) is None ==> count_ok(outcomes) == outcomes.len(),
    decreases outcomes.len(),
{
    if outcomes.len() > 0 {
        lemma_no_failure_means_all_ok(outcomes.drop_last());
        assert(forall|i: int|
            0 <= i < outcomes.len() - 1 ==> outcomes[i] == outcomes.drop_last()[i]);
    }
}

/// The assembly gate: a fully drained batch admits the video-assembly
/// step exactly when every job outcome was a success, and is refused as
/// soon as any single outcome was a failure.
pub proof fn lemma_assembly_gate(outcomes: Seq<JobOutcome>)
    ensures
        (forall|i: int| 0 <= i < outcomes.len() ==> outcomes[i] is Ok) ==> first_failure(
            outcomes,
        ) is None,
        (exists|i: int| 0 <= i < outcomes.len() && outcomes[i] is Err) ==> first_failure(
            outcomes,
        ) is Some,
{
    lemma_no_failure_means_all_ok(outcomes);
}

} // verus!
