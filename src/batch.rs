use vstd::prelude::*;

verus! {

/// Where a job went wrong.
#[derive(Clone, Copy, Debug, PartialEq, Eq, Structural)]
pub enum JobErrorKind {
    /// The request failed or the response was not a success.
    Network,
    /// The file could not be created or written.
    Filesystem,
    /// The job stopped before it could report an outcome.
    Interrupted,
}

/// The failure of one job, with a message for the user.
pub struct JobError {
    pub kind: JobErrorKind,
    pub message: String,
}

/// Why a batch failed as a whole.
pub enum BatchError {
    /// The target folder could not be created; no job was started.
    Directory { message: String },
    /// The job at `index` failed; it is the first failure in job order.
    Job { index: usize, error: JobError },
}

/// The outcome of a finished batch: how many jobs succeeded, and the first
/// failed job in job order with its error.
pub struct BatchReport {
    pub succeeded: usize,
    pub first_failure: Option<(usize, JobError)>,
}

/// The number of successful outcomes.
pub open spec fn count_succeeded(outcomes: Seq<Result<(), JobError>>) -> nat
    decreases outcomes.len(),
{
    if outcomes.len() == 0 {
        0
    } else {
        count_succeeded(outcomes.drop_last()) + if outcomes.last() is Ok {
            1nat
        } else {
            0nat
        }
    }
}

/// The index of the first failed outcome, if there is one.
pub open spec fn first_failure_index(outcomes: Seq<Result<(), JobError>>) -> Option<int>
    decreases outcomes.len(),
{
    if outcomes.len() == 0 {
        None
    } else {
        match first_failure_index(outcomes.drop_last()) {
            Some(j) => Some(j),
            None => if outcomes.last() is Err {
                Some(outcomes.len() - 1)
            } else {
                None
            },
        }
    }
}

/// The result a batch with these outcomes reports: the number of jobs if all
/// succeeded, else the index of the first failure.
pub open spec fn batch_result(outcomes: Seq<Result<(), JobError>>) -> Result<nat, int> {
    match first_failure_index(outcomes) {
        None => Ok(count_succeeded(outcomes)),
        Some(j) => Err(j),
    }
}

/// `first_failure_index` names the failed outcome that has no failed one before it.
pub proof fn lemma_first_failure_index(outcomes: Seq<Result<(), JobError>>)
    ensures
        first_failure_index(outcomes) is None <==> forall|i: int|
            0 <= i < outcomes.len() ==> #[trigger] outcomes[i] is Ok,
        first_failure_index(outcomes) matches Some(j) ==> (0 <= j < outcomes.len()
            && outcomes[j] is Err && forall|i: int| 0 <= i < j ==> #[trigger] outcomes[i] is Ok),
    decreases outcomes.len(),
{
    if outcomes.len() > 0 {
        let n = outcomes.len() - 1;
        let prefix = outcomes.drop_last();
        lemma_first_failure_index(prefix);
        assert(outcomes.last() == outcomes[n]);
        assert forall|i: int| 0 <= i < n implies #[trigger] prefix[i] == outcomes[i] by {}
        match first_failure_index(prefix) {
            Some(j) => {
                assert(prefix[j] == outcomes[j]);
                assert forall|i: int| 0 <= i < j implies #[trigger] outcomes[i] is Ok by {
                    assert(prefix[i] == outcomes[i]);
                }
            },
            None => {
                if outcomes[n] is Err {
                    assert forall|i: int| 0 <= i < n implies #[trigger] outcomes[i] is Ok by {
                        assert(prefix[i] == outcomes[i]);
                    }
                } else {
                    assert forall|i: int| 0 <= i < outcomes.len() implies #[trigger] outcomes[i] is Ok by {
                        if i < n {
                            assert(prefix[i] == outcomes[i]);
                        }
                    }
                }
            },
        }
    }
}

/// At most as many successes as outcomes.
proof fn lemma_count_bounded(outcomes: Seq<Result<(), JobError>>)
    ensures
        count_succeeded(outcomes) <= outcomes.len(),
    decreases outcomes.len(),
{
    if outcomes.len() > 0 {
        lemma_count_bounded(outcomes.drop_last());
    }
}

/// Gathers the outcomes of all jobs, in job order, into one report.
pub fn summarize(outcomes: &Vec<Result<(), JobError>>) -> (r: BatchReport)
    ensures
        r.succeeded == count_succeeded(outcomes@),
        r.first_failure is None <==> first_failure_index(outcomes@) is None,
        r.first_failure matches Some((k, e)) ==> (first_failure_index(outcomes@) == Some(k as int)
            && outcomes@[k as int] == Err::<(), JobError>(e)),
{
    let mut succeeded: usize = 0;
    let mut first_failure: Option<(usize, JobError)> = None;
    let mut i: usize = 0;
    while i < outcomes.len()
        invariant
            i <= outcomes@.len(),
            succeeded == count_succeeded(outcomes@.take(i as int)),
            first_failure is None <==> first_failure_index(outcomes@.take(i as int)) is None,
            first_failure matches Some((k, e)) ==> (first_failure_index(outcomes@.take(i as int))
                == Some(k as int) && outcomes@[k as int] == Err::<(), JobError>(e)),
        decreases outcomes@.len() - i,
    {
        let ghost before = outcomes@.take(i as int);
        let ghost after = outcomes@.take(i + 1);
        assert(after.drop_last() =~= before);
        proof {
            lemma_count_bounded(before);
            lemma_first_failure_index(before);
        }
        match &outcomes[i] {
            Ok(()) => {
                succeeded = succeeded + 1;
            },
            Err(e) => {
                if first_failure.is_none() {
                    let copy = JobError { kind: e.kind, message: e.message.clone() };
                    first_failure = Some((i, copy));
                }
            },
        }
        i = i + 1;
    }
    assert(outcomes@.take(outcomes@.len() as int) =~= outcomes@);
    BatchReport { succeeded, first_failure }
}

impl BatchReport {
    /// The batch succeeds with the number of completed jobs when no job
    /// failed, and fails with its first failure otherwise.
    pub fn into_result(self) -> (r: Result<usize, BatchError>)
        ensures
            self.first_failure is None ==> r == Ok::<usize, BatchError>(self.succeeded),
            self.first_failure matches Some((k, e)) ==> r == Err::<usize, BatchError>(
                BatchError::Job { index: k, error: e },
            ),
    {
        match self.first_failure {
            None => Ok(self.succeeded),
            Some((index, error)) => Err(BatchError::Job { index, error }),
        }
    }
}

/// A batch of no jobs succeeds with nothing done.
pub proof fn lemma_empty_batch_succeeds(outcomes: Seq<Result<(), JobError>>)
    requires
        outcomes.len() == 0,
    ensures
        batch_result(outcomes) == Ok::<nat, int>(0),
{
}

/// When every job succeeds, the batch succeeds with every job counted.
pub proof fn lemma_all_succeed(outcomes: Seq<Result<(), JobError>>)
    requires
        forall|i: int| 0 <= i < outcomes.len() ==> #[trigger] outcomes[i] is Ok,
    ensures
        batch_result(outcomes) == Ok::<nat, int>(outcomes.len()),
    decreases outcomes.len(),
{
    lemma_first_failure_index(outcomes);
    if outcomes.len() > 0 {
        let prefix = outcomes.drop_last();
        assert forall|i: int| 0 <= i < prefix.len() implies #[trigger] prefix[i] is Ok by {
            assert(prefix[i] == outcomes[i]);
        }
        lemma_all_succeed(prefix);
        lemma_first_failure_index(prefix);
        assert(outcomes[outcomes.len() - 1] is Ok);
    }
}

/// When exactly one job fails, the batch fails on that job, and every other
/// job still counts as succeeded: nothing is undone.
pub proof fn lemma_single_failure(outcomes: Seq<Result<(), JobError>>, j: int)
    requires
        0 <= j < outcomes.len(),
        outcomes[j] is Err,
        forall|i: int| 0 <= i < outcomes.len() && i != j ==> #[trigger] outcomes[i] is Ok,
    ensures
        batch_result(outcomes) == Err::<nat, int>(j),
        count_succeeded(outcomes) == outcomes.len() - 1,
    decreases outcomes.len(),
{
    lemma_first_failure_index(outcomes);
    let prefix = outcomes.drop_last();
    if j == outcomes.len() - 1 {
        assert forall|i: int| 0 <= i < prefix.len() implies #[trigger] prefix[i] is Ok by {
            assert(prefix[i] == outcomes[i]);
        }
        lemma_all_succeed(prefix);
        lemma_first_failure_index(prefix);
    } else {
        assert(prefix[j] == outcomes[j]);
        assert forall|i: int| 0 <= i < prefix.len() && i != j implies #[trigger] prefix[i] is Ok by {
            assert(prefix[i] == outcomes[i]);
        }
        lemma_single_failure(prefix, j);
        assert(outcomes[outcomes.len() - 1] is Ok);
    }
}

} // verus!
