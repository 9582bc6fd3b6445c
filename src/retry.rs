//! The bounded retry around one job: each attempt resolves the links,
//! picks one and transfers it; a failed attempt is followed by another one
//! while the budget lasts and the failure is one that another try may mend.
use vstd::prelude::*;
use crate::errors::{spec_is_retryable, ErrorKind};
use crate::transfer::{opened_and_probed, run, lemma_missing_length, TransferPhase};

verus! {

/// Where a job's retry loop stands.
#[derive(Clone, Copy, Debug, PartialEq, Eq, Structural)]
pub enum RetryState {
    /// An attempt is due; `remaining` more may follow it.
    Attempting { remaining: usize },
    /// An attempt succeeded.
    Done,
    /// The last attempt failed with `kind` and no other one follows.
    Failed { kind: ErrorKind },
}

/// The state after an attempt ends with `outcome`.
pub open spec fn spec_after(s: RetryState, outcome: Result<(), ErrorKind>) -> RetryState {
    match s {
        RetryState::Attempting { remaining } => match outcome {
            Ok(()) => RetryState::Done,
            Err(kind) => if remaining == 0 || !spec_is_retryable(kind) {
                RetryState::Failed { kind }
            } else {
                RetryState::Attempting { remaining: (remaining - 1) as usize }
            },
        },
        _ => s,
    }
}

/// The state after the attempts end with `outs` in turn (outcomes past the
/// end of the loop are not used).
pub open spec fn after_all(s: RetryState, outs: Seq<Result<(), ErrorKind>>) -> RetryState
    decreases outs.len(),
{
    if outs.len() == 0 || !(s is Attempting) {
        s
    } else {
        after_all(spec_after(s, outs[0]), outs.skip(1))
    }
}

/// How many of `outs` the loop consumes, that is, how many attempts it makes.
pub open spec fn attempts_made(s: RetryState, outs: Seq<Result<(), ErrorKind>>) -> nat
    decreases outs.len(),
{
    if outs.len() == 0 || !(s is Attempting) {
        0
    } else {
        1 + attempts_made(spec_after(s, outs[0]), outs.skip(1))
    }
}

impl RetryState {
    /// A loop that makes at most `max_attempts + 1` attempts.
    pub fn new(max_attempts: usize) -> (r: RetryState)
        ensures
            r == (RetryState::Attempting { remaining: max_attempts }),
    {
        RetryState::Attempting { remaining: max_attempts }
    }

    /// Whether another attempt is due.
    pub fn is_attempting(&self) -> (r: bool)
        ensures
            r == (*self is Attempting),
    {
        match self {
            RetryState::Attempting { .. } => true,
            _ => false,
        }
    }

    /// Takes the outcome of the attempt just made.
    pub fn after_attempt(&self, outcome: Result<(), ErrorKind>) -> (r: RetryState)
        ensures
            r == spec_after(*self, outcome),
    {
        match self {
            RetryState::Attempting { remaining } => match outcome {
                Ok(()) => RetryState::Done,
                Err(kind) => {
                    if *remaining == 0 || !kind.is_retryable() {
                        RetryState::Failed { kind }
                    } else {
                        RetryState::Attempting { remaining: *remaining - 1 }
                    }
                },
            },
            _ => *self,
        }
    }

    /// The job's result once the loop is over.
    pub fn result(&self) -> (r: Option<Result<(), ErrorKind>>)
        ensures
            r == match *self {
                RetryState::Attempting { .. } => None,
                RetryState::Done => Some(Ok::<(), ErrorKind>(())),
                RetryState::Failed { kind } => Some(Err::<(), ErrorKind>(kind)),
            },
    {
        match self {
            RetryState::Attempting { .. } => None,
            RetryState::Done => Some(Ok(())),
            RetryState::Failed { kind } => Some(Err(*kind)),
        }
    }
}

/// Every outcome is a failure that another attempt might mend.
pub open spec fn all_retryable_failures(outs: Seq<Result<(), ErrorKind>>) -> bool {
    forall|i: int| 0 <= i < outs.len() ==> (#[trigger] outs[i] is Err && spec_is_retryable(
        outs[i]->Err_0,
    ))
}

/// Retry exhaustion: when every attempt fails in a way that a retry could
/// mend, a loop made with `new(k - 1)` makes exactly `k` attempts and ends
/// failed, with the failure of the last one.
pub proof fn lemma_retry_exhaustion(k: usize, outs: Seq<Result<(), ErrorKind>>)
    requires
        k >= 1,
        outs.len() >= k,
        all_retryable_failures(outs),
    ensures
        attempts_made(RetryState::Attempting { remaining: (k - 1) as usize }, outs) == k,
        after_all(RetryState::Attempting { remaining: (k - 1) as usize }, outs)
            == (RetryState::Failed { kind: outs[k - 1]->Err_0 }),
    decreases k,
{
    reveal_with_fuel(after_all, 2);
    reveal_with_fuel(attempts_made, 2);
    let s = RetryState::Attempting { remaining: (k - 1) as usize };
    assert(outs[0] is Err && spec_is_retryable(outs[0]->Err_0));
    if k == 1 {
        assert(spec_after(s, outs[0]) == RetryState::Failed { kind: outs[0]->Err_0 });
    } else {
        assert(spec_after(s, outs[0]) == RetryState::Attempting { remaining: (k - 2) as usize });
        assert forall|i: int| 0 <= i < outs.skip(1).len() implies (#[trigger] outs.skip(1)[i] is Err
            && spec_is_retryable(outs.skip(1)[i]->Err_0)) by {
            assert(outs.skip(1)[i] == outs[i + 1]);
        }
        lemma_retry_exhaustion((k - 1) as usize, outs.skip(1));
        assert(outs.skip(1)[k - 2] == outs[k - 1]);
    }
}

/// Whatever the outcomes, a loop made with `new(max_attempts)` makes at
/// most `max_attempts + 1` attempts.
pub proof fn lemma_attempts_bounded(max_attempts: usize, outs: Seq<Result<(), ErrorKind>>)
    ensures
        attempts_made(RetryState::Attempting { remaining: max_attempts }, outs) <= max_attempts
            + 1,
    decreases outs.len(),
{
    let s = RetryState::Attempting { remaining: max_attempts };
    if outs.len() > 0 {
        let next = spec_after(s, outs[0]);
        match next {
            RetryState::Attempting { remaining } => {
                assert(remaining == max_attempts - 1);
                lemma_attempts_bounded(remaining, outs.skip(1));
            },
            _ => {
                reveal_with_fuel(attempts_made, 2);
            },
        }
    }
}

/// A probe without a size header fails the first attempt with
/// `MissingLength`; with one retry allowed and the second attempt
/// succeeding, the job succeeds after two attempts.
pub proof fn lemma_missing_length_retried(len: u64)
    ensures
        ({
            let first = run(TransferPhase::Opening, opened_and_probed(len, None));
            let outs = seq![Err::<(), ErrorKind>(first->result->Err_0), Ok::<(), ErrorKind>(())];
            &&& first == (TransferPhase::Finished { result: Err(ErrorKind::MissingLength) })
            &&& after_all(RetryState::Attempting { remaining: 1 }, outs) == RetryState::Done
            &&& attempts_made(RetryState::Attempting { remaining: 1 }, outs) == 2
        }),
{
    lemma_missing_length(len);
    reveal_with_fuel(after_all, 3);
    reveal_with_fuel(attempts_made, 3);
    let outs = seq![Err::<(), ErrorKind>(ErrorKind::MissingLength), Ok::<(), ErrorKind>(())];
    assert(outs.skip(1)[0] == outs[1]);
    assert(outs.skip(1).skip(1) =~= Seq::<Result<(), ErrorKind>>::empty());
}

} // verus!
