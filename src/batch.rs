//! Choosing the episodes of a batch and summing up its outcomes.
use vstd::prelude::*;
use crate::manager::JobOutcome;

verus! {

/// Whether `i` can open a range of episodes out of `total` (counted from 1).
pub fn valid_start_index(i: usize, total: usize) -> (r: bool)
    ensures
        r == (1 <= i && i <= total),
{
    i != 0 && i <= total
}

/// What is wrong with the last index of a range, if anything.
#[derive(Clone, Copy, Debug, PartialEq, Eq, Structural)]
pub enum EndIndexCheck {
    Valid,
    /// It comes before the first index.
    BeforeStart,
    /// It passes the number of episodes.
    PastTotal,
}

/// Checks the last index `i` of a range that opens at `start`.
pub fn check_end_index(i: usize, start: usize, total: usize) -> (r: EndIndexCheck)
    ensures
        r == (if start <= i && i <= total {
            EndIndexCheck::Valid
        } else if i < start {
            EndIndexCheck::BeforeStart
        } else {
            EndIndexCheck::PastTotal
        }),
{
    if i <= total && i >= start {
        EndIndexCheck::Valid
    } else if i < start {
        EndIndexCheck::BeforeStart
    } else {
        EndIndexCheck::PastTotal
    }
}

/// The episodes `start` to `end`, both included, counted from 1.
pub fn episode_range(links: &Vec<String>, start: usize, end: usize) -> (r: Vec<String>)
    requires
        1 <= start <= end <= links@.len(),
    ensures
        r@ == links@.subrange(start - 1, end as int),
{
    let mut r: Vec<String> = Vec::new();
    let mut i: usize = start - 1;
    while i < end
        invariant
            1 <= start <= end <= links@.len(),
            start - 1 <= i <= end,
            r@ == links@.subrange(start - 1, i as int),
        decreases end - i,
    {
        r.push(links[i].clone());
        i = i + 1;
        assert(r@ =~= links@.subrange(start - 1, i as int));
    }
    r
}

/// The number of successful outcomes in `s`.
pub open spec fn successes(s: Seq<(String, JobOutcome)>) -> nat
    decreases s.len(),
{
    if s.len() == 0 {
        0
    } else {
        successes(s.drop_last()) + if s.last().1 is Ok {
            1nat
        } else {
            0nat
        }
    }
}

proof fn lemma_successes_le(s: Seq<(String, JobOutcome)>)
    ensures
        successes(s) <= s.len(),
    decreases s.len(),
{
    if s.len() > 0 {
        lemma_successes_le(s.drop_last());
    }
}

/// How many jobs of a batch succeeded and how many failed.
pub fn tally(results: &Vec<(String, JobOutcome)>) -> (r: (usize, usize))
    ensures
        r.0 == successes(results@),
        r.0 + r.1 == results@.len(),
{
    let mut ok: usize = 0;
    let mut failed: usize = 0;
    let mut i: usize = 0;
    while i < results.len()
        invariant
            i <= results@.len(),
            ok == successes(results@.take(i as int)),
            ok + failed == i,
        decreases results@.len() - i,
    {
        proof {
            assert(results@.take(i + 1).drop_last() =~= results@.take(i as int));
            lemma_successes_le(results@.take(i as int));
        }
        if results[i].1.is_ok() {
            ok = ok + 1;
        } else {
            failed = failed + 1;
        }
        i = i + 1;
    }
    assert(results@.take(i as int) =~= results@);
    (ok, failed)
}

} // verus!
