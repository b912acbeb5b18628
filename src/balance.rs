//! Balance guard: a bounded polling barrier that waits for a just-bought
//! quantity to settle before a dependent sell is allowed.

use vstd::prelude::*;

verus! {

/// What a balance observation means for the waiting sell.
#[derive(Clone, Copy, Debug, PartialEq, Eq, Structural)]
pub enum GuardVerdict {
    /// The free balance covers the requirement.
    Settled,
    /// Not yet covered; poll again after the poll interval.
    Retry,
    /// Not covered and no attempts remain: the sell must be abandoned.
    Exhausted,
}

/// Polling state of one balance wait.
#[derive(Clone, Copy, Debug, PartialEq, Eq, Structural)]
pub struct BalanceGuard {
    /// Free balance the sell needs.
    pub min_required: u64,
    /// Number of balance queries allowed.
    pub max_attempts: u32,
    /// Number of balance queries already answered.
    pub attempts: u32,
}

/// A balance query answer (`None` when the query failed) covers `min_required`.
pub open spec fn reaches(free: Option<u64>, min_required: u64) -> bool {
    free matches Some(f) && f >= min_required
}

/// The verdict on one more balance answer.
pub open spec fn verdict_of(g: BalanceGuard, free: Option<u64>) -> GuardVerdict {
    if reaches(free, g.min_required) {
        GuardVerdict::Settled
    } else if g.attempts + 1 >= g.max_attempts {
        GuardVerdict::Exhausted
    } else {
        GuardVerdict::Retry
    }
}

/// The guard after one more answer has been counted.
pub open spec fn counted(g: BalanceGuard) -> BalanceGuard {
    BalanceGuard { attempts: (g.attempts + 1) as u32, ..g }
}

/// The verdict after feeding `answers` in order, stopping at the first that
/// is not `Retry`; `Retry` when the answers run out first.
pub open spec fn guard_run(g: BalanceGuard, answers: Seq<Option<u64>>) -> GuardVerdict
    decreases answers.len(),
{
    if answers.len() == 0 {
        GuardVerdict::Retry
    } else {
        let v = verdict_of(g, answers[0]);
        if v == GuardVerdict::Retry {
            guard_run(counted(g), answers.drop_first())
        } else {
            v
        }
    }
}

impl BalanceGuard {
    /// The guard still has a query to make.
    pub open spec fn wf(&self) -> bool {
        self.attempts < self.max_attempts
    }

    /// A fresh guard for `min_required`, allowing `max_attempts` queries.
    pub fn new(min_required: u64, max_attempts: u32) -> (r: BalanceGuard)
        ensures
            r == (BalanceGuard { min_required, max_attempts, attempts: 0 }),
    {
        BalanceGuard { min_required, max_attempts, attempts: 0 }
    }

    /// Counts one balance answer and says whether the wait is over.
    pub fn observe(&mut self, free: Option<u64>) -> (v: GuardVerdict)
        requires
            old(self).wf(),
        ensures
            v == verdict_of(*old(self), free),
            *final(self) == counted(*old(self)),
            v == GuardVerdict::Retry ==> final(self).wf(),
    {
        let covered = match free {
            Some(f) => f >= self.min_required,
            None => false,
        };
        self.attempts = self.attempts + 1;
        if covered {
            GuardVerdict::Settled
        } else if self.attempts >= self.max_attempts {
            GuardVerdict::Exhausted
        } else {
            GuardVerdict::Retry
        }
    }
}

/// If none of the answers a guard is allowed to see covers the requirement,
/// the guard ends the wait as `Exhausted`, never as `Settled`.
pub proof fn unreached_balance_exhausts(g: BalanceGuard, answers: Seq<Option<u64>>)
    requires
        g.wf(),
        answers.len() >= g.max_attempts - g.attempts,
        forall|i: int|
            0 <= i < g.max_attempts - g.attempts ==> !reaches(#[trigger] answers[i], g.min_required),
    ensures
        guard_run(g, answers) == GuardVerdict::Exhausted,
    decreases g.max_attempts - g.attempts,
{
    assert(!reaches(answers[0], g.min_required));
    if g.attempts + 1 < g.max_attempts {
        let rest = answers.drop_first();
        assert forall|i: int|
            0 <= i < counted(g).max_attempts - counted(g).attempts implies !reaches(
            #[trigger] rest[i],
            g.min_required,
        ) by {
            assert(rest[i] == answers[i + 1]);
        }
        unreached_balance_exhausts(counted(g), rest);
    }
}

/// If an answer within the allowed attempts covers the requirement and none
/// before it does, the guard ends the wait as `Settled`.
pub proof fn reached_balance_settles(g: BalanceGuard, answers: Seq<Option<u64>>, k: int)
    requires
        g.wf(),
        0 <= k < answers.len(),
        k < g.max_attempts - g.attempts,
        reaches(answers[k], g.min_required),
        forall|i: int| 0 <= i < k ==> !reaches(#[trigger] answers[i], g.min_required),
    ensures
        guard_run(g, answers) == GuardVerdict::Settled,
    decreases k,
{
    if k > 0 {
        assert(!reaches(answers[0], g.min_required));
        let rest = answers.drop_first();
        assert forall|i: int| 0 <= i < k - 1 implies !reaches(#[trigger] rest[i], g.min_required) by {
            assert(rest[i] == answers[i + 1]);
        }
        assert(rest[k - 1] == answers[k]);
        reached_balance_settles(counted(g), rest, k - 1);
    }
}

} // verus!
