//! Sequencing of a batch of orders in which some orders wait for another to
//! be accepted (a sell paired with its buy), and some ("gated" orders, the
//! sells of a launch) wait for one shared balance wait. Each order's outcome
//! is recorded in turn; an order whose prerequisite failed, or a gated order
//! after the balance wait failed, is skipped without a call.

use vstd::prelude::*;
use crate::balance::{counted, reaches, verdict_of, BalanceGuard, GuardVerdict};
use crate::config::StrategyConfig;
use crate::ladder::Ladder;
use crate::lot::LotSize;
use crate::order::{OrderError, OrderRequest};
use crate::submit::{prepare_order, prepared};

verus! {

/// One order of a plan, the earlier order that must be accepted first, and
/// whether it waits for the plan's balance wait.
#[derive(Clone, Copy, Debug, PartialEq, Eq, Structural)]
pub struct PlannedOrder {
    pub request: OrderRequest,
    /// Index of an earlier order of the plan that must have been accepted.
    pub after: Option<usize>,
    /// The order is sent only after the plan's balance wait settled.
    pub gated: bool,
}

/// The plan's shared balance wait.
#[derive(Clone, Copy, Debug, PartialEq, Eq, Structural)]
pub enum Wait {
    /// Not started: no gated order has been reached.
    Idle,
    /// Polling the free balance.
    Polling(BalanceGuard),
    /// The balance covered every gated order.
    Settled,
    /// The balance never covered them: gated orders are skipped.
    Failed,
}

/// What the plan asks for next.
#[derive(Clone, Copy, Debug, PartialEq, Eq, Structural)]
pub enum PlanAction {
    /// Submit this order; the flag says its balance was already waited for.
    Send(OrderRequest, bool),
    /// Wait this many seconds, then query the base asset's free balance.
    PollBalance(u64),
    /// Every order has been handled.
    Done,
}

/// The order at `i` waits for a prerequisite that was not accepted.
pub open spec fn blocked(
    steps: Seq<PlannedOrder>,
    outcomes: Seq<Result<u64, OrderError>>,
    i: int,
) -> bool {
    steps[i].after matches Some(j) && (j >= outcomes.len() || !(outcomes[j as int] is Ok))
}

/// Why the order at `i` is skipped without a call, if it is.
pub open spec fn skip_reason(
    steps: Seq<PlannedOrder>,
    outcomes: Seq<Result<u64, OrderError>>,
    wait: Wait,
    i: int,
) -> Option<OrderError> {
    if blocked(steps, outcomes, i) {
        Some(OrderError::PairNotBought)
    } else if steps[i].gated && wait == Wait::Failed {
        Some(OrderError::InsufficientBalance)
    } else {
        None
    }
}

/// `outcomes` extended with the skip reason of each following order that is
/// skipped, up to the first order that needs handling.
pub open spec fn settle(
    steps: Seq<PlannedOrder>,
    outcomes: Seq<Result<u64, OrderError>>,
    wait: Wait,
) -> Seq<Result<u64, OrderError>>
    decreases steps.len() - outcomes.len(),
{
    if outcomes.len() < steps.len() {
        match skip_reason(steps, outcomes, wait, outcomes.len() as int) {
            Some(e) => settle(steps, outcomes.push(Err(e)), wait),
            None => outcomes,
        }
    } else {
        outcomes
    }
}

/// Quantity the order at `j` will sell if it is gated and not blocked: its
/// prepared quantity, zero when preparation refuses it.
pub open spec fn gated_quantity(
    config: StrategyConfig,
    lot: LotSize,
    steps: Seq<PlannedOrder>,
    outcomes: Seq<Result<u64, OrderError>>,
    j: int,
) -> int {
    if steps[j].gated && !blocked(steps, outcomes, j) {
        match prepared(config, lot, steps[j].request) {
            Ok(p) => p.quantity as int,
            Err(_) => 0,
        }
    } else {
        0
    }
}

/// Sum of the gated quantities from `j` on.
pub open spec fn need_from(
    config: StrategyConfig,
    lot: LotSize,
    steps: Seq<PlannedOrder>,
    outcomes: Seq<Result<u64, OrderError>>,
    j: int,
) -> int
    decreases steps.len() - j,
{
    if j < 0 || j >= steps.len() {
        0
    } else {
        gated_quantity(config, lot, steps, outcomes, j) + need_from(config, lot, steps, outcomes, j + 1)
    }
}

/// `v` limited to `u64::MAX`.
pub open spec fn capped(v: int) -> u64 {
    if v > u64::MAX {
        u64::MAX
    } else {
        v as u64
    }
}

/// The wait after reaching the next order: the first gated order starts the
/// wait for the summed quantity of the gated orders still to come (failed at
/// once when no balance query is allowed).
pub open spec fn opened(
    config: StrategyConfig,
    lot: LotSize,
    steps: Seq<PlannedOrder>,
    outcomes: Seq<Result<u64, OrderError>>,
    wait: Wait,
) -> Wait {
    if wait == Wait::Idle && outcomes.len() < steps.len() && steps[outcomes.len() as int].gated {
        if config.balance_attempts == 0 {
            Wait::Failed
        } else {
            Wait::Polling(
                BalanceGuard {
                    min_required: capped(
                        need_from(config, lot, steps, outcomes, outcomes.len() as int),
                    ),
                    max_attempts: config.balance_attempts,
                    attempts: 0,
                },
            )
        }
    } else {
        wait
    }
}

/// Outcomes and wait once the plan has moved to the next order needing handling.
pub open spec fn advanced(
    config: StrategyConfig,
    lot: LotSize,
    steps: Seq<PlannedOrder>,
    outcomes: Seq<Result<u64, OrderError>>,
    wait: Wait,
) -> (Seq<Result<u64, OrderError>>, Wait) {
    let o1 = settle(steps, outcomes, wait);
    let w1 = opened(config, lot, steps, o1, wait);
    (settle(steps, o1, w1), w1)
}

/// The wait after one balance answer.
pub open spec fn wait_after(g: BalanceGuard, free: Option<u64>) -> Wait {
    match verdict_of(g, free) {
        GuardVerdict::Settled => Wait::Settled,
        GuardVerdict::Retry => Wait::Polling(counted(g)),
        GuardVerdict::Exhausted => Wait::Failed,
    }
}

/// Each order's prerequisite comes before it.
pub open spec fn steps_wf(steps: Seq<PlannedOrder>) -> bool {
    forall|i: int| 0 <= i < steps.len() ==> (#[trigger] steps[i].after matches Some(j) ==> j < i)
}

proof fn lemma_settle_keeps(
    steps: Seq<PlannedOrder>,
    outcomes: Seq<Result<u64, OrderError>>,
    wait: Wait,
)
    ensures
        settle(steps, outcomes, wait).len() >= outcomes.len(),
        outcomes.len() <= steps.len() ==> settle(steps, outcomes, wait).len() <= steps.len(),
        settle(steps, settle(steps, outcomes, wait), wait) == settle(steps, outcomes, wait),
    decreases steps.len() - outcomes.len(),
{
    if outcomes.len() < steps.len() {
        if let Some(e) = skip_reason(steps, outcomes, wait, outcomes.len() as int) {
            lemma_settle_keeps(steps, outcomes.push(Err(e)), wait);
        }
    }
}

/// Two waits that are not `Failed` skip the same orders.
proof fn lemma_settle_unfailed(
    steps: Seq<PlannedOrder>,
    outcomes: Seq<Result<u64, OrderError>>,
    w1: Wait,
    w2: Wait,
)
    requires
        w1 != Wait::Failed,
        w2 != Wait::Failed,
    ensures
        settle(steps, outcomes, w1) == settle(steps, outcomes, w2),
    decreases steps.len() - outcomes.len(),
{
    if outcomes.len() < steps.len() {
        let i = outcomes.len() as int;
        assert(skip_reason(steps, outcomes, w1, i) == skip_reason(steps, outcomes, w2, i));
        if let Some(e) = skip_reason(steps, outcomes, w1, i) {
            lemma_settle_unfailed(steps, outcomes.push(Err(e)), w1, w2);
        }
    }
}

/// At a settled point the next order is not skipped.
proof fn lemma_settled_not_skipped(
    steps: Seq<PlannedOrder>,
    outcomes: Seq<Result<u64, OrderError>>,
    wait: Wait,
)
    requires
        outcomes == settle(steps, outcomes, wait),
        outcomes.len() < steps.len(),
    ensures
        skip_reason(steps, outcomes, wait, outcomes.len() as int) is None,
{
    if let Some(e) = skip_reason(steps, outcomes, wait, outcomes.len() as int) {
        lemma_settle_keeps(steps, outcomes.push(Err(e)), wait);
    }
}

/// A batch of orders, the outcomes of those already handled, and the shared
/// balance wait of its gated orders.
#[derive(Clone, Debug)]
pub struct OrderPlan {
    pub steps: Vec<PlannedOrder>,
    /// Outcome of each handled order, in plan order: the accepted order id or
    /// why it was not placed.
    pub outcomes: Vec<Result<u64, OrderError>>,
    pub wait: Wait,
}

/// The action a plan in this state asks for.
pub open spec fn plan_action(
    steps: Seq<PlannedOrder>,
    outcomes: Seq<Result<u64, OrderError>>,
    wait: Wait,
    poll_secs: u64,
) -> PlanAction {
    if outcomes.len() >= steps.len() {
        PlanAction::Done
    } else {
        match wait {
            Wait::Polling(g) => PlanAction::PollBalance(if g.attempts == 0 { 0 } else { poll_secs }),
            _ => PlanAction::Send(
                steps[outcomes.len() as int].request,
                steps[outcomes.len() as int].gated,
            ),
        }
    }
}

impl OrderPlan {
    pub open spec fn wf(&self) -> bool {
        let i = self.outcomes@.len();
        &&& steps_wf(self.steps@)
        &&& i <= self.steps@.len()
        &&& self.outcomes@ == settle(self.steps@, self.outcomes@, self.wait)
        &&& self.wait matches Wait::Polling(g) ==> g.wf() && i < self.steps@.len()
            && self.steps@[i as int].gated
        &&& self.wait == Wait::Idle && i < self.steps@.len() ==> !self.steps@[i as int].gated
    }

    fn skip(&mut self)
        requires
            steps_wf(old(self).steps@),
            old(self).outcomes@.len() <= old(self).steps@.len(),
        ensures
            final(self).steps == old(self).steps,
            final(self).wait == old(self).wait,
            final(self).outcomes@ == settle(old(self).steps@, old(self).outcomes@, old(self).wait),
    {
        loop
            invariant
                steps_wf(self.steps@),
                self.steps == old(self).steps,
                self.wait == old(self).wait,
                self.outcomes@.len() <= self.steps@.len(),
                settle(self.steps@, self.outcomes@, self.wait) == settle(
                    old(self).steps@,
                    old(self).outcomes@,
                    old(self).wait,
                ),
            ensures
                self.steps == old(self).steps,
                self.wait == old(self).wait,
                self.outcomes@ == settle(old(self).steps@, old(self).outcomes@, old(self).wait),
            decreases self.steps@.len() - self.outcomes@.len(),
        {
            let i = self.outcomes.len();
            if i >= self.steps.len() {
                break;
            }
            let step = self.steps[i];
            let prerequisite_failed = match step.after {
                Some(j) => {
                    assert(self.steps@[i as int].after matches Some(j) ==> j < i);
                    !(self.outcomes[j].is_ok())
                },
                None => false,
            };
            if prerequisite_failed {
                self.outcomes.push(Err(OrderError::PairNotBought));
            } else if step.gated && self.wait == Wait::Failed {
                self.outcomes.push(Err(OrderError::InsufficientBalance));
            } else {
                break;
            }
        }
    }

    fn need(&self, config: &StrategyConfig, lot: &LotSize) -> (r: u64)
        requires
            config.wf(),
            lot.wf(),
            steps_wf(self.steps@),
            self.outcomes@.len() <= self.steps@.len(),
        ensures
            r == capped(
                need_from(
                    *config,
                    *lot,
                    self.steps@,
                    self.outcomes@,
                    self.outcomes@.len() as int,
                ),
            ),
    {
        let i = self.outcomes.len();
        let mut j: usize = i;
        let mut acc: u64 = 0;
        let ghost mut total: int = 0;
        while j < self.steps.len()
            invariant
                steps_wf(self.steps@),
                i == self.outcomes@.len(),
                i <= j <= self.steps@.len(),
                total >= 0,
                acc == capped(total),
                need_from(*config, *lot, self.steps@, self.outcomes@, i as int) == total
                    + need_from(*config, *lot, self.steps@, self.outcomes@, j as int),
                config.wf(),
                lot.wf(),
            decreases self.steps@.len() - j,
        {
            let step = self.steps[j];
            let prerequisite_failed = match step.after {
                Some(k) => k >= i || !(self.outcomes[k].is_ok()),
                None => false,
            };
            let term: u64 = if step.gated && !prerequisite_failed {
                match prepare_order(config, lot, step.request) {
                    Ok(p) => p.quantity,
                    Err(_) => 0,
                }
            } else {
                0
            };
            assert(term == gated_quantity(*config, *lot, self.steps@, self.outcomes@, j as int));
            acc = if acc > u64::MAX - term {
                u64::MAX
            } else {
                acc + term
            };
            proof {
                total = total + term;
            }
            j = j + 1;
        }
        acc
    }

    fn advance(&mut self, config: &StrategyConfig, lot: &LotSize)
        requires
            config.wf(),
            lot.wf(),
            steps_wf(old(self).steps@),
            old(self).outcomes@.len() <= old(self).steps@.len(),
        ensures
            final(self).steps == old(self).steps,
            (final(self).outcomes@, final(self).wait) == advanced(
                *config,
                *lot,
                old(self).steps@,
                old(self).outcomes@,
                old(self).wait,
            ),
    {
        self.skip();
        proof {
            lemma_settle_keeps(self.steps@, old(self).outcomes@, old(self).wait);
        }
        let i = self.outcomes.len();
        if self.wait == Wait::Idle && i < self.steps.len() && self.steps[i].gated {
            if config.balance_attempts == 0 {
                self.wait = Wait::Failed;
            } else {
                let need = self.need(config, lot);
                self.wait = Wait::Polling(BalanceGuard::new(need, config.balance_attempts));
            }
        }
        self.skip();
    }

    /// Proof that advancing leaves a well-formed plan.
    proof fn lemma_advanced_wf(
        config: StrategyConfig,
        lot: LotSize,
        steps: Seq<PlannedOrder>,
        outcomes: Seq<Result<u64, OrderError>>,
        wait: Wait,
    )
        requires
            steps_wf(steps),
            outcomes.len() <= steps.len(),
            wait matches Wait::Polling(g) ==> g.wf() && outcomes == settle(steps, outcomes, wait)
                && outcomes.len() < steps.len() && steps[outcomes.len() as int].gated,
        ensures
            ({
                let (o, w) = advanced(config, lot, steps, outcomes, wait);
                &&& o.len() <= steps.len()
                &&& o == settle(steps, o, w)
                &&& w matches Wait::Polling(g) ==> g.wf() && o.len() < steps.len()
                    && steps[o.len() as int].gated
                &&& w == Wait::Idle && o.len() < steps.len() ==> !steps[o.len() as int].gated
            }),
    {
        let o1 = settle(steps, outcomes, wait);
        let w1 = opened(config, lot, steps, o1, wait);
        lemma_settle_keeps(steps, outcomes, wait);
        lemma_settle_keeps(steps, o1, w1);
        if w1 != Wait::Failed && wait != Wait::Failed {
            lemma_settle_unfailed(steps, o1, w1, wait);
        }
    }

    /// A plan of `steps` with nothing handled yet.
    pub fn new(steps: Vec<PlannedOrder>, config: &StrategyConfig, lot: &LotSize) -> (r: OrderPlan)
        requires
            steps_wf(steps@),
            config.wf(),
            lot.wf(),
        ensures
            r.wf(),
            r.steps@ == steps@,
            (r.outcomes@, r.wait) == advanced(
                *config,
                *lot,
                steps@,
                Seq::<Result<u64, OrderError>>::empty(),
                Wait::Idle,
            ),
    {
        let mut plan = OrderPlan { steps, outcomes: Vec::new(), wait: Wait::Idle };
        proof {
            Self::lemma_advanced_wf(*config, *lot, plan.steps@, plan.outcomes@, plan.wait);
        }
        plan.advance(config, lot);
        plan
    }

    /// What the plan asks for next.
    pub fn action(&self, config: &StrategyConfig) -> (r: PlanAction)
        requires
            self.wf(),
        ensures
            r == plan_action(self.steps@, self.outcomes@, self.wait, config.balance_poll_secs),
    {
        let i = self.outcomes.len();
        if i >= self.steps.len() {
            PlanAction::Done
        } else {
            match self.wait {
                Wait::Polling(g) => PlanAction::PollBalance(
                    if g.attempts == 0 { 0 } else { config.balance_poll_secs },
                ),
                _ => PlanAction::Send(self.steps[i].request, self.steps[i].gated),
            }
        }
    }

    /// Records the outcome of the order just sent and moves to the next order
    /// that needs handling.
    pub fn record(&mut self, config: &StrategyConfig, lot: &LotSize, outcome: Result<u64, OrderError>)
        requires
            old(self).wf(),
            config.wf(),
            lot.wf(),
            old(self).outcomes@.len() < old(self).steps@.len(),
            !(old(self).wait is Polling),
        ensures
            final(self).wf(),
            final(self).steps == old(self).steps,
            (final(self).outcomes@, final(self).wait) == advanced(
                *config,
                *lot,
                old(self).steps@,
                old(self).outcomes@.push(outcome),
                old(self).wait,
            ),
    {
        self.outcomes.push(outcome);
        proof {
            Self::lemma_advanced_wf(*config, *lot, self.steps@, self.outcomes@, self.wait);
        }
        self.advance(config, lot);
    }

    /// Feeds one balance answer to the running wait.
    pub fn observe_balance(&mut self, config: &StrategyConfig, lot: &LotSize, free: Option<u64>)
        requires
            old(self).wf(),
            config.wf(),
            lot.wf(),
            old(self).wait is Polling,
        ensures
            final(self).wf(),
            final(self).steps == old(self).steps,
            old(self).wait matches Wait::Polling(g) ==> (final(self).outcomes@, final(self).wait)
                == advanced(
                *config,
                *lot,
                old(self).steps@,
                old(self).outcomes@,
                wait_after(g, free),
            ),
    {
        let ghost g0 = match old(self).wait {
            Wait::Polling(g) => g,
            _ => BalanceGuard { min_required: 0, max_attempts: 0, attempts: 0 },
        };
        let next = match self.wait {
            Wait::Polling(g) => {
                let mut g2 = g;
                match g2.observe(free) {
                    GuardVerdict::Settled => Wait::Settled,
                    GuardVerdict::Retry => Wait::Polling(g2),
                    GuardVerdict::Exhausted => Wait::Failed,
                }
            },
            w => w,
        };
        assert(next == wait_after(g0, free));
        self.wait = next;
        proof {
            if next != Wait::Failed {
                lemma_settle_unfailed(self.steps@, self.outcomes@, next, old(self).wait);
            }
            Self::lemma_advanced_wf(*config, *lot, self.steps@, self.outcomes@, self.wait);
        }
        self.advance(config, lot);
    }
}

/// A plan only offers an order whose prerequisite, if it has one, was
/// accepted (a sell is never sent after its paired buy failed), and only
/// offers a gated order once the shared balance wait has settled.
pub proof fn offered_order_is_allowed(plan: OrderPlan)
    requires
        plan.wf(),
        plan.outcomes@.len() < plan.steps@.len(),
    ensures
        plan.steps@[plan.outcomes@.len() as int].after matches Some(j) ==> plan.outcomes@[j as int] is Ok,
        plan.steps@[plan.outcomes@.len() as int].gated ==> (plan.wait is Polling || plan.wait
            == Wait::Settled),
{
    let i = plan.outcomes@.len() as int;
    lemma_settled_not_skipped(plan.steps@, plan.outcomes@, plan.wait);
    assert(plan.steps@[i].after matches Some(j) ==> j < i);
}

/// Once the shared balance wait has failed, the plan never offers a gated
/// order again: every remaining sell of the sequence is skipped with
/// `InsufficientBalance`, and no balance is polled any more.
pub proof fn failed_wait_stops_gated_orders(plan: OrderPlan, config: StrategyConfig, poll_secs: u64)
    requires
        plan.wf(),
        plan.wait == Wait::Failed,
    ensures
        plan.outcomes@.len() < plan.steps@.len() ==> !plan.steps@[plan.outcomes@.len() as int].gated,
        plan_action(plan.steps@, plan.outcomes@, plan.wait, poll_secs) matches PlanAction::Send(
            _,
            checked,
        ) ==> !checked,
        !(plan_action(plan.steps@, plan.outcomes@, plan.wait, poll_secs) is PollBalance),
{
    if plan.outcomes@.len() < plan.steps@.len() {
        lemma_settled_not_skipped(plan.steps@, plan.outcomes@, plan.wait);
    }
}

/// A wait that has settled or failed stays so: after it, the plan polls no
/// more balances.
pub proof fn finished_wait_is_final(
    config: StrategyConfig,
    lot: LotSize,
    steps: Seq<PlannedOrder>,
    outcomes: Seq<Result<u64, OrderError>>,
    wait: Wait,
)
    requires
        wait == Wait::Settled || wait == Wait::Failed,
    ensures
        advanced(config, lot, steps, outcomes, wait).1 == wait,
{
}

/// The wait after feeding balance answers while it polls; answers after it
/// settles or fails are never asked for and change nothing.
pub open spec fn run_wait(wait: Wait, answers: Seq<Option<u64>>) -> Wait
    decreases answers.len(),
{
    if answers.len() == 0 {
        wait
    } else {
        match wait {
            Wait::Polling(g) => run_wait(wait_after(g, answers[0]), answers.drop_first()),
            _ => wait,
        }
    }
}

proof fn lemma_run_wait_done(wait: Wait, answers: Seq<Option<u64>>)
    requires
        !(wait is Polling),
    ensures
        run_wait(wait, answers) == wait,
{
}

/// If no balance answer the wait may see covers its requirement, the wait is
/// still polling after each of its first `max_attempts - 1` answers and has
/// failed after the last one: exactly that many polls, then no sell.
pub proof fn uncovered_balance_fails_wait(g: BalanceGuard, answers: Seq<Option<u64>>)
    requires
        g.wf(),
        answers.len() >= g.max_attempts - g.attempts,
        forall|i: int|
            0 <= i < g.max_attempts - g.attempts ==> !reaches(#[trigger] answers[i], g.min_required),
    ensures
        run_wait(Wait::Polling(g), answers) == Wait::Failed,
        forall|k: int|
            0 <= k < g.max_attempts - g.attempts ==> run_wait(Wait::Polling(g), answers.take(k)) is Polling,
    decreases g.max_attempts - g.attempts,
{
    let rest = answers.drop_first();
    assert(!reaches(answers[0], g.min_required));
    assert forall|k: int| 1 <= k <= answers.len() implies answers.take(k).drop_first() == rest.take(
        k - 1,
    ) && answers.take(k)[0] == answers[0] by {}
    if g.attempts + 1 >= g.max_attempts {
        assert(wait_after(g, answers[0]) == Wait::Failed);
        lemma_run_wait_done(Wait::Failed, rest);
    } else {
        assert(wait_after(g, answers[0]) == Wait::Polling(counted(g)));
        assert forall|i: int| 0 <= i < counted(g).max_attempts - counted(g).attempts implies !reaches(
            #[trigger] rest[i],
            g.min_required,
        ) by {
            assert(rest[i] == answers[i + 1]);
        }
        uncovered_balance_fails_wait(counted(g), rest);
        assert forall|k: int| 0 <= k < g.max_attempts - g.attempts implies run_wait(
            Wait::Polling(g),
            answers.take(k),
        ) is Polling by {
            if k > 0 {
                assert(0 <= k - 1 < counted(g).max_attempts - counted(g).attempts);
            }
        }
    }
}

/// If the answer at `k` is the first that covers the requirement and comes
/// within the allowed attempts, the wait is still polling after each of the
/// first `k` answers and settled after answer `k`: exactly `k + 1` polls, and
/// none after.
pub proof fn covered_balance_settles_wait(g: BalanceGuard, answers: Seq<Option<u64>>, k: int)
    requires
        g.wf(),
        0 <= k < answers.len(),
        k < g.max_attempts - g.attempts,
        reaches(answers[k], g.min_required),
        forall|i: int| 0 <= i < k ==> !reaches(#[trigger] answers[i], g.min_required),
    ensures
        run_wait(Wait::Polling(g), answers) == Wait::Settled,
        forall|m: int| 0 <= m <= k ==> run_wait(Wait::Polling(g), answers.take(m)) is Polling,
    decreases k,
{
    let rest = answers.drop_first();
    assert forall|m: int| 1 <= m <= answers.len() implies answers.take(m).drop_first() == rest.take(
        m - 1,
    ) && answers.take(m)[0] == answers[0] by {}
    if k == 0 {
        assert(wait_after(g, answers[0]) == Wait::Settled);
        lemma_run_wait_done(Wait::Settled, rest);
        assert(answers.take(0).len() == 0);
    } else {
        assert(!reaches(answers[0], g.min_required));
        assert(wait_after(g, answers[0]) == Wait::Polling(counted(g)));
        assert forall|i: int| 0 <= i < k - 1 implies !reaches(#[trigger] rest[i], g.min_required) by {
            assert(rest[i] == answers[i + 1]);
        }
        assert(rest[k - 1] == answers[k]);
        covered_balance_settles_wait(counted(g), rest, k - 1);
        assert forall|m: int| 0 <= m <= k implies run_wait(
            Wait::Polling(g),
            answers.take(m),
        ) is Polling by {
            if m > 0 {
                assert(0 <= m - 1 <= k - 1);
            }
        }
    }
}

/// The launch order of a ladder: the initial buys, then each paired sell
/// waiting for its buy and for the shared balance wait, then the standalone buys.
pub open spec fn launch_steps_of(ladder: Ladder) -> Seq<PlannedOrder> {
    let k = ladder.initial_buys@.len();
    Seq::new(k, |i: int| PlannedOrder { request: ladder.initial_buys@[i], after: None, gated: false })
        + Seq::new(
        ladder.paired_sells@.len(),
        |i: int|
            PlannedOrder { request: ladder.paired_sells@[i], after: Some(i as usize), gated: true },
    ) + Seq::new(
        ladder.extra_buys@.len(),
        |i: int| PlannedOrder { request: ladder.extra_buys@[i], after: None, gated: false },
    )
}

/// The steps of a ladder launch; each paired sell waits for the initial buy at
/// the same index, and the paired sells share one balance wait.
pub fn launch_steps(ladder: &Ladder) -> (r: Vec<PlannedOrder>)
    requires
        ladder.paired_sells@.len() <= ladder.initial_buys@.len(),
        ladder.initial_buys@.len() + ladder.paired_sells@.len() + ladder.extra_buys@.len()
            <= usize::MAX,
    ensures
        r@ == launch_steps_of(*ladder),
        steps_wf(r@),
{
    let mut r: Vec<PlannedOrder> = Vec::new();
    let k = ladder.initial_buys.len();
    let mut i: usize = 0;
    while i < k
        invariant
            k == ladder.initial_buys@.len(),
            i <= k,
            r@ == Seq::new(
                i as nat,
                |x: int| PlannedOrder { request: ladder.initial_buys@[x], after: None, gated: false },
            ),
        decreases k - i,
    {
        r.push(PlannedOrder { request: ladder.initial_buys[i], after: None, gated: false });
        i = i + 1;
    }
    let ghost buys = r@;
    let s = ladder.paired_sells.len();
    let mut i: usize = 0;
    while i < s
        invariant
            s == ladder.paired_sells@.len(),
            s <= k,
            i <= s,
            r@ == buys + Seq::new(
                i as nat,
                |x: int| PlannedOrder {
                    request: ladder.paired_sells@[x],
                    after: Some(x as usize),
                    gated: true,
                },
            ),
        decreases s - i,
    {
        r.push(PlannedOrder { request: ladder.paired_sells[i], after: Some(i), gated: true });
        i = i + 1;
        assert(r@ == buys + Seq::new(
            i as nat,
            |x: int| PlannedOrder {
                    request: ladder.paired_sells@[x],
                    after: Some(x as usize),
                    gated: true,
                },
        ));
    }
    let ghost both = r@;
    let e = ladder.extra_buys.len();
    let mut i: usize = 0;
    while i < e
        invariant
            e == ladder.extra_buys@.len(),
            i <= e,
            r@ == both + Seq::new(
                i as nat,
                |x: int| PlannedOrder { request: ladder.extra_buys@[x], after: None, gated: false },
            ),
        decreases e - i,
    {
        r.push(PlannedOrder { request: ladder.extra_buys[i], after: None, gated: false });
        i = i + 1;
        assert(r@ == both + Seq::new(
            i as nat,
            |x: int| PlannedOrder { request: ladder.extra_buys@[x], after: None, gated: false },
        ));
    }
    assert(r@ == launch_steps_of(*ladder));
    r
}

} // verus!
