//! What holds of the operations, whatever the state and the arguments.
//!
//! Each law speaks of an operation through the predicate that the
//! operation's contract ensures, so it holds of every call, whatever the
//! encoder answered.

use crate::contract::execute::{
    agent_stake_spec, agent_unstake_spec, can_distribute_by_agent,
    distribute_rewards_by_agent_spec, distribute_rewards_by_time_spec, juror_vote_spec,
    payouts_by_agent, payouts_by_time, reset_vote_spec, user_stake_spec, user_unstake_spec,
};
use crate::contract::operation_spec;
use crate::error::ContractError;
use crate::host::{CoinView, Response};
use crate::msg::ExecuteMsg;
use crate::payload::TransferView;
use crate::state::{other_than, sum_of_costs, Ledger, Principal, TokenInfoView};
use vstd::prelude::*;

verus! {

/// One request of a principal about what it has escrowed as the owner of a
/// job: to escrow `amount` more, or to take `amount` back; and whether the
/// request was carried out.
pub struct OwnerStep {
    pub unstake: bool,
    pub amount: nat,
    pub done: bool,
}

impl Ledger {
    /// The state after `step` of `who` about `job`: a request that was not
    /// carried out leaves the state as it was.
    pub open spec fn after_owner_step(self, who: Principal, job: u128, step: OwnerStep) -> Ledger {
        if !step.done {
            self
        } else if step.unstake {
            self.unstake_as_owner(who, job, step.amount)
        } else {
            self.stake_as_owner(who, job, step.amount)
        }
    }

    /// Whether `step` of `who` about `job` can have ended as it says: a
    /// request is carried out only for one who may act as the job's owner,
    /// and nothing is taken back beyond what is escrowed.
    pub open spec fn admits_owner_step(self, who: Principal, job: u128, step: OwnerStep) -> bool {
        step.done ==> self.may_act_as_owner(who, job) && (step.unstake ==> step.amount
            <= self.user_balance(who, job))
    }

    /// The state after `steps` of `who` about `job`, one after the other.
    pub open spec fn after_owner_steps(
        self,
        who: Principal,
        job: u128,
        steps: Seq<OwnerStep>,
    ) -> Ledger
        decreases steps.len(),
    {
        if steps.len() == 0 {
            self
        } else {
            self.after_owner_steps(who, job, steps.drop_last()).after_owner_step(
                who,
                job,
                steps.last(),
            )
        }
    }

    /// Whether each of `steps` can have ended as it says, in the state that
    /// the steps before it lead to.
    pub open spec fn admits_owner_steps(
        self,
        who: Principal,
        job: u128,
        steps: Seq<OwnerStep>,
    ) -> bool
        decreases steps.len(),
    {
        steps.len() > 0 ==> self.admits_owner_steps(who, job, steps.drop_last())
            && self.after_owner_steps(who, job, steps.drop_last()).admits_owner_step(
            who,
            job,
            steps.last(),
        )
    }
}

/// What `steps` add up to: the amounts escrowed less the amounts taken back,
/// counting the requests that were carried out.
pub open spec fn net_of(steps: Seq<OwnerStep>) -> int
    decreases steps.len(),
{
    if steps.len() == 0 {
        0
    } else {
        let last = steps.last();
        net_of(steps.drop_last()) + if !last.done {
            0
        } else if last.unstake {
            -(last.amount as int)
        } else {
            last.amount as int
        }
    }
}

/// A call of `user_stake` is a step of the sender: carried out exactly
/// where the call succeeds.
pub proof fn lemma_user_stake_is_a_step(
    pre: Ledger,
    post: Ledger,
    sender: Principal,
    funds: Seq<CoinView>,
    amount: u128,
    job_id: u128,
    request: Option<Seq<u8>>,
    result: Result<Response, ContractError>,
)
    requires
        user_stake_spec(pre, post, sender, funds, amount, job_id, request, result),
    ensures
        ({
            let step = OwnerStep { unstake: false, amount: amount as nat, done: result is Ok };
            pre.admits_owner_step(sender, job_id, step) && post == pre.after_owner_step(
                sender,
                job_id,
                step,
            )
        }),
{
}

/// A call of `user_unstake` is a step of the sender: carried out exactly
/// where the call succeeds.
pub proof fn lemma_user_unstake_is_a_step(
    pre: Ledger,
    post: Ledger,
    sender: Principal,
    funds: Seq<CoinView>,
    amount: u128,
    job_id: u128,
    request: Option<Seq<u8>>,
    result: Result<Response, ContractError>,
)
    requires
        user_unstake_spec(pre, post, sender, funds, amount, job_id, request, result),
    ensures
        ({
            let step = OwnerStep { unstake: true, amount: amount as nat, done: result is Ok };
            pre.admits_owner_step(sender, job_id, step) && post == pre.after_owner_step(
                sender,
                job_id,
                step,
            )
        }),
{
}

/// After any sequence of stakes and unstakes of one principal as the owner
/// of one job, what it has escrowed for the job is what it had before, plus
/// the amounts that it escrowed, less the amounts that it took back; and
/// that is never negative.
pub proof fn lemma_owner_escrow_is_net_of_steps(
    start: Ledger,
    who: Principal,
    job: u128,
    steps: Seq<OwnerStep>,
)
    requires
        start.admits_owner_steps(who, job, steps),
    ensures
        start.after_owner_steps(who, job, steps).user_balance(who, job) == start.user_balance(
            who,
            job,
        ) + net_of(steps),
        start.user_balance(who, job) + net_of(steps) >= 0,
    decreases steps.len(),
{
    if steps.len() > 0 {
        lemma_owner_escrow_is_net_of_steps(start, who, job, steps.drop_last());
    }
}

/// Taking back more than is escrowed fails with `InsufficientStake` and
/// changes nothing, for an owner who may act for the job.
pub proof fn lemma_owner_cannot_overdraw(
    pre: Ledger,
    post: Ledger,
    sender: Principal,
    funds: Seq<CoinView>,
    amount: u128,
    job_id: u128,
    request: Option<Seq<u8>>,
    result: Result<Response, ContractError>,
)
    requires
        user_unstake_spec(pre, post, sender, funds, amount, job_id, request, result),
        pre.may_act_as_owner(sender, job_id),
        amount > pre.user_balance(sender, job_id),
    ensures
        result == Err::<Response, ContractError>(ContractError::InsufficientStake {  }),
        post == pre,
        post.user_balance(sender, job_id) == pre.user_balance(sender, job_id),
{
}

/// Taking back more collateral than is escrowed fails with
/// `InsufficientStake` and changes nothing.
pub proof fn lemma_agent_cannot_overdraw(
    pre: Ledger,
    post: Ledger,
    sender: Principal,
    funds: Seq<CoinView>,
    amount: u128,
    job_id: u128,
    request: Option<Seq<u8>>,
    result: Result<Response, ContractError>,
)
    requires
        agent_unstake_spec(pre, post, sender, funds, amount, job_id, request, result),
        amount > pre.agent_balance(sender, job_id),
    ensures
        result == Err::<Response, ContractError>(ContractError::InsufficientStake {  }),
        post == pre,
        post.agent_balance(sender, job_id) == pre.agent_balance(sender, job_id),
{
}

/// Once somebody has staked as the owner of a job, a stake by anybody else
/// fails with `NotJobOwner` and changes nothing: the owner stays.
pub proof fn lemma_second_owner_is_refused(
    start: Ledger,
    owned: Ledger,
    end: Ledger,
    first: Principal,
    first_funds: Seq<CoinView>,
    first_amount: u128,
    first_request: Option<Seq<u8>>,
    first_result: Result<Response, ContractError>,
    second: Principal,
    second_funds: Seq<CoinView>,
    second_amount: u128,
    second_request: Option<Seq<u8>>,
    second_result: Result<Response, ContractError>,
    job_id: u128,
)
    requires
        user_stake_spec(
            start,
            owned,
            first,
            first_funds,
            first_amount,
            job_id,
            first_request,
            first_result,
        ),
        first_result is Ok,
        second != first,
        user_stake_spec(
            owned,
            end,
            second,
            second_funds,
            second_amount,
            job_id,
            second_request,
            second_result,
        ),
    ensures
        owned.job_owner.contains_key(job_id),
        owned.job_owner[job_id] == first,
        second_result == Err::<Response, ContractError>(ContractError::NotJobOwner {  }),
        end == owned,
{
}

/// Where the costs of a job's agents sum to more than the owner's escrow,
/// paying them by time fails with `InsufficientStake` and changes nothing.
pub proof fn lemma_unaffordable_costs_are_refused(
    pre: Ledger,
    post: Ledger,
    job_id: u128,
    requests: Option<Seq<Seq<u8>>>,
    result: Result<Response, ContractError>,
)
    requires
        distribute_rewards_by_time_spec(pre, post, job_id, requests, result),
        pre.total_cost(job_id) > pre.owner_balance(job_id),
    ensures
        result == Err::<Response, ContractError>(ContractError::InsufficientStake {  }),
        post == pre,
{
}

/// A second vote of a principal fails with `AlreadyVoted` and leaves the
/// tally as it was.
pub proof fn lemma_second_vote_is_refused(
    start: Ledger,
    voted: Ledger,
    end: Ledger,
    who: Principal,
    first_choice: bool,
    first_result: Result<Response, ContractError>,
    second_choice: bool,
    second_result: Result<Response, ContractError>,
)
    requires
        juror_vote_spec(start, voted, who, first_choice, first_result),
        first_result is Ok,
        juror_vote_spec(voted, end, who, second_choice, second_result),
    ensures
        second_result == Err::<Response, ContractError>(ContractError::AlreadyVoted {  }),
        end == voted,
        end.accept_vote == voted.accept_vote,
        end.reject_vote == voted.reject_vote,
{
}

/// A reset leaves both tallies at zero, and after it the vote of any
/// principal is counted.
pub proof fn lemma_reset_reopens_the_ballot(
    pre: Ledger,
    fresh: Ledger,
    reset_result: Result<Response, ContractError>,
    end: Ledger,
    who: Principal,
    choice: bool,
    vote_result: Result<Response, ContractError>,
)
    requires
        reset_vote_spec(pre, fresh, reset_result),
        juror_vote_spec(fresh, end, who, choice, vote_result),
    ensures
        fresh.accept_vote == 0,
        fresh.reject_vote == 0,
        !fresh.has_voted(who),
        vote_result is Ok,
        end.has_voted(who),
        end.accept_vote + end.reject_vote == 1,
{
}

/// The amount by which a call moved an escrow: `amount` where the call
/// succeeded, nothing where it failed.
pub open spec fn moved(amount: u128, result: Result<Response, ContractError>) -> int {
    if result is Ok {
        amount as int
    } else {
        0
    }
}

/// What an owner has escrowed right after a stake or an unstake is what it
/// had before, changed by the amount where the call succeeded and unchanged
/// where it failed.
pub proof fn lemma_owner_escrow_after_call(
    pre: Ledger,
    post: Ledger,
    sender: Principal,
    funds: Seq<CoinView>,
    amount: u128,
    job_id: u128,
    request: Option<Seq<u8>>,
    result: Result<Response, ContractError>,
)
    ensures
        user_stake_spec(pre, post, sender, funds, amount, job_id, request, result)
            ==> post.user_balance(sender, job_id) == pre.user_balance(sender, job_id) + moved(
            amount,
            result,
        ),
        user_unstake_spec(pre, post, sender, funds, amount, job_id, request, result)
            ==> post.user_balance(sender, job_id) == pre.user_balance(sender, job_id) - moved(
            amount,
            result,
        ),
{
}

/// The collateral of an agent right after a stake or an unstake is what it
/// had before, changed by the amount where the call succeeded and unchanged
/// where it failed.
pub proof fn lemma_agent_collateral_after_call(
    pre: Ledger,
    post: Ledger,
    sender: Principal,
    funds: Seq<CoinView>,
    amount: u128,
    job_id: u128,
    cost_per_unit_time: u128,
    request: Option<Seq<u8>>,
    result: Result<Response, ContractError>,
)
    ensures
        agent_stake_spec(
            pre,
            post,
            sender,
            funds,
            amount,
            job_id,
            cost_per_unit_time,
            request,
            result,
        ) ==> post.agent_balance(sender, job_id) == pre.agent_balance(sender, job_id) + moved(
            amount,
            result,
        ),
        agent_unstake_spec(pre, post, sender, funds, amount, job_id, request, result)
            ==> post.agent_balance(sender, job_id) == pre.agent_balance(sender, job_id) - moved(
            amount,
            result,
        ),
{
}

/// The shares of a split by agent add up to the owner's escrow less a
/// remainder that is smaller than the number of registrations.
pub proof fn lemma_shares_leave_a_remainder(state: Ledger, job_id: u128)
    requires
        state.agents(job_id).len() > 0,
    ensures
        state.share(job_id) * state.agents(job_id).len() + state.owner_balance(job_id)
            % state.agents(job_id).len() == state.owner_balance(job_id),
        state.owner_balance(job_id) % state.agents(job_id).len() < state.agents(job_id).len(),
{
    let pool = state.owner_balance(job_id) as int;
    let n = state.agents(job_id).len() as int;
    vstd::arithmetic::div_mod::lemma_fundamental_div_mod(pool, n);
    vstd::arithmetic::div_mod::lemma_mod_bound(pool, n);
    assert((pool / n) * n == n * (pool / n)) by (nonlinear_arith);
}

/// A split by agent leaves the owner's escrow and the collateral of every
/// agent of the job at zero, and every other collateral as it was.
pub proof fn lemma_split_by_agent_clears_the_job(
    pre: Ledger,
    post: Ledger,
    job_id: u128,
    requests: Option<Seq<Seq<u8>>>,
    result: Result<Response, ContractError>,
    who: Principal,
    other_job: u128,
)
    requires
        distribute_rewards_by_agent_spec(pre, post, job_id, requests, result),
        result is Ok,
    ensures
        post.user_balance(pre.job_owner[job_id], job_id) == 0,
        pre.agents(job_id).contains(who) ==> post.agent_balance(who, job_id) == 0,
        !pre.agents(job_id).contains(who) ==> post.agent_balance(who, job_id)
            == pre.agent_balance(who, job_id),
        other_job != job_id ==> post.agent_balance(who, other_job) == pre.agent_balance(
            who,
            other_job,
        ),
{
}

/// Paying the agents by time takes the sum of their costs out of the
/// owner's escrow and leaves every collateral as it was.
pub proof fn lemma_pay_by_time_keeps_collateral(
    pre: Ledger,
    post: Ledger,
    job_id: u128,
    requests: Option<Seq<Seq<u8>>>,
    result: Result<Response, ContractError>,
)
    requires
        distribute_rewards_by_time_spec(pre, post, job_id, requests, result),
    ensures
        post.agent_stake == pre.agent_stake,
        result is Ok ==> post.user_balance(pre.job_owner[job_id], job_id) == pre.owner_balance(
            job_id,
        ) - pre.total_cost(job_id),
        result is Err ==> post == pre,
{
}

/// The amounts of the payments of `plan`, summed.
pub open spec fn sum_of_amounts(plan: Seq<TransferView>) -> nat
    decreases plan.len(),
{
    if plan.len() == 0 {
        0
    } else {
        sum_of_amounts(plan.drop_last()) + plan.last().amount as nat
    }
}

/// The first `k` payments of a job's agents by time add up to the costs of
/// the first `k` registrations.
proof fn lemma_costs_are_paid_up_to(pre: Ledger, job_id: u128, k: int)
    requires
        0 <= k <= pre.agents(job_id).len(),
        forall|i: int|
            0 <= i < pre.agents(job_id).len() ==> pre.agent_cost[#[trigger] pre.agents(job_id)[i]]
                <= u128::MAX,
    ensures
        sum_of_amounts(payouts_by_time(pre, job_id).take(k)) == sum_of_costs(
            pre.agents(job_id).take(k),
            pre.agent_cost,
        ),
    decreases k,
{
    let plan = payouts_by_time(pre, job_id);
    let agents = pre.agents(job_id);
    if k > 0 {
        lemma_costs_are_paid_up_to(pre, job_id, k - 1);
        assert(plan.take(k).drop_last() =~= plan.take(k - 1));
        assert(agents.take(k).drop_last() =~= agents.take(k - 1));
        assert(plan.take(k).last() == plan[k - 1]);
        assert(agents.take(k).last() == agents[k - 1]);
    }
}

/// What the agents of a job are paid by time adds up to what the owner's
/// escrow shrinks by: the sum of their costs.
pub proof fn lemma_pay_by_time_pays_what_it_takes(pre: Ledger, job_id: u128)
    requires
        forall|i: int|
            0 <= i < pre.agents(job_id).len() ==> pre.agent_cost[#[trigger] pre.agents(job_id)[i]]
                <= u128::MAX,
    ensures
        sum_of_amounts(payouts_by_time(pre, job_id)) == pre.total_cost(job_id),
{
    let n = pre.agents(job_id).len() as int;
    lemma_costs_are_paid_up_to(pre, job_id, n);
    assert(payouts_by_time(pre, job_id).take(n) =~= payouts_by_time(pre, job_id));
    assert(pre.agents(job_id).take(n) =~= pre.agents(job_id));
}

/// The collateral of the agents among the first `k` registrations of a job,
/// each agent counted once.
pub open spec fn collateral_of(pre: Ledger, job_id: u128, k: int) -> nat
    decreases k,
{
    if k <= 0 {
        0
    } else {
        let agents = pre.agents(job_id);
        collateral_of(pre, job_id, k - 1) + if agents.take(k - 1).contains(agents[k - 1]) {
            0
        } else {
            pre.agent_balance(agents[k - 1], job_id)
        }
    }
}

/// The first `k` payments of a split by agent add up to `k` shares and the
/// collateral of the agents among the first `k` registrations.
proof fn lemma_shares_are_paid_up_to(pre: Ledger, job_id: u128, k: int)
    requires
        can_distribute_by_agent(pre, job_id),
        0 <= k <= pre.agents(job_id).len(),
    ensures
        sum_of_amounts(payouts_by_agent(pre, job_id).take(k)) == k * pre.share(job_id)
            + collateral_of(pre, job_id, k),
    decreases k,
{
    let plan = payouts_by_agent(pre, job_id);
    let share = pre.share(job_id) as int;
    if k > 0 {
        lemma_shares_are_paid_up_to(pre, job_id, k - 1);
        assert(plan.take(k).drop_last() =~= plan.take(k - 1));
        assert(plan.take(k).last() == plan[k - 1]);
        assert(pre.payout_by_agent(job_id, k - 1) <= u128::MAX);
        assert(k * share == (k - 1) * share + share) by (nonlinear_arith);
    } else {
        assert(0 * share == 0) by (nonlinear_arith);
    }
}

/// What a split by agent pays adds up to what it takes off the records:
/// the owner's escrow, less a remainder smaller than the number of
/// registrations, and the collateral of every agent of the job.
pub proof fn lemma_split_by_agent_pays_what_it_takes(pre: Ledger, job_id: u128)
    requires
        can_distribute_by_agent(pre, job_id),
    ensures
        sum_of_amounts(payouts_by_agent(pre, job_id)) + pre.owner_balance(job_id)
            % pre.agents(job_id).len() == pre.owner_balance(job_id) + collateral_of(
            pre,
            job_id,
            pre.agents(job_id).len() as int,
        ),
        pre.owner_balance(job_id) % pre.agents(job_id).len() < pre.agents(job_id).len(),
{
    let n = pre.agents(job_id).len() as int;
    lemma_shares_are_paid_up_to(pre, job_id, n);
    lemma_shares_leave_a_remainder(pre, job_id);
    assert(payouts_by_agent(pre, job_id).take(n) =~= payouts_by_agent(pre, job_id));
    assert(n * pre.share(job_id) == pre.share(job_id) * n) by (nonlinear_arith);
}

/// A fresh state is well formed.
pub proof fn lemma_init_is_wf(token_info: TokenInfoView)
    ensures
        Ledger::init(token_info).wf(),
{
}

/// In a well-formed state every agent of every job has a cost on record.
pub proof fn lemma_wf_is_priced(state: Ledger, job_id: u128)
    requires
        state.wf(),
    ensures
        state.is_priced(job_id),
{
}

/// No operation leads out of the well-formed states.
pub proof fn lemma_execute_keeps_wf(
    pre: Ledger,
    post: Ledger,
    sender: Principal,
    funds: Seq<CoinView>,
    msg: ExecuteMsg,
    request: Option<Seq<u8>>,
    requests: Option<Seq<Seq<u8>>>,
    result: Result<Response, ContractError>,
)
    requires
        pre.wf(),
        operation_spec(pre, post, sender, funds, msg, request, requests, result),
    ensures
        post.wf(),
{
    if result is Ok {
        assert forall|job: u128, i: int|
            post.job_agent.contains_key(job) && 0 <= i < post.job_agent[job].len() implies {
            &&& post.agent_cost.contains_key(#[trigger] post.job_agent[job][i])
            &&& post.agent_stake.contains_key((post.job_agent[job][i], job))
        } by {
            let agent = post.job_agent[job][i];
            match msg {
                ExecuteMsg::AgentStake { job_id, .. } => {
                    if job != job_id || i < pre.agents(job_id).len() {
                        assert(pre.job_agent[job][i] == agent);
                    }
                },
                ExecuteMsg::AgentUnstake { job_id, .. } => {
                    if job == job_id {
                        let kept = pre.agents(job_id).filter(other_than(sender));
                        assert(kept.contains(kept[i]));
                        pre.agents(job_id).lemma_filter_contains_rev(other_than(sender), agent);
                        let j = choose|j: int|
                            0 <= j < pre.agents(job_id).len() && pre.agents(job_id)[j] == agent;
                        assert(pre.job_agent[job][j] == agent);
                    } else {
                        assert(pre.job_agent[job][i] == agent);
                    }
                },
                _ => {
                    assert(pre.job_agent[job][i] == agent);
                },
            }
        }
    }
}

/// The recorded owner of a job is never replaced.
pub proof fn lemma_owner_is_for_good(
    pre: Ledger,
    post: Ledger,
    sender: Principal,
    funds: Seq<CoinView>,
    msg: ExecuteMsg,
    request: Option<Seq<u8>>,
    requests: Option<Seq<Seq<u8>>>,
    result: Result<Response, ContractError>,
    job_id: u128,
)
    requires
        operation_spec(pre, post, sender, funds, msg, request, requests, result),
        pre.job_owner.contains_key(job_id),
    ensures
        post.job_owner.contains_key(job_id),
        post.job_owner[job_id] == pre.job_owner[job_id],
{
}

/// The token that the escrow is held in is never replaced.
pub proof fn lemma_token_is_for_good(
    pre: Ledger,
    post: Ledger,
    sender: Principal,
    funds: Seq<CoinView>,
    msg: ExecuteMsg,
    request: Option<Seq<u8>>,
    requests: Option<Seq<Seq<u8>>>,
    result: Result<Response, ContractError>,
)
    requires
        operation_spec(pre, post, sender, funds, msg, request, requests, result),
    ensures
        post.token_info == pre.token_info,
{
}

/// A call that fails has changed nothing, and no call fails with `Unauthorized`.
pub proof fn lemma_failure_changes_nothing(
    pre: Ledger,
    post: Ledger,
    sender: Principal,
    funds: Seq<CoinView>,
    msg: ExecuteMsg,
    request: Option<Seq<u8>>,
    requests: Option<Seq<Seq<u8>>>,
    result: Result<Response, ContractError>,
)
    requires
        operation_spec(pre, post, sender, funds, msg, request, requests, result),
        result is Err,
    ensures
        post == pre,
        !(result->Err_0 is Unauthorized),
{
}

/// But for a reset, no operation lowers a tally or lets one who has voted
/// vote again.
pub proof fn lemma_votes_only_grow(
    pre: Ledger,
    post: Ledger,
    sender: Principal,
    funds: Seq<CoinView>,
    msg: ExecuteMsg,
    request: Option<Seq<u8>>,
    requests: Option<Seq<Seq<u8>>>,
    result: Result<Response, ContractError>,
    who: Principal,
)
    requires
        operation_spec(pre, post, sender, funds, msg, request, requests, result),
        !(msg is ResetVote),
    ensures
        post.accept_vote >= pre.accept_vote,
        post.reject_vote >= pre.reject_vote,
        pre.has_voted(who) ==> post.has_voted(who),
{
}

} // verus!
