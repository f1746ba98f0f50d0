//! The entry points: initialisation, and the two that tell the requests apart.

use crate::contract::execute::{
    agent_stake_spec, agent_unstake_spec, can_count_vote, can_distribute_by_agent,
    can_distribute_by_time, distribute_rewards_by_agent_spec, distribute_rewards_by_time_spec,
    juror_vote_spec, payouts_by_agent, payouts_by_time, reset_vote_spec, user_stake_spec,
    user_unstake_spec,
};
use crate::error::ContractError;
use crate::host::{
    AttributeView, CoinView, Env, MessageInfo, Response, ResponseView, WasmExecute,
    WasmExecuteView,
};
use crate::msg::{ExecuteMsg, InstantiateMsg, QueryMsg, QueryResponse, TokenInfoResponse};
use crate::payload::{transfer_from_payload, transfer_payload, transfer_payloads};
use crate::state::{amounts, EscrowStore, Ledger, Principal, TokenInfo, TokenInfoView};
use crate::table::Table;
use vstd::prelude::*;

pub mod execute;
pub mod query;

verus! {

/// The state of a contract that escrows the token named by `msg`, with
/// nothing escrowed and nobody having voted, and the answer that says so.
pub fn instantiate(_env: Env, _info: MessageInfo, msg: InstantiateMsg) -> (made: (
    EscrowStore,
    Response,
))
    ensures
        made.0@ == Ledger::init(
            TokenInfoView {
                token_denom: msg.token_symbol@,
                token_address: msg.token_contract_addr@,
            },
        ),
        made.1@ == (ResponseView {
            messages: Seq::empty(),
            attributes: seq![AttributeView { key: "method"@, value: "instantiate"@ }],
        }),
{
    let store = EscrowStore {
        token_info: TokenInfo {
            token_denom: msg.token_symbol,
            token_address: msg.token_contract_addr,
        },
        user_stake: Table::new(),
        agent_stake: Table::new(),
        job_owner: Table::new(),
        job_agent: Table::new(),
        agent_cost: Table::new(),
        accept_vote: 0,
        reject_vote: 0,
        is_juror_voted: Table::new(),
    };
    let messages: Vec<WasmExecute> = Vec::new();
    assert(messages.deep_view() =~= Seq::<WasmExecuteView>::empty());
    proof {
        assert(amounts(store.user_stake@) =~= Map::<(Principal, u128), nat>::empty());
        assert(amounts(store.agent_stake@) =~= Map::<(Principal, u128), nat>::empty());
        assert(amounts(store.agent_cost@) =~= Map::<Principal, nat>::empty());
    }
    (store, Response::with_attribute("method", "instantiate", messages))
}

/// Whether `msg` from `sender` can be carried out in the state `pre`: the
/// job to settle is there, and no amount outgrows 128 bits.
pub open spec fn can_execute(pre: Ledger, sender: Principal, msg: ExecuteMsg) -> bool {
    match msg {
        ExecuteMsg::UserStake { amount, job_id } => pre.user_balance(sender, job_id) + amount
            <= u128::MAX,
        ExecuteMsg::UserUnstake { .. } => true,
        ExecuteMsg::AgentStake { amount, job_id, .. } => pre.agent_balance(sender, job_id)
            + amount <= u128::MAX,
        ExecuteMsg::AgentUnstake { .. } => true,
        ExecuteMsg::DistributeRewardsByAgent { job_id } => can_distribute_by_agent(pre, job_id),
        ExecuteMsg::DistributeRewardsByTime { job_id } => can_distribute_by_time(pre, job_id),
        ExecuteMsg::JurorVote { is_accept } => can_count_vote(pre, sender, is_accept),
        ExecuteMsg::ResetVote {  } => true,
    }
}

/// Whether `msg` from the sender can be carried out now.
pub fn is_executable(store: &EscrowStore, info: &MessageInfo, msg: &ExecuteMsg) -> (can: bool)
    ensures
        can == can_execute(store@, info.sender@, *msg),
{
    match msg {
        ExecuteMsg::UserStake { amount, job_id } => store.user_balance(&info.sender, *job_id)
            <= u128::MAX - *amount,
        ExecuteMsg::UserUnstake { .. } => true,
        ExecuteMsg::AgentStake { amount, job_id, .. } => store.agent_balance(
            &info.sender,
            *job_id,
        ) <= u128::MAX - *amount,
        ExecuteMsg::AgentUnstake { .. } => true,
        ExecuteMsg::DistributeRewardsByAgent { job_id } => execute::is_distributable_by_agent(
            store,
            *job_id,
        ),
        ExecuteMsg::DistributeRewardsByTime { job_id } => execute::is_distributable_by_time(
            store,
            *job_id,
        ),
        ExecuteMsg::JurorVote { is_accept } => store.has_voted(&info.sender) || (if *is_accept {
            store.accept_vote
        } else {
            store.reject_vote
        }) < u128::MAX,
        ExecuteMsg::ResetVote {  } => true,
    }
}

/// What the operation that `msg` names does, `request` being the encoded
/// transfer that a stake or an unstake asks for and `requests` the encoded
/// transfers that a settlement asks for, where the encoder gave them.
pub open spec fn operation_spec(
    pre: Ledger,
    post: Ledger,
    sender: Principal,
    funds: Seq<CoinView>,
    msg: ExecuteMsg,
    request: Option<Seq<u8>>,
    requests: Option<Seq<Seq<u8>>>,
    result: Result<Response, ContractError>,
) -> bool {
    match msg {
        ExecuteMsg::UserStake { amount, job_id } => user_stake_spec(
            pre,
            post,
            sender,
            funds,
            amount,
            job_id,
            request,
            result,
        ),
        ExecuteMsg::UserUnstake { amount, job_id } => user_unstake_spec(
            pre,
            post,
            sender,
            funds,
            amount,
            job_id,
            request,
            result,
        ),
        ExecuteMsg::AgentStake { amount, job_id, cost_per_unit_time } => agent_stake_spec(
            pre,
            post,
            sender,
            funds,
            amount,
            job_id,
            cost_per_unit_time,
            request,
            result,
        ),
        ExecuteMsg::AgentUnstake { amount, job_id } => agent_unstake_spec(
            pre,
            post,
            sender,
            funds,
            amount,
            job_id,
            request,
            result,
        ),
        ExecuteMsg::DistributeRewardsByAgent { job_id } => distribute_rewards_by_agent_spec(
            pre,
            post,
            job_id,
            requests,
            result,
        ),
        ExecuteMsg::DistributeRewardsByTime { job_id } => distribute_rewards_by_time_spec(
            pre,
            post,
            job_id,
            requests,
            result,
        ),
        ExecuteMsg::JurorVote { is_accept } => juror_vote_spec(
            pre,
            post,
            sender,
            is_accept,
            result,
        ),
        ExecuteMsg::ResetVote {  } => reset_vote_spec(pre, post, result),
    }
}

/// The encoded transfer that `msg` from `sender` asks for, where it is a
/// stake or an unstake and the encoder gives one: out of the sender's
/// account into that of the contract for a stake, out of the contract's
/// account to the sender for an unstake.
pub open spec fn request_of(contract: Principal, sender: Principal, msg: ExecuteMsg) -> Option<
    Seq<u8>,
> {
    match msg {
        ExecuteMsg::UserStake { amount, .. } => transfer_from_payload(sender, contract, amount),
        ExecuteMsg::AgentStake { amount, .. } => transfer_from_payload(sender, contract, amount),
        ExecuteMsg::UserUnstake { amount, .. } => transfer_payload(sender, amount),
        ExecuteMsg::AgentUnstake { amount, .. } => transfer_payload(sender, amount),
        _ => None,
    }
}

/// The encoded transfers that `msg` asks for in the state `pre`, where it
/// is a settlement and the encoder gives them all.
pub open spec fn requests_of(pre: Ledger, msg: ExecuteMsg) -> Option<Seq<Seq<u8>>> {
    match msg {
        ExecuteMsg::DistributeRewardsByAgent { job_id } => transfer_payloads(
            payouts_by_agent(pre, job_id),
        ),
        ExecuteMsg::DistributeRewardsByTime { job_id } => transfer_payloads(
            payouts_by_time(pre, job_id),
        ),
        _ => None,
    }
}

/// What `execute` does with `msg`: what the operation that `msg` names does
/// with the transfers that it asks for.
pub open spec fn execute_spec(
    pre: Ledger,
    post: Ledger,
    contract: Principal,
    sender: Principal,
    funds: Seq<CoinView>,
    msg: ExecuteMsg,
    result: Result<Response, ContractError>,
) -> bool {
    operation_spec(
        pre,
        post,
        sender,
        funds,
        msg,
        request_of(contract, sender, msg),
        requests_of(pre, msg),
        result,
    )
}

/// Carries out the operation that `msg` names, on behalf of the sender.
pub fn execute(store: &mut EscrowStore, env: Env, info: MessageInfo, msg: ExecuteMsg) -> (result:
    Result<Response, ContractError>)
    requires
        can_execute(old(store)@, info.sender@, msg),
    ensures
        execute_spec(
            old(store)@,
            final(store)@,
            env.contract.address@,
            info.sender@,
            info.funds.deep_view(),
            msg,
            result,
        ),
{
    match msg {
        ExecuteMsg::UserStake { amount, job_id } => execute::user_stake(
            store,
            env,
            info,
            amount,
            job_id,
        ),
        ExecuteMsg::UserUnstake { amount, job_id } => execute::user_unstake(
            store,
            info,
            amount,
            job_id,
        ),
        ExecuteMsg::AgentStake { amount, job_id, cost_per_unit_time } => execute::agent_stake(
            store,
            env,
            info,
            amount,
            job_id,
            cost_per_unit_time,
        ),
        ExecuteMsg::AgentUnstake { amount, job_id } => execute::agent_unstake(
            store,
            info,
            amount,
            job_id,
        ),
        ExecuteMsg::DistributeRewardsByAgent { job_id } => execute::distribute_rewards_by_agent(
            store,
            job_id,
        ),
        ExecuteMsg::DistributeRewardsByTime { job_id } => execute::distribute_rewards_by_time(
            store,
            job_id,
        ),
        ExecuteMsg::JurorVote { is_accept } => execute::juror_vote(store, info, is_accept),
        ExecuteMsg::ResetVote {  } => execute::reset_vote(store),
    }
}

/// Whether `msg` can be answered in the state `pre`: the job to look at is there.
pub open spec fn can_query(pre: Ledger, msg: QueryMsg) -> bool {
    match msg {
        QueryMsg::CheckIfEnoughRewards { job_id } => can_distribute_by_time(pre, job_id),
        _ => true,
    }
}

/// Whether `msg` can be answered now.
pub fn is_answerable(store: &EscrowStore, msg: &QueryMsg) -> (can: bool)
    ensures
        can == can_query(store@, *msg),
{
    match msg {
        QueryMsg::CheckIfEnoughRewards { job_id } => execute::is_distributable_by_time(
            store,
            *job_id,
        ),
        _ => true,
    }
}

/// What `query` answers to `msg`: what the read that `msg` names finds.
pub open spec fn query_spec(pre: Ledger, msg: QueryMsg, answer: QueryResponse) -> bool {
    match msg {
        QueryMsg::GetUserStake { user_addr, job_id } => answer == QueryResponse::UserStake(
            pre.user_balance(user_addr@, job_id) as u128,
        ),
        QueryMsg::GetAgentStake { agent_addr, job_id } => answer == QueryResponse::AgentStake(
            pre.agent_balance(agent_addr@, job_id) as u128,
        ),
        QueryMsg::GetTokenInfo {  } => answer matches QueryResponse::TokenInfo(info)
            && info.token_denom@ == pre.token_info.token_denom && info.token_address@
            == pre.token_info.token_address,
        QueryMsg::CheckIfEnoughRewards { job_id } => answer == QueryResponse::EnoughRewards(
            pre.total_cost(job_id) <= pre.owner_balance(job_id),
        ),
        QueryMsg::GetVoteResult {  } => answer matches QueryResponse::VoteResult(tally)
            && tally.accept_vote == pre.accept_vote && tally.reject_vote == pre.reject_vote,
    }
}

/// Answers the read that `msg` names.
pub fn query(store: &EscrowStore, _env: Env, msg: QueryMsg) -> (answer: QueryResponse)
    requires
        can_query(store@, msg),
    ensures
        query_spec(store@, msg, answer),
{
    match msg {
        QueryMsg::GetUserStake { user_addr, job_id } => QueryResponse::UserStake(
            query::get_user_stake(store, user_addr, job_id),
        ),
        QueryMsg::GetAgentStake { agent_addr, job_id } => QueryResponse::AgentStake(
            query::get_agent_stake(store, agent_addr, job_id),
        ),
        QueryMsg::GetTokenInfo {  } => {
            let info = query::get_token_info(store);
            QueryResponse::TokenInfo(
                TokenInfoResponse {
                    token_denom: info.token_denom,
                    token_address: info.token_address,
                },
            )
        },
        QueryMsg::CheckIfEnoughRewards { job_id } => QueryResponse::EnoughRewards(
            query::check_if_enough_rewards(store, job_id),
        ),
        QueryMsg::GetVoteResult {  } => QueryResponse::VoteResult(query::get_vote_result(store)),
    }
}

} // verus!
