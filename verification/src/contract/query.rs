//! The requests that only read the state.

use crate::contract::execute::can_distribute_by_time;
use crate::msg::VoteResultResponse;
use crate::state::{EscrowStore, TokenInfo};
use vstd::prelude::*;

verus! {

/// What `user_addr` has escrowed as the owner of job `job_id`.
pub fn get_user_stake(store: &EscrowStore, user_addr: String, job_id: u128) -> (stake: u128)
    ensures
        stake == store@.user_balance(user_addr@, job_id),
{
    store.user_balance(&user_addr, job_id)
}

/// The collateral of `agent_addr` as an agent of job `job_id`.
pub fn get_agent_stake(store: &EscrowStore, agent_addr: String, job_id: u128) -> (stake: u128)
    ensures
        stake == store@.agent_balance(agent_addr@, job_id),
{
    store.agent_balance(&agent_addr, job_id)
}

/// The token that the escrow is held in.
pub fn get_token_info(store: &EscrowStore) -> (info: TokenInfo)
    ensures
        info@ == store@.token_info,
{
    TokenInfo {
        token_denom: store.token_info.token_denom.clone(),
        token_address: store.token_info.token_address.clone(),
    }
}

/// Whether the owner's escrow of job `job_id` covers the sum of the costs of
/// the job's agents.
pub fn check_if_enough_rewards(store: &EscrowStore, job_id: u128) -> (enough: bool)
    requires
        can_distribute_by_time(store@, job_id),
    ensures
        enough == (store@.total_cost(job_id) <= store@.owner_balance(job_id)),
{
    store.affordable_cost(job_id).is_some()
}

/// The tally of the ballot.
pub fn get_vote_result(store: &EscrowStore) -> (tally: VoteResultResponse)
    ensures
        tally.accept_vote == store@.accept_vote,
        tally.reject_vote == store@.reject_vote,
{
    VoteResultResponse { accept_vote: store.accept_vote, reject_vote: store.reject_vote }
}

} // verus!
