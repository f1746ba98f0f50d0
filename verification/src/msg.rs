//! The requests that the contract takes, and what it answers to a query.

use vstd::prelude::*;

verus! {

/// The one-time initialisation.
#[derive(Debug, PartialEq, Eq)]
pub struct InstantiateMsg {
    pub token_symbol: String,
    pub token_contract_addr: String,
}

/// A request that changes the state.
#[derive(Debug, PartialEq, Eq)]
pub enum ExecuteMsg {
    UserStake { amount: u128, job_id: u128 },
    UserUnstake { amount: u128, job_id: u128 },
    AgentStake { amount: u128, job_id: u128, cost_per_unit_time: u128 },
    AgentUnstake { amount: u128, job_id: u128 },
    DistributeRewardsByAgent { job_id: u128 },
    DistributeRewardsByTime { job_id: u128 },
    JurorVote { is_accept: bool },
    ResetVote {},
}

/// A request that only reads the state.
#[derive(Debug, PartialEq, Eq)]
pub enum QueryMsg {
    GetUserStake { user_addr: String, job_id: u128 },
    GetAgentStake { agent_addr: String, job_id: u128 },
    GetTokenInfo {},
    CheckIfEnoughRewards { job_id: u128 },
    GetVoteResult {},
}

/// The tally of the ballot.
#[derive(Debug, PartialEq, Eq)]
pub struct VoteResultResponse {
    pub accept_vote: u128,
    pub reject_vote: u128,
}

/// The token that the escrow is held in.
#[derive(Debug, PartialEq, Eq)]
pub struct TokenInfoResponse {
    pub token_denom: String,
    pub token_address: String,
}

/// The answer to a [`QueryMsg`], one variant for each request.
#[derive(Debug, PartialEq, Eq)]
pub enum QueryResponse {
    UserStake(u128),
    AgentStake(u128),
    TokenInfo(TokenInfoResponse),
    EnoughRewards(bool),
    VoteResult(VoteResultResponse),
}

} // verus!
