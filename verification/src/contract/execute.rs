//! The operations that change the state: stakes, settlements, votes.
//!
//! An operation that asks the token ledger for a transfer comes twice: under
//! its own name it has the request encoded and goes on; under the name that
//! ends in `_with` it takes the encoder's answer as an argument and does the
//! rest.

use crate::error::ContractError;
use crate::host::{
    acted, Coin, CoinView, Env, MessageInfo, Response, WasmExecute, WasmExecuteView,
};
use crate::payload::{
    encode_transfer, encode_transfer_from, encode_transfers, encoded, encoded_all, texts,
    transfer_from_payload, transfer_payload, transfer_payloads, Transfer, TransferView,
};
use crate::state::{
    copy_of, occurs_before, other_than, without, EscrowStore, Ledger, Principal,
};
use crate::table::Table;
use cosmwasm_std::StdError;
use vstd::prelude::*;

verus! {

/// The request to the token ledger at `token_address` that `msg` is the text of.
pub open spec fn token_request(
    token_address: Principal,
    msg: Seq<u8>,
    funds: Seq<CoinView>,
) -> WasmExecuteView {
    WasmExecuteView { contract_addr: token_address, msg, funds }
}

/// The one request to the token ledger at `token_address` that `msg` is the
/// text of, with `funds` sent along.
fn token_message(token_address: &String, msg: Vec<u8>, funds: Vec<Coin>) -> (messages: Vec<
    WasmExecute,
>)
    ensures
        messages.deep_view() == seq![token_request(token_address@, msg@, funds.deep_view())],
{
    let ghost want = token_request(token_address@, msg@, funds.deep_view());
    let mut messages: Vec<WasmExecute> = Vec::new();
    messages.push(WasmExecute { contract_addr: token_address.clone(), msg, funds });
    assert(messages.deep_view() =~= seq![want]);
    messages
}

/// Whether `result` is a failure for the serialiser's refusal.
pub open spec fn is_refusal(result: Result<Response, ContractError>) -> bool {
    result is Err && result->Err_0 is Std
}

/// What `user_stake` does, `request` being the encoded transfer out of the
/// sender's account, if the encoder gave one:
/// - a sender who is not the job's recorded owner is told so;
/// - else, where there is no encoded request, the call fails;
/// - else the sender's escrow for the job grows by `amount`, the sender is
///   the job's owner from now on, and the one request is emitted.
pub open spec fn user_stake_spec(
    pre: Ledger,
    post: Ledger,
    sender: Principal,
    funds: Seq<CoinView>,
    amount: u128,
    job_id: u128,
    request: Option<Seq<u8>>,
    result: Result<Response, ContractError>,
) -> bool {
    if !pre.may_act_as_owner(sender, job_id) {
        result == Err::<Response, ContractError>(ContractError::NotJobOwner {  }) && post == pre
    } else {
        match request {
            None => is_refusal(result) && post == pre,
            Some(msg) => result is Ok && result->Ok_0@ == acted(
                "user stake"@,
                seq![token_request(pre.token_info.token_address, msg, funds)],
            ) && post == pre.stake_as_owner(sender, job_id, amount as nat),
        }
    }
}

/// Escrows `amount` for job `job_id` on behalf of the sender, who owns the
/// job from then on, and asks the token ledger to move `amount` from the
/// sender to this contract.
pub fn user_stake(
    store: &mut EscrowStore,
    env: Env,
    info: MessageInfo,
    amount: u128,
    job_id: u128,
) -> (result: Result<Response, ContractError>)
    requires
        old(store)@.user_balance(info.sender@, job_id) + amount <= u128::MAX,
    ensures
        user_stake_spec(
            old(store)@,
            final(store)@,
            info.sender@,
            info.funds.deep_view(),
            amount,
            job_id,
            transfer_from_payload(info.sender@, env.contract.address@, amount),
            result,
        ),
{
    let request = encode_transfer_from(&info.sender, &env.contract.address, amount);
    user_stake_with(store, info, amount, job_id, request)
}

/// As [`user_stake`], with the encoder's answer handed in. Where the call
/// fails for want of an encoded request, the error is the encoder's own.
pub fn user_stake_with(
    store: &mut EscrowStore,
    info: MessageInfo,
    amount: u128,
    job_id: u128,
    request: Result<Vec<u8>, StdError>,
) -> (result: Result<Response, ContractError>)
    requires
        old(store)@.user_balance(info.sender@, job_id) + amount <= u128::MAX,
    ensures
        user_stake_spec(
            old(store)@,
            final(store)@,
            info.sender@,
            info.funds.deep_view(),
            amount,
            job_id,
            encoded(request),
            result,
        ),
        result matches Err(ContractError::Std(e)) ==> request == Err::<Vec<u8>, StdError>(e),
{
    let owned = store.job_owner.get(&job_id).is_some();
    if !store.may_act_as_owner(&info.sender, job_id) {
        return Err(ContractError::NotJobOwner {  });
    }
    let msg = match request {
        Ok(msg) => msg,
        Err(e) => {
            return Err(ContractError::Std(e));
        },
    };
    if !owned {
        store.job_owner.put(job_id, info.sender.clone());
    }
    let balance = store.user_balance(&info.sender, job_id);
    store.user_stake.put((info.sender.clone(), job_id), balance + amount);
    let messages = token_message(&store.token_info.token_address, msg, info.funds);
    let response = Response::with_attribute("action", "user stake", messages);
    proof {
        let pre = old(store)@;
        let post = store@;
        let want = pre.stake_as_owner(info.sender@, job_id, amount as nat);
        assert(post.user_stake =~= want.user_stake);
        assert(post.job_owner =~= want.job_owner);
    }
    Ok(response)
}

/// What `user_unstake` does, `request` being the encoded transfer to the
/// sender, if the encoder gave one:
/// - a sender who is not the job's recorded owner is told so;
/// - else a sender who asks for more than its escrow holds is told so;
/// - else, where there is no encoded request, the call fails;
/// - else the sender's escrow for the job shrinks by `amount` and the one
///   request is emitted.
pub open spec fn user_unstake_spec(
    pre: Ledger,
    post: Ledger,
    sender: Principal,
    funds: Seq<CoinView>,
    amount: u128,
    job_id: u128,
    request: Option<Seq<u8>>,
    result: Result<Response, ContractError>,
) -> bool {
    if !pre.may_act_as_owner(sender, job_id) {
        result == Err::<Response, ContractError>(ContractError::NotJobOwner {  }) && post == pre
    } else if pre.user_balance(sender, job_id) < amount {
        result == Err::<Response, ContractError>(ContractError::InsufficientStake {  }) && post
            == pre
    } else {
        match request {
            None => is_refusal(result) && post == pre,
            Some(msg) => result is Ok && result->Ok_0@ == acted(
                "user unstake"@,
                seq![token_request(pre.token_info.token_address, msg, funds)],
            ) && post == pre.unstake_as_owner(sender, job_id, amount as nat),
        }
    }
}

/// Takes `amount` back out of the sender's escrow for job `job_id`, and asks
/// the token ledger to pay `amount` to the sender.
pub fn user_unstake(
    store: &mut EscrowStore,
    info: MessageInfo,
    amount: u128,
    job_id: u128,
) -> (result: Result<Response, ContractError>)
    ensures
        user_unstake_spec(
            old(store)@,
            final(store)@,
            info.sender@,
            info.funds.deep_view(),
            amount,
            job_id,
            transfer_payload(info.sender@, amount),
            result,
        ),
{
    let request = encode_transfer(&info.sender, amount);
    user_unstake_with(store, info, amount, job_id, request)
}

/// As [`user_unstake`], with the encoder's answer handed in. Where the call
/// fails for want of an encoded request, the error is the encoder's own.
pub fn user_unstake_with(
    store: &mut EscrowStore,
    info: MessageInfo,
    amount: u128,
    job_id: u128,
    request: Result<Vec<u8>, StdError>,
) -> (result: Result<Response, ContractError>)
    ensures
        user_unstake_spec(
            old(store)@,
            final(store)@,
            info.sender@,
            info.funds.deep_view(),
            amount,
            job_id,
            encoded(request),
            result,
        ),
        result matches Err(ContractError::Std(e)) ==> request == Err::<Vec<u8>, StdError>(e),
{
    if !store.may_act_as_owner(&info.sender, job_id) {
        return Err(ContractError::NotJobOwner {  });
    }
    let balance = store.user_balance(&info.sender, job_id);
    if balance < amount {
        return Err(ContractError::InsufficientStake {  });
    }
    let msg = match request {
        Ok(msg) => msg,
        Err(e) => {
            return Err(ContractError::Std(e));
        },
    };
    store.user_stake.put((info.sender.clone(), job_id), balance - amount);
    let messages = token_message(&store.token_info.token_address, msg, info.funds);
    let response = Response::with_attribute("action", "user unstake", messages);
    proof {
        let pre = old(store)@;
        let want = pre.unstake_as_owner(info.sender@, job_id, amount as nat);
        assert(store@.user_stake =~= want.user_stake);
    }
    Ok(response)
}

/// What `agent_stake` does, `request` being the encoded transfer out of the
/// sender's account, if the encoder gave one:
/// - where there is no encoded request, the call fails;
/// - else the sender's collateral for the job grows by `amount`, the sender
///   is registered for the job once more, its cost is `cost_per_unit_time`
///   from now on, and the one request is emitted.
pub open spec fn agent_stake_spec(
    pre: Ledger,
    post: Ledger,
    sender: Principal,
    funds: Seq<CoinView>,
    amount: u128,
    job_id: u128,
    cost_per_unit_time: u128,
    request: Option<Seq<u8>>,
    result: Result<Response, ContractError>,
) -> bool {
    match request {
        None => is_refusal(result) && post == pre,
        Some(msg) => result is Ok && result->Ok_0@ == acted(
            "agent stake"@,
            seq![token_request(pre.token_info.token_address, msg, funds)],
        ) && post == pre.stake_as_agent(
            sender,
            job_id,
            amount as nat,
            cost_per_unit_time as nat,
        ),
    }
}

/// Escrows `amount` as the sender's collateral for job `job_id`, registers
/// the sender as an agent of the job, records what it asks for per unit of
/// time, and asks the token ledger to move `amount` from the sender to this
/// contract.
pub fn agent_stake(
    store: &mut EscrowStore,
    env: Env,
    info: MessageInfo,
    amount: u128,
    job_id: u128,
    cost_per_unit_time: u128,
) -> (result: Result<Response, ContractError>)
    requires
        old(store)@.agent_balance(info.sender@, job_id) + amount <= u128::MAX,
    ensures
        agent_stake_spec(
            old(store)@,
            final(store)@,
            info.sender@,
            info.funds.deep_view(),
            amount,
            job_id,
            cost_per_unit_time,
            transfer_from_payload(info.sender@, env.contract.address@, amount),
            result,
        ),
{
    let request = encode_transfer_from(&info.sender, &env.contract.address, amount);
    agent_stake_with(store, info, amount, job_id, cost_per_unit_time, request)
}

/// As [`agent_stake`], with the encoder's answer handed in. Where the call
/// fails for want of an encoded request, the error is the encoder's own.
pub fn agent_stake_with(
    store: &mut EscrowStore,
    info: MessageInfo,
    amount: u128,
    job_id: u128,
    cost_per_unit_time: u128,
    request: Result<Vec<u8>, StdError>,
) -> (result: Result<Response, ContractError>)
    requires
        old(store)@.agent_balance(info.sender@, job_id) + amount <= u128::MAX,
    ensures
        agent_stake_spec(
            old(store)@,
            final(store)@,
            info.sender@,
            info.funds.deep_view(),
            amount,
            job_id,
            cost_per_unit_time,
            encoded(request),
            result,
        ),
        result matches Err(ContractError::Std(e)) ==> request == Err::<Vec<u8>, StdError>(e),
{
    let msg = match request {
        Ok(msg) => msg,
        Err(e) => {
            return Err(ContractError::Std(e));
        },
    };
    let balance = store.agent_balance(&info.sender, job_id);
    store.agent_stake.put((info.sender.clone(), job_id), balance + amount);
    let mut agents = match store.job_agent.get(&job_id) {
        Some(agents) => copy_of(agents),
        None => Vec::new(),
    };
    let ghost registered = agents.deep_view();
    agents.push(info.sender.clone());
    assert(agents.deep_view() =~= registered.push(info.sender@));
    store.job_agent.put(job_id, agents);
    store.agent_cost.put(info.sender.clone(), cost_per_unit_time);
    let messages = token_message(&store.token_info.token_address, msg, info.funds);
    let response = Response::with_attribute("action", "agent stake", messages);
    proof {
        let pre = old(store)@;
        let want = pre.stake_as_agent(
            info.sender@,
            job_id,
            amount as nat,
            cost_per_unit_time as nat,
        );
        assert(registered =~= pre.agents(job_id));
        assert(store@.agent_stake =~= want.agent_stake);
        assert(store@.agent_cost =~= want.agent_cost);
        assert(store@.job_agent =~= want.job_agent);
    }
    Ok(response)
}

/// What `agent_unstake` does, `request` being the encoded transfer to the
/// sender, if the encoder gave one:
/// - a sender who asks for more than its collateral is told so;
/// - else, where there is no encoded request, the call fails;
/// - else the sender's collateral for the job shrinks by `amount`, every
///   registration of the sender for the job is removed, and the one request
///   is emitted.
pub open spec fn agent_unstake_spec(
    pre: Ledger,
    post: Ledger,
    sender: Principal,
    funds: Seq<CoinView>,
    amount: u128,
    job_id: u128,
    request: Option<Seq<u8>>,
    result: Result<Response, ContractError>,
) -> bool {
    if pre.agent_balance(sender, job_id) < amount {
        result == Err::<Response, ContractError>(ContractError::InsufficientStake {  }) && post
            == pre
    } else {
        match request {
            None => is_refusal(result) && post == pre,
            Some(msg) => result is Ok && result->Ok_0@ == acted(
                "agent unstake"@,
                seq![token_request(pre.token_info.token_address, msg, funds)],
            ) && post == pre.unstake_as_agent(sender, job_id, amount as nat),
        }
    }
}

/// Takes `amount` back out of the sender's collateral for job `job_id`,
/// removes the sender from the agents of the job, and asks the token ledger
/// to pay `amount` to the sender.
pub fn agent_unstake(
    store: &mut EscrowStore,
    info: MessageInfo,
    amount: u128,
    job_id: u128,
) -> (result: Result<Response, ContractError>)
    ensures
        agent_unstake_spec(
            old(store)@,
            final(store)@,
            info.sender@,
            info.funds.deep_view(),
            amount,
            job_id,
            transfer_payload(info.sender@, amount),
            result,
        ),
{
    let request = encode_transfer(&info.sender, amount);
    agent_unstake_with(store, info, amount, job_id, request)
}

/// As [`agent_unstake`], with the encoder's answer handed in. Where the call
/// fails for want of an encoded request, the error is the encoder's own.
pub fn agent_unstake_with(
    store: &mut EscrowStore,
    info: MessageInfo,
    amount: u128,
    job_id: u128,
    request: Result<Vec<u8>, StdError>,
) -> (result: Result<Response, ContractError>)
    ensures
        agent_unstake_spec(
            old(store)@,
            final(store)@,
            info.sender@,
            info.funds.deep_view(),
            amount,
            job_id,
            encoded(request),
            result,
        ),
        result matches Err(ContractError::Std(e)) ==> request == Err::<Vec<u8>, StdError>(e),
{
    let balance = store.agent_balance(&info.sender, job_id);
    if balance < amount {
        return Err(ContractError::InsufficientStake {  });
    }
    let msg = match request {
        Ok(msg) => msg,
        Err(e) => {
            return Err(ContractError::Std(e));
        },
    };
    store.agent_stake.put((info.sender.clone(), job_id), balance - amount);
    let agents = match store.job_agent.get(&job_id) {
        Some(agents) => without(agents, &info.sender),
        None => Vec::new(),
    };
    proof {
        reveal(Seq::filter);
        assert(Seq::<Principal>::empty().filter(other_than(info.sender@))
            =~= Seq::<Principal>::empty());
        assert(agents.deep_view() =~= old(store)@.agents(job_id).filter(other_than(info.sender@)));
    }
    store.job_agent.put(job_id, agents);
    let messages = token_message(&store.token_info.token_address, msg, info.funds);
    let response = Response::with_attribute("action", "agent unstake", messages);
    proof {
        let pre = old(store)@;
        let want = pre.unstake_as_agent(info.sender@, job_id, amount as nat);
        assert(store@.agent_stake =~= want.agent_stake);
        assert(store@.job_agent =~= want.job_agent);
    }
    Ok(response)
}

/// The requests to the token ledger at `token_address` that `msgs` are the
/// texts of, in their order; no coins go with them.
pub open spec fn token_requests(token_address: Principal, msgs: Seq<Seq<u8>>) -> Seq<
    WasmExecuteView,
> {
    Seq::new(msgs.len(), |i: int| token_request(token_address, msgs[i], Seq::empty()))
}

/// One request to the token ledger at `token_address` for each text of `msgs`.
fn token_messages(token_address: &String, msgs: Vec<Vec<u8>>) -> (messages: Vec<WasmExecute>)
    ensures
        messages.deep_view() == token_requests(token_address@, texts(msgs)),
{
    let ghost want = token_requests(token_address@, texts(msgs));
    let mut rest = msgs;
    let mut messages: Vec<WasmExecute> = Vec::new();
    while rest.len() > 0
        invariant
            want.len() == messages.len() + rest.len(),
            forall|j: int|
                0 <= j < messages.len() ==> #[trigger] messages.deep_view()[j] == want[j],
            forall|j: int|
                0 <= j < rest.len() ==> token_request(
                    token_address@,
                    #[trigger] rest@[j]@,
                    Seq::empty(),
                ) == want[messages.len() + j],
        decreases rest.len(),
    {
        let ghost sent = messages.deep_view();
        let ghost waiting = rest@;
        let msg = rest.remove(0);
        let funds: Vec<Coin> = Vec::new();
        assert(funds.deep_view() =~= Seq::<CoinView>::empty());
        let message = WasmExecute { contract_addr: token_address.clone(), msg, funds };
        assert(message.deep_view() == token_request(
            token_address@,
            waiting[0]@,
            Seq::empty(),
        ));
        messages.push(message);
        assert(messages.deep_view() =~= sent.push(message.deep_view()));
        assert forall|j: int| 0 <= j < rest.len() implies token_request(
            token_address@,
            #[trigger] rest@[j]@,
            Seq::empty(),
        ) == want[messages.len() + j] by {
            assert(rest@[j] == waiting[j + 1]);
        }
    }
    assert(messages.deep_view() =~= want);
    messages
}

/// Sets the collateral of every one of `agents` for job `job_id` to zero.
fn release_collateral(
    agent_stake: &mut Table<(String, u128), u128>,
    agents: &Vec<String>,
    job_id: u128,
)
    ensures
        final(agent_stake)@ == Map::new(
            |k: (Principal, u128)|
                old(agent_stake)@.contains_key(k) || (k.1 == job_id && agents.deep_view().contains(
                    k.0,
                )),
            |k: (Principal, u128)|
                if k.1 == job_id && agents.deep_view().contains(k.0) {
                    0u128
                } else {
                    old(agent_stake)@[k]
                },
        ),
{
    let ghost all = agents.deep_view();
    let ghost before = agent_stake@;
    let mut i: usize = 0;
    assert(agent_stake@ =~= Map::new(
        |k: (Principal, u128)|
            before.contains_key(k) || (k.1 == job_id && all.take(0).contains(k.0)),
        |k: (Principal, u128)|
            if k.1 == job_id && all.take(0).contains(k.0) {
                0u128
            } else {
                before[k]
            },
    ));
    while i < agents.len()
        invariant
            i <= agents.len(),
            all == agents.deep_view(),
            agent_stake@ == Map::new(
                |k: (Principal, u128)|
                    before.contains_key(k) || (k.1 == job_id && all.take(i as int).contains(k.0)),
                |k: (Principal, u128)|
                    if k.1 == job_id && all.take(i as int).contains(k.0) {
                        0u128
                    } else {
                        before[k]
                    },
            ),
        decreases agents.len() - i,
    {
        agent_stake.put((agents[i].clone(), job_id), 0);
        proof {
            let shorter = all.take(i as int);
            let longer = all.take(i + 1);
            assert(longer =~= shorter.push(all[i as int]));
            assert forall|who: Principal| #[trigger]
                longer.contains(who) <==> (shorter.contains(who) || who == all[i as int]) by {
                if shorter.contains(who) {
                    let j = choose|j: int| 0 <= j < shorter.len() && shorter[j] == who;
                    assert(longer[j] == who);
                }
                if who == all[i as int] {
                    assert(longer[i as int] == who);
                }
            }
            assert(agent_stake@ =~= Map::new(
                |k: (Principal, u128)|
                    before.contains_key(k) || (k.1 == job_id && longer.contains(k.0)),
                |k: (Principal, u128)|
                    if k.1 == job_id && longer.contains(k.0) {
                        0u128
                    } else {
                        before[k]
                    },
            ));
        }
        i = i + 1;
    }
    assert(all.take(agents.len() as int) =~= all);
}

/// What each registration of job `job_id` is paid when the owner's escrow is
/// split by agent, in the order of the registrations.
pub open spec fn payouts_by_agent(pre: Ledger, job_id: u128) -> Seq<TransferView> {
    Seq::new(
        pre.agents(job_id).len(),
        |i: int|
            TransferView {
                recipient: pre.agents(job_id)[i],
                amount: pre.payout_by_agent(job_id, i) as u128,
            },
    )
}

/// Whether the owner's escrow of job `job_id` can be split by agent: the job
/// has an owner and at least one registered agent, and every payment fits
/// in 128 bits.
pub open spec fn can_distribute_by_agent(pre: Ledger, job_id: u128) -> bool {
    &&& pre.is_staffed(job_id)
    &&& pre.agents(job_id).len() > 0
    &&& forall|i: int|
        0 <= i < pre.agents(job_id).len() ==> #[trigger] pre.payout_by_agent(job_id, i)
            <= u128::MAX
}

/// Whether the owner's escrow of job `job_id` can be split by agent.
pub fn is_distributable_by_agent(store: &EscrowStore, job_id: u128) -> (can: bool)
    ensures
        can == can_distribute_by_agent(store@, job_id),
{
    let owner = match store.job_owner.get(&job_id) {
        Some(owner) => owner,
        None => {
            return false;
        },
    };
    let agents = match store.job_agent.get(&job_id) {
        Some(agents) => agents,
        None => {
            return false;
        },
    };
    if agents.len() == 0 {
        return false;
    }
    let pool = store.user_balance(owner, job_id);
    let share = pool / (agents.len() as u128);
    let mut i: usize = 0;
    while i < agents.len()
        invariant
            i <= agents.len(),
            store@.is_staffed(job_id),
            agents.deep_view() == store@.agents(job_id),
            share == store@.share(job_id),
            forall|j: int| 0 <= j < i ==> #[trigger] store@.payout_by_agent(job_id, j) <= u128::MAX,
        decreases agents.len() - i,
    {
        if !occurs_before(agents, i) {
            if store.agent_balance(&agents[i], job_id) > u128::MAX - share {
                assert(store@.payout_by_agent(job_id, i as int) > u128::MAX);
                return false;
            }
        }
        i = i + 1;
    }
    true
}

/// What `distribute_rewards_by_agent` does, `requests` being the encoded
/// transfers to the agents, if the encoder gave them all:
/// - where an encoded request is missing, the call fails;
/// - else the owner's escrow and the collateral of every agent of the job
///   are zero, and one request is emitted for each registration, in order.
pub open spec fn distribute_rewards_by_agent_spec(
    pre: Ledger,
    post: Ledger,
    job_id: u128,
    requests: Option<Seq<Seq<u8>>>,
    result: Result<Response, ContractError>,
) -> bool {
    match requests {
        None => is_refusal(result) && post == pre,
        Some(msgs) => result is Ok && result->Ok_0@ == acted(
            "distribution rewards by agent"@,
            token_requests(pre.token_info.token_address, msgs),
        ) && post == pre.distribute_by_agent(job_id),
    }
}

/// The payments that settle job `job_id` by agent: to each registration an
/// equal share of the owner's escrow, rounded down, and with an agent's
/// first registration its collateral.
pub fn plan_rewards_by_agent(store: &EscrowStore, job_id: u128) -> (plan: Vec<Transfer>)
    requires
        can_distribute_by_agent(store@, job_id),
    ensures
        plan.deep_view() == payouts_by_agent(store@, job_id),
{
    let owner = store.job_owner.get(&job_id).unwrap();
    let agents = store.job_agent.get(&job_id).unwrap();
    let pool = store.user_balance(owner, job_id);
    let share = pool / (agents.len() as u128);
    let ghost want = payouts_by_agent(store@, job_id);
    let mut plan: Vec<Transfer> = Vec::new();
    let mut i: usize = 0;
    while i < agents.len()
        invariant
            i <= agents.len(),
            can_distribute_by_agent(store@, job_id),
            agents.deep_view() == store@.agents(job_id),
            share == store@.share(job_id),
            want == payouts_by_agent(store@, job_id),
            plan.deep_view() == want.take(i as int),
        decreases agents.len() - i,
    {
        let ghost paid = plan.deep_view();
        assert(store@.payout_by_agent(job_id, i as int) <= u128::MAX);
        let amount = if occurs_before(agents, i) {
            share
        } else {
            share + store.agent_balance(&agents[i], job_id)
        };
        let transfer = Transfer { recipient: agents[i].clone(), amount };
        assert(transfer.deep_view() == want[i as int]);
        plan.push(transfer);
        assert(plan.deep_view() =~= paid.push(want[i as int]));
        i = i + 1;
        assert(plan.deep_view() =~= want.take(i as int));
    }
    assert(want.take(agents.len() as int) =~= want);
    plan
}

/// Settles job `job_id` by agent: pays each registration an equal share of
/// the owner's escrow and each agent its collateral, and leaves all of them
/// at zero.
pub fn distribute_rewards_by_agent(store: &mut EscrowStore, job_id: u128) -> (result: Result<
    Response,
    ContractError,
>)
    requires
        can_distribute_by_agent(old(store)@, job_id),
    ensures
        distribute_rewards_by_agent_spec(
            old(store)@,
            final(store)@,
            job_id,
            transfer_payloads(payouts_by_agent(old(store)@, job_id)),
            result,
        ),
{
    let plan = plan_rewards_by_agent(store, job_id);
    let requests = encode_transfers(&plan);
    distribute_rewards_by_agent_with(store, job_id, requests)
}

/// As [`distribute_rewards_by_agent`], with the encoder's answer handed in:
/// one encoded request for each registration. Where the call fails for want
/// of the requests, the error is the encoder's own.
pub fn distribute_rewards_by_agent_with(
    store: &mut EscrowStore,
    job_id: u128,
    requests: Result<Vec<Vec<u8>>, StdError>,
) -> (result: Result<Response, ContractError>)
    requires
        can_distribute_by_agent(old(store)@, job_id),
        requests matches Ok(msgs) ==> msgs.len() == old(store)@.agents(job_id).len(),
    ensures
        distribute_rewards_by_agent_spec(
            old(store)@,
            final(store)@,
            job_id,
            encoded_all(requests),
            result,
        ),
        result matches Err(ContractError::Std(e)) ==> requests == Err::<Vec<Vec<u8>>, StdError>(
            e,
        ),
{
    let msgs = match requests {
        Ok(msgs) => msgs,
        Err(e) => {
            return Err(ContractError::Std(e));
        },
    };
    let owner = store.job_owner.get(&job_id).unwrap().clone();
    let agents = copy_of(store.job_agent.get(&job_id).unwrap());
    store.user_stake.put((owner, job_id), 0);
    release_collateral(&mut store.agent_stake, &agents, job_id);
    let messages = token_messages(&store.token_info.token_address, msgs);
    let response = Response::with_attribute("action", "distribution rewards by agent", messages);
    proof {
        let pre = old(store)@;
        let want = pre.distribute_by_agent(job_id);
        assert(store@.user_stake =~= want.user_stake);
        assert(store@.agent_stake =~= want.agent_stake);
    }
    Ok(response)
}

/// What each registration of job `job_id` is paid when the agents are paid
/// by time: its agent's cost.
pub open spec fn payouts_by_time(pre: Ledger, job_id: u128) -> Seq<TransferView> {
    Seq::new(
        pre.agents(job_id).len(),
        |i: int|
            TransferView {
                recipient: pre.agents(job_id)[i],
                amount: pre.agent_cost[pre.agents(job_id)[i]] as u128,
            },
    )
}

/// Whether the agents of job `job_id` can be paid by time: the job has an
/// owner and a list of agents, and each of them has a cost on record.
pub open spec fn can_distribute_by_time(pre: Ledger, job_id: u128) -> bool {
    pre.is_staffed(job_id) && pre.is_priced(job_id)
}

/// Whether the agents of job `job_id` can be paid by time.
pub fn is_distributable_by_time(store: &EscrowStore, job_id: u128) -> (can: bool)
    ensures
        can == can_distribute_by_time(store@, job_id),
{
    if store.job_owner.get(&job_id).is_none() {
        return false;
    }
    let agents = match store.job_agent.get(&job_id) {
        Some(agents) => agents,
        None => {
            return false;
        },
    };
    let mut i: usize = 0;
    while i < agents.len()
        invariant
            i <= agents.len(),
            store@.is_staffed(job_id),
            agents.deep_view() == store@.agents(job_id),
            forall|j: int|
                0 <= j < i ==> store@.agent_cost.contains_key(#[trigger] store@.agents(job_id)[j]),
        decreases agents.len() - i,
    {
        if store.agent_cost.get(&agents[i]).is_none() {
            assert(!store@.agent_cost.contains_key(store@.agents(job_id)[i as int]));
            return false;
        }
        i = i + 1;
    }
    true
}

/// What `distribute_rewards_by_time` does, `requests` being the encoded
/// transfers to the agents, if the encoder gave them all:
/// - where the costs of the agents sum to more than the owner's escrow, the
///   caller is told so;
/// - else, where an encoded request is missing, the call fails;
/// - else the owner's escrow shrinks by the sum of the costs, and one
///   request is emitted for each registration, in order.
pub open spec fn distribute_rewards_by_time_spec(
    pre: Ledger,
    post: Ledger,
    job_id: u128,
    requests: Option<Seq<Seq<u8>>>,
    result: Result<Response, ContractError>,
) -> bool {
    if pre.owner_balance(job_id) < pre.total_cost(job_id) {
        result == Err::<Response, ContractError>(ContractError::InsufficientStake {  }) && post
            == pre
    } else {
        match requests {
            None => is_refusal(result) && post == pre,
            Some(msgs) => result is Ok && result->Ok_0@ == acted(
                "distribution rewards by time unit"@,
                token_requests(pre.token_info.token_address, msgs),
            ) && post == pre.distribute_by_time(job_id),
        }
    }
}

/// The payments that pay the agents of job `job_id` by time: to each
/// registration the cost of its agent.
pub fn plan_rewards_by_time(store: &EscrowStore, job_id: u128) -> (plan: Vec<Transfer>)
    requires
        can_distribute_by_time(store@, job_id),
    ensures
        plan.deep_view() == payouts_by_time(store@, job_id),
{
    let agents = store.job_agent.get(&job_id).unwrap();
    let ghost want = payouts_by_time(store@, job_id);
    let mut plan: Vec<Transfer> = Vec::new();
    let mut i: usize = 0;
    while i < agents.len()
        invariant
            i <= agents.len(),
            store@.is_priced(job_id),
            agents.deep_view() == store@.agents(job_id),
            want == payouts_by_time(store@, job_id),
            plan.deep_view() == want.take(i as int),
        decreases agents.len() - i,
    {
        let ghost paid = plan.deep_view();
        assert(store@.agent_cost.contains_key(store@.agents(job_id)[i as int]));
        let amount = *store.agent_cost.get(&agents[i]).unwrap();
        let transfer = Transfer { recipient: agents[i].clone(), amount };
        assert(transfer.deep_view() == want[i as int]);
        plan.push(transfer);
        assert(plan.deep_view() =~= paid.push(want[i as int]));
        i = i + 1;
        assert(plan.deep_view() =~= want.take(i as int));
    }
    assert(want.take(agents.len() as int) =~= want);
    plan
}

/// Pays every agent of job `job_id` its cost out of the owner's escrow,
/// provided that the escrow covers the sum; the agents' collateral stays.
pub fn distribute_rewards_by_time(store: &mut EscrowStore, job_id: u128) -> (result: Result<
    Response,
    ContractError,
>)
    requires
        can_distribute_by_time(old(store)@, job_id),
    ensures
        distribute_rewards_by_time_spec(
            old(store)@,
            final(store)@,
            job_id,
            transfer_payloads(payouts_by_time(old(store)@, job_id)),
            result,
        ),
{
    let plan = plan_rewards_by_time(store, job_id);
    let requests = encode_transfers(&plan);
    distribute_rewards_by_time_with(store, job_id, requests)
}

/// As [`distribute_rewards_by_time`], with the encoder's answer handed in:
/// one encoded request for each registration. Where the call fails for want
/// of the requests, the error is the encoder's own.
pub fn distribute_rewards_by_time_with(
    store: &mut EscrowStore,
    job_id: u128,
    requests: Result<Vec<Vec<u8>>, StdError>,
) -> (result: Result<Response, ContractError>)
    requires
        can_distribute_by_time(old(store)@, job_id),
        requests matches Ok(msgs) ==> msgs.len() == old(store)@.agents(job_id).len(),
    ensures
        distribute_rewards_by_time_spec(
            old(store)@,
            final(store)@,
            job_id,
            encoded_all(requests),
            result,
        ),
        result matches Err(ContractError::Std(e)) ==> requests == Err::<Vec<Vec<u8>>, StdError>(
            e,
        ),
{
    let total = match store.affordable_cost(job_id) {
        Some(total) => total,
        None => {
            return Err(ContractError::InsufficientStake {  });
        },
    };
    let msgs = match requests {
        Ok(msgs) => msgs,
        Err(e) => {
            return Err(ContractError::Std(e));
        },
    };
    let owner = store.job_owner.get(&job_id).unwrap().clone();
    let balance = store.user_balance(&owner, job_id);
    store.user_stake.put((owner, job_id), balance - total);
    let messages = token_messages(&store.token_info.token_address, msgs);
    let response = Response::with_attribute(
        "action",
        "distribution rewards by time unit",
        messages,
    );
    proof {
        let pre = old(store)@;
        let want = pre.distribute_by_time(job_id);
        assert(store@.user_stake =~= want.user_stake);
    }
    Ok(response)
}

/// What `juror_vote` does: a sender who has voted since the last reset is
/// told so; else the sender has voted from now on, and the tally of its
/// choice grows by one.
pub open spec fn juror_vote_spec(
    pre: Ledger,
    post: Ledger,
    sender: Principal,
    is_accept: bool,
    result: Result<Response, ContractError>,
) -> bool {
    if pre.has_voted(sender) {
        result == Err::<Response, ContractError>(ContractError::AlreadyVoted {  }) && post == pre
    } else {
        result is Ok && result->Ok_0@ == acted("juror vote"@, Seq::empty()) && post
            == pre.cast_vote(sender, is_accept)
    }
}

/// Whether one more vote can be counted for the sender's choice.
pub open spec fn can_count_vote(pre: Ledger, sender: Principal, is_accept: bool) -> bool {
    pre.has_voted(sender) || (if is_accept {
        pre.accept_vote
    } else {
        pre.reject_vote
    }) < u128::MAX
}

/// Counts the sender's vote, for acceptance or for rejection, unless the
/// sender has voted since the last reset.
pub fn juror_vote(store: &mut EscrowStore, info: MessageInfo, is_accept: bool) -> (result: Result<
    Response,
    ContractError,
>)
    requires
        can_count_vote(old(store)@, info.sender@, is_accept),
    ensures
        juror_vote_spec(old(store)@, final(store)@, info.sender@, is_accept, result),
{
    if store.has_voted(&info.sender) {
        return Err(ContractError::AlreadyVoted {  });
    }
    store.is_juror_voted.put(info.sender, true);
    if is_accept {
        store.accept_vote = store.accept_vote + 1;
    } else {
        store.reject_vote = store.reject_vote + 1;
    }
    let messages: Vec<WasmExecute> = Vec::new();
    assert(messages.deep_view() =~= Seq::<WasmExecuteView>::empty());
    Ok(Response::with_attribute("action", "juror vote", messages))
}

/// What `reset_vote` does: both tallies are zero and nobody has voted.
pub open spec fn reset_vote_spec(
    pre: Ledger,
    post: Ledger,
    result: Result<Response, ContractError>,
) -> bool {
    result is Ok && result->Ok_0@ == acted("reset vote"@, Seq::empty()) && post
        == pre.reset_vote()
}

/// Starts the ballot afresh: both tallies are zero, and everybody may vote again.
pub fn reset_vote(store: &mut EscrowStore) -> (result: Result<Response, ContractError>)
    ensures
        reset_vote_spec(old(store)@, final(store)@, result),
{
    store.accept_vote = 0;
    store.reject_vote = 0;
    store.is_juror_voted.clear();
    let messages: Vec<WasmExecute> = Vec::new();
    assert(messages.deep_view() =~= Seq::<WasmExecuteView>::empty());
    Ok(Response::with_attribute("action", "reset vote", messages))
}

} // verus!
