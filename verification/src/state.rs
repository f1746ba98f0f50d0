//! The escrow store: what is held for each job, who owns it, who works on it,
//! and the juror ballot; together with the ledger, its mathematical model.

use crate::table::Table;
use vstd::prelude::*;

verus! {

/// A principal: an account, known by its address.
pub type Principal = Seq<char>;

/// The denomination of the escrowed token and the address of its ledger.
#[derive(Debug)]
pub struct TokenInfo {
    pub token_denom: String,
    pub token_address: String,
}

/// What a [`TokenInfo`] stands for.
pub struct TokenInfoView {
    pub token_denom: Seq<char>,
    pub token_address: Principal,
}

impl View for TokenInfo {
    type V = TokenInfoView;

    open spec fn view(&self) -> TokenInfoView {
        TokenInfoView { token_denom: self.token_denom@, token_address: self.token_address@ }
    }
}

/// The escrow state as mathematics: every amount is a natural number and
/// every table a map.
#[verifier::ext_equal]
pub struct Ledger {
    pub token_info: TokenInfoView,
    /// What each owner has escrowed for each job.
    pub user_stake: Map<(Principal, u128), nat>,
    /// The collateral that each agent has escrowed for each job.
    pub agent_stake: Map<(Principal, u128), nat>,
    /// The owner of each job, once somebody has staked as its owner.
    pub job_owner: Map<u128, Principal>,
    /// The agents registered for each job, in the order of their stakes.
    pub job_agent: Map<u128, Seq<Principal>>,
    /// The cost per unit of time that each agent last asked for.
    pub agent_cost: Map<Principal, nat>,
    pub accept_vote: nat,
    pub reject_vote: nat,
    /// Who has cast a vote since the ballot was last reset.
    pub is_juror_voted: Map<Principal, bool>,
}

/// The predicate "is somebody else than `who`".
pub open spec fn other_than(who: Principal) -> spec_fn(Principal) -> bool {
    |agent: Principal| agent != who
}

/// The sum of what `cost` gives for each element of `agents`, counting an
/// agent once for each time it occurs.
pub open spec fn sum_of_costs(agents: Seq<Principal>, cost: Map<Principal, nat>) -> nat
    decreases agents.len(),
{
    if agents.len() == 0 {
        0
    } else {
        sum_of_costs(agents.drop_last(), cost) + cost[agents.last()]
    }
}

/// The costs of the first `i` of `agents` sum to no more than those of all of them.
pub proof fn lemma_costs_grow(agents: Seq<Principal>, cost: Map<Principal, nat>, i: int)
    requires
        0 <= i <= agents.len(),
    ensures
        sum_of_costs(agents.take(i), cost) <= sum_of_costs(agents, cost),
    decreases agents.len(),
{
    if i < agents.len() {
        lemma_costs_grow(agents.drop_last(), cost, i);
        assert(agents.drop_last().take(i) =~= agents.take(i));
    } else {
        assert(agents.take(i) =~= agents);
    }
}

impl Ledger {
    /// The state right after initialisation: nothing is escrowed, nobody has voted.
    pub open spec fn init(token_info: TokenInfoView) -> Ledger {
        Ledger {
            token_info,
            user_stake: Map::empty(),
            agent_stake: Map::empty(),
            job_owner: Map::empty(),
            job_agent: Map::empty(),
            agent_cost: Map::empty(),
            accept_vote: 0,
            reject_vote: 0,
            is_juror_voted: Map::empty(),
        }
    }

    /// Every registered agent has a cost on record, and a collateral on
    /// record for the job that it is registered for.
    pub open spec fn wf(self) -> bool {
        forall|job: u128, i: int|
            self.job_agent.contains_key(job) && 0 <= i < self.job_agent[job].len() ==> {
                &&& self.agent_cost.contains_key(#[trigger] self.job_agent[job][i])
                &&& self.agent_stake.contains_key((self.job_agent[job][i], job))
            }
    }

    /// What `who` has escrowed as the owner of `job`: zero where nothing is on record.
    pub open spec fn user_balance(self, who: Principal, job: u128) -> nat {
        if self.user_stake.contains_key((who, job)) {
            self.user_stake[(who, job)]
        } else {
            0
        }
    }

    /// The collateral of `who` as an agent of `job`: zero where nothing is on record.
    pub open spec fn agent_balance(self, who: Principal, job: u128) -> nat {
        if self.agent_stake.contains_key((who, job)) {
            self.agent_stake[(who, job)]
        } else {
            0
        }
    }

    /// The agents registered for `job`: none where no list is on record.
    pub open spec fn agents(self, job: u128) -> Seq<Principal> {
        if self.job_agent.contains_key(job) {
            self.job_agent[job]
        } else {
            Seq::empty()
        }
    }

    /// Whether `who` may move the owner's funds of `job`: nobody owns the job
    /// yet, or `who` is its recorded owner.
    pub open spec fn may_act_as_owner(self, who: Principal, job: u128) -> bool {
        self.job_owner.contains_key(job) ==> self.job_owner[job] == who
    }

    /// Whether `who` has voted since the last reset.
    pub open spec fn has_voted(self, who: Principal) -> bool {
        self.is_juror_voted.contains_key(who) && self.is_juror_voted[who]
    }

    /// Whether `job` has a recorded owner and a recorded list of agents, so
    /// that it can be settled.
    pub open spec fn is_staffed(self, job: u128) -> bool {
        self.job_owner.contains_key(job) && self.job_agent.contains_key(job)
    }

    /// Whether every agent of `job` has a cost on record.
    pub open spec fn is_priced(self, job: u128) -> bool {
        forall|i: int|
            0 <= i < self.agents(job).len() ==> self.agent_cost.contains_key(
                #[trigger] self.agents(job)[i],
            )
    }

    /// What the owner of `job` has escrowed for it.
    pub open spec fn owner_balance(self, job: u128) -> nat {
        self.user_balance(self.job_owner[job], job)
    }

    /// The sum of the costs of the agents of `job`.
    pub open spec fn total_cost(self, job: u128) -> nat {
        sum_of_costs(self.agents(job), self.agent_cost)
    }

    /// The state after `who` has escrowed `amount` more as the owner of `job`.
    /// It becomes the job's owner if the job had none.
    pub open spec fn stake_as_owner(self, who: Principal, job: u128, amount: nat) -> Ledger {
        Ledger {
            job_owner: if self.job_owner.contains_key(job) {
                self.job_owner
            } else {
                self.job_owner.insert(job, who)
            },
            user_stake: self.user_stake.insert((who, job), self.user_balance(who, job) + amount),
            ..self
        }
    }

    /// The state after `who` has taken `amount` back out of the owner's escrow of `job`.
    pub open spec fn unstake_as_owner(self, who: Principal, job: u128, amount: nat) -> Ledger
        recommends
            amount <= self.user_balance(who, job),
    {
        Ledger {
            user_stake: self.user_stake.insert(
                (who, job),
                (self.user_balance(who, job) - amount) as nat,
            ),
            ..self
        }
    }

    /// The state after `who` has escrowed `amount` more as an agent of `job`,
    /// asking for `cost` per unit of time: it is registered once more for the
    /// job, and `cost` replaces what it asked for before, for every job.
    pub open spec fn stake_as_agent(
        self,
        who: Principal,
        job: u128,
        amount: nat,
        cost: nat,
    ) -> Ledger {
        Ledger {
            agent_stake: self.agent_stake.insert(
                (who, job),
                self.agent_balance(who, job) + amount,
            ),
            job_agent: self.job_agent.insert(job, self.agents(job).push(who)),
            agent_cost: self.agent_cost.insert(who, cost),
            ..self
        }
    }

    /// The state after `who` has taken `amount` back out of its collateral for
    /// `job`: every registration of `who` for the job is gone.
    pub open spec fn unstake_as_agent(self, who: Principal, job: u128, amount: nat) -> Ledger
        recommends
            amount <= self.agent_balance(who, job),
    {
        Ledger {
            agent_stake: self.agent_stake.insert(
                (who, job),
                (self.agent_balance(who, job) - amount) as nat,
            ),
            job_agent: self.job_agent.insert(job, self.agents(job).filter(other_than(who))),
            ..self
        }
    }

    /// The equal share of the owner's escrow that each registration of an
    /// agent of `job` is paid: the quotient, rounded down.
    pub open spec fn share(self, job: u128) -> nat
        recommends
            self.agents(job).len() > 0,
    {
        self.owner_balance(job) / self.agents(job).len()
    }

    /// What the `i`-th registration of `job` is paid when the owner's escrow is
    /// split by agent: the share, and with the agent's first registration its
    /// whole collateral.
    pub open spec fn payout_by_agent(self, job: u128, i: int) -> nat
        recommends
            0 <= i < self.agents(job).len(),
    {
        let agents = self.agents(job);
        if agents.take(i).contains(agents[i]) {
            self.share(job)
        } else {
            self.share(job) + self.agent_balance(agents[i], job)
        }
    }

    /// The state after the owner's escrow of `job` has been split by agent:
    /// the owner's escrow and the collateral of every agent of the job are
    /// zero. What the division left over is on nobody's record.
    pub open spec fn distribute_by_agent(self, job: u128) -> Ledger
        recommends
            self.is_staffed(job),
    {
        let agents = self.agents(job);
        Ledger {
            user_stake: self.user_stake.insert((self.job_owner[job], job), 0),
            agent_stake: Map::new(
                |k: (Principal, u128)|
                    self.agent_stake.contains_key(k) || (k.1 == job && agents.contains(k.0)),
                |k: (Principal, u128)|
                    if k.1 == job && agents.contains(k.0) {
                        0
                    } else {
                        self.agent_stake[k]
                    },
            ),
            ..self
        }
    }

    /// The state after every agent of `job` has been paid its cost out of
    /// the owner's escrow; the agents' collateral stays as it was.
    pub open spec fn distribute_by_time(self, job: u128) -> Ledger
        recommends
            self.is_staffed(job),
            self.total_cost(job) <= self.owner_balance(job),
    {
        Ledger {
            user_stake: self.user_stake.insert(
                (self.job_owner[job], job),
                (self.owner_balance(job) - self.total_cost(job)) as nat,
            ),
            ..self
        }
    }

    /// The state after `who` has cast a vote.
    pub open spec fn cast_vote(self, who: Principal, is_accept: bool) -> Ledger {
        Ledger {
            is_juror_voted: self.is_juror_voted.insert(who, true),
            accept_vote: if is_accept {
                self.accept_vote + 1
            } else {
                self.accept_vote
            },
            reject_vote: if is_accept {
                self.reject_vote
            } else {
                self.reject_vote + 1
            },
            ..self
        }
    }

    /// The state after the ballot has been reset: no votes, and nobody has voted.
    pub open spec fn reset_vote(self) -> Ledger {
        Ledger { is_juror_voted: Map::empty(), accept_vote: 0, reject_vote: 0, ..self }
    }
}

/// The amounts that a table of stored `u128` values stands for.
pub open spec fn amounts<K>(stored: Map<K, u128>) -> Map<K, nat> {
    stored.map_values(|amount: u128| amount as nat)
}

/// The escrow state. Each field is the table that its name says; the tables
/// are public, so that a caller can read and write single entries.
pub struct EscrowStore {
    pub token_info: TokenInfo,
    pub user_stake: Table<(String, u128), u128>,
    pub agent_stake: Table<(String, u128), u128>,
    pub job_owner: Table<u128, String>,
    pub job_agent: Table<u128, Vec<String>>,
    pub agent_cost: Table<String, u128>,
    pub accept_vote: u128,
    pub reject_vote: u128,
    pub is_juror_voted: Table<String, bool>,
}

impl View for EscrowStore {
    type V = Ledger;

    open spec fn view(&self) -> Ledger {
        Ledger {
            token_info: self.token_info@,
            user_stake: amounts(self.user_stake@),
            agent_stake: amounts(self.agent_stake@),
            job_owner: self.job_owner@,
            job_agent: self.job_agent@,
            agent_cost: amounts(self.agent_cost@),
            accept_vote: self.accept_vote as nat,
            reject_vote: self.reject_vote as nat,
            is_juror_voted: self.is_juror_voted@,
        }
    }
}

/// A copy of `list`.
pub fn copy_of(list: &Vec<String>) -> (copy: Vec<String>)
    ensures
        copy.deep_view() == list.deep_view(),
{
    let mut copy: Vec<String> = Vec::new();
    let mut i: usize = 0;
    while i < list.len()
        invariant
            i <= list.len(),
            copy.deep_view() == list.deep_view().take(i as int),
        decreases list.len() - i,
    {
        let ghost before = copy.deep_view();
        copy.push(list[i].clone());
        assert(copy.deep_view() =~= before.push(list.deep_view()[i as int]));
        i = i + 1;
        assert(copy.deep_view() =~= list.deep_view().take(i as int));
    }
    assert(list.deep_view().take(list.len() as int) =~= list.deep_view());
    copy
}

/// The elements of `list` that are not `who`, in their order.
pub fn without(list: &Vec<String>, who: &String) -> (rest: Vec<String>)
    ensures
        rest.deep_view() == list.deep_view().filter(other_than(who@)),
{
    let ghost all = list.deep_view();
    let ghost keep = other_than(who@);
    let mut rest: Vec<String> = Vec::new();
    let mut i: usize = 0;
    proof {
        reveal(Seq::filter);
        assert(all.take(0).filter(keep) =~= Seq::<Principal>::empty());
        assert(rest.deep_view() =~= Seq::<Principal>::empty());
    }
    while i < list.len()
        invariant
            i <= list.len(),
            all == list.deep_view(),
            keep == other_than(who@),
            rest.deep_view() == all.take(i as int).filter(keep),
        decreases list.len() - i,
    {
        let ghost before = rest.deep_view();
        if !(list[i] == *who) {
            rest.push(list[i].clone());
            assert(rest.deep_view() =~= before.push(all[i as int]));
        }
        proof {
            reveal(Seq::filter);
            assert(all.take(i + 1).drop_last() =~= all.take(i as int));
            assert(all.take(i + 1).last() == all[i as int]);
        }
        i = i + 1;
    }
    assert(all.take(list.len() as int) =~= all);
    rest
}

/// Whether the element at `at` also occurs before `at`.
pub fn occurs_before(list: &Vec<String>, at: usize) -> (occurs: bool)
    requires
        at < list.len(),
    ensures
        occurs == list.deep_view().take(at as int).contains(list.deep_view()[at as int]),
{
    let ghost all = list.deep_view();
    let mut i: usize = 0;
    while i < at
        invariant
            i <= at < list.len(),
            all == list.deep_view(),
            forall|j: int| 0 <= j < i ==> all[j] != all[at as int],
        decreases at - i,
    {
        if list[i] == list[at] {
            assert(all.take(at as int)[i as int] == all[at as int]);
            return true;
        }
        i = i + 1;
    }
    false
}

impl EscrowStore {
    /// What `who` has escrowed as the owner of job `job_id`.
    pub fn user_balance(&self, who: &String, job_id: u128) -> (balance: u128)
        ensures
            balance == self@.user_balance(who@, job_id),
    {
        match self.user_stake.get(&(who.clone(), job_id)) {
            Some(amount) => *amount,
            None => 0,
        }
    }

    /// The collateral of `who` as an agent of job `job_id`.
    pub fn agent_balance(&self, who: &String, job_id: u128) -> (balance: u128)
        ensures
            balance == self@.agent_balance(who@, job_id),
    {
        match self.agent_stake.get(&(who.clone(), job_id)) {
            Some(amount) => *amount,
            None => 0,
        }
    }

    /// Whether `who` may move the owner's funds of job `job_id`.
    pub fn may_act_as_owner(&self, who: &String, job_id: u128) -> (may: bool)
        ensures
            may == self@.may_act_as_owner(who@, job_id),
    {
        match self.job_owner.get(&job_id) {
            Some(owner) => *owner == *who,
            None => true,
        }
    }

    /// The sum of the costs of the agents of job `job_id`, unless it is more
    /// than what the owner has escrowed for the job.
    pub fn affordable_cost(&self, job_id: u128) -> (total: Option<u128>)
        requires
            self@.is_staffed(job_id),
            self@.is_priced(job_id),
        ensures
            match total {
                Some(total) => total == self@.total_cost(job_id) && total <= self@.owner_balance(
                    job_id,
                ),
                None => self@.total_cost(job_id) > self@.owner_balance(job_id),
            },
    {
        let owner = self.job_owner.get(&job_id).unwrap();
        let agents = self.job_agent.get(&job_id).unwrap();
        let balance = self.user_balance(owner, job_id);
        let ghost all = self@.agents(job_id);
        let ghost cost = self@.agent_cost;
        let mut total: u128 = 0;
        let mut i: usize = 0;
        assert(all.take(0) =~= Seq::<Principal>::empty());
        while i < agents.len()
            invariant
                i <= agents.len(),
                self@.is_priced(job_id),
                all == self@.agents(job_id),
                all == agents.deep_view(),
                cost == self@.agent_cost,
                total == sum_of_costs(all.take(i as int), cost),
                total <= balance,
                balance == self@.owner_balance(job_id),
            decreases agents.len() - i,
        {
            assert(cost.contains_key(all[i as int]));
            let asked = *self.agent_cost.get(&agents[i]).unwrap();
            proof {
                assert(all.take(i + 1).drop_last() =~= all.take(i as int));
                assert(all.take(i + 1).last() == all[i as int]);
                assert(sum_of_costs(all.take(i + 1), cost) == total + asked);
                lemma_costs_grow(all, cost, i + 1);
            }
            if asked > balance - total {
                return None;
            }
            total = total + asked;
            i = i + 1;
        }
        assert(all.take(agents.len() as int) =~= all);
        Some(total)
    }

    /// Whether `who` has voted since the last reset.
    pub fn has_voted(&self, who: &String) -> (voted: bool)
        ensures
            voted == self@.has_voted(who@),
    {
        match self.is_juror_voted.get(who) {
            Some(voted) => *voted,
            None => false,
        }
    }
}

} // verus!
