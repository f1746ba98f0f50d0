use agent_work::contract::execute::{
    agent_stake_with, agent_unstake_with, distribute_rewards_by_agent_with,
    distribute_rewards_by_time_with, user_stake_with, user_unstake_with,
};
use agent_work::contract::instantiate;
use agent_work::error::ContractError;
use agent_work::host::{Coin, ContractInfo, Env, MessageInfo, Response, WasmExecute};
use agent_work::msg::InstantiateMsg;
use agent_work::payload::{encode_transfers, Transfer};
use agent_work::state::{copy_of, occurs_before, without, EscrowStore};
use agent_work::table::{Table, TableKey};
use cosmwasm_std::StdError;

fn fresh() -> EscrowStore {
    instantiate(
        Env { contract: ContractInfo { address: "contract".to_string() } },
        MessageInfo { sender: "admin".to_string(), funds: vec![] },
        InstantiateMsg { token_symbol: "TTK".to_string(), token_contract_addr: "token".to_string() },
    )
    .0
}

fn from(sender: &str) -> MessageInfo {
    MessageInfo { sender: sender.to_string(), funds: vec![Coin { denom: "u".to_string(), amount: 1 }] }
}

fn names(list: &[&str]) -> Vec<String> {
    list.iter().map(|name| name.to_string()).collect()
}

#[test]
fn a_table_holds_the_last_value_put_under_a_key() {
    let mut table: Table<(String, u128), u128> = Table::new();
    assert_eq!(table.get(&("a".to_string(), 1)), None);
    assert!(table.entries().is_empty());
    table.put(("a".to_string(), 1), 10);
    table.put(("a".to_string(), 2), 20);
    table.put(("b".to_string(), 1), 30);
    assert_eq!(table.get(&("a".to_string(), 1)), Some(&10));
    assert_eq!(table.get(&("a".to_string(), 2)), Some(&20));
    assert_eq!(table.get(&("b".to_string(), 1)), Some(&30));
    assert_eq!(table.get(&("b".to_string(), 2)), None);
    table.put(("a".to_string(), 2), 21);
    assert_eq!(table.get(&("a".to_string(), 2)), Some(&21));
    assert_eq!(table.get(&("a".to_string(), 1)), Some(&10));
    assert_eq!(
        table.entries(),
        &vec![(("a".to_string(), 1), 10), (("a".to_string(), 2), 21), (("b".to_string(), 1), 30)]
    );
    table.clear();
    assert_eq!(table.get(&("a".to_string(), 1)), None);
    assert!(table.entries().is_empty());
    table.put(("a".to_string(), 1), 11);
    assert_eq!(table.get(&("a".to_string(), 1)), Some(&11));
}

#[test]
fn keys_are_the_same_when_they_read_the_same() {
    assert!(7u128.same_key(&7));
    assert!(!7u128.same_key(&8));
    assert!("a".to_string().same_key(&"a".to_string()));
    assert!(!"a".to_string().same_key(&"A".to_string()));
    assert!(("a".to_string(), 1u128).same_key(&("a".to_string(), 1)));
    assert!(!("a".to_string(), 1u128).same_key(&("a".to_string(), 2)));
    assert!(!("a".to_string(), 1u128).same_key(&("b".to_string(), 1)));
}

#[test]
fn lists_of_principals() {
    let list = names(&["a", "b", "a", "c", "b"]);
    assert_eq!(copy_of(&list), list);
    assert_eq!(copy_of(&vec![]), Vec::<String>::new());
    assert_eq!(without(&list, &"a".to_string()), names(&["b", "c", "b"]));
    assert_eq!(without(&list, &"b".to_string()), names(&["a", "a", "c"]));
    assert_eq!(without(&list, &"x".to_string()), list);
    assert_eq!(without(&names(&["a", "a"]), &"a".to_string()), Vec::<String>::new());
    assert!(!occurs_before(&list, 0));
    assert!(!occurs_before(&list, 1));
    assert!(occurs_before(&list, 2));
    assert!(!occurs_before(&list, 3));
    assert!(occurs_before(&list, 4));
}

#[test]
fn a_plan_is_encoded_payment_by_payment() {
    let plan = vec![
        Transfer { recipient: "a".to_string(), amount: 0 },
        Transfer { recipient: "b \"quoted\"".to_string(), amount: u128::MAX },
    ];
    let requests = encode_transfers(&plan).unwrap();
    assert_eq!(
        requests,
        vec![
            b"{\"transfer\":{\"recipient\":\"a\",\"amount\":\"0\"}}".to_vec(),
            b"{\"transfer\":{\"recipient\":\"b \\\"quoted\\\"\",\"amount\":\"340282366920938463463374607431768211455\"}}"
                .to_vec(),
        ]
    );
    assert_eq!(encode_transfers(&vec![]).unwrap(), Vec::<Vec<u8>>::new());
}

#[test]
fn a_stake_takes_the_request_that_it_is_handed() {
    let mut store = fresh();
    let response = user_stake_with(&mut store, from("owner"), 5, 1, Ok(b"pull".to_vec())).unwrap();
    assert_eq!(
        response.messages,
        vec![WasmExecute {
            contract_addr: "token".to_string(),
            msg: b"pull".to_vec(),
            funds: vec![Coin { denom: "u".to_string(), amount: 1 }],
        }]
    );
    assert_eq!(store.user_balance(&"owner".to_string(), 1), 5);
    assert_eq!(store.job_owner.get(&1), Some(&"owner".to_string()));

    let response = user_unstake_with(&mut store, from("owner"), 2, 1, Ok(b"push".to_vec())).unwrap();
    assert_eq!(response.messages.len(), 1);
    assert_eq!(response.messages[0].msg, b"push".to_vec());
    assert_eq!(store.user_balance(&"owner".to_string(), 1), 3);

    let response =
        agent_stake_with(&mut store, from("agent"), 9, 1, 4, Ok(b"pull 9".to_vec())).unwrap();
    assert_eq!(response.messages[0].msg, b"pull 9".to_vec());
    assert_eq!(store.agent_balance(&"agent".to_string(), 1), 9);
    assert_eq!(store.agent_cost.get(&"agent".to_string()), Some(&4));
    assert_eq!(store.job_agent.get(&1), Some(&names(&["agent"])));

    let response =
        agent_unstake_with(&mut store, from("agent"), 9, 1, Ok(b"push 9".to_vec())).unwrap();
    assert_eq!(response.messages[0].msg, b"push 9".to_vec());
    assert_eq!(store.agent_balance(&"agent".to_string(), 1), 0);
    assert_eq!(store.job_agent.get(&1), Some(&names(&[])));
}

fn is_refusal_of(result: Result<Response, ContractError>, text: &str) -> bool {
    match result {
        Err(ContractError::Std(e)) => e == StdError::generic_err(text),
        _ => false,
    }
}

#[test]
fn a_refused_request_fails_the_call_and_changes_nothing() {
    let mut store = fresh();
    let no = |text: &str| Err::<Vec<u8>, StdError>(StdError::generic_err(text));
    let none = |text: &str| Err::<Vec<Vec<u8>>, StdError>(StdError::generic_err(text));

    assert!(is_refusal_of(user_stake_with(&mut store, from("owner"), 5, 1, no("a")), "a"));
    assert_eq!(store.user_stake.get(&("owner".to_string(), 1)), None);
    assert_eq!(store.job_owner.get(&1), None);

    assert!(is_refusal_of(agent_stake_with(&mut store, from("agent"), 5, 1, 3, no("b")), "b"));
    assert_eq!(store.agent_stake.get(&("agent".to_string(), 1)), None);
    assert_eq!(store.job_agent.get(&1), None);
    assert_eq!(store.agent_cost.get(&"agent".to_string()), None);

    user_stake_with(&mut store, from("owner"), 50, 1, Ok(vec![1])).unwrap();
    agent_stake_with(&mut store, from("agent"), 5, 1, 3, Ok(vec![2])).unwrap();

    assert!(is_refusal_of(user_unstake_with(&mut store, from("owner"), 5, 1, no("c")), "c"));
    assert_eq!(store.user_balance(&"owner".to_string(), 1), 50);
    assert!(is_refusal_of(agent_unstake_with(&mut store, from("agent"), 5, 1, no("d")), "d"));
    assert_eq!(store.agent_balance(&"agent".to_string(), 1), 5);
    assert_eq!(store.job_agent.get(&1), Some(&names(&["agent"])));

    assert!(is_refusal_of(distribute_rewards_by_agent_with(&mut store, 1, none("e")), "e"));
    assert!(is_refusal_of(distribute_rewards_by_time_with(&mut store, 1, none("f")), "f"));
    assert_eq!(store.user_balance(&"owner".to_string(), 1), 50);
    assert_eq!(store.agent_balance(&"agent".to_string(), 1), 5);

    // what the rules refuse comes before what the encoder refuses
    let refused = user_stake_with(&mut store, from("other"), 5, 1, no("g"));
    assert!(matches!(refused, Err(ContractError::NotJobOwner {})));
    let refused = user_unstake_with(&mut store, from("other"), 5, 1, no("h"));
    assert!(matches!(refused, Err(ContractError::NotJobOwner {})));
    let refused = user_unstake_with(&mut store, from("owner"), 51, 1, no("i"));
    assert!(matches!(refused, Err(ContractError::InsufficientStake {})));
    let refused = agent_unstake_with(&mut store, from("agent"), 6, 1, no("j"));
    assert!(matches!(refused, Err(ContractError::InsufficientStake {})));
    agent_stake_with(&mut store, from("agent"), 0, 1, 51, Ok(vec![3])).unwrap();
    let refused = distribute_rewards_by_time_with(&mut store, 1, none("k"));
    assert!(matches!(refused, Err(ContractError::InsufficientStake {})));
}

#[test]
fn a_settlement_takes_the_requests_that_it_is_handed() {
    let mut store = fresh();
    user_stake_with(&mut store, from("owner"), 50, 1, Ok(vec![1])).unwrap();
    agent_stake_with(&mut store, from("a"), 5, 1, 3, Ok(vec![2])).unwrap();
    agent_stake_with(&mut store, from("b"), 6, 1, 4, Ok(vec![3])).unwrap();

    let requests = vec![b"to a".to_vec(), b"to b".to_vec()];
    let response = distribute_rewards_by_time_with(&mut store, 1, Ok(requests)).unwrap();
    assert_eq!(
        response.messages,
        vec![
            WasmExecute { contract_addr: "token".to_string(), msg: b"to a".to_vec(), funds: vec![] },
            WasmExecute { contract_addr: "token".to_string(), msg: b"to b".to_vec(), funds: vec![] },
        ]
    );
    assert_eq!(store.user_balance(&"owner".to_string(), 1), 43);
    assert_eq!(store.agent_balance(&"a".to_string(), 1), 5);
    assert_eq!(store.agent_balance(&"b".to_string(), 1), 6);

    let requests = vec![b"all to a".to_vec(), b"all to b".to_vec()];
    let response = distribute_rewards_by_agent_with(&mut store, 1, Ok(requests)).unwrap();
    assert_eq!(
        response.messages,
        vec![
            WasmExecute {
                contract_addr: "token".to_string(),
                msg: b"all to a".to_vec(),
                funds: vec![]
            },
            WasmExecute {
                contract_addr: "token".to_string(),
                msg: b"all to b".to_vec(),
                funds: vec![]
            },
        ]
    );
    assert_eq!(store.user_balance(&"owner".to_string(), 1), 0);
    assert_eq!(store.agent_balance(&"a".to_string(), 1), 0);
    assert_eq!(store.agent_balance(&"b".to_string(), 1), 0);
    assert_eq!(store.user_stake.get(&("owner".to_string(), 1)), Some(&0));
    assert_eq!(store.agent_stake.get(&("a".to_string(), 1)), Some(&0));
}

#[test]
fn the_store_reads_what_its_tables_hold() {
    let mut store = fresh();
    assert!(store.may_act_as_owner(&"anybody".to_string(), 1));
    assert!(!store.has_voted(&"anybody".to_string()));
    store.job_owner.put(1, "owner".to_string());
    assert!(store.may_act_as_owner(&"owner".to_string(), 1));
    assert!(!store.may_act_as_owner(&"anybody".to_string(), 1));
    assert!(store.may_act_as_owner(&"anybody".to_string(), 2));
    store.is_juror_voted.put("juror".to_string(), true);
    assert!(store.has_voted(&"juror".to_string()));
    store.is_juror_voted.put("juror".to_string(), false);
    assert!(!store.has_voted(&"juror".to_string()));

    store.user_stake.put(("owner".to_string(), 1), 10);
    store.job_agent.put(1, names(&["a", "b", "a"]));
    store.agent_cost.put("a".to_string(), 3);
    store.agent_cost.put("b".to_string(), 4);
    // 3 + 4 + 3
    assert_eq!(store.affordable_cost(1), Some(10));
    store.agent_cost.put("b".to_string(), 5);
    assert_eq!(store.affordable_cost(1), None);
    store.job_agent.put(1, vec![]);
    assert_eq!(store.affordable_cost(1), Some(0));
}
