use cw_oracle_hub::contract;
use cw_oracle_hub::deposit::{Denom, DepositInfo};
use cw_oracle_hub::error::ContractError;
use cw_oracle_hub::expiration::{BlockInfo, Duration, Expiration};
use cw_oracle_hub::median::calculate_median_price;
use cw_oracle_hub::msg::{Coin, DispatchMsg, Env, InstantiateMsg, MessageInfo, VoteData};
use cw_oracle_hub::state::{OracleState, Status};
use cw_oracle_hub::threshold::{Threshold, ThresholdResponse};

fn env_at(height: u64, seconds: u64) -> Env {
    Env {
        block: BlockInfo { height, time_nanos: seconds * 1_000_000_000 },
        contract_address: "oracle_hub".to_string(),
    }
}

fn info(sender: &str) -> MessageInfo {
    MessageInfo { sender: sender.to_string(), funds: Vec::new() }
}

fn info_with_funds(sender: &str, denom: &str, amount: u128) -> MessageInfo {
    MessageInfo {
        sender: sender.to_string(),
        funds: vec![Coin { denom: denom.to_string(), amount }],
    }
}

fn single(key: &str, price: u128) -> VoteData {
    let mut d = VoteData::new();
    d.insert(key.to_string(), price);
    d
}

/// Four members of weight 1; an absolute count of 3 passes a proposal.
fn init_state() -> OracleState {
    instantiate_with(None, vec!["orai".to_string()], Vec::new())
}

fn instantiate_with(
    deposit: Option<DepositInfo>,
    price_keys: Vec<String>,
    hook_contracts: Vec<String>,
) -> OracleState {
    contract::instantiate(
        InstantiateMsg {
            owner: "member0".to_string(),
            group_addr: "group".to_string(),
            threshold: Threshold::AbsoluteCount { weight: 3 },
            max_submitting_period: Duration::Time(3600),
            proposal_deposit: deposit,
            price_keys,
            hook_contracts,
        },
        4,
    )
    .unwrap()
}

#[test]
fn update_price_feed() {
    let mut state = init_state();
    let env = env_at(10, 100);

    // first user proposes
    contract::execute_propose(
        &mut state,
        &env,
        &info("member0"),
        single("orai", 11_000_000u128),
        None,
        Some(1),
        4,
    )
    .unwrap();
    let proposal_id = state.last_id();

    // second user votes
    contract::execute_vote(
        &mut state,
        &env,
        &info("member1"),
        proposal_id,
        single("orai", 11_000_000u128),
        Some(1),
    )
    .unwrap();

    // third user votes: the proposal passes and executes on the spot
    contract::execute_vote(
        &mut state,
        &env,
        &info("member2"),
        proposal_id,
        single("orai", 11_000_000u128),
        Some(1),
    )
    .unwrap();

    let proposal = contract::query_proposal(&state, &env, proposal_id).unwrap();
    assert_eq!(proposal.status, Status::Executed);

    // a new proposal can open now that the last one completed
    contract::execute_propose(
        &mut state,
        &env,
        &info("member0"),
        single("orai", 11_000_000u128),
        None,
        Some(1),
        4,
    )
    .unwrap();

    // but not while that one is still open
    contract::execute_propose(
        &mut state,
        &env,
        &info("member0"),
        single("orai", 11_000_000u128),
        None,
        Some(1),
        4,
    )
    .unwrap_err();

    // after enough time the open proposal expires and a new one may open
    let late = env_at(10, 100 + 3700);
    contract::execute_propose(
        &mut state,
        &late,
        &info("member0"),
        single("orai", 11_000_000u128),
        None,
        Some(1),
        4,
    )
    .unwrap();
}

#[test]
fn query_last_proposal() {
    let mut state = init_state();
    let env = env_at(10, 100);

    contract::execute_propose(
        &mut state,
        &env,
        &info("member0"),
        single("orai", 11_000_000u128),
        None,
        Some(1),
        4,
    )
    .unwrap();
    let proposal_id = state.last_id();

    contract::execute_vote(
        &mut state,
        &env,
        &info("member1"),
        proposal_id,
        single("orai", 11_000_000u128),
        Some(1),
    )
    .unwrap();

    contract::execute_vote(
        &mut state,
        &env,
        &info("member2"),
        proposal_id,
        single("orai", 11_100_000u128),
        Some(1),
    )
    .unwrap();

    let proposal = contract::query_last_proposal(&state, &env).unwrap();
    assert_eq!(proposal.status, Status::Executed);
    assert_eq!(proposal.votes.len(), 3);
}

#[test]
fn update_config() {
    let mut state = init_state();

    // not the owner: refused
    let err = contract::execute_update_config(
        &mut state,
        &info("member1"),
        None,
        None,
        Some(Duration::Time(1200)),
        Some(vec!["ORAI".to_string(), "ETH".to_string()]),
        None,
    )
    .unwrap_err();
    assert_eq!(err, ContractError::Unauthorized);

    // the owner: applied
    contract::execute_update_config(
        &mut state,
        &info("member0"),
        None,
        None,
        Some(Duration::Time(1200)),
        Some(vec!["ORAI".to_string(), "ETH".to_string()]),
        None,
    )
    .unwrap();

    let config = contract::query_config(&state);
    assert_eq!(config.max_submitting_period, Duration::Time(1200));
    assert_eq!(config.price_keys, vec!["ORAI".to_string(), "ETH".to_string()]);
}

#[test]
fn median_of_three_and_truncation() {
    // odd count: the middle element
    assert_eq!(
        calculate_median_price(vec![11_000_000u128, 11_000_000u128, 11_100_000u128]),
        11_000_000u128
    );
    // even count: the floor of the average of the two middle elements
    assert_eq!(calculate_median_price(vec![10u128, 20u128]), 15u128);
    // 15.5 truncates to 15, it is not rounded to nearest
    assert_eq!(calculate_median_price(vec![10u128, 21u128]), 15u128);
    // a single submission is its own median
    assert_eq!(calculate_median_price(vec![7u128]), 7u128);
    // unsorted input is sorted before aggregation
    assert_eq!(calculate_median_price(vec![30u128, 10u128, 20u128]), 20u128);
}

#[test]
fn expiry_is_clamped_never_rejected() {
    let mut state = init_state();
    let env = env_at(10, 100);

    // a request far past the window is silently clamped down to it
    contract::execute_propose(
        &mut state,
        &env,
        &info("member0"),
        single("orai", 5u128),
        Some(Expiration::AtTime(1_000_000 * 1_000_000_000)),
        Some(1),
        4,
    )
    .unwrap();
    let pr = contract::query_last_proposal(&state, &env).unwrap();
    assert_eq!(pr.expires, Expiration::AtTime((100 + 3600) * 1_000_000_000));

    // a request inside the window is kept as it is
    let late = env_at(10, 100 + 3700);
    contract::execute_propose(
        &mut state,
        &late,
        &info("member0"),
        single("orai", 5u128),
        Some(Expiration::AtTime((100 + 3700 + 60) * 1_000_000_000)),
        Some(1),
        4,
    )
    .unwrap();
    let pr = contract::query_last_proposal(&state, &late).unwrap();
    assert_eq!(pr.expires, Expiration::AtTime((100 + 3700 + 60) * 1_000_000_000));

    // a request already in the past is accepted: the proposal opens already
    // expired and reads as rejected
    let later = env_at(10, 100 + 7500);
    contract::execute_propose(
        &mut state,
        &later,
        &info("member0"),
        single("orai", 5u128),
        Some(Expiration::AtTime(1_000_000_000)),
        Some(1),
        4,
    )
    .unwrap();
    let pr = contract::query_last_proposal(&state, &later).unwrap();
    assert_eq!(pr.expires, Expiration::AtTime(1_000_000_000));
    assert_eq!(pr.status, Status::Rejected);

    // mixed units cannot be compared
    let err = contract::execute_propose(
        &mut state,
        &later,
        &info("member0"),
        single("orai", 5u128),
        Some(Expiration::AtHeight(50)),
        Some(1),
        4,
    )
    .unwrap_err();
    assert_eq!(err, ContractError::WrongExpiration);
}

#[test]
fn duplicate_vote_rejected_and_harmless() {
    let mut state = init_state();
    let env = env_at(10, 100);

    contract::execute_propose(
        &mut state,
        &env,
        &info("member0"),
        single("orai", 10u128),
        None,
        Some(1),
        4,
    )
    .unwrap();
    let id = state.last_id();

    contract::execute_vote(&mut state, &env, &info("member1"), id, single("orai", 11u128), Some(1))
        .unwrap();
    let before = contract::query_proposal(&state, &env, id).unwrap();

    // the proposer's opening ballot already counts as their vote
    let err = contract::execute_vote(
        &mut state,
        &env,
        &info("member0"),
        id,
        single("orai", 12u128),
        Some(1),
    )
    .unwrap_err();
    assert_eq!(err, ContractError::AlreadyVoted);

    // a second ballot from the same voter is refused too
    let err = contract::execute_vote(
        &mut state,
        &env,
        &info("member1"),
        id,
        single("orai", 12u128),
        Some(1),
    )
    .unwrap_err();
    assert_eq!(err, ContractError::AlreadyVoted);

    // the failed attempts changed nothing
    let after = contract::query_proposal(&state, &env, id).unwrap();
    assert_eq!(after.status, before.status);
    assert_eq!(after.votes.len(), before.votes.len());
    let kept = contract::query_vote(&state, id, "member1".to_string()).vote.unwrap();
    assert_eq!(kept.data.data.get(&"orai".to_string()), 11u128);
}

#[test]
fn threshold_lock_in_after_expiry() {
    let mut state = init_state();
    let env = env_at(10, 100);

    contract::execute_propose(
        &mut state,
        &env,
        &info("member0"),
        single("orai", 10u128),
        None,
        Some(3),
        4,
    )
    .unwrap();
    let id = state.last_id();

    // the opening ballot alone meets the threshold: the proposal reads as
    // passed, and still does long after its expiration
    let pr = contract::query_proposal(&state, &env, id).unwrap();
    assert_eq!(pr.status, Status::Passed);
    let late = env_at(10, 100 + 50_000);
    let pr = contract::query_proposal(&state, &late, id).unwrap();
    assert_eq!(pr.status, Status::Passed);

    // and a passing proposal can never be closed
    let err = contract::execute_close(&mut state, &late, &info("anyone"), id).unwrap_err();
    assert_eq!(err, ContractError::WrongCloseStatus);
}

#[test]
fn close_exclusivity() {
    let mut state = init_state();
    let env = env_at(10, 100);

    contract::execute_propose(
        &mut state,
        &env,
        &info("member0"),
        single("orai", 10u128),
        None,
        Some(1),
        4,
    )
    .unwrap();
    let id = state.last_id();

    // not expired yet
    let err = contract::execute_close(&mut state, &env, &info("anyone"), id).unwrap_err();
    assert_eq!(err, ContractError::NotExpired);

    // expired and never passed: close succeeds and rejects it
    let late = env_at(10, 100 + 3700);
    contract::execute_close(&mut state, &late, &info("anyone"), id).unwrap();
    let pr = contract::query_proposal(&state, &late, id).unwrap();
    assert_eq!(pr.status, Status::Rejected);

    // already rejected: cannot be closed twice
    let err = contract::execute_close(&mut state, &late, &info("anyone"), id).unwrap_err();
    assert_eq!(err, ContractError::WrongCloseStatus);

    // an executed proposal cannot be closed either
    contract::execute_propose(
        &mut state,
        &late,
        &info("member0"),
        single("orai", 10u128),
        None,
        Some(1),
        4,
    )
    .unwrap();
    let id2 = state.last_id();
    contract::execute_vote(&mut state, &late, &info("member1"), id2, single("orai", 10u128), Some(1))
        .unwrap();
    contract::execute_vote(&mut state, &late, &info("member2"), id2, single("orai", 10u128), Some(1))
        .unwrap();
    let err = contract::execute_close(&mut state, &late, &info("anyone"), id2).unwrap_err();
    assert_eq!(err, ContractError::WrongCloseStatus);

    // a missing proposal cannot be closed
    let err = contract::execute_close(&mut state, &late, &info("anyone"), 99).unwrap_err();
    assert_eq!(err, ContractError::NotFound);
}

#[test]
fn end_to_end_with_hooks_and_deposit() {
    let deposit = DepositInfo {
        amount: 100u128,
        denom: Denom::Native("orai".to_string()),
        refund_failed_proposals: false,
    };
    let mut state = instantiate_with(
        Some(deposit),
        vec!["orai".to_string()],
        vec!["hook_a".to_string(), "hook_b".to_string()],
    );
    let env = env_at(10, 100);

    // the proposer pays the deposit along with the call
    let resp = contract::execute_propose(
        &mut state,
        &env,
        &info_with_funds("member0", "orai", 100u128),
        single("orai", 11_000_000u128),
        None,
        Some(1),
        4,
    )
    .unwrap();
    // a native deposit arrives with the call: nothing to pull in
    assert_eq!(resp.messages.len(), 0);
    let id = state.last_id();

    let resp = contract::execute_vote(
        &mut state,
        &env,
        &info("member1"),
        id,
        single("orai", 11_000_000u128),
        Some(1),
    )
    .unwrap();
    assert_eq!(resp.messages.len(), 0);

    // the third ballot passes the proposal: the deposit returns to the
    // proposer, then one price-append instruction goes to each hook
    let resp = contract::execute_vote(
        &mut state,
        &env,
        &info("member2"),
        id,
        single("orai", 11_000_000u128),
        Some(1),
    )
    .unwrap();
    assert_eq!(resp.messages.len(), 3);
    match &resp.messages[0] {
        DispatchMsg::ReturnDeposit { denom, recipient, amount } => {
            assert!(matches!(denom, Denom::Native(d) if d == "orai"));
            assert_eq!(recipient, "member0");
            assert_eq!(*amount, 100u128);
        },
        other => panic!("expected a deposit return, got {:?}", other),
    }
    for (k, hook) in ["hook_a", "hook_b"].iter().enumerate() {
        match &resp.messages[1 + k] {
            DispatchMsg::AppendPrice { contract_addr, price_key, price, timestamp_seconds } => {
                assert_eq!(contract_addr, hook);
                assert_eq!(price_key, "orai");
                assert_eq!(*price, 11_000_000u128);
                assert_eq!(*timestamp_seconds, 100u64);
            },
            other => panic!("expected a price append, got {:?}", other),
        }
    }

    let pr = contract::query_proposal(&state, &env, id).unwrap();
    assert_eq!(pr.status, Status::Executed);
}

#[test]
fn deposit_must_be_paid() {
    let deposit = DepositInfo {
        amount: 100u128,
        denom: Denom::Native("orai".to_string()),
        refund_failed_proposals: true,
    };
    let mut state =
        instantiate_with(Some(deposit), vec!["orai".to_string()], Vec::new());
    let env = env_at(10, 100);

    // no funds attached
    let err = contract::execute_propose(
        &mut state,
        &env,
        &info("member0"),
        single("orai", 10u128),
        None,
        Some(1),
        4,
    )
    .unwrap_err();
    assert_eq!(err, ContractError::Payment);

    // not enough attached
    let err = contract::execute_propose(
        &mut state,
        &env,
        &info_with_funds("member0", "orai", 99u128),
        single("orai", 10u128),
        None,
        Some(1),
        4,
    )
    .unwrap_err();
    assert_eq!(err, ContractError::Payment);

    // overpayment passes the check (it is simply kept)
    contract::execute_propose(
        &mut state,
        &env,
        &info_with_funds("member0", "orai", 150u128),
        single("orai", 10u128),
        None,
        Some(1),
        4,
    )
    .unwrap();
    let id = state.last_id();

    // this deposit refunds failed proposals: closing the expired proposal
    // emits the refund
    let late = env_at(10, 100 + 3700);
    let resp = contract::execute_close(&mut state, &late, &info("anyone"), id).unwrap();
    assert_eq!(resp.messages.len(), 1);
    match &resp.messages[0] {
        DispatchMsg::ReturnDeposit { recipient, amount, .. } => {
            assert_eq!(recipient, "member0");
            assert_eq!(*amount, 100u128);
        },
        other => panic!("expected a deposit return, got {:?}", other),
    }
}

#[test]
fn cw20_deposit_is_pulled_in() {
    let deposit = DepositInfo {
        amount: 100u128,
        denom: Denom::Cw20("token_contract".to_string()),
        refund_failed_proposals: false,
    };
    let mut state =
        instantiate_with(Some(deposit), vec!["orai".to_string()], Vec::new());
    let env = env_at(10, 100);

    // a token deposit passes the native check without funds, but the
    // response carries the instruction pulling the tokens in
    let resp = contract::execute_propose(
        &mut state,
        &env,
        &info("member0"),
        single("orai", 10u128),
        None,
        Some(1),
        4,
    )
    .unwrap();
    assert_eq!(resp.messages.len(), 1);
    match &resp.messages[0] {
        DispatchMsg::TakeDeposit { cw20_addr, owner, recipient, amount } => {
            assert_eq!(cw20_addr, "token_contract");
            assert_eq!(owner, "member0");
            assert_eq!(recipient, "oracle_hub");
            assert_eq!(*amount, 100u128);
        },
        other => panic!("expected a deposit collection, got {:?}", other),
    }
}

#[test]
fn membership_checks() {
    let mut state = init_state();
    let env = env_at(10, 100);

    // a non-member cannot propose
    let err = contract::execute_propose(
        &mut state,
        &env,
        &info("stranger"),
        single("orai", 10u128),
        None,
        None,
        4,
    )
    .unwrap_err();
    assert_eq!(err, ContractError::Unauthorized);

    // a zero-weight member may propose; the opening ballot counts
    contract::execute_propose(
        &mut state,
        &env,
        &info("observer"),
        single("orai", 10u128),
        None,
        Some(0),
        4,
    )
    .unwrap();
    let id = state.last_id();
    let pr = contract::query_proposal(&state, &env, id).unwrap();
    assert_eq!(pr.status, Status::Open);

    // a non-voting caller cannot vote
    let err = contract::execute_vote(
        &mut state,
        &env,
        &info("stranger"),
        id,
        single("orai", 10u128),
        None,
    )
    .unwrap_err();
    assert_eq!(err, ContractError::Unauthorized);

    // only the membership source may deliver roster notifications
    let err = contract::execute_membership_hook(&mut state, &env, &info("stranger")).unwrap_err();
    assert_eq!(err, ContractError::Unauthorized);
    contract::execute_membership_hook(&mut state, &env, &info("group")).unwrap();
}

#[test]
fn vote_schema_and_lifecycle_errors() {
    let mut state = init_state();
    let env = env_at(10, 100);

    // wrong key set
    let err = contract::execute_propose(
        &mut state,
        &env,
        &info("member0"),
        single("btc", 10u128),
        None,
        Some(1),
        4,
    )
    .unwrap_err();
    assert_eq!(err, ContractError::WrongVoteData);

    contract::execute_propose(
        &mut state,
        &env,
        &info("member0"),
        single("orai", 10u128),
        None,
        Some(1),
        4,
    )
    .unwrap();
    let id = state.last_id();

    // extra key alongside the right one
    let mut two = single("orai", 10u128);
    two.insert("btc".to_string(), 5u128);
    let err = contract::execute_vote(&mut state, &env, &info("member1"), id, two, Some(1))
        .unwrap_err();
    assert_eq!(err, ContractError::WrongVoteData);

    // unknown proposal
    let err = contract::execute_vote(
        &mut state,
        &env,
        &info("member1"),
        id + 1,
        single("orai", 10u128),
        Some(1),
    )
    .unwrap_err();
    assert_eq!(err, ContractError::NotFound);

    // expired proposal
    let late = env_at(10, 100 + 3700);
    let err = contract::execute_vote(
        &mut state,
        &late,
        &info("member1"),
        id,
        single("orai", 10u128),
        Some(1),
    )
    .unwrap_err();
    assert_eq!(err, ContractError::Expired);

    // executed proposal accepts no more ballots
    contract::execute_propose(
        &mut state,
        &late,
        &info("member0"),
        single("orai", 10u128),
        None,
        Some(3),
        4,
    )
    .unwrap();
    let id2 = state.last_id();
    contract::execute_vote(&mut state, &late, &info("member1"), id2, single("orai", 10u128), Some(1))
        .unwrap();
    let err = contract::execute_vote(
        &mut state,
        &late,
        &info("member2"),
        id2,
        single("orai", 10u128),
        Some(1),
    )
    .unwrap_err();
    assert_eq!(err, ContractError::NotOpen);
}

#[test]
fn threshold_validation_at_instantiate() {
    let base = |threshold: Threshold| InstantiateMsg {
        owner: "member0".to_string(),
        group_addr: "group".to_string(),
        threshold,
        max_submitting_period: Duration::Time(3600),
        proposal_deposit: None,
        price_keys: vec!["orai".to_string()],
        hook_contracts: Vec::new(),
    };
    // zero weight is unreachable
    let err = contract::instantiate(base(Threshold::AbsoluteCount { weight: 0 }), 4).unwrap_err();
    assert_eq!(err, ContractError::Threshold);
    // more weight than the membership holds is unreachable
    let err = contract::instantiate(base(Threshold::AbsoluteCount { weight: 5 }), 4).unwrap_err();
    assert_eq!(err, ContractError::Threshold);
    // a percentage below one half is refused
    let err = contract::instantiate(
        base(Threshold::AbsolutePercentage { percentage: 400_000_000_000_000_000u128 }),
        4,
    )
    .unwrap_err();
    assert_eq!(err, ContractError::Threshold);
    // one half exactly is accepted
    contract::instantiate(
        base(Threshold::AbsolutePercentage { percentage: 500_000_000_000_000_000u128 }),
        4,
    )
    .unwrap();
}

#[test]
fn percentage_threshold_tally() {
    // 50% of 4 members of weight 1: two ballots pass
    let mut state = contract::instantiate(
        InstantiateMsg {
            owner: "member0".to_string(),
            group_addr: "group".to_string(),
            threshold: Threshold::AbsolutePercentage { percentage: 500_000_000_000_000_000u128 },
            max_submitting_period: Duration::Time(3600),
            proposal_deposit: None,
            price_keys: vec!["orai".to_string()],
            hook_contracts: Vec::new(),
        },
        4,
    )
    .unwrap();
    let env = env_at(10, 100);
    contract::execute_propose(
        &mut state,
        &env,
        &info("member0"),
        single("orai", 10u128),
        None,
        Some(1),
        4,
    )
    .unwrap();
    let id = state.last_id();
    let pr = contract::query_proposal(&state, &env, id).unwrap();
    assert_eq!(pr.status, Status::Open);
    contract::execute_vote(&mut state, &env, &info("member1"), id, single("orai", 20u128), Some(1))
        .unwrap();
    let pr = contract::query_proposal(&state, &env, id).unwrap();
    assert_eq!(pr.status, Status::Executed);

    let resp = contract::query_threshold(&state, 4);
    assert_eq!(
        resp,
        ThresholdResponse::AbsolutePercentage {
            percentage: 500_000_000_000_000_000u128,
            total_weight: 4
        }
    );
}

#[test]
fn multi_key_aggregation() {
    let mut state = instantiate_with(
        None,
        vec!["ORAI".to_string(), "ETH".to_string()],
        vec!["hook_a".to_string()],
    );
    let env = env_at(10, 100);
    let both = |orai: u128, eth: u128| {
        let mut d = VoteData::new();
        d.insert("ORAI".to_string(), orai);
        d.insert("ETH".to_string(), eth);
        d
    };
    contract::execute_propose(&mut state, &env, &info("member0"), both(10, 100), None, Some(1), 4)
        .unwrap();
    let id = state.last_id();
    contract::execute_vote(&mut state, &env, &info("member1"), id, both(20, 300), Some(1)).unwrap();
    let resp =
        contract::execute_vote(&mut state, &env, &info("member2"), id, both(31, 200), Some(1))
            .unwrap();

    // one instruction per configured key, in key order, each with the
    // median for that key
    assert_eq!(resp.messages.len(), 2);
    match &resp.messages[0] {
        DispatchMsg::AppendPrice { price_key, price, .. } => {
            assert_eq!(price_key, "ORAI");
            assert_eq!(*price, 20u128);
        },
        other => panic!("expected a price append, got {:?}", other),
    }
    match &resp.messages[1] {
        DispatchMsg::AppendPrice { price_key, price, .. } => {
            assert_eq!(price_key, "ETH");
            assert_eq!(*price, 200u128);
        },
        other => panic!("expected a price append, got {:?}", other),
    }
}

#[test]
fn pagination_and_listing() {
    let mut state = init_state();
    let mut env = env_at(10, 100);

    // open and close twelve proposals in a row
    for k in 0..12u64 {
        contract::execute_propose(
            &mut state,
            &env,
            &info("member0"),
            single("orai", (k + 1) as u128),
            None,
            Some(1),
            4,
        )
        .unwrap();
        let id = state.last_id();
        let closing = env_at(10, 100 + (k + 1) * 4000);
        contract::execute_close(&mut state, &closing, &info("anyone"), id).unwrap();
        env = closing;
    }
    assert_eq!(state.last_id(), 12);

    // default page size is ten
    let page = contract::list_proposals(&state, &env, None, None);
    assert_eq!(page.proposals.len(), 10);
    assert_eq!(page.proposals[0].id, 1);
    assert_eq!(page.proposals[9].id, 10);

    // the cursor is exclusive
    let page = contract::list_proposals(&state, &env, Some(10), None);
    assert_eq!(page.proposals.len(), 2);
    assert_eq!(page.proposals[0].id, 11);

    // backward listing, exclusive as well
    let page = contract::reverse_proposals(&state, &env, Some(3), None);
    assert_eq!(page.proposals.len(), 2);
    assert_eq!(page.proposals[0].id, 2);
    assert_eq!(page.proposals[1].id, 1);
    let page = contract::reverse_proposals(&state, &env, None, Some(3));
    assert_eq!(page.proposals.len(), 3);
    assert_eq!(page.proposals[0].id, 12);
}

#[test]
fn votes_are_listed_in_voter_order() {
    let mut state = init_state();
    let env = env_at(10, 100);

    // the proposer is member2; two voters with smaller addresses follow
    contract::execute_propose(
        &mut state,
        &env,
        &info("member2"),
        single("orai", 30u128),
        None,
        Some(1),
        4,
    )
    .unwrap();
    let id = state.last_id();
    contract::execute_vote(&mut state, &env, &info("member0"), id, single("orai", 10u128), Some(1))
        .unwrap();
    contract::execute_vote(&mut state, &env, &info("member1"), id, single("orai", 20u128), Some(1))
        .unwrap();

    let all = contract::list_votes(&state, id, None, None);
    let voters: Vec<&str> = all.votes.iter().map(|v| v.voter.as_str()).collect();
    assert_eq!(voters, vec!["member0", "member1", "member2"]);

    // an exclusive cursor starts after the given voter
    let rest = contract::list_votes(&state, id, Some("member0".to_string()), None);
    let voters: Vec<&str> = rest.votes.iter().map(|v| v.voter.as_str()).collect();
    assert_eq!(voters, vec!["member1", "member2"]);

    // a single ballot lookup
    let one = contract::query_vote(&state, id, "member1".to_string()).vote.unwrap();
    assert_eq!(one.data.weight, 1);
    assert_eq!(one.data.data.get(&"orai".to_string()), 20u128);
    assert!(contract::query_vote(&state, id, "stranger".to_string()).vote.is_none());
}

#[test]
fn config_changes_never_touch_open_proposals() {
    let mut state = init_state();
    let env = env_at(10, 100);

    contract::execute_propose(
        &mut state,
        &env,
        &info("member0"),
        single("orai", 10u128),
        None,
        Some(1),
        4,
    )
    .unwrap();
    let id = state.last_id();

    // the owner relaxes the threshold to a single ballot while the proposal
    // is in flight
    contract::execute_update_config(
        &mut state,
        &info("member0"),
        None,
        Some(Threshold::AbsoluteCount { weight: 1 }),
        None,
        None,
        None,
    )
    .unwrap();

    // the in-flight proposal keeps its snapshot: one more ballot is not
    // enough for the three it was opened under
    contract::execute_vote(&mut state, &env, &info("member1"), id, single("orai", 10u128), Some(1))
        .unwrap();
    let pr = contract::query_proposal(&state, &env, id).unwrap();
    assert_eq!(pr.status, Status::Open);

    // and it still blocks a new proposal
    let err = contract::execute_propose(
        &mut state,
        &env,
        &info("member2"),
        single("orai", 10u128),
        None,
        Some(1),
        4,
    )
    .unwrap_err();
    assert_eq!(err, ContractError::CanNotPropose);

    // completing it under its own rules...
    contract::execute_vote(&mut state, &env, &info("member2"), id, single("orai", 10u128), Some(1))
        .unwrap();

    // ...lets the next proposal open, and that one snapshots the new
    // threshold: its opening ballot passes it at once
    contract::execute_propose(
        &mut state,
        &env,
        &info("member3"),
        single("orai", 10u128),
        None,
        Some(1),
        4,
    )
    .unwrap();
    let pr = contract::query_last_proposal(&state, &env).unwrap();
    assert_eq!(pr.status, Status::Passed);
}

#[test]
fn vote_data_insert_replaces() {
    let mut d = VoteData::new();
    d.insert("orai".to_string(), 5u128);
    d.insert("eth".to_string(), 7u128);
    assert_eq!(d.len(), 2);
    assert_eq!(d.get(&"orai".to_string()), 5u128);
    // a later value for the same key replaces the earlier one
    d.insert("orai".to_string(), 9u128);
    assert_eq!(d.len(), 2);
    assert_eq!(d.get(&"orai".to_string()), 9u128);
    assert_eq!(d.get(&"eth".to_string()), 7u128);
    assert!(!d.contains_key(&"btc".to_string()));
}
