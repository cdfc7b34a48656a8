use vstd::prelude::*;
use vstd::arithmetic::div_mod::lemma_fundamental_div_mod_converse;
use crate::deposit::{
    return_deposit_message, spec_deposit_paid, spec_return_deposit_msg, spec_take_deposit_msgs,
    take_deposit_messages, DepositInfo,
};
use crate::error::ContractError;
use crate::expiration::{
    clamp_expiration, spec_after, spec_after_fits, spec_clamped_expiration, spec_is_expired,
    BlockInfo, Duration, Expiration,
};
use crate::msg::{
    vd_get, vd_has_key, DispatchMsg, Env, ExecuteMsg, InstantiateMsg, MessageInfo, Response,
    VoteData, VoteInfo,
};
use crate::state::{
    ballot_index_of, ballots_has_voter, ballots_wf, find_insert_pos, lemma_sorted_insert_props,
    spec_sorted_insert, sum_weights, Config, Data, OracleState, Proposal, Status, Votes,
};
use crate::order::{compare_strings, lemma_str_trichotomy, str_lt, Cmp};
use crate::msg::{
    vi_matches, ProposalListResponse, ProposalResponse, VoteListResponse, VoteResponse,
};
use crate::threshold::{
    spec_threshold_valid, spec_threshold_wf, validate_threshold, Threshold, ThresholdResponse,
};
use crate::median::{calculate_median_price, spec_median};
use crate::expiration::NANOS_PER_SECOND;

verus! {

/// The most recent proposal, if any, has completed: it reads as `Executed`
/// or `Rejected` at the current block.
pub open spec fn spec_last_proposal_done(s: OracleState, block: BlockInfo) -> bool {
    s.proposal_count == 0 || {
        let p = s.proposals@[s.proposal_count - 1];
        p.spec_current_status(block) == Status::Executed || p.spec_current_status(block)
            == Status::Rejected
    }
}

/// A configured deposit, if any, is covered by the attached funds.
pub open spec fn spec_deposit_check_ok(d: Option<DepositInfo>, funds: Seq<crate::msg::Coin>) -> bool {
    match d {
        None => true,
        Some(dep) => spec_deposit_paid(dep, funds),
    }
}

/// Fail with `CanNotPropose` unless the most recent proposal has completed.
/// A new submission round cannot open while the previous one is undecided.
pub fn assert_last_proposal_has_done(state: &OracleState, env: &Env) -> (r: Result<
    (),
    ContractError,
>)
    requires
        state.wf(),
    ensures
        r is Ok <==> spec_last_proposal_done(*state, env.block),
        r is Err ==> r == Err::<(), ContractError>(ContractError::CanNotPropose),
{
    let last = state.last_id();
    if last == 0 {
        return Ok(());
    }
    let n = state.proposals.len();
    let prop = &state.proposals[n - 1];
    let status = prop.current_status(&env.block);
    if status == Status::Executed || status == Status::Rejected {
        Ok(())
    } else {
        Err(ContractError::CanNotPropose)
    }
}

/// Open a new hub from validated inputs. The threshold rule is held against
/// the membership's total weight; everything else is stored as given, with
/// no proposals yet.
pub fn instantiate(msg: InstantiateMsg, total_weight: u64) -> (r: Result<
    OracleState,
    ContractError,
>)
    ensures
        r is Ok <==> spec_threshold_valid(msg.threshold, total_weight),
        r is Err ==> r == Err::<OracleState, ContractError>(ContractError::Threshold),
        r matches Ok(s) ==> {
            &&& s.wf()
            &&& s.config.owner == msg.owner
            &&& s.config.threshold == msg.threshold
            &&& s.config.max_submitting_period == msg.max_submitting_period
            &&& s.config.group_addr == msg.group_addr
            &&& s.config.proposal_deposit == msg.proposal_deposit
            &&& s.config.price_keys == msg.price_keys
            &&& s.config.hook_contracts == msg.hook_contracts
            &&& s.proposal_count == 0
            &&& s.proposals@.len() == 0
            &&& s.ballots@.len() == 0
        },
{
    match validate_threshold(&msg.threshold, total_weight) {
        Err(_) => Err(ContractError::Threshold),
        Ok(()) => {
            let config = Config {
                owner: msg.owner,
                threshold: msg.threshold,
                max_submitting_period: msg.max_submitting_period,
                group_addr: msg.group_addr,
                proposal_deposit: msg.proposal_deposit,
                price_keys: msg.price_keys,
                hook_contracts: msg.hook_contracts,
            };
            Ok(
                OracleState {
                    config,
                    proposal_count: 0,
                    proposals: Vec::new(),
                    ballots: Vec::new(),
                },
            )
        },
    }
}

/// Roster-change notification: only the configured membership source may
/// deliver it, and it changes nothing — proposals keep their weight
/// snapshots regardless of roster churn. The capability check is kept so
/// the boundary stays intact for future extensions.
pub fn execute_membership_hook(state: &mut OracleState, env: &Env, info: &MessageInfo) -> (r:
    Result<Response, ContractError>)
    requires
        old(state).wf(),
    ensures
        *final(state) == *old(state),
        r is Ok <==> info.sender@ == old(state).config.group_addr@,
        r matches Ok(resp) ==> resp.messages@.len() == 0,
        r is Err ==> r == Err::<Response, ContractError>(ContractError::Unauthorized),
{
    if !info.sender.eq(&state.config.group_addr) {
        return Err(ContractError::Unauthorized);
    }
    Ok(Response { messages: Vec::new() })
}

/// Owner-gated partial update of the governance parameters: each field is
/// replaced when given and kept otherwise. Existing proposals are untouched;
/// they carry their own snapshots.
pub fn execute_update_config(
    state: &mut OracleState,
    info: &MessageInfo,
    owner: Option<String>,
    threshold: Option<Threshold>,
    max_submitting_period: Option<Duration>,
    price_keys: Option<Vec<String>>,
    hook_contracts: Option<Vec<String>>,
) -> (r: Result<Response, ContractError>)
    requires
        old(state).wf(),
        threshold matches Some(t) ==> spec_threshold_wf(t),
    ensures
        final(state).wf(),
        r is Ok <==> info.sender@ == old(state).config.owner@,
        r is Err ==> r == Err::<Response, ContractError>(ContractError::Unauthorized),
        r is Err ==> *final(state) == *old(state),
        r matches Ok(resp) ==> resp.messages@.len() == 0,
        r is Ok ==> {
            &&& final(state).config.owner == (match owner {
                Some(o) => o,
                None => old(state).config.owner,
            })
            &&& final(state).config.threshold == (match threshold {
                Some(t) => t,
                None => old(state).config.threshold,
            })
            &&& final(state).config.max_submitting_period == (match max_submitting_period {
                Some(d) => d,
                None => old(state).config.max_submitting_period,
            })
            &&& final(state).config.price_keys == (match price_keys {
                Some(k) => k,
                None => old(state).config.price_keys,
            })
            &&& final(state).config.hook_contracts == (match hook_contracts {
                Some(h) => h,
                None => old(state).config.hook_contracts,
            })
            &&& final(state).config.group_addr == old(state).config.group_addr
            &&& final(state).config.proposal_deposit == old(state).config.proposal_deposit
            &&& final(state).proposal_count == old(state).proposal_count
            &&& final(state).proposals == old(state).proposals
            &&& final(state).ballots == old(state).ballots
        },
{
    if !info.sender.eq(&state.config.owner) {
        return Err(ContractError::Unauthorized);
    }
    match owner {
        Some(o) => {
            state.config.owner = o;
        },
        None => {},
    }
    match threshold {
        Some(t) => {
            state.config.threshold = t;
        },
        None => {},
    }
    match max_submitting_period {
        Some(d) => {
            state.config.max_submitting_period = d;
        },
        None => {},
    }
    match price_keys {
        Some(k) => {
            state.config.price_keys = k;
        },
        None => {},
    }
    match hook_contracts {
        Some(h) => {
            state.config.hook_contracts = h;
        },
        None => {},
    }
    Ok(Response { messages: Vec::new() })
}

/// Why a propose attempt is refused, or the expiration the new proposal
/// gets. The checks run in this order: the previous proposal must have
/// completed, the submission must match the configured keys, a required
/// deposit must be covered, the caller must be a member, and the requested
/// expiration must be comparable with the configured maximum.
pub open spec fn spec_propose_outcome(
    s: OracleState,
    env: Env,
    info: MessageInfo,
    data: Seq<(Seq<char>, u128)>,
    latest: Option<Expiration>,
    vote_power: Option<u64>,
) -> Result<Expiration, ContractError> {
    if !spec_last_proposal_done(s, env.block) {
        Err(ContractError::CanNotPropose)
    } else if !s.config.spec_verify_data(data) {
        Err(ContractError::WrongVoteData)
    } else if !spec_deposit_check_ok(s.config.proposal_deposit, info.funds@) {
        Err(ContractError::Payment)
    } else if vote_power is None {
        Err(ContractError::Unauthorized)
    } else {
        match spec_clamped_expiration(
            latest,
            spec_after(s.config.max_submitting_period, env.block),
        ) {
            None => Err(ContractError::WrongExpiration),
            Some(e) => Ok(e),
        }
    }
}

/// The record a successful propose call stores: an open proposal carrying
/// the live threshold, total weight and deposit terms as snapshots, with the
/// proposer's own ballot already counted, and its status recomputed once (a
/// proposal whose opening ballot already meets the threshold starts out
/// `Passed`; one opened past its expiration starts out `Rejected`).
pub open spec fn spec_new_proposal(
    cfg: Config,
    env: Env,
    sender: String,
    vote_power: u64,
    total_weight: u64,
    expires: Expiration,
) -> Proposal {
    let base = Proposal {
        start_height: env.block.height,
        expires,
        status: Status::Open,
        threshold: cfg.threshold,
        total_weight,
        votes: Votes { yes: vote_power },
        proposer: sender,
        deposit: cfg.proposal_deposit,
    };
    Proposal { status: base.spec_current_status(env.block), ..base }
}

/// What a successful propose call leaves behind: one more proposal,
/// carrying the clamped expiration and the caller's opening ballot, and the
/// deposit-collection instructions in the response.
pub open spec fn spec_propose_effect(
    pre: OracleState,
    post: OracleState,
    msgs: Seq<DispatchMsg>,
    env: Env,
    info: MessageInfo,
    data: VoteData,
    latest: Option<Expiration>,
    vote_power: Option<u64>,
    total_weight: u64,
) -> bool {
    let exp = spec_propose_outcome(pre, env, info, data@, latest, vote_power)->Ok_0;
    let w = vote_power->Some_0;
    &&& post.proposal_count == pre.proposal_count + 1
    &&& post.config == pre.config
    &&& post.proposals@ =~= pre.proposals@.push(
        spec_new_proposal(pre.config, env, info.sender, w, total_weight, exp),
    )
    &&& post.ballots@.len() == pre.ballots@.len() + 1
    &&& forall|i: int|
        0 <= i < pre.ballots@.len() ==> #[trigger] post.ballots@[i] == pre.ballots@[i]
    &&& post.ballots@.last()@ =~= seq![
        (VoteInfo { voter: info.sender, data: (Data { weight: w, data }) }),
    ]
    &&& msgs =~= spec_take_deposit_msgs(
        pre.config.proposal_deposit,
        info.sender,
        env.contract_address,
    )
}

/// Open a new proposal. `vote_power` is the caller's weight in the
/// membership at the current height — `None` when the caller is not a
/// member — and `total_weight` is the membership's total weight; the host
/// resolves both against the membership source before the call. Zero-weight
/// members may propose; their opening ballot still counts toward passing.
/// On success the proposal gets the next id, the requested expiration
/// clamped to the configured window, and the caller's submission as its
/// first ballot; the response carries the deposit-collection instructions,
/// if any.
pub fn execute_propose(
    state: &mut OracleState,
    env: &Env,
    info: &MessageInfo,
    data: VoteData,
    latest: Option<Expiration>,
    vote_power: Option<u64>,
    total_weight: u64,
) -> (r: Result<Response, ContractError>)
    requires
        old(state).wf(),
        data.wf(),
        old(state).proposal_count < u64::MAX,
        spec_after_fits(old(state).config.max_submitting_period, env.block),
        vote_power matches Some(w) ==> w <= total_weight,
    ensures
        final(state).wf(),
        r is Ok <==> spec_propose_outcome(
            *old(state),
            *env,
            *info,
            data@,
            latest,
            vote_power,
        ) is Ok,
        r matches Err(e) ==> Err::<Expiration, ContractError>(e) == spec_propose_outcome(
            *old(state),
            *env,
            *info,
            data@,
            latest,
            vote_power,
        ),
        r is Err ==> *final(state) == *old(state),
        r matches Ok(resp) ==> spec_propose_effect(
            *old(state),
            *final(state),
            resp.messages@,
            *env,
            *info,
            data,
            latest,
            vote_power,
            total_weight,
        ),
{
    match assert_last_proposal_has_done(state, env) {
        Err(e) => {
            return Err(e);
        },
        Ok(()) => {},
    }
    if !state.config.verify_data(&data) {
        return Err(ContractError::WrongVoteData);
    }
    match &state.config.proposal_deposit {
        None => {},
        Some(d) => {
            match d.check_native_deposit_paid(info) {
                Err(e) => {
                    return Err(e);
                },
                Ok(()) => {},
            }
        },
    }
    let w = match vote_power {
        None => {
            return Err(ContractError::Unauthorized);
        },
        Some(w) => w,
    };
    let max_expires = state.config.max_submitting_period.after(&env.block);
    let expires = match clamp_expiration(&latest, max_expires) {
        None => {
            return Err(ContractError::WrongExpiration);
        },
        Some(e) => e,
    };
    let take_msgs = take_deposit_messages(
        &state.config.proposal_deposit,
        &info.sender,
        &env.contract_address,
    );
    let mut prop = Proposal {
        start_height: env.block.height,
        expires,
        status: Status::Open,
        threshold: state.config.threshold,
        total_weight,
        votes: Votes::yes(w),
        proposer: info.sender.clone(),
        deposit: match &state.config.proposal_deposit {
            None => None,
            Some(d) => Some(d.duplicate()),
        },
    };
    prop.update_status(&env.block);
    proof {
        assert(prop == spec_new_proposal(
            old(state).config,
            *env,
            info.sender,
            w,
            total_weight,
            expires,
        ));
    }
    let _id = state.next_id();
    state.proposals.push(prop);
    let mut ballot_list: Vec<VoteInfo> = Vec::new();
    ballot_list.push(VoteInfo { voter: info.sender.clone(), data: Data { weight: w, data } });
    state.ballots.push(ballot_list);
    proof {
        let ghost nb = state.ballots@.last()@;
        assert(sum_weights(nb) == w) by {
            assert(nb.drop_last() =~= Seq::<VoteInfo>::empty());
            assert(sum_weights(Seq::<VoteInfo>::empty()) == 0);
        }
        assert forall|i: int|
            0 <= i < state.proposals@.len() implies (#[trigger] state.proposals@[i]).wf() by {
            if i < old(state).proposals@.len() {
                assert(state.proposals@[i] == old(state).proposals@[i]);
            }
        }
        assert forall|i: int|
            0 <= i < state.proposals@.len() implies ballots_wf(
            (#[trigger] state.ballots@[i])@,
        ) by {
            if i < old(state).proposals@.len() {
                assert(state.ballots@[i] == old(state).ballots@[i]);
            }
        }
        assert forall|i: int|
            0 <= i < state.proposals@.len() implies sum_weights((#[trigger] state.ballots@[i])@)
            == state.proposals@[i].votes.yes by {
            if i < old(state).proposals@.len() {
                assert(state.ballots@[i] == old(state).ballots@[i]);
                assert(state.proposals@[i] == old(state).proposals@[i]);
            }
        }
    }
    Ok(Response { messages: take_msgs })
}

/// Why a vote attempt is refused, or the voter's weight at the proposal's
/// snapshot height. The checks run in this order: the submission must match
/// the configured keys, the proposal must exist and not yet be executed —
/// ballots are still accepted on proposals already reading as passed or
/// rejected, for the record — and not be expired, the caller must be a
/// voting member at the snapshot height, and the caller must not have voted
/// before.
pub open spec fn spec_vote_outcome(
    s: OracleState,
    block: BlockInfo,
    id: u64,
    data: Seq<(Seq<char>, u128)>,
    sender: Seq<char>,
    vote_power: Option<u64>,
) -> Result<u64, ContractError> {
    if !s.config.spec_verify_data(data) {
        Err(ContractError::WrongVoteData)
    } else if !s.spec_has_proposal(id) {
        Err(ContractError::NotFound)
    } else {
        let p = s.spec_proposal(id);
        if p.status == Status::Executed {
            Err(ContractError::NotOpen)
        } else if spec_is_expired(p.expires, block) {
            Err(ContractError::Expired)
        } else if vote_power is None {
            Err(ContractError::Unauthorized)
        } else if ballots_has_voter(s.spec_ballots(id), sender) {
            Err(ContractError::AlreadyVoted)
        } else {
            Ok(vote_power->Some_0)
        }
    }
}

/// One submitted price per ballot, for one price key, in ballot order.
pub open spec fn spec_prices_of(ballots: Seq<VoteInfo>, key: Seq<char>) -> Seq<u128> {
    ballots.map_values(|b: VoteInfo| vd_get(b.data.data@, key))
}

/// The price-append instructions a passing proposal dispatches: for each
/// configured price key, in order, the median of the submitted prices for
/// that key goes to every configured hook contract, in order.
pub open spec fn spec_append_msgs(
    keys: Seq<String>,
    hooks: Seq<String>,
    ballots: Seq<VoteInfo>,
    timestamp_seconds: u64,
) -> Seq<DispatchMsg> {
    Seq::new(
        keys.len() * hooks.len(),
        |n: int|
            (DispatchMsg::AppendPrice {
                contract_addr: hooks[n % (hooks.len() as int)],
                price_key: keys[n / (hooks.len() as int)],
                price: spec_median(spec_prices_of(ballots, keys[n / (hooks.len() as int)]@)),
                timestamp_seconds,
            }),
    )
}

/// Every recorded ballot holds a price for every configured key.
pub open spec fn spec_ballots_cover_keys(ballots: Seq<VoteInfo>, keys: Seq<String>) -> bool {
    forall|i: int, j: int|
        0 <= i < ballots.len() && 0 <= j < keys.len() ==> #[trigger] vd_has_key(
            ballots[i].data.data@,
            keys[j]@,
        )
}

/// Counting a ballot of weight `w` makes the proposal read as passed.
pub open spec fn spec_vote_passed(p: Proposal, w: u64, block: BlockInfo) -> bool {
    (Proposal {
        votes: (Votes { yes: (p.votes.yes + w) as u64 }),
        ..p
    }).spec_current_status(block) == Status::Passed
}

/// The proposal record after a ballot of weight `w` is counted: the tally
/// grows, the status is recomputed, and a proposal that thereby reads as
/// passed is executed on the spot.
pub open spec fn spec_vote_tallied(p: Proposal, w: u64, block: BlockInfo) -> Proposal {
    let t = Proposal { votes: (Votes { yes: (p.votes.yes + w) as u64 }), ..p };
    let st = t.spec_current_status(block);
    Proposal {
        status: if st == Status::Passed {
            Status::Executed
        } else {
            st
        },
        ..t
    }
}

/// The instructions a vote emits: nothing while the proposal stays short of
/// the threshold; once it passes, the deposit refund (if a deposit was
/// captured) followed by the price-append instructions over the full ballot
/// list `nb`.
pub open spec fn spec_vote_msgs(
    p: Proposal,
    cfg: Config,
    nb: Seq<VoteInfo>,
    w: u64,
    block: BlockInfo,
) -> Seq<DispatchMsg> {
    if spec_vote_passed(p, w, block) {
        (match p.deposit {
            Some(d) => seq![spec_return_deposit_msg(d, p.proposer)],
            None => Seq::<DispatchMsg>::empty(),
        }) + spec_append_msgs(
            cfg.price_keys@,
            cfg.hook_contracts@,
            nb,
            (block.time_nanos / NANOS_PER_SECOND) as u64,
        )
    } else {
        Seq::<DispatchMsg>::empty()
    }
}

/// What a successful vote call leaves behind: the caller's ballot recorded
/// in voter order, the tally grown by its weight, the status recomputed —
/// executing the proposal on the spot when it now passes — and the
/// corresponding instructions in the response.
pub open spec fn spec_vote_effect(
    pre: OracleState,
    post: OracleState,
    msgs: Seq<DispatchMsg>,
    block: BlockInfo,
    sender: String,
    proposal_id: u64,
    data: VoteData,
    vote_power: Option<u64>,
) -> bool {
    let w = vote_power->Some_0;
    let p = pre.spec_proposal(proposal_id);
    let nb = spec_sorted_insert(
        pre.spec_ballots(proposal_id),
        (VoteInfo { voter: sender, data: (Data { weight: w, data }) }),
    );
    &&& post.proposals@ =~= pre.proposals@.update(
        proposal_id - 1,
        spec_vote_tallied(p, w, block),
    )
    &&& post.ballots@.len() == pre.ballots@.len()
    &&& post.ballots@[proposal_id - 1]@ =~= nb
    &&& forall|i: int|
        0 <= i < pre.ballots@.len() && i != proposal_id - 1 ==> #[trigger] post.ballots@[i]
            == pre.ballots@[i]
    &&& post.config == pre.config
    &&& post.proposal_count == pre.proposal_count
    &&& msgs =~= spec_vote_msgs(p, pre.config, nb, w, block)
}

/// Cast a ballot on proposal `proposal_id`. `vote_power` is the caller's
/// voting weight resolved by the host at the proposal's snapshot height —
/// `None` when the caller is not a voting member there. The ballot is
/// recorded in voter order and its weight added to the tally; a second
/// ballot from the same voter is refused outright. When the tally reaches
/// the threshold the proposal executes immediately: the medians of all
/// recorded submissions are dispatched to the hook contracts, the captured
/// deposit is returned to the proposer, and the proposal becomes
/// `Executed`.
pub fn execute_vote(
    state: &mut OracleState,
    env: &Env,
    info: &MessageInfo,
    proposal_id: u64,
    data: VoteData,
    vote_power: Option<u64>,
) -> (r: Result<Response, ContractError>)
    requires
        old(state).wf(),
        data.wf(),
        old(state).spec_has_proposal(proposal_id) ==> (vote_power matches Some(w) ==> old(
            state,
        ).spec_proposal(proposal_id).votes.yes + w <= old(state).spec_proposal(
            proposal_id,
        ).total_weight),
        old(state).spec_has_proposal(proposal_id) ==> spec_ballots_cover_keys(
            old(state).spec_ballots(proposal_id),
            old(state).config.price_keys@,
        ),
    ensures
        final(state).wf(),
        r is Ok <==> spec_vote_outcome(
            *old(state),
            env.block,
            proposal_id,
            data@,
            info.sender@,
            vote_power,
        ) is Ok,
        r matches Err(e) ==> Err::<u64, ContractError>(e) == spec_vote_outcome(
            *old(state),
            env.block,
            proposal_id,
            data@,
            info.sender@,
            vote_power,
        ),
        r is Err ==> *final(state) == *old(state),
        r matches Ok(resp) ==> spec_vote_effect(
            *old(state),
            *final(state),
            resp.messages@,
            env.block,
            info.sender,
            proposal_id,
            data,
            vote_power,
        ),
{
    if !state.config.verify_data(&data) {
        return Err(ContractError::WrongVoteData);
    }
    let n = state.proposals.len();
    if proposal_id == 0 || proposal_id > n as u64 {
        return Err(ContractError::NotFound);
    }
    let idx = (proposal_id - 1) as usize;
    if state.proposals[idx].status == Status::Executed {
        return Err(ContractError::NotOpen);
    }
    if state.proposals[idx].expires.is_expired(&env.block) {
        return Err(ContractError::Expired);
    }
    let w = match vote_power {
        None => {
            return Err(ContractError::Unauthorized);
        },
        Some(w) => w,
    };
    let pos = match find_insert_pos(&state.ballots[idx], &info.sender) {
        None => {
            return Err(ContractError::AlreadyVoted);
        },
        Some(p) => p,
    };
    let ghost prior = state.ballots@[idx as int]@;
    let new_vi = VoteInfo { voter: info.sender.clone(), data: Data { weight: w, data } };
    let ghost gvi = new_vi;
    let ghost nb = spec_sorted_insert(prior, gvi);
    proof {
        lemma_sorted_insert_props(prior, gvi);
    }
    {
        let blist = vstd::std_specs::vec::vec_index_mut(&mut state.ballots, idx);
        blist.insert(pos, new_vi);
    }
    proof {
        assert(state.ballots@[idx as int]@ =~= nb) by {
            assert(state.ballots@[idx as int]@ =~= prior.insert(pos as int, gvi));
            assert forall|i: int| 0 <= i < nb.len() implies prior.insert(pos as int, gvi)[i]
                == nb[i] by {
                if i < pos {
                    assert(nb[i] == prior[i]);
                } else if i == pos {
                    assert(nb[i] == gvi);
                } else {
                    assert(nb[i] == prior[i - 1]);
                }
            }
        }
        assert(ballots_wf(nb)) by {
            assert forall|i: int| 0 <= i < nb.len() implies (#[trigger] nb[i]).data.data.wf() by {
                if i < pos {
                    assert(nb[i] == prior[i]);
                } else if i > pos {
                    assert(nb[i] == prior[i - 1]);
                } else {
                    assert(nb[i] == gvi);
                }
            }
        }
        assert(spec_ballots_cover_keys(nb, state.config.price_keys@)) by {
            assert forall|i: int, j: int|
                0 <= i < nb.len() && 0 <= j < state.config.price_keys@.len() implies #[trigger] vd_has_key(
                nb[i].data.data@,
                state.config.price_keys@[j]@,
            ) by {
                if i < pos {
                    assert(nb[i] == prior[i]);
                    assert(vd_has_key(prior[i].data.data@, state.config.price_keys@[j]@));
                } else if i > pos {
                    assert(nb[i] == prior[i - 1]);
                    assert(vd_has_key(prior[i - 1].data.data@, state.config.price_keys@[j]@));
                } else {
                    assert(nb[i] == gvi);
                }
            }
        }
    }
    let mut prop = state.proposals[idx].duplicate();
    prop.votes.add_vote(w);
    prop.update_status(&env.block);
    let mut messages: Vec<DispatchMsg> = Vec::new();
    if prop.status == Status::Passed {
        match &prop.deposit {
            None => {},
            Some(d) => {
                messages.push(return_deposit_message(d, &prop.proposer));
            },
        }
        let ts = env.block.time_nanos / NANOS_PER_SECOND;
        let ghost dep_msgs = messages@;
        let ghost keys = state.config.price_keys@;
        let ghost hooks = state.config.hook_contracts@;
        let ghost appends = spec_append_msgs(keys, hooks, nb, ts);
        let kn = state.config.price_keys.len();
        let hn = state.config.hook_contracts.len();
        let mut ki: usize = 0;
        proof {
            assert(appends.take(0) =~= Seq::<DispatchMsg>::empty());
            assert(messages@ =~= dep_msgs + appends.take(0));
        }
        while ki < kn
            invariant
                ki <= kn,
                kn == keys.len(),
                hn == hooks.len(),
                keys == state.config.price_keys@,
                hooks == state.config.hook_contracts@,
                idx < state.ballots@.len(),
                state.ballots@[idx as int]@ == nb,
                nb.len() > 0,
                ballots_wf(nb),
                spec_ballots_cover_keys(nb, keys),
                appends == spec_append_msgs(keys, hooks, nb, ts),
                messages@ =~= dep_msgs + appends.take(ki as int * hn as int),
            decreases kn - ki,
        {
            let key = &state.config.price_keys[ki];
            let mut prices: Vec<u128> = Vec::new();
            let bl = &state.ballots[idx];
            let bn = bl.len();
            let mut bi: usize = 0;
            while bi < bn
                invariant
                    bi <= bn,
                    bn == nb.len(),
                    bl@ == nb,
                    ballots_wf(nb),
                    0 <= ki < keys.len(),
                    spec_ballots_cover_keys(nb, keys),
                    key == keys[ki as int],
                    prices@.len() == bi,
                    forall|j: int|
                        0 <= j < bi ==> #[trigger] prices@[j] == vd_get(
                            nb[j].data.data@,
                            keys[ki as int]@,
                        ),
                decreases bn - bi,
            {
                proof {
                    assert(vd_has_key(nb[bi as int].data.data@, keys[ki as int]@));
                }
                prices.push(bl[bi].data.data.get(key));
                bi += 1;
            }
            proof {
                assert(prices@ =~= spec_prices_of(nb, keys[ki as int]@));
            }
            let med = calculate_median_price(prices);
            let mut hi: usize = 0;
            while hi < hn
                invariant
                    hi <= hn,
                    0 <= ki < kn,
                    kn == keys.len(),
                    hn == hooks.len(),
                    keys == state.config.price_keys@,
                    hooks == state.config.hook_contracts@,
                    appends == spec_append_msgs(keys, hooks, nb, ts),
                    med == spec_median(spec_prices_of(nb, keys[ki as int]@)),
                    messages@ =~= dep_msgs + appends.take(ki as int * hn as int + hi as int),
                decreases hn - hi,
            {
                messages.push(
                    DispatchMsg::AppendPrice {
                        contract_addr: state.config.hook_contracts[hi].clone(),
                        price_key: state.config.price_keys[ki].clone(),
                        price: med,
                        timestamp_seconds: ts,
                    },
                );
                proof {
                    let n0 = ki as int * hn as int + hi as int;
                    assert(ki as int * hn as int + hi as int + 1 <= kn as int * hn as int)
                        by (nonlinear_arith)
                        requires
                            0 <= (ki as int) && (ki as int) < (kn as int),
                            0 <= (hi as int) && (hi as int) < (hn as int),
                    ;
                    assert(appends.len() == kn as int * hn as int);
                    assert(0 <= n0 && n0 + 1 <= appends.len());
                    lemma_fundamental_div_mod_converse(n0, hn as int, ki as int, hi as int);
                    assert(appends[n0] == (DispatchMsg::AppendPrice {
                        contract_addr: hooks[hi as int],
                        price_key: keys[ki as int],
                        price: spec_median(spec_prices_of(nb, keys[ki as int]@)),
                        timestamp_seconds: ts,
                    })) by {
                        assert(n0 % (hn as int) == hi as int && n0 / (hn as int) == ki as int);
                    }
                    assert(appends.take(n0 + 1) =~= appends.take(n0).push(appends[n0]));
                }
                hi += 1;
            }
            proof {
                assert(ki as int * hn as int + hn as int == (ki + 1) as int * hn as int)
                    by (nonlinear_arith);
            }
            ki += 1;
        }
        proof {
            assert(appends.take(kn as int * hn as int) =~= appends);
        }
        prop.status = Status::Executed;
    }
    state.proposals.set(idx, prop);
    proof {
        assert forall|i: int|
            0 <= i < state.proposals@.len() implies (#[trigger] state.proposals@[i]).wf() by {
            if i != idx as int {
                assert(state.proposals@[i] == old(state).proposals@[i]);
            }
        }
        assert forall|i: int|
            0 <= i < state.proposals@.len() implies ballots_wf(
            (#[trigger] state.ballots@[i])@,
        ) by {
            if i != idx as int {
                assert(state.ballots@[i] == old(state).ballots@[i]);
            }
        }
        assert forall|i: int|
            0 <= i < state.proposals@.len() implies sum_weights((#[trigger] state.ballots@[i])@)
            == state.proposals@[i].votes.yes by {
            if i != idx as int {
                assert(state.ballots@[i] == old(state).ballots@[i]);
                assert(state.proposals@[i] == old(state).proposals@[i]);
            } else {
                assert(sum_weights(nb) == sum_weights(prior) + gvi.data.weight);
            }
        }
    }
    Ok(Response { messages })
}

/// Why a close attempt is refused, or leave to proceed.
pub open spec fn spec_close_check(s: OracleState, block: BlockInfo, id: u64) -> Result<
    (),
    ContractError,
> {
    if !s.spec_has_proposal(id) {
        Err(ContractError::NotFound)
    } else {
        let p = s.spec_proposal(id);
        if p.status == Status::Executed || p.status == Status::Rejected || p.status
            == Status::Passed {
            Err(ContractError::WrongCloseStatus)
        } else if p.spec_current_status(block) == Status::Passed {
            Err(ContractError::WrongCloseStatus)
        } else if !spec_is_expired(p.expires, block) {
            Err(ContractError::NotExpired)
        } else {
            Ok(())
        }
    }
}

/// Close an expired, never-passed proposal: anyone may call this. The
/// proposal becomes `Rejected`, and the deposit is refunded when the
/// captured deposit terms say failed proposals are refunded. Proposals that
/// executed, were already rejected, or whose tally passes cannot be closed.
pub fn execute_close(state: &mut OracleState, env: &Env, info: &MessageInfo, proposal_id: u64) -> (r:
    Result<Response, ContractError>)
    requires
        old(state).wf(),
    ensures
        final(state).wf(),
        r is Ok <==> spec_close_check(*old(state), env.block, proposal_id) is Ok,
        r matches Err(e) ==> Err::<(), ContractError>(e) == spec_close_check(
            *old(state),
            env.block,
            proposal_id,
        ) && *final(state) == *old(state),
        r is Ok ==> {
            let p = old(state).spec_proposal(proposal_id);
            &&& final(state).proposals@ =~= old(state).proposals@.update(
                proposal_id - 1,
                (Proposal { status: Status::Rejected, ..p }),
            )
            &&& final(state).ballots == old(state).ballots
            &&& final(state).config == old(state).config
            &&& final(state).proposal_count == old(state).proposal_count
        },
        r matches Ok(resp) ==> {
            let p = old(state).spec_proposal(proposal_id);
            resp.messages@ =~= (match p.deposit {
                Some(d) => if d.refund_failed_proposals {
                    seq![spec_return_deposit_msg(d, p.proposer)]
                } else {
                    Seq::<DispatchMsg>::empty()
                },
                None => Seq::<DispatchMsg>::empty(),
            })
        },
{
    let n = state.proposals.len();
    if proposal_id == 0 || proposal_id > n as u64 {
        return Err(ContractError::NotFound);
    }
    let idx = (proposal_id - 1) as usize;
    let status = state.proposals[idx].status;
    if status == Status::Executed || status == Status::Rejected || status == Status::Passed {
        return Err(ContractError::WrongCloseStatus);
    }
    if state.proposals[idx].current_status(&env.block) == Status::Passed {
        return Err(ContractError::WrongCloseStatus);
    }
    if !state.proposals[idx].expires.is_expired(&env.block) {
        return Err(ContractError::NotExpired);
    }
    let mut messages: Vec<DispatchMsg> = Vec::new();
    match &state.proposals[idx].deposit {
        None => {},
        Some(d) => {
            if d.refund_failed_proposals {
                messages.push(return_deposit_message(d, &state.proposals[idx].proposer));
            }
        },
    }
    let mut updated = state.proposals[idx].duplicate();
    updated.status = Status::Rejected;
    state.proposals.set(idx, updated);
    proof {
        assert forall|i: int|
            0 <= i < state.proposals@.len() implies (#[trigger] state.proposals@[i]).wf() by {
            if i != idx as int {
                assert(state.proposals@[i] == old(state).proposals@[i]);
            }
        }
        assert forall|i: int|
            0 <= i < state.proposals@.len() implies sum_weights((#[trigger] state.ballots@[i])@)
            == state.proposals@[i].votes.yes by {
            if i != idx as int {
                assert(state.proposals@[i] == old(state).proposals@[i]);
            }
        }
    }
    Ok(Response { messages })
}

/// Route one operation to its handler. The host resolves membership data
/// before dispatch: for `Propose`, `vote_power` is the caller's weight at
/// the current height and `total_weight` the membership total; for `Vote`,
/// `vote_power` is the caller's weight at the proposal's snapshot height.
/// The other operations ignore both.
pub fn execute(
    state: &mut OracleState,
    env: &Env,
    info: &MessageInfo,
    msg: ExecuteMsg,
    vote_power: Option<u64>,
    total_weight: u64,
) -> (r: Result<Response, ContractError>)
    requires
        old(state).wf(),
        msg matches ExecuteMsg::Propose { data, latest } ==> data.wf() && old(
            state,
        ).proposal_count < u64::MAX && spec_after_fits(
            old(state).config.max_submitting_period,
            env.block,
        ) && (vote_power matches Some(w) ==> w <= total_weight),
        msg matches ExecuteMsg::Vote { proposal_id, data } ==> data.wf() && (old(
            state,
        ).spec_has_proposal(proposal_id) ==> (vote_power matches Some(w) ==> old(
            state,
        ).spec_proposal(proposal_id).votes.yes + w <= old(state).spec_proposal(
            proposal_id,
        ).total_weight) && spec_ballots_cover_keys(
            old(state).spec_ballots(proposal_id),
            old(state).config.price_keys@,
        )),
        msg matches ExecuteMsg::UpdateConfig { threshold: Some(t), .. } ==> spec_threshold_wf(t),
    ensures
        final(state).wf(),
        msg matches ExecuteMsg::Propose { data, latest } ==> {
            &&& r is Ok <==> spec_propose_outcome(
                *old(state),
                *env,
                *info,
                data@,
                latest,
                vote_power,
            ) is Ok
            &&& (r matches Err(e) ==> Err::<Expiration, ContractError>(e) == spec_propose_outcome(
                *old(state),
                *env,
                *info,
                data@,
                latest,
                vote_power,
            ) && *final(state) == *old(state))
            &&& (r matches Ok(resp) ==> spec_propose_effect(
                *old(state),
                *final(state),
                resp.messages@,
                *env,
                *info,
                data,
                latest,
                vote_power,
                total_weight,
            ))
        },
        msg matches ExecuteMsg::Vote { proposal_id, data } ==> {
            &&& r is Ok <==> spec_vote_outcome(
                *old(state),
                env.block,
                proposal_id,
                data@,
                info.sender@,
                vote_power,
            ) is Ok
            &&& (r matches Err(e) ==> Err::<u64, ContractError>(e) == spec_vote_outcome(
                *old(state),
                env.block,
                proposal_id,
                data@,
                info.sender@,
                vote_power,
            ) && *final(state) == *old(state))
            &&& (r matches Ok(resp) ==> spec_vote_effect(
                *old(state),
                *final(state),
                resp.messages@,
                env.block,
                info.sender,
                proposal_id,
                data,
                vote_power,
            ))
        },
        msg matches ExecuteMsg::Close { proposal_id } ==> {
            &&& r is Ok <==> spec_close_check(*old(state), env.block, proposal_id) is Ok
            &&& (r matches Err(e) ==> Err::<(), ContractError>(e) == spec_close_check(
                *old(state),
                env.block,
                proposal_id,
            ) && *final(state) == *old(state))
            &&& (r is Ok ==> {
                let p = old(state).spec_proposal(proposal_id);
                &&& final(state).proposals@ =~= old(state).proposals@.update(
                    proposal_id - 1,
                    (Proposal { status: Status::Rejected, ..p }),
                )
                &&& final(state).ballots == old(state).ballots
                &&& final(state).config == old(state).config
                &&& final(state).proposal_count == old(state).proposal_count
            })
            &&& (r matches Ok(resp) ==> {
                let p = old(state).spec_proposal(proposal_id);
                resp.messages@ =~= (match p.deposit {
                    Some(d) => if d.refund_failed_proposals {
                        seq![spec_return_deposit_msg(d, p.proposer)]
                    } else {
                        Seq::<DispatchMsg>::empty()
                    },
                    None => Seq::<DispatchMsg>::empty(),
                })
            })
        },
        msg is MemberChangedHook ==> {
            &&& *final(state) == *old(state)
            &&& (r is Ok <==> info.sender@ == old(state).config.group_addr@)
            &&& (r matches Ok(resp) ==> resp.messages@.len() == 0)
            &&& (r is Err ==> r == Err::<Response, ContractError>(ContractError::Unauthorized))
        },
        msg matches ExecuteMsg::UpdateConfig {
            owner,
            threshold,
            max_submitting_period,
            price_keys,
            hook_contracts,
        } ==> {
            &&& (r is Ok <==> info.sender@ == old(state).config.owner@)
            &&& (r is Err ==> r == Err::<Response, ContractError>(ContractError::Unauthorized)
                && *final(state) == *old(state))
            &&& (r matches Ok(resp) ==> resp.messages@.len() == 0)
            &&& (r is Ok ==> {
                &&& final(state).config.owner == (match owner {
                    Some(o) => o,
                    None => old(state).config.owner,
                })
                &&& final(state).config.threshold == (match threshold {
                    Some(t) => t,
                    None => old(state).config.threshold,
                })
                &&& final(state).config.max_submitting_period == (match max_submitting_period {
                    Some(d) => d,
                    None => old(state).config.max_submitting_period,
                })
                &&& final(state).config.price_keys == (match price_keys {
                    Some(k) => k,
                    None => old(state).config.price_keys,
                })
                &&& final(state).config.hook_contracts == (match hook_contracts {
                    Some(h) => h,
                    None => old(state).config.hook_contracts,
                })
                &&& final(state).config.group_addr == old(state).config.group_addr
                &&& final(state).config.proposal_deposit == old(state).config.proposal_deposit
                &&& final(state).proposal_count == old(state).proposal_count
                &&& final(state).proposals == old(state).proposals
                &&& final(state).ballots == old(state).ballots
            })
        },
{
    match msg {
        ExecuteMsg::Propose { data, latest } => execute_propose(
            state,
            env,
            info,
            data,
            latest,
            vote_power,
            total_weight,
        ),
        ExecuteMsg::Vote { proposal_id, data } => execute_vote(
            state,
            env,
            info,
            proposal_id,
            data,
            vote_power,
        ),
        ExecuteMsg::Close { proposal_id } => execute_close(state, env, info, proposal_id),
        ExecuteMsg::MemberChangedHook => execute_membership_hook(state, env, info),
        ExecuteMsg::UpdateConfig {
            owner,
            threshold,
            max_submitting_period,
            price_keys,
            hook_contracts,
        } => execute_update_config(
            state,
            info,
            owner,
            threshold,
            max_submitting_period,
            price_keys,
            hook_contracts,
        ),
    }
}

/// Pagination: pages default to `DEFAULT_LIMIT` entries and are capped at
/// `MAX_LIMIT`; cursors are exclusive.
pub const MAX_LIMIT: u32 = 30;

pub const DEFAULT_LIMIT: u32 = 10;

/// The page size a request gets: the default when none was asked for, and
/// never more than the cap.
pub open spec fn spec_limit(limit: Option<u32>) -> int {
    let l = match limit {
        None => DEFAULT_LIMIT,
        Some(l) => l,
    };
    if l < MAX_LIMIT {
        l as int
    } else {
        MAX_LIMIT as int
    }
}

fn limit_to_usize(limit: Option<u32>) -> (r: usize)
    ensures
        r == spec_limit(limit),
{
    let l = match limit {
        None => DEFAULT_LIMIT,
        Some(l) => l,
    };
    let l = if l < MAX_LIMIT {
        l
    } else {
        MAX_LIMIT
    };
    l as usize
}

/// How many leading ballots an exclusive cursor at voter `v` skips: every
/// ballot whose voter does not order above `v`.
pub open spec fn spec_votes_start(s: Seq<VoteInfo>, v: Seq<char>) -> int
    decreases s.len(),
{
    if s.len() == 0 {
        0
    } else if str_lt(v, s[0].voter@) {
        0
    } else {
        1 + spec_votes_start(s.drop_first(), v)
    }
}

/// A scan that stops at the first voter above `v` lands on
/// `spec_votes_start`.
proof fn lemma_votes_start_agrees(s: Seq<VoteInfo>, v: Seq<char>, p: int)
    requires
        0 <= p <= s.len(),
        forall|i: int| 0 <= i < p ==> !str_lt(v, (#[trigger] s[i]).voter@),
        p == s.len() || str_lt(v, s[p].voter@),
    ensures
        spec_votes_start(s, v) == p,
    decreases s.len(),
{
    if s.len() == 0 {
    } else if p == 0 {
    } else {
        assert(!str_lt(v, s[0].voter@));
        assert forall|i: int| 0 <= i < p - 1 implies !str_lt(
            v,
            (#[trigger] s.drop_first()[i]).voter@,
        ) by {
            assert(s.drop_first()[i] == s[i + 1]);
        }
        if p < s.len() {
            assert(s.drop_first()[p - 1] == s[p]);
        }
        lemma_votes_start_agrees(s.drop_first(), v, p - 1);
    }
}

/// The response `r` renders proposal `p` under id `id` at block `block`,
/// with `votes` as its ballot page. The status is recomputed live; title
/// and description are unused in this hub and always empty.
pub open spec fn spec_proposal_response(
    id: u64,
    p: Proposal,
    block: BlockInfo,
    votes: Seq<VoteInfo>,
    r: ProposalResponse,
) -> bool {
    &&& r.id == id
    &&& r.title@ == Seq::<char>::empty()
    &&& r.updated_at == p.start_height
    &&& r.description@ == Seq::<char>::empty()
    &&& r.votes@.len() == votes.len()
    &&& forall|k: int| 0 <= k < votes.len() ==> vi_matches(#[trigger] r.votes@[k], votes[k])
    &&& r.status == p.spec_current_status(block)
    &&& r.expires == p.expires
    &&& r.threshold == p.threshold.spec_to_response(p.total_weight)
    &&& r.proposer@ == p.proposer@
    &&& r.deposit == p.deposit
}

/// The current configuration.
pub fn query_config(state: &OracleState) -> (r: &Config)
    ensures
        *r == state.config,
{
    &state.config
}

/// The live threshold rule paired with the membership's current total
/// weight, which the host queries from the membership source.
pub fn query_threshold(state: &OracleState, total_weight: u64) -> (r: ThresholdResponse)
    ensures
        r == state.config.threshold.spec_to_response(total_weight),
{
    state.config.threshold.to_response(total_weight)
}

/// Render one proposal without its ballots.
pub fn map_proposal(block: &BlockInfo, id: u64, prop: &Proposal) -> (r: ProposalResponse)
    requires
        spec_threshold_wf(prop.threshold),
    ensures
        spec_proposal_response(id, *prop, *block, Seq::<VoteInfo>::empty(), r),
{
    ProposalResponse {
        id,
        title: String::new(),
        updated_at: prop.start_height,
        description: String::new(),
        votes: Vec::new(),
        status: prop.current_status(block),
        expires: prop.expires,
        threshold: prop.threshold.to_response(prop.total_weight),
        proposer: prop.proposer.clone(),
        deposit: match &prop.deposit {
            None => None,
            Some(d) => Some(d.duplicate()),
        },
    }
}

/// One page of the ballots of a proposal, in voter order, starting after
/// the `start_after` voter when given. An unknown proposal has no ballots.
pub fn list_votes(
    state: &OracleState,
    proposal_id: u64,
    start_after: Option<String>,
    limit: Option<u32>,
) -> (r: VoteListResponse)
    requires
        state.wf(),
    ensures
        ({
            let src = if state.spec_has_proposal(proposal_id) {
                state.spec_ballots(proposal_id)
            } else {
                Seq::<VoteInfo>::empty()
            };
            let start = match start_after {
                None => 0int,
                Some(v) => spec_votes_start(src, v@),
            };
            let cnt = if spec_limit(limit) < src.len() - start {
                spec_limit(limit)
            } else {
                src.len() - start
            };
            &&& r.votes@.len() == (if cnt >= 0 {
                cnt
            } else {
                0int
            })
            &&& forall|k: int|
                0 <= k < r.votes@.len() ==> vi_matches(#[trigger] r.votes@[k], src[start + k])
        }),
{
    let lim = limit_to_usize(limit);
    let n = state.proposals.len();
    if proposal_id == 0 || proposal_id > n as u64 {
        return VoteListResponse { votes: Vec::new() };
    }
    let idx = (proposal_id - 1) as usize;
    let bl = &state.ballots[idx];
    let bn = bl.len();
    let mut p: usize = 0;
    match &start_after {
        None => {},
        Some(v) => {
            let mut stop = false;
            while p < bn && !stop
                invariant
                    p <= bn,
                    bn == bl@.len(),
                    forall|i: int| 0 <= i < p ==> !str_lt(v@, (#[trigger] bl@[i]).voter@),
                    stop ==> p < bn && str_lt(v@, bl@[p as int].voter@),
                decreases bn - p + (if stop {
                    0int
                } else {
                    1int
                }),
            {
                if compare_strings(v, &bl[p].voter) == Cmp::Lt {
                    stop = true;
                } else {
                    proof {
                        lemma_str_trichotomy(v@, bl@[p as int].voter@);
                    }
                    p += 1;
                }
            }
            proof {
                lemma_votes_start_agrees(bl@, v@, p as int);
            }
        },
    }
    let ghost start = p as int;
    let mut votes: Vec<VoteInfo> = Vec::new();
    while p < bn && votes.len() < lim
        invariant
            start <= p <= bn,
            bn == bl@.len(),
            votes@.len() == p - start,
            votes@.len() <= lim,
            forall|k: int| 0 <= k < votes@.len() ==> vi_matches(#[trigger] votes@[k], bl@[start + k]),
        decreases bn - p,
    {
        votes.push(bl[p].duplicate());
        p += 1;
    }
    VoteListResponse { votes }
}

/// One recorded ballot, looked up by proposal and voter; `None` when the
/// proposal is unknown or the voter cast no ballot on it.
pub fn query_vote(state: &OracleState, proposal_id: u64, voter: String) -> (r: VoteResponse)
    requires
        state.wf(),
    ensures
        ({
            let src = if state.spec_has_proposal(proposal_id) {
                state.spec_ballots(proposal_id)
            } else {
                Seq::<VoteInfo>::empty()
            };
            &&& r.vote is Some <==> ballots_has_voter(src, voter@)
            &&& (r.vote matches Some(vi) ==> vi_matches(vi, src[ballot_index_of(src, voter@)]))
        }),
{
    let n = state.proposals.len();
    if proposal_id == 0 || proposal_id > n as u64 {
        return VoteResponse { vote: None };
    }
    let idx = (proposal_id - 1) as usize;
    let bl = &state.ballots[idx];
    let bn = bl.len();
    let mut i: usize = 0;
    while i < bn
        invariant
            i <= bn,
            bn == bl@.len(),
            ballots_wf(bl@),
            state.spec_has_proposal(proposal_id),
            bl@ == state.spec_ballots(proposal_id),
            forall|j: int| 0 <= j < i ==> (#[trigger] bl@[j]).voter@ != voter@,
        decreases bn - i,
    {
        if bl[i].voter.eq(&voter) {
            let found = bl[i].duplicate();
            proof {
                assert(bl@ == state.spec_ballots(proposal_id));
                assert(bl@[i as int].voter@ == voter@);
                assert(ballots_has_voter(bl@, voter@));
                let w = ballot_index_of(bl@, voter@);
                assert(0 <= w < bl@.len() && bl@[w].voter@ == voter@);
                if w != i as int {
                    if w < i as int {
                        assert(str_lt(bl@[w].voter@, bl@[i as int].voter@));
                    } else {
                        assert(str_lt(bl@[i as int].voter@, bl@[w].voter@));
                    }
                    lemma_str_trichotomy(bl@[w].voter@, bl@[i as int].voter@);
                    assert(false);
                }
                assert(vi_matches(found, bl@[i as int]));
            }
            return VoteResponse { vote: Some(found) };
        }
        i += 1;
    }
    VoteResponse { vote: None }
}

/// Render proposal `proposal_id` with its first ballot page (up to
/// `MAX_LIMIT` ballots).
pub fn query_proposal(state: &OracleState, env: &Env, proposal_id: u64) -> (r: Result<
    ProposalResponse,
    ContractError,
>)
    requires
        state.wf(),
    ensures
        r is Ok <==> state.spec_has_proposal(proposal_id),
        r is Err ==> r == Err::<ProposalResponse, ContractError>(ContractError::NotFound),
        r matches Ok(pr) ==> {
            let src = state.spec_ballots(proposal_id);
            let cnt = if (MAX_LIMIT as int) < src.len() {
                MAX_LIMIT as int
            } else {
                src.len() as int
            };
            spec_proposal_response(
                proposal_id,
                state.spec_proposal(proposal_id),
                env.block,
                src.take(cnt),
                pr,
            )
        },
{
    let n = state.proposals.len();
    if proposal_id == 0 || proposal_id > n as u64 {
        return Err(ContractError::NotFound);
    }
    let idx = (proposal_id - 1) as usize;
    let votes = list_votes(state, proposal_id, None, Some(MAX_LIMIT)).votes;
    let prop = &state.proposals[idx];
    proof {
        let src = state.spec_ballots(proposal_id);
        let cnt = if (MAX_LIMIT as int) < src.len() {
            MAX_LIMIT as int
        } else {
            src.len() as int
        };
        assert(votes@.len() == src.take(cnt).len());
        assert forall|k: int| 0 <= k < votes@.len() implies vi_matches(
            #[trigger] votes@[k],
            src.take(cnt)[k],
        ) by {
            assert(src.take(cnt)[k] == src[k]);
        }
    }
    Ok(
        ProposalResponse {
            id: proposal_id,
            title: String::new(),
            updated_at: prop.start_height,
            description: String::new(),
            votes,
            status: prop.current_status(&env.block),
            expires: prop.expires,
            threshold: prop.threshold.to_response(prop.total_weight),
            proposer: prop.proposer.clone(),
            deposit: match &prop.deposit {
                None => None,
                Some(d) => Some(d.duplicate()),
            },
        },
    )
}

/// One forward page of proposals, each rendered without ballots, starting
/// after id `start_after` when given.
pub fn list_proposals(
    state: &OracleState,
    env: &Env,
    start_after: Option<u64>,
    limit: Option<u32>,
) -> (r: ProposalListResponse)
    requires
        state.wf(),
    ensures
        ({
            let count = state.proposals@.len() as int;
            let after = match start_after {
                None => 0int,
                Some(a) => a as int,
            };
            let start = if after < count {
                after
            } else {
                count
            };
            let cnt = if spec_limit(limit) < count - start {
                spec_limit(limit)
            } else {
                count - start
            };
            &&& r.proposals@.len() == cnt
            &&& forall|k: int|
                0 <= k < cnt ==> spec_proposal_response(
                    (start + k + 1) as u64,
                    state.proposals@[start + k],
                    env.block,
                    Seq::<VoteInfo>::empty(),
                    #[trigger] r.proposals@[k],
                )
        }),
{
    let lim = limit_to_usize(limit);
    let n = state.proposals.len();
    let after = match start_after {
        None => 0u64,
        Some(a) => a,
    };
    let start: usize = if after < n as u64 {
        after as usize
    } else {
        n
    };
    let mut out: Vec<ProposalResponse> = Vec::new();
    let mut i: usize = start;
    while i < n && out.len() < lim
        invariant
            start <= i <= n,
            n == state.proposals@.len(),
            state.wf(),
            out@.len() == i - start,
            out@.len() <= lim,
            forall|k: int|
                0 <= k < out@.len() ==> spec_proposal_response(
                    (start + k + 1) as u64,
                    state.proposals@[start + k],
                    env.block,
                    Seq::<VoteInfo>::empty(),
                    #[trigger] out@[k],
                ),
        decreases n - i,
    {
        let id = (i + 1) as u64;
        let pr = map_proposal(&env.block, id, &state.proposals[i]);
        out.push(pr);
        i += 1;
    }
    ProposalListResponse { proposals: out }
}

/// One backward page of proposals, each rendered without ballots, starting
/// below id `start_before` when given.
pub fn reverse_proposals(
    state: &OracleState,
    env: &Env,
    start_before: Option<u64>,
    limit: Option<u32>,
) -> (r: ProposalListResponse)
    requires
        state.wf(),
    ensures
        ({
            let count = state.proposals@.len() as int;
            let hi = match start_before {
                None => count,
                Some(b) => if (b as int) - 1 < count {
                    (b as int) - 1
                } else {
                    count
                },
            };
            let cnt = if spec_limit(limit) < hi {
                spec_limit(limit)
            } else {
                hi
            };
            &&& r.proposals@.len() == (if cnt >= 0 {
                cnt
            } else {
                0int
            })
            &&& forall|k: int|
                0 <= k < r.proposals@.len() ==> spec_proposal_response(
                    (hi - k) as u64,
                    state.proposals@[hi - k - 1],
                    env.block,
                    Seq::<VoteInfo>::empty(),
                    #[trigger] r.proposals@[k],
                )
        }),
{
    let lim = limit_to_usize(limit);
    let n = state.proposals.len();
    let hi: usize = match start_before {
        None => n,
        Some(b) => {
            if b == 0 {
                0
            } else if b - 1 < n as u64 {
                (b - 1) as usize
            } else {
                n
            }
        },
    };
    let mut out: Vec<ProposalResponse> = Vec::new();
    let mut i: usize = hi;
    while i > 0 && out.len() < lim
        invariant
            0 <= i <= hi <= n,
            n == state.proposals@.len(),
            state.wf(),
            out@.len() == hi - i,
            out@.len() <= lim,
            forall|k: int|
                0 <= k < out@.len() ==> spec_proposal_response(
                    (hi - k) as u64,
                    state.proposals@[hi - k - 1],
                    env.block,
                    Seq::<VoteInfo>::empty(),
                    #[trigger] out@[k],
                ),
        decreases i,
    {
        let id = i as u64;
        let pr = map_proposal(&env.block, id, &state.proposals[i - 1]);
        out.push(pr);
        i -= 1;
    }
    ProposalListResponse { proposals: out }
}

/// The most recent proposal, rendered with its first ballot page, or `None`
/// when none was ever opened.
pub fn query_last_proposal(state: &OracleState, env: &Env) -> (r: Option<ProposalResponse>)
    requires
        state.wf(),
    ensures
        r is Some <==> state.proposal_count > 0,
        r matches Some(pr) ==> {
            let id = state.proposal_count;
            let src = state.spec_ballots(id);
            let cnt = if (MAX_LIMIT as int) < src.len() {
                MAX_LIMIT as int
            } else {
                src.len() as int
            };
            spec_proposal_response(id, state.spec_proposal(id), env.block, src.take(cnt), pr)
        },
{
    let last = state.last_id();
    if last == 0 {
        return None;
    }
    match query_proposal(state, env, last) {
        Ok(pr) => Some(pr),
        Err(_) => {
            proof {
                assert(false);
            }
            None
        },
    }
}

/// Law: counting one more ballot never decreases a proposal's tally, and
/// the tally never exceeds the total weight snapshotted at the proposal's
/// creation. Applied step by step, any sequence of distinct-voter votes on
/// one proposal yields a non-decreasing, bounded tally.
pub proof fn lemma_tally_monotonic(
    pre: OracleState,
    post: OracleState,
    msgs: Seq<DispatchMsg>,
    block: BlockInfo,
    sender: String,
    proposal_id: u64,
    data: VoteData,
    vote_power: Option<u64>,
)
    requires
        pre.wf(),
        post.wf(),
        pre.spec_has_proposal(proposal_id),
        vote_power is Some,
        pre.spec_proposal(proposal_id).votes.yes + vote_power->Some_0 <= pre.spec_proposal(
            proposal_id,
        ).total_weight,
        spec_vote_effect(pre, post, msgs, block, sender, proposal_id, data, vote_power),
    ensures
        post.spec_has_proposal(proposal_id),
        post.spec_proposal(proposal_id).votes.yes >= pre.spec_proposal(proposal_id).votes.yes,
        post.spec_proposal(proposal_id).votes.yes <= post.spec_proposal(
            proposal_id,
        ).total_weight,
        post.spec_proposal(proposal_id).total_weight == pre.spec_proposal(
            proposal_id,
        ).total_weight,
{
    let w = vote_power->Some_0;
    let p = pre.spec_proposal(proposal_id);
    assert(post.proposals@[proposal_id - 1] == spec_vote_tallied(p, w, block));
    assert(post.spec_proposal(proposal_id).votes.yes == p.votes.yes + w);
}

/// Law: a voter holds at most one ballot per proposal. A second vote from
/// the same voter on the same proposal is refused with `AlreadyVoted`
/// whenever it gets that far — no earlier check refuses it first — and a
/// refused vote leaves every record untouched (see `execute_vote`: every
/// error leaves the state exactly as it was).
pub proof fn lemma_one_ballot_per_voter(
    s: OracleState,
    block: BlockInfo,
    proposal_id: u64,
    data: Seq<(Seq<char>, u128)>,
    sender: Seq<char>,
    vote_power: Option<u64>,
)
    requires
        s.wf(),
        s.spec_has_proposal(proposal_id),
        s.config.spec_verify_data(data),
        s.spec_proposal(proposal_id).status != Status::Executed,
        !spec_is_expired(s.spec_proposal(proposal_id).expires, block),
        vote_power is Some,
        ballots_has_voter(s.spec_ballots(proposal_id), sender),
    ensures
        spec_vote_outcome(s, block, proposal_id, data, sender, vote_power) == Err::<
            u64,
            ContractError,
        >(ContractError::AlreadyVoted),
{
}

/// Law: once a proposal's tally meets its threshold, it reads as `Passed`
/// at every block — past its expiration too — until it is explicitly moved
/// to `Executed`; expiry alone never demotes a passing proposal to
/// `Rejected`.
pub proof fn lemma_threshold_lock_in(p: Proposal, b1: BlockInfo, b2: BlockInfo)
    requires
        p.status == Status::Open || p.status == Status::Passed,
        p.spec_is_passed(),
    ensures
        p.spec_current_status(b1) == Status::Passed,
        p.spec_current_status(b2) == Status::Passed,
{
}

/// Law: close succeeds exactly on an expired, never-passed, still-open
/// proposal. One that executed, was rejected, or whose tally currently
/// passes is refused with `WrongCloseStatus`; an unexpired one with
/// `NotExpired`.
pub proof fn lemma_close_exclusivity(s: OracleState, block: BlockInfo, proposal_id: u64)
    requires
        s.wf(),
        s.spec_has_proposal(proposal_id),
    ensures
        ({
            let p = s.spec_proposal(proposal_id);
            &&& (spec_close_check(s, block, proposal_id) is Ok <==> p.status == Status::Open
                && p.spec_current_status(block) != Status::Passed && spec_is_expired(
                p.expires,
                block,
            ))
            &&& (p.status == Status::Executed || p.status == Status::Rejected
                || p.spec_current_status(block) == Status::Passed ==> spec_close_check(
                s,
                block,
                proposal_id,
            ) == Err::<(), ContractError>(ContractError::WrongCloseStatus))
            &&& (p.status == Status::Open && p.spec_current_status(block) != Status::Passed
                && !spec_is_expired(p.expires, block) ==> spec_close_check(s, block, proposal_id)
                == Err::<(), ContractError>(ContractError::NotExpired))
        }),
{
    let p = s.spec_proposal(proposal_id);
    if p.status == Status::Passed {
        assert(p.spec_current_status(block) == Status::Passed);
    }
}

/// Law: while the most recent proposal is undecided, opening a new one is
/// refused with `CanNotPropose`, whatever else the request carries; once it
/// reads as executed or rejected, that gate is open.
pub proof fn lemma_reproposal_gating(
    s: OracleState,
    env: Env,
    info: MessageInfo,
    data: Seq<(Seq<char>, u128)>,
    latest: Option<Expiration>,
    vote_power: Option<u64>,
)
    requires
        s.wf(),
    ensures
        !spec_last_proposal_done(s, env.block) ==> spec_propose_outcome(
            s,
            env,
            info,
            data,
            latest,
            vote_power,
        ) == Err::<Expiration, ContractError>(ContractError::CanNotPropose),
        spec_last_proposal_done(s, env.block) ==> spec_propose_outcome(
            s,
            env,
            info,
            data,
            latest,
            vote_power,
        ) != Err::<Expiration, ContractError>(ContractError::CanNotPropose),
{
}

} // verus!
