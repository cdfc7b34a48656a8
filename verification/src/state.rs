use vstd::prelude::*;
use crate::deposit::DepositInfo;
use crate::expiration::{spec_is_expired, BlockInfo, Duration, Expiration};
use crate::msg::{vd_has_key, VoteData, VoteInfo};
use crate::order::{compare_strings, lemma_str_lt_trans, lemma_str_trichotomy, str_lt, Cmp};
use crate::threshold::{
    spec_is_passed, spec_is_rejected, spec_threshold_wf, votes_needed, Threshold,
};

verus! {

/// Lifecycle state of a proposal. `Rejected` and `Executed` are terminal;
/// `Executed` is only ever set by the hub itself and is never recomputed
/// away.
#[derive(Clone, Copy, Debug, PartialEq, Eq, Structural)]
pub enum Status {
    Open,
    Passed,
    Rejected,
    Executed,
}

/// The running tally of a proposal. Every recorded ballot counts in favor,
/// so a single weight suffices.
#[derive(Clone, Copy, Debug, PartialEq, Eq, Structural)]
pub struct Votes {
    pub yes: u64,
}

impl Votes {
    /// A tally opened with one ballot of weight `init_weight`.
    pub fn yes(init_weight: u64) -> (r: Votes)
        ensures
            r == (Votes { yes: init_weight }),
    {
        Votes { yes: init_weight }
    }

    /// Count one more ballot of weight `weight`.
    pub fn add_vote(&mut self, weight: u64)
        requires
            old(self).yes + weight <= u64::MAX,
        ensures
            final(self).yes == old(self).yes + weight,
    {
        self.yes = self.yes + weight;
    }
}

/// One proposal record. The threshold, total weight and deposit terms are
/// snapshotted at creation and never re-read from the live configuration.
#[derive(Clone, Debug)]
pub struct Proposal {
    pub start_height: u64,
    pub expires: Expiration,
    pub status: Status,
    pub threshold: Threshold,
    pub total_weight: u64,
    pub votes: Votes,
    pub proposer: String,
    pub deposit: Option<DepositInfo>,
}

impl Proposal {
    /// The tally never exceeds the snapshotted total weight, and the
    /// snapshotted percentage threshold is a genuine percentage.
    pub open spec fn wf(&self) -> bool {
        &&& self.votes.yes <= self.total_weight
        &&& spec_threshold_wf(self.threshold)
    }

    /// The recorded tally meets the snapshotted threshold.
    pub open spec fn spec_is_passed(&self) -> bool {
        spec_is_passed(self.threshold, self.votes.yes, self.total_weight)
    }

    /// No sequence of further ballots could make the proposal pass.
    pub open spec fn spec_is_rejected(&self) -> bool {
        spec_is_rejected(self.threshold, self.total_weight)
    }

    /// What the status reads as at block `block`: an open proposal whose
    /// tally meets the threshold reads as `Passed` — checked before
    /// expiration, so a passing proposal never lapses into `Rejected` — and
    /// an open, unpassable or expired proposal reads as `Rejected`. Stored
    /// terminal states are never recomputed.
    pub open spec fn spec_current_status(&self, block: BlockInfo) -> Status {
        let passed = if self.status == Status::Open && self.spec_is_passed() {
            Status::Passed
        } else {
            self.status
        };
        if passed == Status::Open && (self.spec_is_rejected() || spec_is_expired(
            self.expires,
            block,
        )) {
            Status::Rejected
        } else {
            passed
        }
    }

    pub fn is_passed(&self) -> (r: bool)
        requires
            spec_threshold_wf(self.threshold),
        ensures
            r == self.spec_is_passed(),
    {
        match self.threshold {
            Threshold::AbsoluteCount { weight } => self.votes.yes >= weight,
            Threshold::AbsolutePercentage { percentage } => {
                let needed = votes_needed(self.total_weight, percentage);
                self.votes.yes >= needed
            },
        }
    }

    pub fn is_rejected(&self) -> (r: bool)
        ensures
            r == self.spec_is_rejected(),
    {
        match self.threshold {
            Threshold::AbsoluteCount { weight } => weight > self.total_weight,
            Threshold::AbsolutePercentage { .. } => false,
        }
    }

    /// Recompute the live status; see `spec_current_status`.
    pub fn current_status(&self, block: &BlockInfo) -> (r: Status)
        requires
            spec_threshold_wf(self.threshold),
        ensures
            r == self.spec_current_status(*block),
    {
        let mut status = self.status;
        if status == Status::Open && self.is_passed() {
            status = Status::Passed;
        }
        if status == Status::Open && (self.is_rejected() || self.expires.is_expired(block)) {
            status = Status::Rejected;
        }
        status
    }

    /// Store the recomputed status.
    pub fn update_status(&mut self, block: &BlockInfo)
        requires
            spec_threshold_wf(old(self).threshold),
        ensures
            *final(self) == (Proposal {
                status: old(self).spec_current_status(*block),
                ..*old(self)
            }),
    {
        self.status = self.current_status(block);
    }

    /// An owned copy of this proposal.
    pub fn duplicate(&self) -> (r: Proposal)
        ensures
            r == *self,
    {
        Proposal {
            start_height: self.start_height,
            expires: self.expires,
            status: self.status,
            threshold: self.threshold,
            total_weight: self.total_weight,
            votes: self.votes,
            proposer: self.proposer.clone(),
            deposit: match &self.deposit {
                None => None,
                Some(d) => Some(d.duplicate()),
            },
        }
    }
}

/// One recorded ballot: the voter's weight at the proposal's snapshot
/// height, and the prices they submitted.
#[derive(Clone, Debug)]
pub struct Data {
    pub weight: u64,
    pub data: VoteData,
}

/// The governance configuration. Mutable only by the owner; in-flight
/// proposals keep the snapshot taken at their creation.
#[derive(Clone, Debug)]
pub struct Config {
    pub owner: String,
    pub threshold: Threshold,
    pub max_submitting_period: Duration,
    pub group_addr: String,
    pub proposal_deposit: Option<DepositInfo>,
    pub price_keys: Vec<String>,
    pub hook_contracts: Vec<String>,
}

impl Config {
    pub open spec fn wf(&self) -> bool {
        spec_threshold_wf(self.threshold)
    }

    /// A submission matches the schema when it has exactly as many entries
    /// as there are configured price keys and holds every configured key.
    pub open spec fn spec_verify_data(&self, data: Seq<(Seq<char>, u128)>) -> bool {
        &&& data.len() == self.price_keys@.len()
        &&& forall|j: int|
            0 <= j < self.price_keys@.len() ==> vd_has_key(data, (#[trigger] self.price_keys@[j])@)
    }

    /// Check a submission against the configured price keys.
    pub fn verify_data(&self, data: &VoteData) -> (r: bool)
        ensures
            r == self.spec_verify_data(data@),
    {
        if data.len() != self.price_keys.len() {
            return false;
        }
        let n = self.price_keys.len();
        let mut i: usize = 0;
        while i < n
            invariant
                i <= n,
                n == self.price_keys@.len(),
                data@.len() == self.price_keys@.len(),
                forall|j: int| 0 <= j < i ==> vd_has_key(data@, (#[trigger] self.price_keys@[j])@),
            decreases n - i,
        {
            if !data.contains_key(&self.price_keys[i]) {
                return false;
            }
            i += 1;
        }
        true
    }

    /// An owned copy of this configuration.
    pub fn duplicate(&self) -> (r: Config)
        ensures
            r.owner == self.owner,
            r.threshold == self.threshold,
            r.max_submitting_period == self.max_submitting_period,
            r.group_addr == self.group_addr,
            r.proposal_deposit == self.proposal_deposit,
            r.price_keys@ =~= self.price_keys@,
            r.hook_contracts@ =~= self.hook_contracts@,
    {
        Config {
            owner: self.owner.clone(),
            threshold: self.threshold,
            max_submitting_period: self.max_submitting_period,
            group_addr: self.group_addr.clone(),
            proposal_deposit: match &self.proposal_deposit {
                None => None,
                Some(d) => Some(d.duplicate()),
            },
            price_keys: clone_strings(&self.price_keys),
            hook_contracts: clone_strings(&self.hook_contracts),
        }
    }
}

/// An owned copy of a list of strings.
pub fn clone_strings(v: &Vec<String>) -> (r: Vec<String>)
    ensures
        r@ =~= v@,
{
    let mut out: Vec<String> = Vec::new();
    let mut i: usize = 0;
    while i < v.len()
        invariant
            i <= v@.len(),
            out@.len() == i,
            forall|j: int| 0 <= j < i ==> out@[j] == v@[j],
        decreases v@.len() - i,
    {
        out.push(v[i].clone());
        i += 1;
    }
    out
}

/// A ballot for voter `v` is on record.
pub open spec fn ballots_has_voter(s: Seq<VoteInfo>, v: Seq<char>) -> bool {
    exists|i: int| 0 <= i < s.len() && s[i].voter@ == v
}

/// The position of voter `v`'s ballot; meaningful when one is on record.
pub open spec fn ballot_index_of(s: Seq<VoteInfo>, v: Seq<char>) -> int {
    choose|i: int| 0 <= i < s.len() && s[i].voter@ == v
}

/// Ballots are kept strictly ordered by voter, in the byte order of the
/// voter addresses; in particular no voter appears twice.
pub open spec fn ballots_sorted(s: Seq<VoteInfo>) -> bool {
    forall|i: int, j: int| 0 <= i < j < s.len() ==> str_lt(s[i].voter@, s[j].voter@)
}

/// The combined weight of a list of ballots.
pub open spec fn sum_weights(s: Seq<VoteInfo>) -> int
    decreases s.len(),
{
    if s.len() == 0 {
        0
    } else {
        sum_weights(s.drop_last()) + s.last().data.weight
    }
}

/// Every ballot list is sorted by voter and every recorded submission has
/// unique keys.
pub open spec fn ballots_wf(s: Seq<VoteInfo>) -> bool {
    &&& ballots_sorted(s)
    &&& forall|i: int| 0 <= i < s.len() ==> (#[trigger] s[i]).data.data.wf()
}

/// Where a ballot of voter `v` belongs in the sorted list `s`: past every
/// voter that orders below `v`.
pub open spec fn spec_insert_pos(s: Seq<VoteInfo>, v: Seq<char>) -> int
    decreases s.len(),
{
    if s.len() == 0 {
        0
    } else if str_lt(s[0].voter@, v) {
        1 + spec_insert_pos(s.drop_first(), v)
    } else {
        0
    }
}

/// The sorted list `s` with ballot `b` inserted at its position.
pub open spec fn spec_sorted_insert(s: Seq<VoteInfo>, b: VoteInfo) -> Seq<VoteInfo> {
    let p = spec_insert_pos(s, b.voter@);
    s.subrange(0, p) + seq![b] + s.subrange(p, s.len() as int)
}

/// A scan that stops at the first voter not below `v` lands on
/// `spec_insert_pos`.
proof fn lemma_insert_pos_agrees(s: Seq<VoteInfo>, v: Seq<char>, p: int)
    requires
        0 <= p <= s.len(),
        forall|i: int| 0 <= i < p ==> str_lt((#[trigger] s[i]).voter@, v),
        p == s.len() || !str_lt(s[p].voter@, v),
    ensures
        spec_insert_pos(s, v) == p,
    decreases s.len(),
{
    if s.len() == 0 {
    } else if p == 0 {
    } else {
        assert(str_lt(s[0].voter@, v));
        assert forall|i: int| 0 <= i < p - 1 implies str_lt(
            (#[trigger] s.drop_first()[i]).voter@,
            v,
        ) by {
            assert(s.drop_first()[i] == s[i + 1]);
        }
        if p < s.len() {
            assert(s.drop_first()[p - 1] == s[p]);
        }
        lemma_insert_pos_agrees(s.drop_first(), v, p - 1);
    }
}

/// Inserting a fresh voter at its position keeps the list sorted, grows it
/// by one, and leaves every other ballot in place.
pub proof fn lemma_sorted_insert_props(s: Seq<VoteInfo>, b: VoteInfo)
    requires
        ballots_sorted(s),
        !ballots_has_voter(s, b.voter@),
    ensures
        ballots_sorted(spec_sorted_insert(s, b)),
        spec_sorted_insert(s, b).len() == s.len() + 1,
        spec_sorted_insert(s, b)[spec_insert_pos(s, b.voter@)] == b,
        forall|i: int|
            0 <= i < spec_insert_pos(s, b.voter@) ==> #[trigger] spec_sorted_insert(s, b)[i]
                == s[i],
        forall|i: int|
            spec_insert_pos(s, b.voter@) < i < s.len() + 1 ==> #[trigger] spec_sorted_insert(
                s,
                b,
            )[i] == s[i - 1],
        sum_weights(spec_sorted_insert(s, b)) == sum_weights(s) + b.data.weight,
{
    let v = b.voter@;
    let p = spec_insert_pos(s, v);
    lemma_insert_pos_bounds(s, v);
    let t = spec_sorted_insert(s, b);
    assert(t.len() == s.len() + 1);
    assert(t[p] == b);
    assert(forall|i: int| 0 <= i < p ==> #[trigger] t[i] == s[i]);
    assert(forall|i: int| p < i < s.len() + 1 ==> #[trigger] t[i] == s[i - 1]);
    assert forall|i: int, j: int| 0 <= i < j < t.len() implies str_lt(
        t[i].voter@,
        t[j].voter@,
    ) by {
        lemma_insert_pos_below(s, v);
        lemma_insert_pos_at(s, v);
        if i < p && j < p {
        } else if i < p && j == p {
            assert(str_lt(s[i].voter@, v));
        } else if i < p && j > p {
            assert(str_lt(s[i].voter@, s[j - 1].voter@));
        } else if i == p && j > p {
            assert(t[j] == s[j - 1]);
            assert(s[j - 1].voter@ != v);
            if str_lt(s[j - 1].voter@, v) {
                if j - 1 > p {
                    assert(str_lt(s[p].voter@, s[j - 1].voter@));
                    lemma_str_lt_trans(s[p].voter@, s[j - 1].voter@, v);
                }
                assert(false);
            }
            lemma_str_trichotomy(s[j - 1].voter@, v);
            assert(str_lt(v, s[j - 1].voter@));
        } else {
            assert(str_lt(s[i - 1].voter@, s[j - 1].voter@));
        }
    }
    lemma_sum_insert(s, b, p);
}

/// The insert position lies within the list.
proof fn lemma_insert_pos_bounds(s: Seq<VoteInfo>, v: Seq<char>)
    ensures
        0 <= spec_insert_pos(s, v) <= s.len(),
    decreases s.len(),
{
    if s.len() > 0 && str_lt(s[0].voter@, v) {
        lemma_insert_pos_bounds(s.drop_first(), v);
    }
}

/// Every voter before the insert position orders below `v`.
proof fn lemma_insert_pos_below(s: Seq<VoteInfo>, v: Seq<char>)
    ensures
        forall|i: int|
            0 <= i < spec_insert_pos(s, v) ==> str_lt((#[trigger] s[i]).voter@, v),
    decreases s.len(),
{
    lemma_insert_pos_bounds(s, v);
    if s.len() > 0 && str_lt(s[0].voter@, v) {
        lemma_insert_pos_below(s.drop_first(), v);
        lemma_insert_pos_bounds(s.drop_first(), v);
        assert forall|i: int| 0 <= i < spec_insert_pos(s, v) implies str_lt(
            (#[trigger] s[i]).voter@,
            v,
        ) by {
            if i > 0 {
                assert(s.drop_first()[i - 1] == s[i]);
            }
        }
    }
}

/// The voter at the insert position, if any, does not order below `v`.
proof fn lemma_insert_pos_at(s: Seq<VoteInfo>, v: Seq<char>)
    ensures
        spec_insert_pos(s, v) == s.len() || !str_lt(s[spec_insert_pos(s, v)].voter@, v),
    decreases s.len(),
{
    lemma_insert_pos_bounds(s, v);
    if s.len() > 0 && str_lt(s[0].voter@, v) {
        lemma_insert_pos_at(s.drop_first(), v);
        lemma_insert_pos_bounds(s.drop_first(), v);
        let p = spec_insert_pos(s, v);
        if p < s.len() {
            assert(s.drop_first()[p - 1] == s[p]);
        }
    }
}

/// The combined weight of two ballot lists laid end to end.
proof fn lemma_sum_concat(a: Seq<VoteInfo>, b: Seq<VoteInfo>)
    ensures
        sum_weights(a + b) == sum_weights(a) + sum_weights(b),
    decreases b.len(),
{
    if b.len() == 0 {
        assert(a + b =~= a);
    } else {
        assert((a + b).drop_last() =~= a + b.drop_last());
        assert((a + b).last() == b.last());
        lemma_sum_concat(a, b.drop_last());
    }
}

/// Inserting one ballot adds exactly its weight.
proof fn lemma_sum_insert(s: Seq<VoteInfo>, b: VoteInfo, p: int)
    requires
        0 <= p <= s.len(),
        p == spec_insert_pos(s, b.voter@),
    ensures
        sum_weights(spec_sorted_insert(s, b)) == sum_weights(s) + b.data.weight,
{
    let front = s.subrange(0, p);
    let back = s.subrange(p, s.len() as int);
    lemma_sum_concat(front + seq![b], back);
    lemma_sum_concat(front, seq![b]);
    lemma_sum_concat(front, back);
    assert(sum_weights(seq![b]) == b.data.weight) by {
        assert(seq![b].drop_last() =~= Seq::<VoteInfo>::empty());
        assert(sum_weights(Seq::<VoteInfo>::empty()) == 0);
    }
    assert(front + back =~= s);
    assert(spec_sorted_insert(s, b) == front + seq![b] + back);
}

/// Find where a ballot of `voter` belongs in the sorted list, or report that
/// the voter already holds one.
pub fn find_insert_pos(list: &Vec<VoteInfo>, voter: &String) -> (r: Option<usize>)
    requires
        ballots_sorted(list@),
    ensures
        r is None <==> ballots_has_voter(list@, voter@),
        r matches Some(p) ==> p == spec_insert_pos(list@, voter@) && p <= list@.len(),
{
    let n = list.len();
    let mut p: usize = 0;
    while p < n
        invariant
            p <= n,
            n == list@.len(),
            ballots_sorted(list@),
            forall|i: int| 0 <= i < p ==> str_lt((#[trigger] list@[i]).voter@, voter@),
        decreases n - p,
    {
        let c = compare_strings(&list[p].voter, voter);
        if c == Cmp::Eq {
            assert(list@[p as int].voter@ == voter@);
            return None;
        }
        if c == Cmp::Gt {
            proof {
                lemma_insert_pos_agrees(list@, voter@, p as int);
                assert forall|i: int| 0 <= i < list@.len() implies (#[trigger] list@[i]).voter@
                    != voter@ by {
                    lemma_str_trichotomy(list@[i].voter@, voter@);
                    if i > p {
                        lemma_str_lt_trans(voter@, list@[p as int].voter@, list@[i].voter@);
                    }
                }
            }
            return Some(p);
        }
        proof {
            lemma_str_trichotomy(list@[p as int].voter@, voter@);
        }
        p += 1;
    }
    proof {
        lemma_insert_pos_agrees(list@, voter@, n as int);
        assert forall|i: int| 0 <= i < list@.len() implies (#[trigger] list@[i]).voter@
            != voter@ by {
            lemma_str_trichotomy(list@[i].voter@, voter@);
        }
    }
    Some(p)
}

/// The whole persisted state of the hub: the configuration, the proposal
/// counter, and the proposal and ballot records. Proposal ids are dense:
/// proposal `id` lives at index `id - 1` and ids are never reused.
#[derive(Debug)]
pub struct OracleState {
    pub config: Config,
    pub proposal_count: u64,
    pub proposals: Vec<Proposal>,
    pub ballots: Vec<Vec<VoteInfo>>,
}

impl OracleState {
    pub open spec fn wf(&self) -> bool {
        &&& self.proposal_count == self.proposals@.len()
        &&& self.ballots@.len() == self.proposals@.len()
        &&& self.config.wf()
        &&& forall|i: int| 0 <= i < self.proposals@.len() ==> (#[trigger] self.proposals@[i]).wf()
        &&& forall|i: int|
            0 <= i < self.proposals@.len() ==> ballots_wf((#[trigger] self.ballots@[i])@)
        &&& forall|i: int|
            0 <= i < self.proposals@.len() ==> sum_weights((#[trigger] self.ballots@[i])@)
                == self.proposals@[i].votes.yes
    }

    /// Proposal `id` exists.
    pub open spec fn spec_has_proposal(&self, id: u64) -> bool {
        1 <= id <= self.proposals@.len()
    }

    /// The record of proposal `id`.
    pub open spec fn spec_proposal(&self, id: u64) -> Proposal {
        self.proposals@[id - 1]
    }

    /// The ballots of proposal `id`.
    pub open spec fn spec_ballots(&self, id: u64) -> Seq<VoteInfo> {
        self.ballots@[id - 1]@
    }

    /// The id of the most recent proposal; 0 when none was ever opened.
    pub fn last_id(&self) -> (r: u64)
        ensures
            r == self.proposal_count,
    {
        self.proposal_count
    }

    /// Allocate the next proposal id. Ids are assigned exactly once, in
    /// increasing order, and never reused.
    pub fn next_id(&mut self) -> (r: u64)
        requires
            old(self).proposal_count < u64::MAX,
        ensures
            r == old(self).proposal_count + 1,
            final(self).proposal_count == r,
            final(self).config == old(self).config,
            final(self).proposals == old(self).proposals,
            final(self).ballots == old(self).ballots,
    {
        self.proposal_count = self.proposal_count + 1;
        self.proposal_count
    }
}

} // verus!
