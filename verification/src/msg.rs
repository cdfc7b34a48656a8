use vstd::prelude::*;
use crate::deposit::{Denom, DepositInfo};
use crate::expiration::{BlockInfo, Duration, Expiration};
use crate::state::Data;
use crate::threshold::{Threshold, ThresholdResponse};
use crate::state::Status;

verus! {

/// An amount of one token denomination.
#[derive(Clone, Debug)]
pub struct Coin {
    pub denom: String,
    pub amount: u128,
}

/// Who invoked the operation and which funds the call carried.
#[derive(Clone, Debug)]
pub struct MessageInfo {
    pub sender: String,
    pub funds: Vec<Coin>,
}

/// The block the operation runs in and the address of this contract.
#[derive(Clone, Debug)]
pub struct Env {
    pub block: BlockInfo,
    pub contract_address: String,
}

/// A submitted set of prices, keyed by price key. Keys are unique.
#[derive(Clone, Debug)]
pub struct VoteData {
    pub entries: Vec<(String, u128)>,
}

impl View for VoteData {
    type V = Seq<(Seq<char>, u128)>;

    open spec fn view(&self) -> Seq<(Seq<char>, u128)> {
        self.entries@.map_values(|e: (String, u128)| (e.0@, e.1))
    }
}

pub open spec fn vd_has_key(s: Seq<(Seq<char>, u128)>, k: Seq<char>) -> bool {
    exists|i: int| 0 <= i < s.len() && s[i].0 == k
}

pub open spec fn vd_key_index(s: Seq<(Seq<char>, u128)>, k: Seq<char>) -> int {
    choose|i: int| 0 <= i < s.len() && s[i].0 == k
}

/// The value stored under key `k`; meaningful when the key is present and
/// keys are unique.
pub open spec fn vd_get(s: Seq<(Seq<char>, u128)>, k: Seq<char>) -> u128 {
    s[vd_key_index(s, k)].1
}

impl VoteData {
    /// Keys are pairwise distinct.
    pub open spec fn wf(&self) -> bool {
        forall|i: int, j: int| 0 <= i < j < self@.len() ==> self@[i].0 != self@[j].0
    }

    pub fn new() -> (r: VoteData)
        ensures
            r@ =~= Seq::<(Seq<char>, u128)>::empty(),
            r.wf(),
    {
        VoteData { entries: Vec::new() }
    }

    pub fn len(&self) -> (r: usize)
        ensures
            r == self@.len(),
    {
        self.entries.len()
    }

    pub fn contains_key(&self, key: &String) -> (r: bool)
        ensures
            r == vd_has_key(self@, key@),
    {
        let n = self.entries.len();
        let mut i: usize = 0;
        while i < n
            invariant
                i <= n,
                n == self.entries.len(),
                forall|j: int| 0 <= j < i ==> (#[trigger] self@[j]).0 != key@,
            decreases n - i,
        {
            if self.entries[i].0.eq(key) {
                assert(self@[i as int].0 == key@);
                return true;
            }
            i += 1;
        }
        false
    }

    /// Read the value stored under `key`.
    pub fn get(&self, key: &String) -> (r: u128)
        requires
            self.wf(),
            vd_has_key(self@, key@),
        ensures
            r == vd_get(self@, key@),
    {
        let n = self.entries.len();
        let mut i: usize = 0;
        while i < n
            invariant
                i <= n,
                n == self.entries.len(),
                self.wf(),
                vd_has_key(self@, key@),
                forall|j: int| 0 <= j < i ==> (#[trigger] self@[j]).0 != key@,
            decreases n - i,
        {
            if self.entries[i].0.eq(key) {
                proof {
                    let w = vd_key_index(self@, key@);
                    assert(0 <= w < self@.len() && self@[w].0 == key@);
                    if w < i as int {
                        assert(self@[w].0 != key@);
                    }
                    if w > i as int {
                        assert(self@[i as int].0 != self@[w].0);
                    }
                    assert(w == i as int);
                }
                return self.entries[i].1;
            }
            i += 1;
        }
        proof {
            let w = vd_key_index(self@, key@);
            assert(0 <= w < self@.len() && self@[w].0 == key@);
            assert(false);
        }
        0
    }

    /// An owned copy of this submission.
    pub fn duplicate(&self) -> (r: VoteData)
        ensures
            r@ =~= self@,
    {
        let mut out: Vec<(String, u128)> = Vec::new();
        let n = self.entries.len();
        let mut i: usize = 0;
        while i < n
            invariant
                i <= n,
                n == self.entries@.len(),
                out@.len() == i,
                forall|j: int|
                    0 <= j < i ==> (#[trigger] out@[j]).0@ == self.entries@[j].0@ && out@[j].1
                        == self.entries@[j].1,
            decreases n - i,
        {
            let key = self.entries[i].0.clone();
            let value = self.entries[i].1;
            out.push((key, value));
            i += 1;
        }
        VoteData { entries: out }
    }

    /// Store `value` under `key`, replacing any earlier value for that key.
    pub fn insert(&mut self, key: String, value: u128)
        requires
            old(self).wf(),
        ensures
            final(self).wf(),
            vd_has_key(final(self)@, key@),
            vd_get(final(self)@, key@) == value,
            forall|k: Seq<char>|
                k != key@ ==> #[trigger] vd_has_key(final(self)@, k) == vd_has_key(old(self)@, k),
            forall|k: Seq<char>|
                k != key@ && vd_has_key(old(self)@, k) ==> #[trigger] vd_get(final(self)@, k)
                    == vd_get(old(self)@, k),
            final(self)@.len() == old(self)@.len() + (if vd_has_key(old(self)@, key@) {
                0int
            } else {
                1int
            }),
    {
        let ghost prior = self@;
        let n = self.entries.len();
        let mut i: usize = 0;
        while i < n
            invariant
                i <= n,
                n == self.entries.len(),
                self@ == prior,
                old(self).wf(),
                prior == old(self)@,
                forall|j: int| 0 <= j < i ==> (#[trigger] prior[j]).0 != key@,
            decreases n - i,
        {
            if self.entries[i].0.eq(&key) {
                assert(prior[i as int].0 == key@);
                self.entries.set(i, (key, value));
                proof {
                    lemma_vd_update(prior, self@, i as int, key@, value);
                }
                return ;
            }
            i += 1;
        }
        self.entries.push((key, value));
        proof {
            assert(self@ =~= prior.push((key@, value)));
            lemma_vd_push(prior, self@, key@, value);
        }
    }
}

/// Replacing the entry at a position that already held key `k` keeps the key
/// sequence intact and only changes that one value.
proof fn lemma_vd_update(prior: Seq<(Seq<char>, u128)>, now: Seq<(Seq<char>, u128)>, i: int, k: Seq<
    char,
>, v: u128)
    requires
        0 <= i < prior.len(),
        prior[i].0 == k,
        forall|a: int, b: int| 0 <= a < b < prior.len() ==> prior[a].0 != prior[b].0,
        now =~= prior.update(i, (k, v)),
    ensures
        forall|a: int, b: int| 0 <= a < b < now.len() ==> now[a].0 != now[b].0,
        vd_has_key(now, k),
        vd_get(now, k) == v,
        forall|q: Seq<char>| q != k ==> #[trigger] vd_has_key(now, q) == vd_has_key(prior, q),
        forall|q: Seq<char>| q != k && vd_has_key(prior, q) ==> #[trigger] vd_get(now, q) == vd_get(
            prior,
            q,
        ),
        now.len() == prior.len(),
{
    assert(forall|j: int| 0 <= j < now.len() ==> (#[trigger] now[j]).0 == prior[j].0);
    assert(now[i].0 == k);
    let w = vd_key_index(now, k);
    assert(0 <= w < now.len() && now[w].0 == k);
    if w != i {
        if w < i {
            assert(now[w].0 == prior[w].0);
        } else {
            assert(now[w].0 == prior[w].0);
        }
        assert(prior[w].0 == k && prior[i].0 == k);
        assert(false);
    }
    assert(vd_get(now, k) == v);
    assert forall|q: Seq<char>| q != k implies #[trigger] vd_has_key(now, q) == vd_has_key(
        prior,
        q,
    ) by {
        if vd_has_key(now, q) {
            let j = vd_key_index(now, q);
            assert(prior[j].0 == q);
        }
        if vd_has_key(prior, q) {
            let j = choose|j: int| 0 <= j < prior.len() && prior[j].0 == q;
            assert(now[j].0 == q);
        }
    }
    assert forall|q: Seq<char>| q != k && vd_has_key(prior, q) implies #[trigger] vd_get(now, q)
        == vd_get(prior, q) by {
        let b = vd_key_index(prior, q);
        assert(0 <= b < prior.len() && prior[b].0 == q);
        assert(now[b].0 == q);
        assert(vd_has_key(now, q));
        let a = vd_key_index(now, q);
        assert(0 <= a < now.len() && now[a].0 == q);
        assert(prior[a].0 == q);
        if a != b {
            assert(false);
        }
        assert(a != i);
        assert(now[a].1 == prior[a].1);
    }
}

/// Appending an entry with a fresh key keeps keys unique and leaves every
/// other key's value in place.
proof fn lemma_vd_push(prior: Seq<(Seq<char>, u128)>, now: Seq<(Seq<char>, u128)>, k: Seq<char>, v:
    u128)
    requires
        forall|a: int, b: int| 0 <= a < b < prior.len() ==> prior[a].0 != prior[b].0,
        forall|j: int| 0 <= j < prior.len() ==> (#[trigger] prior[j]).0 != k,
        now =~= prior.push((k, v)),
    ensures
        forall|a: int, b: int| 0 <= a < b < now.len() ==> now[a].0 != now[b].0,
        vd_has_key(now, k),
        vd_get(now, k) == v,
        forall|q: Seq<char>| q != k ==> #[trigger] vd_has_key(now, q) == vd_has_key(prior, q),
        forall|q: Seq<char>| q != k && vd_has_key(prior, q) ==> #[trigger] vd_get(now, q) == vd_get(
            prior,
            q,
        ),
        now.len() == prior.len() + 1,
{
    let last = prior.len() as int;
    assert(now[last].0 == k);
    let w = vd_key_index(now, k);
    assert(0 <= w < now.len() && now[w].0 == k);
    if w != last {
        assert(now[w].0 == prior[w].0);
        assert(false);
    }
    assert(vd_get(now, k) == v);
    assert forall|q: Seq<char>| q != k implies #[trigger] vd_has_key(now, q) == vd_has_key(
        prior,
        q,
    ) by {
        if vd_has_key(now, q) {
            let j = vd_key_index(now, q);
            assert(j != last);
            assert(prior[j].0 == q);
        }
        if vd_has_key(prior, q) {
            let j = choose|j: int| 0 <= j < prior.len() && prior[j].0 == q;
            assert(now[j].0 == q);
        }
    }
    assert forall|q: Seq<char>| q != k && vd_has_key(prior, q) implies #[trigger] vd_get(now, q)
        == vd_get(prior, q) by {
        let b = vd_key_index(prior, q);
        assert(0 <= b < prior.len() && prior[b].0 == q);
        assert(now[b].0 == q);
        assert(vd_has_key(now, q));
        let a = vd_key_index(now, q);
        assert(0 <= a < now.len() && now[a].0 == q);
        assert(a != last);
        assert(prior[a].0 == q);
        if a != b {
            assert(false);
        }
    }
}

/// One outbound instruction, executed by the host after the operation
/// commits, in list order.
#[derive(Clone, Debug)]
pub enum DispatchMsg {
    /// Pull a token deposit from the proposer into this contract.
    TakeDeposit { cw20_addr: String, owner: String, recipient: String, amount: u128 },
    /// Send a held deposit back to the proposer.
    ReturnDeposit { denom: Denom, recipient: String, amount: u128 },
    /// Deliver one aggregated price to a downstream hook contract.
    AppendPrice { contract_addr: String, price_key: String, price: u128, timestamp_seconds: u64 },
}

/// What a successful operation hands back to the host.
#[derive(Clone, Debug)]
pub struct Response {
    pub messages: Vec<DispatchMsg>,
}

/// The validated inputs a new hub starts from.
#[derive(Clone, Debug)]
pub struct InstantiateMsg {
    pub owner: String,
    pub group_addr: String,
    pub threshold: Threshold,
    pub max_submitting_period: Duration,
    pub proposal_deposit: Option<DepositInfo>,
    pub price_keys: Vec<String>,
    pub hook_contracts: Vec<String>,
}

/// The operations the hub accepts.
#[derive(Clone, Debug)]
pub enum ExecuteMsg {
    Propose { data: VoteData, latest: Option<Expiration> },
    Vote { proposal_id: u64, data: VoteData },
    Close { proposal_id: u64 },
    /// Roster-change notification from the membership source; authorization
    /// checked, otherwise a no-op.
    MemberChangedHook,
    UpdateConfig {
        owner: Option<String>,
        threshold: Option<Threshold>,
        max_submitting_period: Option<Duration>,
        price_keys: Option<Vec<String>>,
        hook_contracts: Option<Vec<String>>,
    },
}

#[derive(Clone, Debug)]
pub struct MigrateMsg {}

/// The read-only projections the hub offers.
#[derive(Clone, Debug)]
pub enum QueryMsg {
    Threshold {},
    Proposal { proposal_id: u64 },
    ListProposals { start_after: Option<u64>, limit: Option<u32> },
    ReverseProposals { start_before: Option<u64>, limit: Option<u32> },
    Vote { proposal_id: u64, voter: String },
    ListVotes { proposal_id: u64, start_after: Option<String>, limit: Option<u32> },
    Voter { address: String },
    ListVoters { start_after: Option<String>, limit: Option<u32> },
    Config {},
    LastProposal {},
}

/// One recorded ballot together with the voter that cast it.
#[derive(Clone, Debug)]
pub struct VoteInfo {
    pub voter: String,
    pub data: Data,
}

/// Two ballot records carry the same voter, weight and submission.
pub open spec fn vi_matches(a: VoteInfo, b: VoteInfo) -> bool {
    &&& a.voter@ == b.voter@
    &&& a.data.weight == b.data.weight
    &&& a.data.data@ == b.data.data@
}

impl VoteInfo {
    /// An owned copy of this ballot record.
    pub fn duplicate(&self) -> (r: VoteInfo)
        ensures
            vi_matches(r, *self),
    {
        VoteInfo {
            voter: self.voter.clone(),
            data: Data { weight: self.data.weight, data: self.data.data.duplicate() },
        }
    }
}

#[derive(Clone, Debug)]
pub struct VoteResponse {
    pub vote: Option<VoteInfo>,
}

#[derive(Clone, Debug)]
pub struct VoteListResponse {
    pub votes: Vec<VoteInfo>,
}

#[derive(Clone, Debug)]
pub struct ProposalResponse {
    pub id: u64,
    pub title: String,
    pub updated_at: u64,
    pub description: String,
    pub votes: Vec<VoteInfo>,
    pub status: Status,
    pub expires: Expiration,
    /// The rule this proposal is judged by, snapshotted at creation: the live
    /// configuration may have changed since.
    pub threshold: ThresholdResponse,
    pub proposer: String,
    pub deposit: Option<DepositInfo>,
}

#[derive(Clone, Debug)]
pub struct ProposalListResponse {
    pub proposals: Vec<ProposalResponse>,
}

} // verus!
