use vstd::prelude::*;
use crate::error::ContractError;
use crate::msg::{Coin, DispatchMsg, MessageInfo};

verus! {

/// The denomination a deposit is paid in: a native coin attached to the call,
/// or a token contract that needs an explicit transfer instruction.
#[derive(Clone, Debug)]
pub enum Denom {
    Native(String),
    Cw20(String),
}

/// The fee owed for opening a proposal, captured into the proposal record at
/// creation time and never re-read from the live configuration.
#[derive(Clone, Debug)]
pub struct DepositInfo {
    pub amount: u128,
    pub denom: Denom,
    /// Whether a rejected proposal has its deposit returned on close.
    pub refund_failed_proposals: bool,
}

/// The total amount of denomination `denom` among the attached funds.
pub open spec fn spec_paid_amount(funds: Seq<Coin>, denom: Seq<char>) -> int
    decreases funds.len(),
{
    if funds.len() == 0 {
        0
    } else {
        spec_paid_amount(funds.drop_last(), denom) + if funds.last().denom@ == denom {
            funds.last().amount as int
        } else {
            0int
        }
    }
}

/// A native deposit is paid when the attached funds cover at least the
/// configured amount; a token deposit is collected separately and passes
/// this check unconditionally.
pub open spec fn spec_deposit_paid(d: DepositInfo, funds: Seq<Coin>) -> bool {
    match d.denom {
        Denom::Cw20(_) => true,
        Denom::Native(den) => spec_paid_amount(funds, den@) >= d.amount,
    }
}

proof fn lemma_paid_take_succ(s: Seq<Coin>, d: Seq<char>, j: int)
    requires
        0 <= j < s.len(),
    ensures
        spec_paid_amount(s.take(j + 1), d) == spec_paid_amount(s.take(j), d) + if s[j].denom@
            == d {
            s[j].amount as int
        } else {
            0int
        },
{
    assert(s.take(j + 1).drop_last() =~= s.take(j));
    assert(s.take(j + 1).last() == s[j]);
}

proof fn lemma_paid_nonneg(s: Seq<Coin>, d: Seq<char>)
    ensures
        spec_paid_amount(s, d) >= 0,
    decreases s.len(),
{
    if s.len() > 0 {
        lemma_paid_nonneg(s.drop_last(), d);
    }
}

proof fn lemma_paid_mono(s: Seq<Coin>, d: Seq<char>, j: int)
    requires
        0 <= j <= s.len(),
    ensures
        spec_paid_amount(s, d) >= spec_paid_amount(s.take(j), d),
    decreases s.len() - j,
{
    if j < s.len() {
        lemma_paid_take_succ(s, d, j);
        lemma_paid_mono(s, d, j + 1);
    } else {
        assert(s.take(j) =~= s);
    }
}

impl Denom {
    /// An owned copy of this denomination.
    pub fn duplicate(&self) -> (r: Denom)
        ensures
            r == *self,
    {
        match self {
            Denom::Native(s) => Denom::Native(s.clone()),
            Denom::Cw20(s) => Denom::Cw20(s.clone()),
        }
    }
}

impl DepositInfo {
    /// An owned copy of this deposit record.
    pub fn duplicate(&self) -> (r: DepositInfo)
        ensures
            r == *self,
    {
        DepositInfo {
            amount: self.amount,
            denom: self.denom.duplicate(),
            refund_failed_proposals: self.refund_failed_proposals,
        }
    }

    /// Fail with a payment error unless the attached funds cover a required
    /// native deposit.
    pub fn check_native_deposit_paid(&self, info: &MessageInfo) -> (r: Result<(), ContractError>)
        ensures
            r is Ok <==> spec_deposit_paid(*self, info.funds@),
            r is Err ==> r == Err::<(), ContractError>(ContractError::Payment),
    {
        match &self.denom {
            Denom::Cw20(_) => Ok(()),
            Denom::Native(denom) => {
                if self.amount == 0 {
                    proof {
                        lemma_paid_nonneg(info.funds@, denom@);
                    }
                    return Ok(());
                }
                let n = info.funds.len();
                let mut paid: u128 = 0;
                let mut i: usize = 0;
                proof {
                    assert(info.funds@.take(0) =~= Seq::<Coin>::empty());
                }
                while i < n
                    invariant
                        i <= n,
                        n == info.funds.len(),
                        self.denom == Denom::Native(*denom),
                        paid == spec_paid_amount(info.funds@.take(i as int), denom@),
                        paid < self.amount,
                    decreases n - i,
                {
                    let c = &info.funds[i];
                    proof {
                        lemma_paid_take_succ(info.funds@, denom@, i as int);
                    }
                    if c.denom.eq(denom) {
                        if self.amount - paid <= c.amount {
                            proof {
                                lemma_paid_mono(info.funds@, denom@, i as int + 1);
                            }
                            return Ok(());
                        }
                        paid = paid + c.amount;
                    }
                    i += 1;
                }
                proof {
                    assert(info.funds@.take(n as int) =~= info.funds@);
                }
                Err(ContractError::Payment)
            },
        }
    }
}

/// The instruction that returns a held deposit to `recipient`.
pub open spec fn spec_return_deposit_msg(d: DepositInfo, recipient: String) -> DispatchMsg {
    DispatchMsg::ReturnDeposit { denom: d.denom, recipient, amount: d.amount }
}

/// The instructions that pull a required deposit in: empty for a native
/// denomination (those funds arrive attached to the call), one transfer for a
/// token denomination with a positive amount.
pub open spec fn spec_take_deposit_msgs(
    d: Option<DepositInfo>,
    owner: String,
    recipient: String,
) -> Seq<DispatchMsg> {
    match d {
        None => Seq::empty(),
        Some(dep) => match dep.denom {
            Denom::Native(_) => Seq::empty(),
            Denom::Cw20(addr) => if dep.amount > 0 {
                seq![
                    (DispatchMsg::TakeDeposit {
                        cw20_addr: addr,
                        owner,
                        recipient,
                        amount: dep.amount,
                    }),
                ]
            } else {
                Seq::empty()
            },
        },
    }
}

/// Build the deposit-collection instructions for a new proposal.
pub fn take_deposit_messages(d: &Option<DepositInfo>, owner: &String, recipient: &String) -> (r:
    Vec<DispatchMsg>)
    ensures
        r@ =~= spec_take_deposit_msgs(*d, *owner, *recipient),
{
    let mut out: Vec<DispatchMsg> = Vec::new();
    match d {
        None => {},
        Some(dep) => {
            match &dep.denom {
                Denom::Native(_) => {},
                Denom::Cw20(addr) => {
                    if dep.amount > 0 {
                        out.push(
                            DispatchMsg::TakeDeposit {
                                cw20_addr: addr.clone(),
                                owner: owner.clone(),
                                recipient: recipient.clone(),
                                amount: dep.amount,
                            },
                        );
                    }
                },
            }
        },
    }
    out
}

/// Build the instruction that refunds a deposit to `recipient`.
pub fn return_deposit_message(d: &DepositInfo, recipient: &String) -> (r: DispatchMsg)
    ensures
        r == spec_return_deposit_msg(*d, *recipient),
{
    DispatchMsg::ReturnDeposit {
        denom: d.denom.duplicate(),
        recipient: recipient.clone(),
        amount: d.amount,
    }
}

} // verus!
