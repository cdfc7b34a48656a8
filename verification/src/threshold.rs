use vstd::prelude::*;
use vstd::arithmetic::div_mod::lemma_div_is_ordered;
use vstd::arithmetic::mul::lemma_mul_upper_bound;

verus! {

/// Number of fixed-point atomics in one whole unit: percentages are stored as
/// 18-decimal fixed-point values, so `DECIMAL_FRACTIONAL` atomics equal 100%.
pub const DECIMAL_FRACTIONAL: u128 = 1_000_000_000_000_000_000;

/// Tallying rounds the applied percentage at 9 decimal places before rounding
/// the needed weight up, mirroring the convention of cw3-style multisigs.
pub const PRECISION_FACTOR: u128 = 1_000_000_000;

/// The rule by which a proposal passes: a fixed weight of cast ballots, or a
/// percentage of the total weight, stored as 18-decimal fixed-point atomics.
#[derive(Clone, Copy, Debug, PartialEq, Eq, Structural)]
pub enum Threshold {
    AbsoluteCount { weight: u64 },
    AbsolutePercentage { percentage: u128 },
}

/// A threshold together with the total weight it is measured against.
#[derive(Clone, Copy, Debug, PartialEq, Eq, Structural)]
pub enum ThresholdResponse {
    AbsoluteCount { weight: u64, total_weight: u64 },
    AbsolutePercentage { percentage: u128, total_weight: u64 },
}

/// The weight of cast ballots needed to reach `percentage_atomics` of
/// `weight`: the percentage is applied with 9-decimal precision and the
/// result is rounded up, so reaching 50% of 15 takes 8, not 7.
pub open spec fn spec_votes_needed(weight: u64, percentage_atomics: u128) -> int {
    let applied = (weight * percentage_atomics) / (PRECISION_FACTOR as int);
    (applied + PRECISION_FACTOR - 1) / (PRECISION_FACTOR as int)
}

/// A percentage threshold never asks for more than 100%.
pub open spec fn spec_threshold_wf(t: Threshold) -> bool {
    match t {
        Threshold::AbsoluteCount { .. } => true,
        Threshold::AbsolutePercentage { percentage } => percentage <= DECIMAL_FRACTIONAL,
    }
}

/// What `cw_utils::Threshold::validate` accepts: an absolute count between 1
/// and the total weight, or a percentage between 50% and 100%.
pub open spec fn spec_threshold_valid(t: Threshold, total_weight: u64) -> bool {
    match t {
        Threshold::AbsoluteCount { weight } => 1 <= weight <= total_weight,
        Threshold::AbsolutePercentage { percentage } => DECIMAL_FRACTIONAL / 2 <= percentage
            <= DECIMAL_FRACTIONAL,
    }
}

/// A tally of `yes` out of `total_weight` meets the threshold.
pub open spec fn spec_is_passed(t: Threshold, yes: u64, total_weight: u64) -> bool {
    match t {
        Threshold::AbsoluteCount { weight } => yes >= weight,
        Threshold::AbsolutePercentage { percentage } => yes >= spec_votes_needed(
            total_weight,
            percentage,
        ),
    }
}

/// With only affirmative ballots, a proposal can become unpassable only when
/// an absolute count asks for more weight than the snapshot holds.
pub open spec fn spec_is_rejected(t: Threshold, total_weight: u64) -> bool {
    match t {
        Threshold::AbsoluteCount { weight } => weight > total_weight,
        Threshold::AbsolutePercentage { .. } => false,
    }
}

pub fn votes_needed(weight: u64, percentage_atomics: u128) -> (r: u64)
    requires
        percentage_atomics <= DECIMAL_FRACTIONAL,
    ensures
        r == spec_votes_needed(weight, percentage_atomics),
{
    proof {
        lemma_mul_upper_bound(
            weight as int,
            u64::MAX as int,
            percentage_atomics as int,
            DECIMAL_FRACTIONAL as int,
        );
        lemma_div_is_ordered(
            (weight * percentage_atomics) as int,
            u64::MAX * DECIMAL_FRACTIONAL,
            PRECISION_FACTOR as int,
        );
    }
    let applied: u128 = (weight as u128) * percentage_atomics / PRECISION_FACTOR;
    proof {
        lemma_div_is_ordered(
            (applied + PRECISION_FACTOR - 1) as int,
            u64::MAX * DECIMAL_FRACTIONAL / (PRECISION_FACTOR as int) + PRECISION_FACTOR - 1,
            PRECISION_FACTOR as int,
        );
    }
    let needed: u128 = (applied + PRECISION_FACTOR - 1) / PRECISION_FACTOR;
    needed as u64
}

impl Threshold {
    pub open spec fn spec_to_response(self, total_weight: u64) -> ThresholdResponse {
        match self {
            Threshold::AbsoluteCount { weight } => ThresholdResponse::AbsoluteCount {
                weight,
                total_weight,
            },
            Threshold::AbsolutePercentage { percentage } => ThresholdResponse::AbsolutePercentage {
                percentage,
                total_weight,
            },
        }
    }

    /// Pair this threshold with the total weight it applies to.
    pub fn to_response(&self, total_weight: u64) -> (r: ThresholdResponse)
        ensures
            r == self.spec_to_response(total_weight),
    {
        match self {
            Threshold::AbsoluteCount { weight } => ThresholdResponse::AbsoluteCount {
                weight: *weight,
                total_weight,
            },
            Threshold::AbsolutePercentage { percentage } => ThresholdResponse::AbsolutePercentage {
                percentage: *percentage,
                total_weight,
            },
        }
    }
}

#[verifier::external_type_specification]
#[verifier::external_body]
pub struct ExThresholdError(cw_utils::ThresholdError);

/// Relies on `cw_utils::Threshold::validate`: an absolute count is accepted
/// when it lies between 1 and the total weight, a percentage when it lies
/// between 50% and 100% (both ends included).
#[verifier::external_body]
pub(crate) fn validate_threshold(threshold: &Threshold, total_weight: u64) -> (r: Result<
    (),
    cw_utils::ThresholdError,
>)
    ensures
        r is Ok <==> spec_threshold_valid(*threshold, total_weight),
{
    let rule = match threshold {
        Threshold::AbsoluteCount { weight } => cw_utils::Threshold::AbsoluteCount {
            weight: *weight,
        },
        Threshold::AbsolutePercentage { percentage } => cw_utils::Threshold::AbsolutePercentage {
            percentage: cosmwasm_std::Decimal::new(cosmwasm_std::Uint128::new(*percentage)),
        },
    };
    rule.validate(total_weight)
}

} // verus!
