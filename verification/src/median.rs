use vstd::prelude::*;
use vstd::arithmetic::div_mod::{lemma_div_multiples_vanish_fancy, lemma_fundamental_div_mod};
use vstd::relations::{sorted_by, total_ordering};
use vstd::seq_lib::lemma_sorted_unique;

verus! {

/// The order submitted prices are aggregated in.
pub open spec fn price_leq() -> spec_fn(u128, u128) -> bool {
    |a: u128, b: u128| a <= b
}

/// The submitted prices in ascending order.
pub open spec fn spec_sorted_prices(s: Seq<u128>) -> Seq<u128> {
    s.sort_by(price_leq())
}

/// The median of a non-empty bag of prices: the middle element of the
/// ascending ordering for an odd count, the floor of the average of the two
/// middle elements for an even count. Integer arithmetic throughout, so the
/// result is reproducible bit for bit.
pub open spec fn spec_median(s: Seq<u128>) -> u128 {
    let t = spec_sorted_prices(s);
    let n = t.len() as int;
    let ind = n / 2;
    if n % 2 == 0 {
        ((t[ind - 1] + t[ind]) / 2) as u128
    } else {
        t[ind]
    }
}

proof fn lemma_price_leq_total()
    ensures
        total_ordering(price_leq()),
{
    let leq = price_leq();
    assert forall|a: u128, b: u128| #[trigger] leq(a, b) || #[trigger] leq(b, a) by {}
}

/// The floor of `(a + b) / 2`, computed without overflowing.
fn floor_avg(a: u128, b: u128) -> (r: u128)
    ensures
        r == (a + b) / 2,
{
    let rest: u128 = a % 2 + b % 2;
    let r: u128 = a / 2 + b / 2 + rest / 2;
    proof {
        lemma_fundamental_div_mod(a as int, 2);
        lemma_fundamental_div_mod(b as int, 2);
        let q = a as int / 2 + b as int / 2;
        let m = a as int % 2 + b as int % 2;
        assert(a + b == 2 * q + m);
        if m < 2 {
            lemma_div_multiples_vanish_fancy(q, m, 2);
            assert((2 * q + m) / 2 == q);
        } else {
            lemma_div_multiples_vanish_fancy(q + 1, m - 2, 2);
            assert(2 * q + m == 2 * (q + 1) + (m - 2));
            assert((2 * (q + 1) + (m - 2)) / 2 == q + 1);
        }
    }
    r
}

/// Sort prices ascending by repeatedly moving the least remaining price
/// over.
fn sort_prices(prices: Vec<u128>) -> (r: Vec<u128>)
    ensures
        r@ == spec_sorted_prices(prices@),
{
    broadcast use vstd::seq_lib::group_to_multiset_ensures;
    broadcast use vstd::multiset::group_multiset_axioms;

    let ghost input = prices@;
    let mut src = prices;
    let mut out: Vec<u128> = Vec::new();
    proof {
        assert(out@.to_multiset().add(src@.to_multiset()) =~= input.to_multiset());
    }
    while src.len() > 0
        invariant
            out@.to_multiset().add(src@.to_multiset()) =~= input.to_multiset(),
            sorted_by(out@, price_leq()),
            forall|i: int, j: int|
                0 <= i < out@.len() && 0 <= j < src@.len() ==> out@[i] <= src@[j],
        decreases src@.len(),
    {
        let mut m: usize = 0;
        let mut k: usize = 1;
        while k < src.len()
            invariant
                m < k <= src@.len() || (k <= src@.len() && m == 0),
                m < src@.len(),
                src@.len() > 0,
                forall|j: int| 0 <= j < k ==> src@[m as int] <= src@[j],
            decreases src@.len() - k,
        {
            if src[k] < src[m] {
                m = k;
            }
            k += 1;
        }
        let ghost src0 = src@;
        let ghost out0 = out@;
        let x = src.remove(m);
        out.push(x);
        proof {
            out0.to_multiset_ensures();
            src0.to_multiset_ensures();
            assert(out@ =~= out0.push(x));
            assert(out0.push(x).to_multiset() =~= out0.to_multiset().insert(x));
            assert(src0.remove(m as int).to_multiset() =~= src0.to_multiset().remove(x));
            assert(src0.contains(x)) by {
                assert(src0[m as int] == x);
            }
            assert(src0.to_multiset().count(x) > 0);
            assert(out@.to_multiset().add(src@.to_multiset()) =~= input.to_multiset()) by {
                assert(forall|e: u128|
                    #![all_triggers]
                    out@.to_multiset().add(src@.to_multiset()).count(e) == out0.to_multiset().add(
                        src0.to_multiset(),
                    ).count(e));
            }
            assert forall|j: int| 0 <= j < src@.len() implies x <= src@[j] by {
                if j < m {
                    assert(src@[j] == src0[j]);
                } else {
                    assert(src@[j] == src0[j + 1]);
                }
            }
            assert(sorted_by(out@, price_leq())) by {
                assert forall|i: int, j: int| 0 <= i < j < out@.len() implies price_leq()(
                    out@[i],
                    out@[j],
                ) by {
                    if j < out0.len() {
                        assert(out@[i] == out0[i] && out@[j] == out0[j]);
                        assert(sorted_by(out0, price_leq()));
                    } else {
                        assert(out@[j] == x);
                        assert(out@[i] == out0[i]);
                        assert(out0[i] <= src0[m as int]);
                    }
                }
            }
            assert forall|i: int, j: int|
                0 <= i < out@.len() && 0 <= j < src@.len() implies out@[i] <= src@[j] by {
                if i < out0.len() {
                    assert(out@[i] == out0[i]);
                    if j < m {
                        assert(src@[j] == src0[j]);
                    } else {
                        assert(src@[j] == src0[j + 1]);
                    }
                } else {
                    assert(out@[i] == x);
                }
            }
        }
    }
    proof {
        assert(src@.to_multiset().len() == 0);
        assert(out@.to_multiset().add(src@.to_multiset()) =~= out@.to_multiset());
        lemma_price_leq_total();
        input.lemma_sort_by_ensures(price_leq());
        lemma_sorted_unique(out@, input.sort_by(price_leq()), price_leq());
        assert(out@ =~= spec_sorted_prices(input));
    }
    out
}

/// Aggregate a non-empty bag of submitted prices to their median; see
/// `spec_median`.
pub fn calculate_median_price(prices: Vec<u128>) -> (r: u128)
    requires
        prices@.len() > 0,
    ensures
        r == spec_median(prices@),
{
    let ghost input = prices@;
    let sorted = sort_prices(prices);
    proof {
        broadcast use vstd::seq_lib::group_to_multiset_ensures;

        lemma_price_leq_total();
        input.lemma_sort_by_ensures(price_leq());
        input.to_multiset_ensures();
        input.sort_by(price_leq()).to_multiset_ensures();
        assert(sorted@.len() == input.len());
    }
    let l = sorted.len();
    let ind = l / 2;
    if l % 2 == 0 {
        floor_avg(sorted[ind - 1], sorted[ind])
    } else {
        sorted[ind]
    }
}

} // verus!
