//! The scoring engine: pure, deterministic functions from price snapshots to
//! portfolio returns.
//!
//! Returns are carried as signed integers scaled by 10,000 through the whole
//! pipeline. All intermediate arithmetic uses 128-bit integers so that price
//! deltas can be multiplied before dividing without overflow, and every
//! division truncates toward zero. An asset missing from either snapshot
//! contributes zero rather than erroring: missing price data degrades to a
//! neutral contribution.

use vstd::prelude::*;
use vstd::arithmetic::div_mod::lemma_div_nonincreasing;
use crate::game::PriceSnapshot;
use crate::portfolio::CryptoHolding;
use crate::text::string_eq;

verus! {

/// The price recorded for an asset in a snapshot list: the first entry with a
/// matching identifier, or zero when the asset is missing.
pub open spec fn spec_price_of(snaps: Seq<PriceSnapshot>, id: Seq<char>) -> u64
    decreases snaps.len(),
{
    if snaps.len() == 0 {
        0
    } else if snaps.first().crypto_id@ == id {
        snaps.first().price_usd
    } else {
        spec_price_of(snaps.drop_first(), id)
    }
}

/// Looks the price of an asset up in a snapshot list; zero when missing.
pub fn price_of(snaps: &Vec<PriceSnapshot>, id: &String) -> (r: u64)
    ensures
        r == spec_price_of(snaps@, id@),
{
    let mut i: usize = 0;
    proof {
        assert(snaps@.skip(0) =~= snaps@);
    }
    while i < snaps.len()
        invariant
            i <= snaps@.len(),
            spec_price_of(snaps@, id@) == spec_price_of(snaps@.skip(i as int), id@),
        decreases snaps@.len() - i,
    {
        proof {
            assert(snaps@.skip(i as int).first() == snaps@[i as int]);
            assert(snaps@.skip(i as int).drop_first() =~= snaps@.skip(i + 1));
        }
        if string_eq(&snaps[i].crypto_id, id) {
            return snaps[i].price_usd;
        }
        i += 1;
    }
    proof {
        assert(snaps@.skip(snaps@.len() as int).len() == 0);
    }
    0
}

/// The signed return from a start price to an end price, scaled by 10,000 and
/// truncated toward zero; zero when either price is missing (recorded as 0).
pub open spec fn spec_return_scaled(start: u64, end: u64) -> int {
    if start == 0 || end == 0 {
        0
    } else if end >= start {
        ((end - start) * 10000) / (start as int)
    } else {
        -(((start - end) * 10000) / (start as int))
    }
}

/// The contribution of one holding: its asset's scaled return weighted by the
/// allocation percentage in tenths (an allocation of 50 percent weighs the
/// return five-fold), truncated toward zero.
pub open spec fn spec_contribution(start: u64, end: u64, alloc: u8) -> int {
    let r = spec_return_scaled(start, end);
    if r >= 0 {
        (r * alloc) / 10
    } else {
        -(((-r) * alloc) / 10)
    }
}

/// The largest magnitude a single holding's contribution can reach.
pub open spec fn spec_contribution_bound() -> int {
    5_000_000_000_000_000_000_000_000
}

/// The portfolio return: the sum of all holdings' weighted contributions,
/// evaluated against a start and an end snapshot list.
pub open spec fn spec_portfolio_return(
    holdings: Seq<CryptoHolding>,
    starts: Seq<PriceSnapshot>,
    ends: Seq<PriceSnapshot>,
) -> int
    decreases holdings.len(),
{
    if holdings.len() == 0 {
        0
    } else {
        spec_portfolio_return(holdings.drop_last(), starts, ends) + spec_contribution(
            spec_price_of(starts, holdings.last().symbol@),
            spec_price_of(ends, holdings.last().symbol@),
            holdings.last().allocation_percent,
        )
    }
}

/// The scaled return stays within the range that 64-bit prices allow.
pub proof fn lemma_return_scaled_bound(start: u64, end: u64)
    ensures
        -200_000_000_000_000_000_000_000 <= spec_return_scaled(start, end)
            <= 200_000_000_000_000_000_000_000,
{
    if start != 0 && end != 0 {
        if end >= start {
            lemma_div_nonincreasing(((end - start) * 10000) as int, start as int);
        } else {
            lemma_div_nonincreasing(((start - end) * 10000) as int, start as int);
        }
    }
}

/// Computes the scaled, truncated return from a start to an end price.
pub fn return_scaled(start: u64, end: u64) -> (r: i128)
    ensures
        r == spec_return_scaled(start, end),
        -200_000_000_000_000_000_000_000 <= r <= 200_000_000_000_000_000_000_000,
{
    proof {
        lemma_return_scaled_bound(start, end);
    }
    if start == 0 || end == 0 {
        return 0;
    }
    if end >= start {
        let diff = (end - start) as u128;
        let q = (diff * 10000) / (start as u128);
        proof {
            lemma_div_nonincreasing((diff * 10000) as int, start as int);
        }
        q as i128
    } else {
        let diff = (start - end) as u128;
        let q = (diff * 10000) / (start as u128);
        proof {
            lemma_div_nonincreasing((diff * 10000) as int, start as int);
        }
        -(q as i128)
    }
}

/// Computes one holding's weighted contribution from its two prices.
fn contribution(start: u64, end: u64, alloc: u8) -> (r: i128)
    ensures
        r == spec_contribution(start, end, alloc),
        -spec_contribution_bound() <= r <= spec_contribution_bound(),
{
    if start == 0 || end == 0 {
        return 0;
    }
    let (diff, negative): (u128, bool) = if end >= start {
        ((end - start) as u128, false)
    } else {
        ((start - end) as u128, true)
    };
    let scaled = diff * 10000;
    let q = scaled / (start as u128);
    proof {
        lemma_div_nonincreasing(scaled as int, start as int);
        assert(q <= scaled);
        assert(q * (alloc as u128) <= scaled * 255) by (nonlinear_arith)
            requires
                q <= scaled,
                alloc <= 255,
        ;
    }
    let weighted = q * (alloc as u128);
    let magnitude = weighted / 10;
    proof {
        lemma_div_nonincreasing(weighted as int, 10);
        assert(magnitude <= weighted);
    }
    proof {
        let rs = spec_return_scaled(start, end);
        assert(weighted == q * (alloc as u128));
        assert(magnitude == weighted / 10);
        if negative {
            assert(rs == -(q as int));
            if q == 0 {
                assert(rs == 0);
                assert(weighted == 0) by (nonlinear_arith)
                    requires
                        q == 0,
                        weighted == q * (alloc as u128),
                ;
                assert(magnitude == 0);
                assert(spec_contribution(start, end, alloc) == 0);
            } else {
                assert(rs < 0);
                assert((-rs) == q as int);
                assert(spec_contribution(start, end, alloc) == -(((q as int) * (alloc as int))
                    / 10));
                assert((q as int) * (alloc as int) == weighted as int);
                assert(spec_contribution(start, end, alloc) == -(magnitude as int));
            }
        } else {
            assert(rs == q as int);
            assert(rs >= 0);
            assert(spec_contribution(start, end, alloc) == ((q as int) * (alloc as int)) / 10);
            assert((q as int) * (alloc as int) == weighted as int);
            assert(spec_contribution(start, end, alloc) == magnitude as int);
        }
    }
    if negative {
        -(magnitude as i128)
    } else {
        magnitude as i128
    }
}

/// Computes a portfolio's total return between two snapshots.
///
/// The result is deterministic: it depends only on the holdings and on which
/// price each snapshot list records for each asset.
pub fn calculate_portfolio_return(
    holdings: &Vec<CryptoHolding>,
    start_prices: &Vec<PriceSnapshot>,
    end_prices: &Vec<PriceSnapshot>,
) -> (r: i128)
    requires
        holdings@.len() <= 10,
    ensures
        r == spec_portfolio_return(holdings@, start_prices@, end_prices@),
{
    let mut total: i128 = 0;
    let mut i: usize = 0;
    while i < holdings.len()
        invariant
            i <= holdings@.len() <= 10,
            total == spec_portfolio_return(holdings@.take(i as int), start_prices@, end_prices@),
            -(i as int) * spec_contribution_bound() <= total <= (i as int)
                * spec_contribution_bound(),
        decreases holdings@.len() - i,
    {
        let sp = price_of(start_prices, &holdings[i].symbol);
        let ep = price_of(end_prices, &holdings[i].symbol);
        let c = contribution(sp, ep, holdings[i].allocation_percent);
        proof {
            assert(holdings@.take(i + 1).drop_last() =~= holdings@.take(i as int));
            assert(holdings@.take(i + 1).last() == holdings@[i as int]);
        }
        total = total + c;
        i += 1;
    }
    proof {
        assert(holdings@.take(holdings@.len() as int) =~= holdings@);
    }
    total
}

/// Scoring is deterministic and independent of snapshot storage order: two
/// pairs of snapshot lists that record the same price for every asset yield
/// the same portfolio return for every portfolio.
pub proof fn lemma_return_depends_only_on_prices(
    holdings: Seq<CryptoHolding>,
    starts1: Seq<PriceSnapshot>,
    ends1: Seq<PriceSnapshot>,
    starts2: Seq<PriceSnapshot>,
    ends2: Seq<PriceSnapshot>,
)
    requires
        forall|id: Seq<char>| spec_price_of(starts1, id) == spec_price_of(starts2, id),
        forall|id: Seq<char>| spec_price_of(ends1, id) == spec_price_of(ends2, id),
    ensures
        spec_portfolio_return(holdings, starts1, ends1) == spec_portfolio_return(
            holdings,
            starts2,
            ends2,
        ),
    decreases holdings.len(),
{
    if holdings.len() > 0 {
        lemma_return_depends_only_on_prices(holdings.drop_last(), starts1, ends1, starts2, ends2);
        assert(spec_price_of(starts1, holdings.last().symbol@) == spec_price_of(
            starts2,
            holdings.last().symbol@,
        ));
        assert(spec_price_of(ends1, holdings.last().symbol@) == spec_price_of(
            ends2,
            holdings.last().symbol@,
        ));
    }
}


/// Whether a snapshot list records each asset at most once.
pub open spec fn spec_unique_assets(snaps: Seq<PriceSnapshot>) -> bool {
    forall|i: int, j: int|
        0 <= i < j < snaps.len() ==> (#[trigger] snaps[i]).crypto_id@ != (
        #[trigger] snaps[j]).crypto_id@
}

/// With unique assets, any matching entry gives the recorded price.
proof fn lemma_price_of_unique_match(snaps: Seq<PriceSnapshot>, id: Seq<char>, k: int)
    requires
        spec_unique_assets(snaps),
        0 <= k < snaps.len(),
        snaps[k].crypto_id@ == id,
    ensures
        spec_price_of(snaps, id) == snaps[k].price_usd,
    decreases snaps.len(),
{
    if snaps.first().crypto_id@ == id {
        assert(k == 0);
    } else {
        let d = snaps.drop_first();
        assert(forall|j: int| 1 <= j < snaps.len() ==> #[trigger] snaps[j] == d[j - 1]);
        assert(k >= 1);
        assert(d[k - 1] == snaps[k]);
        assert forall|a: int, b: int| 0 <= a < b < d.len() implies (#[trigger] d[a]).crypto_id@
            != (#[trigger] d[b]).crypto_id@ by {
            assert(d[a] == snaps[a + 1] && d[b] == snaps[b + 1]);
        }
        lemma_price_of_unique_match(d, id, k - 1);
    }
}

/// With no matching entry the recorded price is zero.
proof fn lemma_price_of_no_match(snaps: Seq<PriceSnapshot>, id: Seq<char>)
    requires
        forall|i: int| 0 <= i < snaps.len() ==> (#[trigger] snaps[i]).crypto_id@ != id,
    ensures
        spec_price_of(snaps, id) == 0,
    decreases snaps.len(),
{
    if snaps.len() > 0 {
        let d = snaps.drop_first();
        assert forall|i: int| 0 <= i < d.len() implies (#[trigger] d[i]).crypto_id@ != id by {
            assert(d[i] == snaps[i + 1]);
        }
        lemma_price_of_no_match(d, id);
    }
}

/// Two snapshot lists holding the same snapshots, each recording every asset
/// at most once, record the same price for every asset: the storage order of
/// a snapshot does not matter.
pub proof fn lemma_price_of_permutation(
    s1: Seq<PriceSnapshot>,
    s2: Seq<PriceSnapshot>,
    id: Seq<char>,
)
    requires
        s1.to_multiset() == s2.to_multiset(),
        spec_unique_assets(s1),
        spec_unique_assets(s2),
    ensures
        spec_price_of(s1, id) == spec_price_of(s2, id),
{
    broadcast use vstd::seq_lib::group_to_multiset_ensures;

    if exists|k: int| 0 <= k < s1.len() && (#[trigger] s1[k]).crypto_id@ == id {
        let k1 = choose|k: int| 0 <= k < s1.len() && (#[trigger] s1[k]).crypto_id@ == id;
        let e = s1[k1];
        lemma_price_of_unique_match(s1, id, k1);
        assert(s1.contains(e));
        assert(s2.to_multiset().count(e) > 0);
        assert(s2.contains(e));
        let k2 = choose|k: int| 0 <= k < s2.len() && s2[k] == e;
        lemma_price_of_unique_match(s2, id, k2);
    } else {
        lemma_price_of_no_match(s1, id);
        if exists|k: int| 0 <= k < s2.len() && (#[trigger] s2[k]).crypto_id@ == id {
            let k2 = choose|k: int| 0 <= k < s2.len() && (#[trigger] s2[k]).crypto_id@ == id;
            let e = s2[k2];
            assert(s2.contains(e));
            assert(s1.to_multiset().count(e) > 0);
            assert(s1.contains(e));
            let k1 = choose|k: int| 0 <= k < s1.len() && s1[k] == e;
            assert(s1[k1].crypto_id@ == id);
            assert(false);
        }
        lemma_price_of_no_match(s2, id);
    }
}

/// Scoring is independent of snapshot storage order: reordering either
/// snapshot list of a scoring run, as long as each list records every asset
/// at most once, never changes any portfolio's return.
pub proof fn lemma_return_independent_of_order(
    holdings: Seq<CryptoHolding>,
    starts1: Seq<PriceSnapshot>,
    ends1: Seq<PriceSnapshot>,
    starts2: Seq<PriceSnapshot>,
    ends2: Seq<PriceSnapshot>,
)
    requires
        starts1.to_multiset() == starts2.to_multiset(),
        ends1.to_multiset() == ends2.to_multiset(),
        spec_unique_assets(starts1),
        spec_unique_assets(starts2),
        spec_unique_assets(ends1),
        spec_unique_assets(ends2),
    ensures
        spec_portfolio_return(holdings, starts1, ends1) == spec_portfolio_return(
            holdings,
            starts2,
            ends2,
        ),
{
    assert forall|id: Seq<char>| spec_price_of(starts1, id) == spec_price_of(starts2, id) by {
        lemma_price_of_permutation(starts1, starts2, id);
    }
    assert forall|id: Seq<char>| spec_price_of(ends1, id) == spec_price_of(ends2, id) by {
        lemma_price_of_permutation(ends1, ends2, id);
    }
    lemma_return_depends_only_on_prices(holdings, starts1, ends1, starts2, ends2);
}

/// Performance score of a portfolio, all parts scaled by 10,000.
#[derive(Debug, Clone, Copy, PartialEq, Eq, Structural)]
pub struct PerformanceScore {
    /// Base performance, scaled by 10,000.
    pub base_performance: u32,
    /// Risk-adjusted multiplier, scaled by 10,000 (1.0 is 10,000).
    pub risk_multiplier: u32,
    /// Confidence bonus, scaled by 10,000.
    pub ai_bonus: u32,
    /// Portfolio synergy bonus, scaled by 10,000.
    pub synergy_bonus: u32,
    /// Diversity bonus, scaled by 10,000.
    pub diversity_bonus: u32,
    /// Final score, scaled by 10,000.
    pub final_score: u32,
}

/// Score calculator for portfolio performance values.
pub struct ScoreCalculator;

impl ScoreCalculator {
    /// Wraps a base performance value in a score with the neutral multiplier
    /// and no bonuses, so the final score equals the base performance.
    pub fn calculate_score(base_performance: u32) -> (r: PerformanceScore)
        ensures
            r == (PerformanceScore {
                base_performance,
                risk_multiplier: 10000u32,
                ai_bonus: 0u32,
                synergy_bonus: 0u32,
                diversity_bonus: 0u32,
                final_score: base_performance,
            }),
    {
        PerformanceScore {
            base_performance,
            risk_multiplier: 10000,
            ai_bonus: 0,
            synergy_bonus: 0,
            diversity_bonus: 0,
            final_score: base_performance,
        }
    }
}

} // verus!
