//! Tournament mode types and the position-weighted scoring engine.
//!
//! Tournament portfolios rank up to five picks by confidence: the first pick
//! weighs its asset's price change five-fold, the second four-fold, down to
//! one-fold for the fifth. Price changes are integers scaled by 10,000 and
//! every computation stays in 128-bit integer arithmetic.

use vstd::prelude::*;
use vstd::arithmetic::div_mod::{lemma_div_is_ordered, lemma_div_by_multiple, lemma_fundamental_div_mod};
use crate::ranking::{ScoreEntry, rank_entries, spec_ranked, spec_ranks_before_eq};
use crate::text::string_eq;

verus! {

/// Tournament bracket formats.
#[derive(Debug, Clone, Copy, PartialEq, Eq, Hash, Structural)]
pub enum TournamentType {
    SingleElimination,
    DoubleElimination,
    RoundRobin,
    Swiss,
}

/// Lifecycle status of a tournament, advancing monotonically forward except
/// for explicit cancellation.
#[derive(Debug, Clone, Copy, PartialEq, Eq, Hash, Structural)]
pub enum TournamentStatus {
    Registration,
    InProgress,
    Completed,
    Cancelled,
}

/// The stable key of each tournament status, used in status-update messages.
pub open spec fn spec_status_key(s: TournamentStatus) -> Seq<char> {
    match s {
        TournamentStatus::Registration => "REGISTRATION"@,
        TournamentStatus::InProgress => "IN_PROGRESS"@,
        TournamentStatus::Completed => "COMPLETED"@,
        TournamentStatus::Cancelled => "CANCELLED"@,
    }
}

impl TournamentStatus {
    /// The stable key of this status.
    pub fn key(self) -> (r: &'static str)
        ensures
            r@ == spec_status_key(self),
    {
        match self {
            TournamentStatus::Registration => "REGISTRATION",
            TournamentStatus::InProgress => "IN_PROGRESS",
            TournamentStatus::Completed => "COMPLETED",
            TournamentStatus::Cancelled => "CANCELLED",
        }
    }
}

/// Risk level of a portfolio.
#[derive(Debug, Clone, Copy, PartialEq, Eq, Hash, Structural)]
pub enum RiskLevel {
    Conservative,
    Moderate,
    Aggressive,
    HighRisk,
}

/// A tournament portfolio: picks ordered by confidence, at most five.
pub struct TournamentPortfolio {
    /// Ordered asset symbols; the first carries the highest weight.
    pub crypto_picks: Vec<String>,
    /// Free-form notes from the submitter.
    pub strategy_notes: Option<String>,
}

impl TournamentPortfolio {
    /// Returns a copy of this portfolio.
    pub fn duplicate(&self) -> (r: Self)
        ensures
            r.crypto_picks@ == self.crypto_picks@,
            r.strategy_notes == self.strategy_notes,
    {
        let mut picks: Vec<String> = Vec::new();
        let mut i: usize = 0;
        while i < self.crypto_picks.len()
            invariant
                i <= self.crypto_picks@.len(),
                picks@ =~= self.crypto_picks@.take(i as int),
            decreases self.crypto_picks@.len() - i,
        {
            picks.push(self.crypto_picks[i].clone());
            proof {
                assert(picks@ =~= self.crypto_picks@.take(i + 1));
            }
            i += 1;
        }
        proof {
            assert(self.crypto_picks@.take(self.crypto_picks@.len() as int) =~= self.crypto_picks@);
        }
        let notes = match &self.strategy_notes {
            Some(n) => Some(n.clone()),
            None => None,
        };
        TournamentPortfolio { crypto_picks: picks, strategy_notes: notes }
    }
}

/// An allocation-based pick with an optional confidence score.
pub struct CryptoAllocation {
    pub symbol: String,
    pub allocation_percent: u8,
    pub confidence_score: Option<u8>,
}

/// A tournament record owned by the mode engine.
pub struct Tournament {
    /// Tournament identifier, minted from the engine's monotone counter.
    pub id: String,
    /// Display name.
    pub name: String,
    /// Bracket format.
    pub tournament_type: TournamentType,
    /// Lifecycle status.
    pub status: TournamentStatus,
    /// Entry fee in micro-units.
    pub entry_fee_usdc: u64,
    /// Registration capacity.
    pub max_participants: u32,
    /// Number of registered participants.
    pub current_participants: u32,
    /// Current round, zero before the tournament starts.
    pub current_round: u32,
    /// Number of rounds the format calls for.
    pub max_rounds: u32,
    /// Creation timestamp in microseconds.
    pub created_at: u64,
    /// Start timestamp, set when the tournament begins.
    pub started_at: Option<u64>,
    /// Completion timestamp, set at settlement.
    pub completed_at: Option<u64>,
    /// Asset category of this tournament.
    pub category: String,
    /// Price snapshot recorded when the tournament started.
    pub start_prices: Option<Vec<crate::game::PriceSnapshot>>,
    /// Price snapshot recorded when the tournament ended.
    pub end_prices: Option<Vec<crate::game::PriceSnapshot>>,
}

/// Start and end price of one asset with its scaled percentage change.
pub struct PriceData {
    /// Asset symbol.
    pub symbol: String,
    /// Start price in micro-units.
    pub start_price: u64,
    /// End price in micro-units.
    pub end_price: u64,
    /// Percentage change scaled by 10,000 and truncated toward zero.
    pub percentage_change: i128,
}

/// One scored portfolio with its rank.
pub struct PortfolioPerformance {
    /// Account that submitted the portfolio.
    pub player_account: String,
    /// Total portfolio return, scaled by 10,000.
    pub total_return: i128,
    /// Rank, starting at 1.
    pub rank: u32,
    /// The scored portfolio.
    pub portfolio: TournamentPortfolio,
}

/// One row of a tournament leaderboard.
pub struct LeaderboardEntry {
    /// Rank, starting at 1.
    pub rank: u32,
    /// Account of the ranked participant.
    pub player_account: String,
    /// Total portfolio return, scaled by 10,000.
    pub total_return: i128,
    /// Prize awarded in micro-units.
    pub winning_amount: u64,
}

/// The largest percentage-change magnitude the scoring engine accepts: wide
/// enough for any change computed from 64-bit prices.
pub open spec fn spec_change_limit() -> int {
    200_000_000_000_000_000_000_000
}

/// The percentage change recorded for an asset in a price data list: the
/// first entry with a matching symbol, or zero when the asset is missing.
pub open spec fn spec_pd_change(pd: Seq<PriceData>, sym: Seq<char>) -> int
    decreases pd.len(),
{
    if pd.len() == 0 {
        0
    } else if pd.first().symbol@ == sym {
        pd.first().percentage_change as int
    } else {
        spec_pd_change(pd.drop_first(), sym)
    }
}

/// Whether every entry of a price data list keeps its change within the
/// engine's limit.
pub open spec fn spec_pd_bounded(pd: Seq<PriceData>) -> bool {
    forall|j: int|
        0 <= j < pd.len() ==> -spec_change_limit() <= (#[trigger] pd[j]).percentage_change
            <= spec_change_limit()
}

/// Looks the percentage change of an asset up in a price data list.
fn pd_change(pd: &Vec<PriceData>, sym: &String) -> (r: i128)
    requires
        spec_pd_bounded(pd@),
    ensures
        r == spec_pd_change(pd@, sym@),
        -spec_change_limit() <= r <= spec_change_limit(),
{
    let mut i: usize = 0;
    proof {
        assert(pd@.skip(0) =~= pd@);
    }
    while i < pd.len()
        invariant
            i <= pd@.len(),
            spec_pd_bounded(pd@),
            spec_pd_change(pd@, sym@) == spec_pd_change(pd@.skip(i as int), sym@),
        decreases pd@.len() - i,
    {
        proof {
            assert(pd@.skip(i as int).first() == pd@[i as int]);
            assert(pd@.skip(i as int).drop_first() =~= pd@.skip(i + 1));
        }
        if string_eq(&pd[i].symbol, sym) {
            return pd[i].percentage_change;
        }
        i += 1;
    }
    proof {
        assert(pd@.skip(pd@.len() as int).len() == 0);
    }
    0
}

/// The position weight of pick `i`: the first pick weighs 5, the fifth 1.
pub open spec fn spec_position_weight(i: int) -> int {
    5 - i
}

/// The position-weighted score of the first `n` picks.
pub open spec fn spec_performance_up_to(picks: Seq<String>, pd: Seq<PriceData>, n: int) -> int
    decreases n,
{
    if n <= 0 {
        0
    } else {
        spec_performance_up_to(picks, pd, n - 1) + spec_pd_change(pd, picks[n - 1]@)
            * spec_position_weight(n - 1)
    }
}

/// The position-weighted score of a tournament portfolio: the sum over its
/// picks (at most the first five) of the pick's percentage change multiplied
/// by its position weight.
pub open spec fn spec_portfolio_performance(picks: Seq<String>, pd: Seq<PriceData>) -> int {
    spec_performance_up_to(picks, pd, if picks.len() <= 5 { picks.len() as int } else { 5 })
}

/// The truncating (toward zero) quotient of `x` by a positive divisor.
pub open spec fn spec_div_trunc(x: int, d: int) -> int {
    if x >= 0 {
        x / d
    } else {
        -((-x) / d)
    }
}

/// The equal weight the legacy scoring gives each pick: 100 divided by the
/// number of picks.
pub open spec fn spec_legacy_weight(len: int) -> int {
    if len <= 1 {
        100int
    } else {
        100int / len
    }
}

/// The legacy equal-weighted score of the first `n` picks.
pub open spec fn spec_legacy_up_to(picks: Seq<String>, pd: Seq<PriceData>, ew: int, n: int) -> int
    decreases n,
{
    if n <= 0 {
        0
    } else {
        spec_legacy_up_to(picks, pd, ew, n - 1) + spec_div_trunc(
            spec_pd_change(pd, picks[n - 1]@) * ew,
            100,
        )
    }
}

/// The legacy equal-weighted score of a portfolio.
pub open spec fn spec_legacy_performance(picks: Seq<String>, pd: Seq<PriceData>) -> int {
    spec_legacy_up_to(picks, pd, spec_legacy_weight(picks.len() as int), picks.len() as int)
}

/// The prize for a rank under the tournament payout curve: 60 percent of the
/// pool to the winner, 30 to the second, 10 to the third, zero below.
/// Integer division truncates; a lost remainder stays unallocated.
pub open spec fn spec_league_prize(pool: u64, rank: int) -> int {
    if rank == 1 {
        (pool * 60) / 100
    } else if rank == 2 {
        (pool * 30) / 100
    } else if rank == 3 {
        (pool * 10) / 100
    } else {
        0
    }
}

/// Computes the prize for one rank under the tournament payout curve.
pub fn league_prize(pool: u64, rank: u32) -> (r: u64)
    ensures
        r == spec_league_prize(pool, rank as int),
        r <= pool,
{
    proof {
        lemma_league_prize_le_pool(pool);
    }
    if rank == 1 {
        ((pool as u128 * 60) / 100) as u64
    } else if rank == 2 {
        ((pool as u128 * 30) / 100) as u64
    } else if rank == 3 {
        ((pool as u128 * 10) / 100) as u64
    } else {
        0
    }
}

/// Each single prize share stays within the pool.
proof fn lemma_league_prize_le_pool(pool: u64)
    ensures
        forall|rank: int| 0 <= #[trigger] spec_league_prize(pool, rank) <= pool,
{
    lemma_div_by_multiple(pool as int, 100);
    assert forall|rank: int| 0 <= #[trigger] spec_league_prize(pool, rank) <= pool by {
        lemma_div_is_ordered(pool as int * 60, pool as int * 100, 100);
        lemma_div_is_ordered(pool as int * 30, pool as int * 100, 100);
        lemma_div_is_ordered(pool as int * 10, pool as int * 100, 100);
        vstd::arithmetic::div_mod::lemma_div_pos_is_pos(pool as int * 10, 100);
        vstd::arithmetic::div_mod::lemma_div_pos_is_pos(pool as int * 30, 100);
        vstd::arithmetic::div_mod::lemma_div_pos_is_pos(pool as int * 60, 100);
    }
}

/// The three prize shares of the tournament payout curve never exceed the
/// pool they are split from, and every rank below the third receives zero.
pub proof fn lemma_league_prizes_within_pool(pool: u64)
    ensures
        spec_league_prize(pool, 1) + spec_league_prize(pool, 2) + spec_league_prize(pool, 3)
            <= pool,
        forall|rank: int| rank >= 4 ==> spec_league_prize(pool, rank) == 0,
{
    let p = pool as int;
    lemma_fundamental_div_mod(p * 60, 100);
    lemma_fundamental_div_mod(p * 30, 100);
    lemma_fundamental_div_mod(p * 10, 100);
    assert(p * 60 + p * 30 + p * 10 == p * 100) by (nonlinear_arith);
    assert(100 * ((p * 60) / 100) + 100 * ((p * 30) / 100) + 100 * ((p * 10) / 100) <= p * 100);
}

/// The scored entries of a list of submissions, in submission order.
pub open spec fn spec_scored_entries(
    portfolios: Seq<(String, TournamentPortfolio)>,
    pd: Seq<PriceData>,
) -> Seq<ScoreEntry> {
    Seq::new(
        portfolios.len(),
        |i: int|
            ScoreEntry {
                account: portfolios[i].0,
                score: spec_portfolio_performance(portfolios[i].1.crypto_picks@, pd) as i128,
                submission_index: i as usize,
            },
    )
}

/// The portfolio scoring engine.
pub struct ScoringEngine;

impl ScoringEngine {
    /// Scores a tournament portfolio by position weights: pick 1 counts its
    /// asset's percentage change five-fold, pick 2 four-fold, down to pick 5
    /// one-fold. An asset missing from the price data contributes zero.
    pub fn calculate_portfolio_performance(
        portfolio: &TournamentPortfolio,
        price_data: &Vec<PriceData>,
    ) -> (r: i128)
        requires
            portfolio.crypto_picks@.len() <= 5,
            spec_pd_bounded(price_data@),
        ensures
            r == spec_portfolio_performance(portfolio.crypto_picks@, price_data@),
    {
        let mut total: i128 = 0;
        let mut i: usize = 0;
        let n = portfolio.crypto_picks.len();
        while i < n
            invariant
                n == portfolio.crypto_picks@.len() <= 5,
                i <= n,
                spec_pd_bounded(price_data@),
                total == spec_performance_up_to(portfolio.crypto_picks@, price_data@, i as int),
                -(i as int) * 5 * spec_change_limit() <= total <= (i as int) * 5
                    * spec_change_limit(),
            decreases n - i,
        {
            let change = pd_change(price_data, &portfolio.crypto_picks[i]);
            let w: i128 = (5 - i) as i128;
            proof {
                assert(-5 * spec_change_limit() <= change * w <= 5 * spec_change_limit())
                    by (nonlinear_arith)
                    requires
                        -spec_change_limit() <= change <= spec_change_limit(),
                        1 <= w <= 5,
                ;
            }
            total = total + change * w;
            i += 1;
        }
        total
    }

    /// Scores a tournament portfolio with the legacy equal weighting: each
    /// pick counts its asset's percentage change multiplied by 100 divided by
    /// the number of picks, truncated after dividing back by 100.
    pub fn calculate_portfolio_performance_legacy(
        portfolio: &TournamentPortfolio,
        price_data: &Vec<PriceData>,
    ) -> (r: i128)
        requires
            portfolio.crypto_picks@.len() <= 5,
            spec_pd_bounded(price_data@),
        ensures
            r == spec_legacy_performance(portfolio.crypto_picks@, price_data@),
    {
        let n = portfolio.crypto_picks.len();
        let ew: u64 = if n <= 1 {
            100
        } else {
            100 / (n as u64)
        };
        proof {
            if n > 1 {
                vstd::arithmetic::div_mod::lemma_div_is_ordered_by_denominator(100, n as int, 5);
                vstd::arithmetic::div_mod::lemma_div_nonincreasing(100, n as int);
            }
        }
        assert(1 <= ew <= 100);
        assert(ew == spec_legacy_weight(n as int));
        let mut total: i128 = 0;
        let mut i: usize = 0;
        while i < n
            invariant
                n == portfolio.crypto_picks@.len() <= 5,
                i <= n,
                spec_pd_bounded(price_data@),
                1 <= ew <= 100,
                ew == spec_legacy_weight(n as int),
                total == spec_legacy_up_to(
                    portfolio.crypto_picks@,
                    price_data@,
                    ew as int,
                    i as int,
                ),
                -(i as int) * spec_change_limit() <= total <= (i as int) * spec_change_limit(),
            decreases n - i,
        {
            let change = pd_change(price_data, &portfolio.crypto_picks[i]);
            let c = legacy_contribution(change, ew);
            total = total + c;
            i += 1;
        }
        total
    }

    /// Ranks submissions by score and applies the tournament payout curve.
    ///
    /// The result lists every submission exactly once, ordered by score
    /// descending with ties broken by submission order, with ranks assigned
    /// from 1 in order and the prize determined by the rank alone.
    pub fn calculate_leaderboard(
        portfolios: Vec<(String, TournamentPortfolio)>,
        price_data: &Vec<PriceData>,
        total_prize_pool: u64,
    ) -> (r: Vec<LeaderboardEntry>)
        requires
            portfolios@.len() <= u32::MAX - 1,
            forall|j: int|
                0 <= j < portfolios@.len() ==> (#[trigger] portfolios@[j]).1.crypto_picks@.len()
                    <= 5,
            spec_pd_bounded(price_data@),
        ensures
            r@.len() == portfolios@.len(),
            forall|k: int| 0 <= k < r@.len() ==> (#[trigger] r@[k]).rank == k + 1,
            forall|k: int|
                0 <= k < r@.len() ==> (#[trigger] r@[k]).winning_amount == spec_league_prize(
                    total_prize_pool,
                    k + 1,
                ),
            forall|a: int, b: int|
                0 <= a < b < r@.len() ==> (#[trigger] r@[a]).total_return >= (
                #[trigger] r@[b]).total_return,
            exists|ranked: Seq<ScoreEntry>|
                {
                    &&& ranked.to_multiset() == spec_scored_entries(
                        portfolios@,
                        price_data@,
                    ).to_multiset()
                    &&& spec_ranked(ranked)
                    &&& ranked.len() == r@.len()
                    &&& forall|k: int|
                        0 <= k < r@.len() ==> (#[trigger] r@[k]).player_account == ranked[k].account
                            && r@[k].total_return == ranked[k].score
                },
    {
        let ghost scored = spec_scored_entries(portfolios@, price_data@);
        let mut entries: Vec<ScoreEntry> = Vec::new();
        let mut i: usize = 0;
        while i < portfolios.len()
            invariant
                i <= portfolios@.len(),
                scored == spec_scored_entries(portfolios@, price_data@),
                forall|j: int|
                    0 <= j < portfolios@.len() ==> (#[trigger] portfolios@[j]).1.crypto_picks@.len()
                        <= 5,
                spec_pd_bounded(price_data@),
                entries@ =~= scored.take(i as int),
            decreases portfolios@.len() - i,
        {
            let score = Self::calculate_portfolio_performance(&portfolios[i].1, price_data);
            entries.push(
                ScoreEntry { account: portfolios[i].0.clone(), score, submission_index: i },
            );
            proof {
                assert(entries@ =~= scored.take(i + 1));
            }
            i += 1;
        }
        proof {
            assert(scored.take(scored.len() as int) =~= scored);
            assert(entries@ =~= scored);
        }
        let ranked = rank_entries(entries);
        let mut out: Vec<LeaderboardEntry> = Vec::new();
        let mut k: usize = 0;
        while k < ranked.len()
            invariant
                k <= ranked@.len(),
                ranked@.len() <= u32::MAX - 1,
                spec_ranked(ranked@),
                out@.len() == k,
                forall|m: int| 0 <= m < k ==> (#[trigger] out@[m]).rank == m + 1,
                forall|m: int|
                    0 <= m < k ==> (#[trigger] out@[m]).winning_amount == spec_league_prize(
                        total_prize_pool,
                        m + 1,
                    ),
                forall|m: int|
                    0 <= m < k ==> (#[trigger] out@[m]).player_account == ranked@[m].account
                        && out@[m].total_return == ranked@[m].score,
            decreases ranked@.len() - k,
        {
            let prize = league_prize(total_prize_pool, (k + 1) as u32);
            out.push(
                LeaderboardEntry {
                    rank: (k + 1) as u32,
                    player_account: ranked[k].account.clone(),
                    total_return: ranked[k].score,
                    winning_amount: prize,
                },
            );
            k += 1;
        }
        proof {
            assert forall|a: int, b: int| 0 <= a < b < out@.len() implies (
            #[trigger] out@[a]).total_return >= (#[trigger] out@[b]).total_return by {
                assert(spec_ranks_before_eq(ranked@[a], ranked@[b]));
            }
        }
        out
    }
}

/// One legacy contribution: the change multiplied by the equal weight, then
/// divided by 100 truncating toward zero.
fn legacy_contribution(change: i128, ew: u64) -> (r: i128)
    requires
        -spec_change_limit() <= change <= spec_change_limit(),
        1 <= ew <= 100,
    ensures
        r == spec_div_trunc(change * ew, 100),
        -spec_change_limit() <= r <= spec_change_limit(),
{
    let (mag, negative): (u128, bool) = if change >= 0 {
        (change as u128, false)
    } else {
        ((-change) as u128, true)
    };
    proof {
        assert(mag * ew <= spec_change_limit() * 100) by (nonlinear_arith)
            requires
                mag <= spec_change_limit(),
                ew <= 100,
        ;
    }
    let weighted = mag * (ew as u128);
    let quotient = weighted / 100;
    proof {
        lemma_div_is_ordered(weighted as int, spec_change_limit() * 100, 100);
        lemma_div_by_multiple(spec_change_limit(), 100);
        assert(quotient <= spec_change_limit());
        if negative {
            assert(change * ew == -(weighted as int)) by (nonlinear_arith)
                requires
                    change < 0,
                    mag == -change,
                    weighted == mag * ew,
            ;
        } else {
            assert(change * ew == weighted as int) by (nonlinear_arith)
                requires
                    change >= 0,
                    mag == change,
                    weighted == mag * ew,
            ;
        }
    }
    if negative {
        -(quotient as i128)
    } else {
        quotient as i128
    }
}

/// Representative price data for demonstrations and tests.
impl PriceData {
    /// A fixed set of five assets with start and end prices and their scaled
    /// percentage changes.
    pub fn get_mock_prices() -> (r: Vec<PriceData>)
        ensures
            r@.len() == 5,
            r@[0].symbol@ == "BTC"@ && r@[0].start_price == 45_000_000_000u64 && r@[0].end_price
                == 46_800_000_000u64 && r@[0].percentage_change == 40000int,
            r@[1].symbol@ == "ETH"@ && r@[1].start_price == 3_200_000_000u64 && r@[1].end_price
                == 3_360_000_000u64 && r@[1].percentage_change == 50000int,
            r@[2].symbol@ == "ADA"@ && r@[2].start_price == 450_000u64 && r@[2].end_price
                == 470_000u64 && r@[2].percentage_change == 44000int,
            r@[3].symbol@ == "SOL"@ && r@[3].start_price == 180_000_000u64 && r@[3].end_price
                == 171_000_000u64 && r@[3].percentage_change == -50000int,
            r@[4].symbol@ == "DOT"@ && r@[4].start_price == 8_500_000u64 && r@[4].end_price
                == 9_000_000u64 && r@[4].percentage_change == 59000int,
            spec_pd_bounded(r@),
    {
        let mut prices: Vec<PriceData> = Vec::new();
        prices.push(
            PriceData {
                symbol: String::from_str("BTC"),
                start_price: 45_000_000_000,
                end_price: 46_800_000_000,
                percentage_change: 40000,
            },
        );
        prices.push(
            PriceData {
                symbol: String::from_str("ETH"),
                start_price: 3_200_000_000,
                end_price: 3_360_000_000,
                percentage_change: 50000,
            },
        );
        prices.push(
            PriceData {
                symbol: String::from_str("ADA"),
                start_price: 450_000,
                end_price: 470_000,
                percentage_change: 44000,
            },
        );
        prices.push(
            PriceData {
                symbol: String::from_str("SOL"),
                start_price: 180_000_000,
                end_price: 171_000_000,
                percentage_change: -50000,
            },
        );
        prices.push(
            PriceData {
                symbol: String::from_str("DOT"),
                start_price: 8_500_000,
                end_price: 9_000_000,
                percentage_change: 59000,
            },
        );
        prices
    }
}

} // verus!
