//! The price prediction mode engine: range-prediction markets.
//!
//! A submitted price range earns a reward only when the realized final price
//! falls within it. The reward multiplier is a step function of the range
//! width — a narrower range earns a higher multiplier — scaled by the
//! submitted confidence value, all in integer arithmetic.

use vstd::prelude::*;
use vstd::string::*;
use crate::error::CoinDraftsError;
use crate::text::{dec_digits, lemma_dec_digits_injective, string_eq, u64_to_dec};
use crate::validation::validate_entry_fee;

verus! {

/// Lifecycle status of a prediction market.
#[derive(Debug, Clone, Copy, PartialEq, Eq, Structural)]
pub enum MarketStatus {
    Active,
    Settling,
    Completed,
}

/// A prediction market for one asset. All prices are micro-units.
pub struct PredictionMarket {
    /// Market identifier, minted from the engine's monotone counter.
    pub id: String,
    /// The asset predicted.
    pub crypto_id: String,
    /// Account that created the market.
    pub creator: String,
    /// Entry fee in micro-units.
    pub entry_fee: u64,
    /// Price when the market opened.
    pub start_price: u64,
    /// Opening time in microseconds.
    pub start_time: u64,
    /// Closing time in microseconds.
    pub end_time: u64,
    /// Lifecycle status.
    pub status: MarketStatus,
    /// Realized price, recorded at settlement.
    pub final_price: Option<u64>,
}

/// One player's range prediction. The multiplier is carried scaled by 100
/// (a 15.00-fold multiplier is 1500), so the whole pipeline stays in integer
/// arithmetic.
pub struct Prediction {
    /// The predicting account.
    pub player: String,
    /// The market predicted on.
    pub market_id: String,
    /// Lower bound of the predicted range, micro-units.
    pub min_price: u64,
    /// Upper bound of the predicted range, micro-units.
    pub max_price: u64,
    /// Submitted confidence (0 to 100).
    pub confidence: u8,
    /// Whether the prediction was machine assisted.
    pub ai_assisted: bool,
    /// Submission time in microseconds.
    pub submitted_at: u64,
    /// Reward multiplier scaled by 100, set at settlement when the range hit.
    pub multiplier_scaled: Option<u64>,
    /// Reward in micro-units, set at settlement when the range hit.
    pub reward: Option<u64>,
}

/// Operations accepted by the prediction engine.
pub enum PredictionOperation {
    /// Open a market.
    CreateMarket { crypto_id: String, entry_fee: u64, duration_days: u32 },
    /// Submit a range prediction.
    SubmitPrediction { market_id: String, min_price: u64, max_price: u64, confidence: u8, ai_assisted: bool },
    /// Settle a market with the realized price.
    SettleMarket { market_id: String, final_price: u64, players: Vec<String> },
}

/// The closing time of a market opened now for a number of days, saturating
/// at the integer cap rather than wrapping.
pub open spec fn spec_market_end_time(now: u64, duration_days: u32) -> u64 {
    let duration = duration_days * 86_400_000_000;
    if now + duration > u64::MAX {
        u64::MAX
    } else {
        (now + duration) as u64
    }
}

/// The reward multiplier for a range width: the narrower the range, the
/// higher the multiplier.
pub open spec fn spec_range_multiplier(width: u64) -> u64 {
    if width <= 1_000_000 {
        20u64
    } else if width <= 5_000_000 {
        10u64
    } else if width <= 10_000_000 {
        5u64
    } else {
        2u64
    }
}

/// Computes the reward multiplier for a range width.
pub fn range_multiplier(width: u64) -> (r: u64)
    ensures
        r == spec_range_multiplier(width),
        r <= 20,
{
    if width <= 1_000_000 {
        20
    } else if width <= 5_000_000 {
        10
    } else if width <= 10_000_000 {
        5
    } else {
        2
    }
}

/// The reward for a winning prediction: the entry fee multiplied by the
/// range multiplier and the confidence, divided by 100.
pub open spec fn spec_prediction_reward(entry_fee: u64, width: u64, confidence: u8) -> int {
    (entry_fee * spec_range_multiplier(width) * confidence) / 100
}

/// Computes the reward for a winning prediction.
pub fn prediction_reward(entry_fee: u64, width: u64, confidence: u8) -> (r: u64)
    requires
        entry_fee <= 100_000_000,
    ensures
        r == spec_prediction_reward(entry_fee, width, confidence),
{
    let m = range_multiplier(width);
    proof {
        assert(entry_fee * m * (confidence as u64) <= 100_000_000 * 20 * 255)
            by (nonlinear_arith)
            requires
                entry_fee <= 100_000_000,
                m <= 20,
                confidence <= 255,
        ;
    }
    let product = (entry_fee as u128) * (m as u128) * (confidence as u128);
    (product / 100) as u64
}

/// A prediction after settlement against a realized price: rewarded when the
/// price fell inside the range, untouched otherwise.
pub open spec fn spec_settled_prediction(p: Prediction, entry_fee: u64, final_price: u64) -> Prediction {
    if p.min_price <= final_price <= p.max_price {
        Prediction {
            multiplier_scaled: Some(
                (spec_range_multiplier((p.max_price - p.min_price) as u64) * p.confidence) as u64,
            ),
            reward: Some(
                spec_prediction_reward(
                    entry_fee,
                    (p.max_price - p.min_price) as u64,
                    p.confidence,
                ) as u64,
            ),
            ..p
        }
    } else {
        p
    }
}

/// The index of the market with an identifier, or -1 when unknown.
pub open spec fn spec_find_market(ms: Seq<PredictionMarket>, id: Seq<char>) -> int
    decreases ms.len(),
{
    if ms.len() == 0 {
        -1
    } else if ms.first().id@ == id {
        0
    } else {
        let r = spec_find_market(ms.drop_first(), id);
        if r == -1 {
            -1
        } else {
            r + 1
        }
    }
}

/// The found index is the first match; -1 means no match at all.
pub proof fn lemma_find_market_is_first(ms: Seq<PredictionMarket>, id: Seq<char>)
    ensures
        spec_find_market(ms, id) == -1 ==> forall|j: int|
            0 <= j < ms.len() ==> (#[trigger] ms[j]).id@ != id,
        spec_find_market(ms, id) != -1 ==> {
            let r = spec_find_market(ms, id);
            &&& 0 <= r < ms.len()
            &&& ms[r].id@ == id
            &&& forall|j: int| 0 <= j < r ==> (#[trigger] ms[j]).id@ != id
        },
    decreases ms.len(),
{
    if ms.len() > 0 && ms.first().id@ != id {
        let d = ms.drop_first();
        lemma_find_market_is_first(d, id);
        assert(forall|j: int| 1 <= j < ms.len() ==> #[trigger] ms[j] == d[j - 1]);
        let rd = spec_find_market(d, id);
        if rd == -1 {
            assert forall|j: int| 0 <= j < ms.len() implies (#[trigger] ms[j]).id@ != id by {
                if j > 0 {
                    assert(ms[j] == d[j - 1]);
                }
            }
        } else {
            assert(ms[rd + 1] == d[rd]);
            assert forall|j: int| 0 <= j < rd + 1 implies (#[trigger] ms[j]).id@ != id by {
                if j > 0 {
                    assert(ms[j] == d[j - 1]);
                }
            }
        }
    }
}

/// Finds the index of the market with an identifier.
fn find_market_index(ms: &Vec<PredictionMarket>, id: &String) -> (r: Option<usize>)
    ensures
        r matches Some(i) ==> i == spec_find_market(ms@, id@),
        r is None ==> spec_find_market(ms@, id@) == -1,
{
    proof {
        lemma_find_market_is_first(ms@, id@);
    }
    let mut i: usize = 0;
    while i < ms.len()
        invariant
            i <= ms@.len(),
            forall|j: int| 0 <= j < i ==> (#[trigger] ms@[j]).id@ != id@,
        decreases ms@.len() - i,
    {
        if string_eq(&ms[i].id, id) {
            proof {
                lemma_find_market_is_first(ms@, id@);
            }
            return Some(i);
        }
        i += 1;
    }
    proof {
        lemma_find_market_is_first(ms@, id@);
    }
    None
}

/// The index of a player's prediction on a market, or -1.
pub open spec fn spec_find_prediction(
    ps: Seq<Prediction>,
    market: Seq<char>,
    player: Seq<char>,
) -> int
    decreases ps.len(),
{
    if ps.len() == 0 {
        -1
    } else if ps.first().market_id@ == market && ps.first().player@ == player {
        0
    } else {
        let r = spec_find_prediction(ps.drop_first(), market, player);
        if r == -1 {
            -1
        } else {
            r + 1
        }
    }
}

/// The found index is the first match; -1 means no match at all.
pub proof fn lemma_find_prediction_is_first(ps: Seq<Prediction>, market: Seq<char>, player: Seq<char>)
    ensures
        spec_find_prediction(ps, market, player) == -1 ==> forall|j: int|
            0 <= j < ps.len() ==> !((#[trigger] ps[j]).market_id@ == market && ps[j].player@
                == player),
        spec_find_prediction(ps, market, player) != -1 ==> {
            let r = spec_find_prediction(ps, market, player);
            &&& 0 <= r < ps.len()
            &&& ps[r].market_id@ == market
            &&& ps[r].player@ == player
            &&& forall|j: int|
                0 <= j < r ==> !((#[trigger] ps[j]).market_id@ == market && ps[j].player@
                    == player)
        },
    decreases ps.len(),
{
    if ps.len() > 0 && !(ps.first().market_id@ == market && ps.first().player@ == player) {
        let d = ps.drop_first();
        lemma_find_prediction_is_first(d, market, player);
        assert(forall|j: int| 1 <= j < ps.len() ==> #[trigger] ps[j] == d[j - 1]);
        let rd = spec_find_prediction(d, market, player);
        if rd == -1 {
            assert forall|j: int|
                0 <= j < ps.len() implies !((#[trigger] ps[j]).market_id@ == market
                && ps[j].player@ == player) by {
                if j > 0 {
                    assert(ps[j] == d[j - 1]);
                }
            }
        } else {
            assert(ps[rd + 1] == d[rd]);
            assert forall|j: int|
                0 <= j < rd + 1 implies !((#[trigger] ps[j]).market_id@ == market && ps[j].player@
                == player) by {
                if j > 0 {
                    assert(ps[j] == d[j - 1]);
                }
            }
        }
    }
}

/// Finds the index of a player's prediction on a market.
fn find_prediction_index(ps: &Vec<Prediction>, market: &String, player: &String) -> (r: Option<
    usize,
>)
    ensures
        r matches Some(i) ==> i == spec_find_prediction(ps@, market@, player@),
        r is None ==> spec_find_prediction(ps@, market@, player@) == -1,
{
    proof {
        lemma_find_prediction_is_first(ps@, market@, player@);
    }
    let mut i: usize = 0;
    while i < ps.len()
        invariant
            i <= ps@.len(),
            forall|j: int|
                0 <= j < i ==> !((#[trigger] ps@[j]).market_id@ == market@ && ps@[j].player@
                    == player@),
        decreases ps@.len() - i,
    {
        if string_eq(&ps[i].market_id, market) && string_eq(&ps[i].player, player) {
            proof {
                lemma_find_prediction_is_first(ps@, market@, player@);
            }
            return Some(i);
        }
        i += 1;
    }
    proof {
        lemma_find_prediction_is_first(ps@, market@, player@);
    }
    None
}

/// Well-formedness of the prediction engine state: market identifiers come
/// from the monotone counter and are unique, entry fees are within the
/// validated bounds, and each player holds at most one prediction per
/// market.
pub open spec fn spec_prediction_wf(s: PricePredictionState) -> bool {
    &&& forall|i: int, j: int|
        0 <= i < j < s.markets@.len() ==> (#[trigger] s.markets@[i]).id@ != (
        #[trigger] s.markets@[j]).id@
    &&& forall|i: int|
        0 <= i < s.markets@.len() ==> exists|k: nat|
            k < s.next_market_id as nat && (#[trigger] s.markets@[i]).id@ == dec_digits(k)
    &&& forall|i: int|
        0 <= i < s.markets@.len() ==> 100_000 <= (#[trigger] s.markets@[i]).entry_fee
            <= 100_000_000
    &&& forall|i: int, j: int|
        0 <= i < j < s.predictions@.len() ==> !((#[trigger] s.predictions@[i]).market_id@ == (
        #[trigger] s.predictions@[j]).market_id@ && s.predictions@[i].player@
            == s.predictions@[j].player@)
}

/// The predictions after settling the first `k` listed players against a
/// realized price: each player's prediction on the market, when present and
/// hit by the price, receives its multiplier and reward.
pub open spec fn spec_settle_predictions(
    preds: Seq<Prediction>,
    market: Seq<char>,
    players: Seq<String>,
    entry_fee: u64,
    final_price: u64,
    k: int,
) -> Seq<Prediction>
    decreases k,
{
    if k <= 0 {
        preds
    } else {
        let prev = spec_settle_predictions(preds, market, players, entry_fee, final_price, k - 1);
        let pi = spec_find_prediction(prev, market, players[k - 1]@);
        if pi == -1 {
            prev
        } else {
            prev.update(pi, spec_settled_prediction(prev[pi], entry_fee, final_price))
        }
    }
}

/// Settling preserves the keys of the prediction list.
proof fn lemma_settle_predictions_shape(
    preds: Seq<Prediction>,
    market: Seq<char>,
    players: Seq<String>,
    entry_fee: u64,
    final_price: u64,
    k: int,
)
    ensures
        ({
            let r = spec_settle_predictions(preds, market, players, entry_fee, final_price, k);
            &&& r.len() == preds.len()
            &&& forall|i: int|
                0 <= i < preds.len() ==> (#[trigger] r[i]).market_id == preds[i].market_id
                    && r[i].player == preds[i].player
        }),
    decreases k,
{
    if k > 0 {
        lemma_settle_predictions_shape(preds, market, players, entry_fee, final_price, k - 1);
        let prev = spec_settle_predictions(preds, market, players, entry_fee, final_price, k - 1);
        let pi = spec_find_prediction(prev, market, players[k - 1]@);
        if pi != -1 {
            lemma_find_prediction_is_first(prev, market, players[k - 1]@);
        }
    }
}

/// Whether two prediction engine states hold exactly the same entities.
pub open spec fn spec_same_prediction_state(a: PricePredictionState, b: PricePredictionState) -> bool {
    &&& a.markets@ == b.markets@
    &&& a.predictions@ == b.predictions@
    &&& a.next_market_id == b.next_market_id
}

/// The prediction engine's state.
pub struct PricePredictionState {
    /// Markets by identifier.
    pub markets: Vec<PredictionMarket>,
    /// Predictions, at most one per market and player.
    pub predictions: Vec<Prediction>,
    /// Monotone counter for minting market identifiers; never reused.
    pub next_market_id: u64,
}

impl PricePredictionState {
    /// A fresh prediction engine.
    pub fn instantiate() -> (r: Self)
        ensures
            spec_prediction_wf(r),
            r.markets@.len() == 0,
            r.predictions@.len() == 0,
            r.next_market_id == 0,
    {
        PricePredictionState { markets: Vec::new(), predictions: Vec::new(), next_market_id: 0 }
    }

    /// Opens a market: validates the entry fee, mints a fresh identifier,
    /// and stores the market active. The closing time saturates at the
    /// integer cap rather than wrapping.
    pub fn create_market(
        &mut self,
        crypto_id: String,
        entry_fee: u64,
        duration_days: u32,
        creator: String,
        now: u64,
    ) -> (r: Result<String, CoinDraftsError>)
        requires
            spec_prediction_wf(*old(self)),
        ensures
            spec_prediction_wf(*final(self)),
            r is Err <==> !(100_000 <= entry_fee <= 100_000_000 && old(self).next_market_id
                < u64::MAX),
            r is Err ==> final(self).markets@ == old(self).markets@ && final(self).predictions@
                == old(self).predictions@ && final(self).next_market_id == old(self).next_market_id,
            r matches Ok(id) ==> {
                &&& id@ == dec_digits(old(self).next_market_id as nat)
                &&& final(self).markets@.len() == old(self).markets@.len() + 1
                &&& final(self).markets@.drop_last() == old(self).markets@
                &&& final(self).markets@.last().id@ == id@
                &&& final(self).markets@.last().crypto_id == crypto_id
                &&& final(self).markets@.last().creator == creator
                &&& final(self).markets@.last().entry_fee == entry_fee
                &&& final(self).markets@.last().start_price == 0
                &&& final(self).markets@.last().start_time == now
                &&& final(self).markets@.last().end_time == spec_market_end_time(
                    now,
                    duration_days,
                )
                &&& final(self).markets@.last().status is Active
                &&& final(self).markets@.last().final_price is None
                &&& final(self).next_market_id == old(self).next_market_id + 1
                &&& final(self).predictions@ == old(self).predictions@
            },
    {
        if validate_entry_fee(entry_fee).is_err() || self.next_market_id == u64::MAX {
            return Err(
                CoinDraftsError::validation(String::from_str("market cannot be created")),
            );
        }
        let market_id = u64_to_dec(self.next_market_id);
        let duration_micros: u128 = (duration_days as u128) * 86_400_000_000;
        let end_time: u64 = if duration_micros > (u64::MAX - now) as u128 {
            u64::MAX
        } else {
            now + (duration_micros as u64)
        };
        let market = PredictionMarket {
            id: market_id.clone(),
            crypto_id,
            creator,
            entry_fee,
            start_price: 0,
            start_time: now,
            end_time,
            status: MarketStatus::Active,
            final_price: None,
        };
        let ghost before = self.markets@;
        let ghost counter0 = self.next_market_id;
        self.markets.push(market);
        self.next_market_id = self.next_market_id + 1;
        proof {
            assert(self.markets@.drop_last() =~= before);
            assert forall|i: int| 0 <= i < before.len() implies (#[trigger] before[i]).id@
                != dec_digits(counter0 as nat) by {
                if before[i].id@ == dec_digits(counter0 as nat) {
                    let k = choose|k: nat|
                        k < counter0 as nat && before[i].id@ == dec_digits(k);
                    lemma_dec_digits_injective(k, counter0 as nat);
                }
            }
            assert(exists|k: nat|
                k < self.next_market_id as nat && self.markets@.last().id@ == dec_digits(k)) by {
                assert((counter0 as nat) < (self.next_market_id as nat));
                assert(self.markets@.last().id@ == dec_digits(counter0 as nat));
            }
            assert forall|i: int|
                0 <= i < self.markets@.len() implies exists|k: nat|
                k < self.next_market_id as nat && (#[trigger] self.markets@[i]).id@ == dec_digits(
                    k,
                ) by {
                if i < self.markets@.len() - 1 {
                    assert(self.markets@[i] == before[i]);
                    let k = choose|k: nat| k < counter0 as nat && before[i].id@ == dec_digits(k);
                    assert(k < self.next_market_id as nat);
                }
            }
        }
        Ok(market_id)
    }

    /// Submits a range prediction on a market, replacing any prior
    /// prediction from the same player. An unknown market is rejected with
    /// no state change.
    pub fn submit_prediction(
        &mut self,
        market_id: &String,
        min_price: u64,
        max_price: u64,
        confidence: u8,
        ai_assisted: bool,
        player: String,
        now: u64,
    ) -> (r: Result<(), CoinDraftsError>)
        requires
            spec_prediction_wf(*old(self)),
        ensures
            spec_prediction_wf(*final(self)),
            r is Err <==> spec_find_market(old(self).markets@, market_id@) == -1,
            r is Err ==> final(self).markets@ == old(self).markets@ && final(self).predictions@
                == old(self).predictions@ && final(self).next_market_id == old(self).next_market_id,
            r is Ok ==> {
                let fi = spec_find_prediction(old(self).predictions@, market_id@, player@);
                let ni = if fi >= 0 {
                    fi
                } else {
                    old(self).predictions@.len() as int
                };
                &&& (fi >= 0 ==> final(self).predictions@.len() == old(self).predictions@.len()
                    && (forall|j: int|
                        0 <= j < old(self).predictions@.len() && j != fi ==> final(self).predictions@[j] == old(self).predictions@[j]))
                &&& (fi == -1 ==> final(self).predictions@.len() == old(self).predictions@.len()
                    + 1 && final(self).predictions@.drop_last() == old(self).predictions@)
                &&& final(self).predictions@[ni].market_id@ == market_id@
                &&& final(self).predictions@[ni].player@ == player@
                &&& final(self).predictions@[ni].min_price == min_price
                &&& final(self).predictions@[ni].max_price == max_price
                &&& final(self).predictions@[ni].confidence == confidence
                &&& final(self).predictions@[ni].ai_assisted == ai_assisted
                &&& final(self).predictions@[ni].submitted_at == now
                &&& final(self).predictions@[ni].multiplier_scaled is None
                &&& final(self).predictions@[ni].reward is None
                &&& final(self).markets@ == old(self).markets@
                &&& final(self).next_market_id == old(self).next_market_id
            },
    {
        if find_market_index(&self.markets, market_id).is_none() {
            return Err(CoinDraftsError::GameNotFound { game_id: market_id.clone() });
        }
        let prediction = Prediction {
            player,
            market_id: market_id.clone(),
            min_price,
            max_price,
            confidence,
            ai_assisted,
            submitted_at: now,
            multiplier_scaled: None,
            reward: None,
        };
        let fi = find_prediction_index(&self.predictions, market_id, &prediction.player);
        let ghost before = self.predictions@;
        match fi {
            Some(i) => {
                proof {
                    lemma_find_prediction_is_first(self.predictions@, market_id@,
                        prediction.player@);
                }
                let slot = &mut self.predictions[i];
                *slot = prediction;
                proof {
                    let ps = self.predictions@;
                    assert forall|a: int, b: int| 0 <= a < b < ps.len() implies !((
                    #[trigger] ps[a]).market_id@ == (#[trigger] ps[b]).market_id@ && ps[a].player@
                        == ps[b].player@) by {
                        assert(ps[a].market_id@ == before[a].market_id@ && ps[a].player@
                            == before[a].player@);
                        assert(ps[b].market_id@ == before[b].market_id@ && ps[b].player@
                            == before[b].player@);
                    }
                }
            },
            None => {
                proof {
                    lemma_find_prediction_is_first(self.predictions@, market_id@,
                        prediction.player@);
                }
                self.predictions.push(prediction);
                proof {
                    let ps = self.predictions@;
                    assert(ps.drop_last() =~= before);
                    assert forall|a: int, b: int| 0 <= a < b < ps.len() implies !((
                    #[trigger] ps[a]).market_id@ == (#[trigger] ps[b]).market_id@ && ps[a].player@
                        == ps[b].player@) by {
                        if b < ps.len() - 1 {
                            assert(ps[a] == before[a] && ps[b] == before[b]);
                        } else {
                            assert(ps[a] == before[a]);
                        }
                    }
                }
            },
        }
        Ok(())
    }

    /// Settles a market against the realized final price: each listed
    /// player's prediction is rewarded when the price fell inside its range.
    /// Settlement happens exactly once: a market that is not active is left
    /// untouched, so a second settlement cannot double-pay.
    pub fn settle_market(
        &mut self,
        market_id: &String,
        final_price: u64,
        players: &Vec<String>,
        now: u64,
    ) -> (r: Result<bool, CoinDraftsError>)
        requires
            spec_prediction_wf(*old(self)),
        ensures
            spec_prediction_wf(*final(self)),
            r is Err <==> spec_find_market(old(self).markets@, market_id@) == -1,
            r is Err ==> final(self).markets@ == old(self).markets@ && final(self).predictions@
                == old(self).predictions@ && final(self).next_market_id == old(self).next_market_id,
            r matches Ok(false) ==> {
                let mi = spec_find_market(old(self).markets@, market_id@);
                &&& mi >= 0
                &&& !(old(self).markets@[mi].status is Active)
                &&& final(self).markets@ == old(self).markets@
                &&& final(self).predictions@ == old(self).predictions@
                &&& final(self).next_market_id == old(self).next_market_id
            },
            r matches Ok(true) ==> {
                let mi = spec_find_market(old(self).markets@, market_id@);
                &&& mi >= 0
                &&& old(self).markets@[mi].status is Active
                &&& final(self).markets@.len() == old(self).markets@.len()
                &&& (forall|j: int|
                    0 <= j < old(self).markets@.len() && j != mi ==> final(self).markets@[j]
                        == old(self).markets@[j])
                &&& final(self).markets@[mi].status is Completed
                &&& final(self).markets@[mi].final_price == Some(final_price)
                &&& final(self).markets@[mi].id@ == old(self).markets@[mi].id@
                &&& final(self).markets@[mi].entry_fee == old(self).markets@[mi].entry_fee
                &&& final(self).predictions@ == spec_settle_predictions(
                    old(self).predictions@,
                    market_id@,
                    players@,
                    old(self).markets@[mi].entry_fee,
                    final_price,
                    players@.len() as int,
                )
                &&& final(self).next_market_id == old(self).next_market_id
            },
    {
        let mi = match find_market_index(&self.markets, market_id) {
            Some(i) => i,
            None => {
                return Err(CoinDraftsError::GameNotFound { game_id: market_id.clone() });
            },
        };
        proof {
            lemma_find_market_is_first(self.markets@, market_id@);
        }
        if !matches!(self.markets[mi].status, MarketStatus::Active) {
            return Ok(false);
        }
        let entry_fee = self.markets[mi].entry_fee;
        let ghost preds0 = self.predictions@;
        let mut w: usize = 0;
        while w < players.len()
            invariant
                w <= players@.len(),
                entry_fee <= 100_000_000,
                self.predictions@ == spec_settle_predictions(
                    preds0,
                    market_id@,
                    players@,
                    entry_fee,
                    final_price,
                    w as int,
                ),
                self.markets@ == old(self).markets@,
                self.next_market_id == old(self).next_market_id,
            decreases players@.len() - w,
        {
            match find_prediction_index(&self.predictions, market_id, &players[w]) {
                Some(pi) => {
                    proof {
                        lemma_find_prediction_is_first(
                            self.predictions@,
                            market_id@,
                            players@[w as int]@,
                        );
                    }
                    let hit = self.predictions[pi].min_price <= final_price && final_price
                        <= self.predictions[pi].max_price;
                    if hit {
                        let width = self.predictions[pi].max_price - self.predictions[pi].min_price;
                        let m = range_multiplier(width);
                        let conf = self.predictions[pi].confidence;
                        let reward = prediction_reward(entry_fee, width, conf);
                        proof {
                            assert(m * (conf as u64) <= 5100) by (nonlinear_arith)
                                requires
                                    m <= 20,
                                    conf <= 255,
                            ;
                        }
                        let ghost before = self.predictions@;
                        {
                            let p = &mut self.predictions[pi];
                            p.multiplier_scaled = Some(m * (conf as u64));
                            p.reward = Some(reward);
                        }
                        proof {
                            assert((m * (conf as u64)) as int == (spec_range_multiplier(width)
                                * conf) as int);
                            assert(self.predictions@ =~= before.update(
                                pi as int,
                                spec_settled_prediction(before[pi as int], entry_fee, final_price),
                            ));
                        }
                    }
                },
                None => {},
            }
            w += 1;
        }
        let mk = &mut self.markets[mi];
        mk.status = MarketStatus::Completed;
        mk.final_price = Some(final_price);
        proof {
            let gs = self.markets@;
            let og = old(self).markets@;
            assert(forall|i: int|
                0 <= i < gs.len() ==> (#[trigger] gs[i]).id@ == og[i].id@ && gs[i].entry_fee
                    == og[i].entry_fee);
            assert forall|i: int, j: int| 0 <= i < j < gs.len() implies (#[trigger] gs[i]).id@
                != (#[trigger] gs[j]).id@ by {
                assert(og[i].id@ != og[j].id@);
            }
            assert forall|i: int|
                0 <= i < gs.len() implies exists|k: nat|
                k < self.next_market_id as nat && (#[trigger] gs[i]).id@ == dec_digits(k) by {
                let k = choose|k: nat|
                    k < old(self).next_market_id as nat && og[i].id@ == dec_digits(k);
                assert(gs[i].id@ == og[i].id@);
            }
            lemma_settle_predictions_shape(
                preds0,
                market_id@,
                players@,
                entry_fee,
                final_price,
                players@.len() as int,
            );
            assert forall|a: int, b: int| 0 <= a < b < self.predictions@.len() implies !((
            #[trigger] self.predictions@[a]).market_id@ == (
            #[trigger] self.predictions@[b]).market_id@ && self.predictions@[a].player@
                == self.predictions@[b].player@) by {
                assert(self.predictions@[a].market_id == preds0[a].market_id
                    && self.predictions@[a].player == preds0[a].player);
                assert(self.predictions@[b].market_id == preds0[b].market_id
                    && self.predictions@[b].player == preds0[b].player);
            }
        }
        Ok(true)
    }

    /// Applies one operation to the prediction engine: opening a market,
    /// storing a prediction, or settling a market, exactly as the typed
    /// methods beneath describe.
    pub fn execute_operation(&mut self, operation: PredictionOperation, signer: String, now: u64)
        requires
            spec_prediction_wf(*old(self)),
        ensures
            spec_prediction_wf(*final(self)),
            operation matches PredictionOperation::CreateMarket {
                crypto_id,
                entry_fee,
                duration_days,
            } ==> {
                &&& (!(100_000 <= entry_fee <= 100_000_000 && old(self).next_market_id < u64::MAX)
                    ==> spec_same_prediction_state(*final(self), *old(self)))
                &&& (100_000 <= entry_fee <= 100_000_000 && old(self).next_market_id < u64::MAX
                    ==> final(self).markets@.len() == old(self).markets@.len() + 1 && final(self).markets@.drop_last() == old(self).markets@ && final(self).markets@.last().id@
                    == dec_digits(old(self).next_market_id as nat) && final(self).markets@.last().crypto_id == crypto_id && final(self).markets@.last().entry_fee
                    == entry_fee && final(self).markets@.last().start_time == now && final(self).markets@.last().end_time == spec_market_end_time(now, duration_days) && final(self).markets@.last().status is Active && final(self).markets@.last().final_price
                    is None && final(self).next_market_id == old(self).next_market_id + 1 && final(self).predictions@ == old(self).predictions@)
            },
            operation matches PredictionOperation::SubmitPrediction {
                market_id,
                min_price,
                max_price,
                confidence,
                ai_assisted,
            } ==> {
                let fi = spec_find_prediction(old(self).predictions@, market_id@, signer@);
                let ni = if fi >= 0 {
                    fi
                } else {
                    old(self).predictions@.len() as int
                };
                &&& (spec_find_market(old(self).markets@, market_id@) == -1
                    ==> spec_same_prediction_state(*final(self), *old(self)))
                &&& (spec_find_market(old(self).markets@, market_id@) >= 0 ==> {
                    &&& (fi >= 0 ==> final(self).predictions@.len() == old(self).predictions@.len() && (forall|j: int|
                        0 <= j < old(self).predictions@.len() && j != fi ==> final(self).predictions@[j] == old(self).predictions@[j]))
                    &&& (fi == -1 ==> final(self).predictions@.len() == old(self).predictions@.len() + 1 && final(self).predictions@.drop_last() == old(self).predictions@)
                    &&& final(self).predictions@[ni].market_id@ == market_id@
                    &&& final(self).predictions@[ni].player@ == signer@
                    &&& final(self).predictions@[ni].min_price == min_price
                    &&& final(self).predictions@[ni].max_price == max_price
                    &&& final(self).predictions@[ni].confidence == confidence
                    &&& final(self).predictions@[ni].ai_assisted == ai_assisted
                    &&& final(self).predictions@[ni].submitted_at == now
                    &&& final(self).predictions@[ni].multiplier_scaled is None
                    &&& final(self).predictions@[ni].reward is None
                    &&& final(self).markets@ == old(self).markets@
                    &&& final(self).next_market_id == old(self).next_market_id
                })
            },
            operation matches PredictionOperation::SettleMarket {
                market_id,
                final_price,
                players,
            } ==> {
                let mi = spec_find_market(old(self).markets@, market_id@);
                &&& (mi == -1 ==> spec_same_prediction_state(*final(self), *old(self)))
                &&& (mi >= 0 && !(old(self).markets@[mi].status is Active)
                    ==> spec_same_prediction_state(*final(self), *old(self)))
                &&& (mi >= 0 && old(self).markets@[mi].status is Active ==> {
                    &&& final(self).markets@.len() == old(self).markets@.len()
                    &&& (forall|j: int|
                        0 <= j < old(self).markets@.len() && j != mi ==> final(self).markets@[j]
                            == old(self).markets@[j])
                    &&& final(self).markets@[mi].status is Completed
                    &&& final(self).markets@[mi].final_price == Some(final_price)
                    &&& final(self).predictions@ == spec_settle_predictions(
                        old(self).predictions@,
                        market_id@,
                        players@,
                        old(self).markets@[mi].entry_fee,
                        final_price,
                        players@.len() as int,
                    )
                    &&& final(self).next_market_id == old(self).next_market_id
                })
            },
    {
        match operation {
            PredictionOperation::CreateMarket { crypto_id, entry_fee, duration_days } => {
                let res = self.create_market(crypto_id, entry_fee, duration_days, signer, now);
                proof {
                    if res is Err {
                        assert(spec_same_prediction_state(*self, *old(self)));
                    }
                }
            },
            PredictionOperation::SubmitPrediction {
                market_id,
                min_price,
                max_price,
                confidence,
                ai_assisted,
            } => {
                let res = self.submit_prediction(
                    &market_id,
                    min_price,
                    max_price,
                    confidence,
                    ai_assisted,
                    signer,
                    now,
                );
                proof {
                    if res is Err {
                        assert(spec_same_prediction_state(*self, *old(self)));
                    }
                }
            },
            PredictionOperation::SettleMarket { market_id, final_price, players } => {
                let res = self.settle_market(&market_id, final_price, &players, now);
                proof {
                    match res {
                        Ok(true) => {
                        },
                        Ok(false) => {
                            assert(spec_same_prediction_state(*self, *old(self)));
                        },
                        Err(_) => {
                            assert(spec_same_prediction_state(*self, *old(self)));
                        },
                    }
                }
            },
        }
    }
}

impl Prediction {
    /// Returns a copy of this prediction.
    pub fn duplicate(&self) -> (r: Self)
        ensures
            r.player == self.player,
            r.market_id == self.market_id,
            r.min_price == self.min_price,
            r.max_price == self.max_price,
            r.confidence == self.confidence,
            r.ai_assisted == self.ai_assisted,
            r.submitted_at == self.submitted_at,
            r.multiplier_scaled == self.multiplier_scaled,
            r.reward == self.reward,
    {
        Prediction {
            player: self.player.clone(),
            market_id: self.market_id.clone(),
            min_price: self.min_price,
            max_price: self.max_price,
            confidence: self.confidence,
            ai_assisted: self.ai_assisted,
            submitted_at: self.submitted_at,
            multiplier_scaled: self.multiplier_scaled,
            reward: self.reward,
        }
    }
}

impl PricePredictionState {
    /// The market with an identifier, when the engine knows it.
    pub fn prediction_market(&self, market_id: &String) -> (r: Option<&PredictionMarket>)
        ensures
            r matches Some(m) ==> spec_find_market(self.markets@, market_id@) >= 0 && *m
                == self.markets@[spec_find_market(self.markets@, market_id@)],
            r is None ==> spec_find_market(self.markets@, market_id@) == -1,
    {
        match find_market_index(&self.markets, market_id) {
            Some(i) => {
                proof {
                    lemma_find_market_is_first(self.markets@, market_id@);
                }
                Some(&self.markets[i])
            },
            None => None,
        }
    }

    /// The predictions on one market, in storage order.
    pub fn market_predictions(&self, market_id: &String) -> (r: Vec<Prediction>)
        ensures
            r@.len() <= self.predictions@.len(),
            forall|k: int| 0 <= k < r@.len() ==> (#[trigger] r@[k]).market_id@ == market_id@,
    {
        let mut out: Vec<Prediction> = Vec::new();
        let mut i: usize = 0;
        while i < self.predictions.len()
            invariant
                i <= self.predictions@.len(),
                out@.len() <= i,
                forall|k: int|
                    0 <= k < out@.len() ==> (#[trigger] out@[k]).market_id@ == market_id@,
            decreases self.predictions@.len() - i,
        {
            if string_eq(&self.predictions[i].market_id, market_id) {
                let ghost before = out@;
                out.push(self.predictions[i].duplicate());
                proof {
                    assert forall|k: int|
                        0 <= k < out@.len() implies (#[trigger] out@[k]).market_id@
                        == market_id@ by {
                        if k < out@.len() - 1 {
                            assert(out@[k] == before[k]);
                        }
                    }
                }
            }
            i += 1;
        }
        out
    }

    /// One player's predictions across all markets, in storage order.
    pub fn my_predictions(&self, player: &String) -> (r: Vec<Prediction>)
        ensures
            r@.len() <= self.predictions@.len(),
            forall|k: int| 0 <= k < r@.len() ==> (#[trigger] r@[k]).player@ == player@,
    {
        let mut out: Vec<Prediction> = Vec::new();
        let mut i: usize = 0;
        while i < self.predictions.len()
            invariant
                i <= self.predictions@.len(),
                out@.len() <= i,
                forall|k: int| 0 <= k < out@.len() ==> (#[trigger] out@[k]).player@ == player@,
            decreases self.predictions@.len() - i,
        {
            if string_eq(&self.predictions[i].player, player) {
                let ghost before = out@;
                out.push(self.predictions[i].duplicate());
                proof {
                    assert forall|k: int|
                        0 <= k < out@.len() implies (#[trigger] out@[k]).player@ == player@ by {
                        if k < out@.len() - 1 {
                            assert(out@[k] == before[k]);
                        }
                    }
                }
            }
            i += 1;
        }
        out
    }
}

} // verus!
