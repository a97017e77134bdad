use coindrafts::game::PriceSnapshot;
use coindrafts::portfolio::CryptoHolding;
use coindrafts::scoring::{calculate_portfolio_return, price_of, return_scaled, ScoreCalculator};

fn snap(id: &str, price: u64) -> PriceSnapshot {
    PriceSnapshot { crypto_id: id.to_string(), price_usd: price, timestamp: 0 }
}

fn holding(symbol: &str, alloc: u8) -> CryptoHolding {
    CryptoHolding { symbol: symbol.to_string(), allocation_percent: alloc }
}

#[test]
fn fifty_fifty_portfolio_return() {
    let holdings = vec![holding("bitcoin", 50), holding("ether", 50)];
    let start = vec![snap("bitcoin", 45_000_000_000), snap("ether", 3_200_000_000)];
    let end = vec![snap("bitcoin", 46_800_000_000), snap("ether", 3_360_000_000)];
    // bitcoin contributes 2000, ether contributes 2500
    let total = calculate_portfolio_return(&holdings, &start, &end);
    assert_eq!(total, 4500);
}

#[test]
fn scoring_is_deterministic() {
    let holdings = vec![holding("bitcoin", 50), holding("ether", 50)];
    let start = vec![snap("bitcoin", 45_000_000_000), snap("ether", 3_200_000_000)];
    let end = vec![snap("bitcoin", 46_800_000_000), snap("ether", 3_360_000_000)];
    let first = calculate_portfolio_return(&holdings, &start, &end);
    let second = calculate_portfolio_return(&holdings, &start, &end);
    assert_eq!(first, second);
}

#[test]
fn scoring_independent_of_snapshot_order() {
    let holdings = vec![holding("bitcoin", 50), holding("ether", 50)];
    let start_a = vec![snap("bitcoin", 45_000_000_000), snap("ether", 3_200_000_000)];
    let start_b = vec![snap("ether", 3_200_000_000), snap("bitcoin", 45_000_000_000)];
    let end_a = vec![snap("bitcoin", 46_800_000_000), snap("ether", 3_360_000_000)];
    let end_b = vec![snap("ether", 3_360_000_000), snap("bitcoin", 46_800_000_000)];
    assert_eq!(
        calculate_portfolio_return(&holdings, &start_a, &end_a),
        calculate_portfolio_return(&holdings, &start_b, &end_b),
    );
}

#[test]
fn missing_prices_contribute_zero() {
    let holdings = vec![holding("bitcoin", 50), holding("mystery", 50)];
    let start = vec![snap("bitcoin", 45_000_000_000)];
    let end = vec![snap("bitcoin", 46_800_000_000)];
    // only bitcoin contributes: 400 basis-point return weighted five-fold
    assert_eq!(calculate_portfolio_return(&holdings, &start, &end), 2000);
}

#[test]
fn negative_returns_truncate_toward_zero() {
    assert_eq!(return_scaled(180_000_000, 171_000_000), -500);
    assert_eq!(return_scaled(3, 2), -3333);
    assert_eq!(return_scaled(0, 100), 0);
    assert_eq!(return_scaled(100, 0), 0);
}

#[test]
fn price_lookup_finds_first_match() {
    let snaps = vec![snap("BTC", 10), snap("ETH", 20)];
    assert_eq!(price_of(&snaps, &"ETH".to_string()), 20);
    assert_eq!(price_of(&snaps, &"XRP".to_string()), 0);
}

#[test]
fn base_score_passes_through() {
    let score = ScoreCalculator::calculate_score(123_400);
    assert_eq!(score.base_performance, 123_400);
    assert_eq!(score.final_score, 123_400);
    assert_eq!(score.risk_multiplier, 10_000);
    assert_eq!(score.ai_bonus, 0);
}
