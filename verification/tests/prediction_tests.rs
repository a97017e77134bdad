use coindrafts::prediction::{prediction_reward, range_multiplier, MarketStatus, PricePredictionState};

#[test]
fn narrower_ranges_earn_higher_multipliers() {
    assert_eq!(range_multiplier(500_000), 20);
    assert_eq!(range_multiplier(1_000_000), 20);
    assert_eq!(range_multiplier(3_000_000), 10);
    assert_eq!(range_multiplier(8_000_000), 5);
    assert_eq!(range_multiplier(50_000_000), 2);
}

#[test]
fn reward_scales_with_confidence() {
    // fee 1,000,000 at the 20-fold multiplier and 75 percent confidence
    assert_eq!(prediction_reward(1_000_000, 500_000, 75), 15_000_000);
    assert_eq!(prediction_reward(1_000_000, 500_000, 100), 20_000_000);
    assert_eq!(prediction_reward(1_000_000, 50_000_000, 100), 2_000_000);
}

#[test]
fn market_settlement_rewards_hits_only() {
    let mut state = PricePredictionState::instantiate();
    let market_id = state
        .create_market("BTC".to_string(), 1_000_000, 7, "maker".to_string(), 1)
        .unwrap();
    assert_eq!(market_id, "0");
    state
        .submit_prediction(&market_id, 900, 1_100, 80, false, "hit".to_string(), 2)
        .unwrap();
    state
        .submit_prediction(&market_id, 2_000, 3_000, 90, true, "miss".to_string(), 3)
        .unwrap();
    assert!(state.settle_market(&market_id, 1_000, &vec!["hit".to_string(), "miss".to_string()], 4).unwrap());
    assert_eq!(state.markets[0].status, MarketStatus::Completed);
    assert_eq!(state.markets[0].final_price, Some(1_000));
    // width 200 earns the 20-fold multiplier at 80 percent confidence
    assert_eq!(state.predictions[0].multiplier_scaled, Some(1_600));
    assert_eq!(state.predictions[0].reward, Some(16_000_000));
    assert_eq!(state.predictions[1].multiplier_scaled, None);
    assert_eq!(state.predictions[1].reward, None);
    // a completed market never settles again
    assert!(!state.settle_market(&market_id, 2_500, &vec!["miss".to_string()], 5).unwrap());
    assert_eq!(state.predictions[1].reward, None);
}

#[test]
fn prediction_on_unknown_market_is_rejected() {
    let mut state = PricePredictionState::instantiate();
    assert!(state
        .submit_prediction(&"7".to_string(), 1, 2, 50, false, "a".to_string(), 1)
        .is_err());
    assert!(state.predictions.is_empty());
}

#[test]
fn resubmitted_prediction_replaces_prior() {
    let mut state = PricePredictionState::instantiate();
    let market_id = state
        .create_market("ETH".to_string(), 500_000, 1, "maker".to_string(), 1)
        .unwrap();
    state
        .submit_prediction(&market_id, 1, 10, 10, false, "a".to_string(), 2)
        .unwrap();
    state
        .submit_prediction(&market_id, 5, 50, 60, true, "a".to_string(), 3)
        .unwrap();
    assert_eq!(state.predictions.len(), 1);
    assert_eq!(state.predictions[0].min_price, 5);
    assert_eq!(state.predictions[0].confidence, 60);
}

#[test]
fn prediction_queries_filter_by_market_and_player() {
    let mut state = PricePredictionState::instantiate();
    let m0 = state
        .create_market("BTC".to_string(), 500_000, 1, "maker".to_string(), 1)
        .unwrap();
    let m1 = state
        .create_market("ETH".to_string(), 500_000, 1, "maker".to_string(), 2)
        .unwrap();
    assert_eq!(m1, "1");
    state
        .submit_prediction(&m0, 1, 2, 10, false, "a".to_string(), 3)
        .unwrap();
    state
        .submit_prediction(&m1, 1, 2, 10, false, "a".to_string(), 4)
        .unwrap();
    state
        .submit_prediction(&m1, 1, 2, 10, false, "b".to_string(), 5)
        .unwrap();
    assert_eq!(state.market_predictions(&m1).len(), 2);
    assert_eq!(state.my_predictions(&"a".to_string()).len(), 2);
    assert!(state.prediction_market(&m0).is_some());
    assert!(state.prediction_market(&"9".to_string()).is_none());
}
