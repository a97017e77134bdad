use coindrafts::constants::{get_default_config, is_supported_cryptocurrency};

#[test]
fn test_supported_cryptocurrencies() {
    assert!(is_supported_cryptocurrency("BTC"));
    assert!(is_supported_cryptocurrency("ETH"));
    assert!(!is_supported_cryptocurrency("INVALID"));
}

#[test]
fn test_default_configs() {
    let traditional = get_default_config("traditional").unwrap();
    assert_eq!(traditional.entry_fee_usdc, 1_000_000);
    assert_eq!(traditional.duration_hours, 168);

    let quick = get_default_config("quick").unwrap();
    assert_eq!(quick.entry_fee_usdc, 500_000);
    assert_eq!(quick.duration_hours, 24);

    assert!(get_default_config("invalid").is_none());
}

#[test]
fn test_default_config_aliases() {
    assert!(get_default_config("traditional_league").is_some());
    assert!(get_default_config("quick_match").is_some());
    let prediction = get_default_config("price_prediction").unwrap();
    assert_eq!(prediction.max_players, 200);
    assert_eq!(get_default_config("prediction").unwrap().duration_hours, 168);
}

#[test]
fn test_default_config_ignores_case() {
    assert_eq!(
        get_default_config("TRADITIONAL").unwrap().entry_fee_usdc,
        1_000_000
    );
    assert_eq!(get_default_config("Quick").unwrap().duration_hours, 24);
    assert!(get_default_config("pRiCe_PrEdIcTiOn").is_some());
    assert!(get_default_config("INVALID").is_none());
}
