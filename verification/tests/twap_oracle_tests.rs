use perigee::address::Addr;
use perigee::twap_oracle::{Error, TwapOracle};

fn addr(s: &str) -> Addr {
    Addr::new(s.as_bytes().to_vec())
}

#[test]
fn test_initialize() {
    let mut o = TwapOracle::new();
    let token_a = addr("CTOKENA");
    let token_b = addr("CTOKENB");
    assert_eq!(o.initialize(addr("CTOKENA"), addr("CTOKENB"), 60), Ok(()));
    assert_eq!(o.initialize(addr("CTOKENA"), addr("CTOKENB"), 60), Err(Error::AlreadyInitialized));
    let (a, b) = o.get_tokens();
    assert!(a.same_as(&token_a));
    assert!(b.same_as(&token_b));
}

#[test]
fn test_update_and_get_twap() {
    let mut o = TwapOracle::new();
    o.initialize(addr("CTOKENA"), addr("CTOKENB"), 10).unwrap();
    o.update_price(1000, 100).unwrap();
    assert_eq!(o.get_twap(), 0);
    o.update_price(1010, 110).unwrap();
    assert_eq!(o.get_twap(), 100);
    o.update_price(1025, 120).unwrap();
    assert_eq!(o.get_twap(), 106);
}

#[test]
fn test_update_too_soon() {
    let mut o = TwapOracle::new();
    o.initialize(addr("CTOKENA"), addr("CTOKENB"), 60).unwrap();
    o.update_price(1000, 100).unwrap();
    assert_eq!(o.update_price(1000, 110), Err(Error::InsufficientTimeElapsed));
    assert_eq!(o.update_price(1050, 110), Err(Error::InsufficientTimeElapsed));
    assert_eq!(o.update_price(1060, 110), Ok(()));
}

#[test]
fn test_invalid_price() {
    let mut o = TwapOracle::new();
    o.initialize(addr("CTOKENA"), addr("CTOKENB"), 60).unwrap();
    assert_eq!(o.update_price(0, 0), Err(Error::InvalidPrice));
    assert_eq!(o.update_price(0, -1), Err(Error::InvalidPrice));
}

#[test]
fn test_not_initialized() {
    let mut o = TwapOracle::new();
    assert_eq!(o.update_price(0, 100), Err(Error::NotInitialized));
    assert_eq!(o.get_twap(), 0);
}

#[test]
fn test_state_getter_reflects_updates() {
    let mut o = TwapOracle::new();
    o.initialize(addr("CTOKENA"), addr("CTOKENB"), 10).unwrap();
    o.update_price(5000, 100).unwrap();
    o.update_price(5010, 110).unwrap();
    let state = o.get_state();
    assert_eq!(state.last_price, 110);
    assert_eq!(state.last_update_timestamp, 5010);
    assert_eq!(state.cumulative_price, 100 * 10);
    assert_eq!(state.total_time, 10);
}

#[test]
fn staleness_is_off_by_default_and_exact_at_the_boundary() {
    let mut o = TwapOracle::new();
    o.initialize(addr("CTOKENA"), addr("CTOKENB"), 10).unwrap();
    // Disabled by default, even for a feed never updated.
    assert!(!o.is_price_stale(1_000_000));
    assert_eq!(o.get_max_price_age(), 0);
    o.set_max_price_age(30).unwrap();
    // Never updated: stale, and its quote is withheld.
    assert!(o.is_price_stale(100));
    assert_eq!(o.latest_price(100), 0);
    o.update_price(1000, 250).unwrap();
    o.update_price(1010, 260).unwrap();
    // TWAP over [1000, 1010] is 250; the last update was at 1010.
    assert!(!o.is_price_stale(1040));
    assert_eq!(o.latest_price(1040), 250);
    assert!(o.is_price_stale(1041));
    assert_eq!(o.latest_price(1041), 0);
    // A fresh update revives the feed.
    o.update_price(1050, 270).unwrap();
    assert!(!o.is_price_stale(1051));
    // Disabling again.
    o.set_max_price_age(0).unwrap();
    assert!(!o.is_price_stale(99_999));
}

#[test]
fn max_price_age_needs_initialization() {
    let mut o = TwapOracle::new();
    assert_eq!(o.set_max_price_age(10), Err(Error::NotInitialized));
}

#[test]
fn default_accumulator_is_all_zero() {
    let s = perigee::twap_oracle::TwapStorage::default();
    assert_eq!((s.cumulative_price, s.total_time, s.last_update_timestamp, s.last_price), (0, 0, 0, 0));
}
