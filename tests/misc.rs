use pallet_auctions::arith::{anti_sniping_end, next_bid_min};
use pallet_auctions::{dollar, IdentifyVariant};

#[test]
fn dollar_should_work() {
    assert_eq!(dollar(0), 0);
    assert_eq!(dollar(1), 100_000_000_000_000);
    assert_eq!(dollar(u32::MAX), 4_294_967_295u128 * 100_000_000_000_000);
}

#[test]
fn next_bid_min_should_work() {
    assert_eq!(next_bid_min(10, 100), Some(110));
    assert_eq!(next_bid_min(10, 105), Some(115));
    assert_eq!(next_bid_min(250, 100), Some(200));
    assert_eq!(next_bid_min(0, 7), Some(7));
    assert_eq!(next_bid_min(10, u128::MAX - 5), None);
}

#[test]
fn anti_sniping_end_should_work() {
    assert_eq!(anti_sniping_end(20, 11, 5), Some(20));
    assert_eq!(anti_sniping_end(20, 19, 5), Some(24));
    assert_eq!(anti_sniping_end(20, 15, 5), Some(20));
    assert_eq!(anti_sniping_end(20, 21, 5), None);
    assert_eq!(anti_sniping_end(u64::MAX, u64::MAX - 1, 5), Some(u64::MAX));
}

#[test]
fn identify_variant_should_work() {
    assert!(String::from("Basilisk").is_basilisk_runtime());
    assert!(String::from("BSX local").is_basilisk_runtime());
    assert!(!String::from("Basilisk").is_testing_runtime());
    assert!(String::from("Testing Basilisk").is_testing_runtime());
    assert!(!String::from("Testing Basilisk").is_basilisk_runtime());
    assert!(!String::from("Polkadot").is_basilisk_runtime());
    assert!(!String::from("Polkadot").is_testing_runtime());
}
