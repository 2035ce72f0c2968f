use nostr_dispatch::subscription_id::ToSubscriptionId;
use nostr_sdk::{Filter, Keys, Kind, SubscriptionId};

#[test]
fn test_to_subscription_id() {
    let filter1_1 = vec![Filter::new().kind(Kind::Metadata)];
    let filter1_2 = vec![Filter::new().kind(Kind::Metadata)];
    let filter2 = vec![Filter::new().kind(Kind::TextNote)];
    let keys = Keys::generate();
    let filter3 = vec![Filter::new().kind(Kind::TextNote).author(keys.public_key())];

    let sub1_1 = filter1_1.to_subscription_id();
    let sub1_2 = filter1_2.to_subscription_id();
    let sub2 = filter2.to_subscription_id();
    let sub3 = filter3.to_subscription_id();

    assert_eq!(sub1_1, SubscriptionId::new("0c9fae203a3c806d"));
    assert_eq!(sub1_1, sub1_2);
    assert_ne!(sub1_1, sub2);
    assert_ne!(sub2, sub3);
}


use nostr_dispatch::subscription_id::{
    format_subscription_id, hash_filter_texts, parse_subscription_id, subscription_hash,
};

#[test]
fn format_pads_to_sixteen_lowercase_digits() {
    assert_eq!(format_subscription_id(0), "0000000000000000");
    assert_eq!(format_subscription_id(0xdead_beef), "00000000deadbeef");
    assert_eq!(format_subscription_id(u64::MAX), "ffffffffffffffff");
    assert_eq!(format_subscription_id(0x0c9f_ae20_3a3c_806d), "0c9fae203a3c806d");
}

#[test]
fn parse_reads_back_formatted_ids() {
    for h in [0u64, 1, 15, 16, 0x0c9f_ae20_3a3c_806d, u64::MAX, 1 << 63] {
        assert_eq!(parse_subscription_id(&format_subscription_id(h)), Some(h));
    }
}

#[test]
fn parse_refuses_other_texts() {
    assert_eq!(parse_subscription_id(""), None);
    assert_eq!(parse_subscription_id("0c9fae203a3c806"), None);
    assert_eq!(parse_subscription_id("0c9fae203a3c806d0"), None);
    assert_eq!(parse_subscription_id("0C9FAE203A3C806D"), None);
    assert_eq!(parse_subscription_id("0c9fae203a3c806g"), None);
    assert_eq!(parse_subscription_id("0c9fae203a3c80 d"), None);
}

#[test]
fn hash_of_filter_texts_matches_hash_of_filters() {
    let texts = vec![String::from("{\"kinds\":[0]}")];
    assert_eq!(hash_filter_texts(&texts), 0x0c9f_ae20_3a3c_806d);
    let filters = vec![Filter::new().kind(Kind::Metadata)];
    assert_eq!(subscription_hash(&filters), 0x0c9f_ae20_3a3c_806d);
}

#[test]
fn hash_depends_on_order_and_on_every_filter() {
    let a = vec![Filter::new().kind(Kind::Metadata), Filter::new().kind(Kind::TextNote)];
    let b = vec![Filter::new().kind(Kind::TextNote), Filter::new().kind(Kind::Metadata)];
    let c = vec![Filter::new().kind(Kind::Metadata)];
    assert_ne!(subscription_hash(&a), subscription_hash(&b));
    assert_ne!(subscription_hash(&a), subscription_hash(&c));
    assert_eq!(subscription_hash(&a), subscription_hash(&a.clone()));
}
