use event_counter::ident::user_name;

#[test]
fn formats_small_and_zero() {
    assert_eq!(user_name(0), "user_0");
    assert_eq!(user_name(7), "user_7");
}

#[test]
fn formats_multi_digit() {
    assert_eq!(user_name(10), "user_10");
    assert_eq!(user_name(907), "user_907");
    assert_eq!(user_name(123456789), "user_123456789");
}

#[test]
fn formats_extremes() {
    assert_eq!(user_name(u64::MAX), format!("user_{}", u64::MAX));
}

#[test]
fn names_are_distinct_over_a_range() {
    let names: Vec<String> = (0..1000).map(user_name).collect();
    let mut sorted = names.clone();
    sorted.sort();
    sorted.dedup();
    assert_eq!(sorted.len(), names.len());
}
