use event_counter::aggregate::Aggregate;
use event_counter::aggregate::IngestError;
use event_counter::aggregate::SCALE;
use event_counter::ident::user_name;

fn scaled(v: f64) -> u64 {
    (v * SCALE as f64) as u64
}

#[test]
fn fresh_store_is_zeroed() {
    let a = Aggregate::new();
    let s = a.snapshot();
    assert_eq!(s.total_count, 0);
    assert_eq!(s.unique_users, 0);
    assert_eq!(s.sum_scaled, 0);
    assert_eq!(s.avg_scaled, 0);
}

#[test]
fn accept_counts_sums_and_averages() {
    let mut a = Aggregate::new();
    a.accept(String::from("alice"), scaled(1.5)).unwrap();
    a.accept(String::from("bob"), scaled(2.25)).unwrap();
    let s = a.snapshot();
    assert_eq!(s.total_count, 2);
    assert_eq!(s.unique_users, 2);
    assert_eq!(s.sum_scaled, 3_750_000);
    assert_eq!(s.avg_scaled, 1_875_000);
}

#[test]
fn average_truncates_toward_zero() {
    let mut a = Aggregate::new();
    a.accept(String::from("u1"), 5).unwrap();
    a.accept(String::from("u2"), 2).unwrap();
    let s = a.snapshot();
    // 7 / 2 == 3 in fixed-point units
    assert_eq!(s.avg_scaled, 3);
}

#[test]
fn duplicate_users_count_once() {
    let mut a = Aggregate::new();
    a.accept(String::from("alice"), 1).unwrap();
    a.accept(String::from("alice"), 2).unwrap();
    a.accept(String::from("bob"), 3).unwrap();
    a.accept(String::from("alice"), 4).unwrap();
    let s = a.snapshot();
    assert_eq!(s.total_count, 4);
    assert_eq!(s.unique_users, 2);
    assert_eq!(s.sum_scaled, 10);
}

#[test]
fn empty_user_id_is_rejected_and_ignored() {
    let mut a = Aggregate::new();
    a.accept(String::from("alice"), 1).unwrap();
    let before = a.snapshot();
    let r = a.accept(String::new(), 99);
    assert_eq!(r, Err(IngestError::InvalidEvent));
    let after = a.snapshot();
    assert_eq!(before, after);
}

#[test]
fn snapshot_is_idempotent() {
    let mut a = Aggregate::new();
    a.accept(String::from("alice"), 17).unwrap();
    a.accept(String::from("bob"), 4).unwrap();
    let s1 = a.snapshot();
    let s2 = a.snapshot();
    assert_eq!(s1, s2);
}

#[test]
fn thousand_distinct_users_unit_values() {
    // one thousand events, user_0..user_999, value 1.0 each
    let mut a = Aggregate::new();
    for i in 0..1000u64 {
        a.accept(user_name(i), scaled(1.0)).unwrap();
    }
    let s = a.snapshot();
    assert_eq!(s.total_count, 1000);
    assert_eq!(s.unique_users, 1000);
    assert_eq!(s.sum_scaled, 1000 * SCALE);
    assert_eq!(s.avg_scaled, SCALE);
    // the real-valued view of the same snapshot, within the fixed-point epsilon
    let sum = s.sum_scaled as f64 / SCALE as f64;
    let avg = sum / s.total_count as f64;
    assert!((sum - 1000.0).abs() <= 1000.0 / SCALE as f64);
    assert!((avg - 1.0).abs() <= 1.0 / SCALE as f64);
}

#[test]
fn scaled_sum_error_stays_below_one_unit_per_event() {
    // values that do not divide the scale evenly: each truncates by less
    // than one fixed-point unit, and the store adds no further error
    let values = [0.1234567_f64, 9.9999999, 3.0000004, 0.0000001];
    let mut a = Aggregate::new();
    let mut exact = 0.0_f64;
    for (i, v) in values.iter().enumerate() {
        a.accept(format!("user_{}", i), scaled(*v)).unwrap();
        exact += v;
    }
    let s = a.snapshot();
    let reported = s.sum_scaled as f64 / SCALE as f64;
    let bound = values.len() as f64 / SCALE as f64;
    assert!((exact - reported).abs() <= bound);
}
