use event_counter::aggregate::Aggregate;
use event_counter::dispatcher::BatchPlan;
use event_counter::dispatcher::Dispatcher;
use event_counter::ident::user_name;
use event_counter::reconcile::reconcile;
use event_counter::reconcile::Reconciliation;

#[test]
fn batch_partition_is_exact() {
    // 103 requests at width 10: eleven batches, the last truncated to 3
    let mut d = Dispatcher::new(103, 10, 100);
    assert_eq!(d.batch_count(), 11);
    let mut plans: Vec<BatchPlan> = Vec::new();
    while d.can_launch() {
        plans.push(d.launch_next());
    }
    assert_eq!(plans.len(), 11);
    let mut covered: u64 = 0;
    for (i, p) in plans.iter().enumerate() {
        assert_eq!(p.index, i as u64);
        assert_eq!(p.user_offset, i as u64 * 10);
        assert_eq!(p.size, if i < 10 { 10 } else { 3 });
        assert_eq!(p.user_offset, covered);
        covered += p.size;
    }
    assert_eq!(covered, 103);
}

#[test]
fn exact_division_has_no_truncated_batch() {
    let mut d = Dispatcher::new(100, 10, 100);
    assert_eq!(d.batch_count(), 10);
    let mut total: u64 = 0;
    while d.can_launch() {
        total += d.launch_next().size;
    }
    assert_eq!(total, 100);
}

#[test]
fn gate_blocks_at_capacity() {
    let mut d = Dispatcher::new(1000, 10, 3);
    assert!(d.can_launch());
    d.launch_next();
    d.launch_next();
    d.launch_next();
    // admission is exhausted although work remains
    assert!(!d.can_launch());
    assert_eq!(d.high_water_mark(), 3);
    d.batch_done();
    assert!(d.can_launch());
    d.launch_next();
    assert_eq!(d.high_water_mark(), 3);
}

#[test]
fn outcome_counters_are_consistent() {
    let mut d = Dispatcher::new(10, 5, 2);
    d.launch_next();
    d.record_attempt(true);
    d.record_attempt(false);
    d.record_attempt(true);
    d.batch_done();
    assert_eq!(d.attempted_count(), 3);
    assert_eq!(d.succeeded_count(), 2);
    assert_eq!(d.failed_count(), 1);
}

#[test]
fn reconcile_reports_each_side() {
    assert_eq!(reconcile(5, 5), Reconciliation::Match);
    assert_eq!(reconcile(7, 5), Reconciliation::LocalHigher { diff: 2 });
    assert_eq!(reconcile(5, 9), Reconciliation::RemoteHigher { diff: 4 });
}

#[test]
fn clean_run_reconciles_exactly() {
    // total_requests = 5000, batch_size = 100, max_concurrent_batches = 10,
    // every attempt succeeds: the dispatcher's local success counter must
    // equal the store's final total, and the admission bound must hold throughout
    let mut d = Dispatcher::new(5000, 100, 10);
    let mut a = Aggregate::new();
    let mut in_flight: Vec<BatchPlan> = Vec::new();
    let mut seen_over_bound = false;
    while !d.is_done() {
        while d.can_launch() {
            in_flight.push(d.launch_next());
            if d.high_water_mark() > 10 {
                seen_over_bound = true;
            }
        }
        let plan = in_flight.pop().unwrap();
        for k in 0..plan.size {
            let user = user_name(plan.user_offset + k);
            let accepted = a.accept(user, 1_000_000).is_ok();
            d.record_attempt(accepted);
        }
        d.batch_done();
    }
    assert!(!seen_over_bound);
    assert_eq!(d.high_water_mark(), 10);
    assert_eq!(d.attempted_count(), 5000);
    assert_eq!(d.failed_count(), 0);
    assert_eq!(d.succeeded_count(), 5000);
    let s = a.snapshot();
    assert_eq!(s.total_count, 5000);
    assert_eq!(s.unique_users, 5000);
    assert_eq!(reconcile(d.succeeded_count(), s.total_count), Reconciliation::Match);
}
