use quadrature::{IntegrationWorkspace, Subinterval};

fn interval(a: i64, b: i64, result: i64, error: u64, level: usize) -> Subinterval {
    Subinterval { a, b, result, error, level }
}

#[test]
fn new_refuses_a_capacity_of_zero() {
    assert!(IntegrationWorkspace::new(0).is_none());
}

#[test]
fn new_workspace_is_empty() {
    let ws = IntegrationWorkspace::new(8).unwrap();
    assert_eq!(ws.limit(), 8);
    assert_eq!(ws.size(), 0);
    assert_eq!(ws.nrmax(), 0);
    assert_eq!(ws.i(), 0);
    assert_eq!(ws.maximum_level(), 0);
    assert!(!ws.is_full());
    assert_eq!(ws.total_error(), 0);
    assert_eq!(ws.total_result(), 0);
}

#[test]
fn reset_then_worst_returns_the_seeded_interval() {
    let mut ws = IntegrationWorkspace::new(4).unwrap();
    ws.reset(-3, 17);
    assert_eq!(ws.size(), 1);
    assert_eq!(ws.worst(), interval(-3, 17, 0, 0, 0));
    assert_eq!(ws.total_error(), 0);
    assert_eq!(ws.total_result(), 0);
    assert_eq!(ws.maximum_level(), 0);
}

#[test]
fn reset_is_idempotent() {
    let mut ws = IntegrationWorkspace::new(4).unwrap();
    ws.reset(0, 10);
    ws.set_initial_result(5, 9);
    ws.update(interval(0, 5, 2, 3, 1), interval(5, 10, 3, 4, 1));
    ws.reset(1, 2);
    let once = (ws.size(), ws.worst(), ws.total_error(), ws.total_result(), ws.maximum_level());
    ws.reset(1, 2);
    let twice = (ws.size(), ws.worst(), ws.total_error(), ws.total_result(), ws.maximum_level());
    assert_eq!(once, twice);
    assert_eq!(once, (1, interval(1, 2, 0, 0, 0), 0, 0, 0));
}

#[test]
fn set_initial_result_records_the_first_estimates() {
    let mut ws = IntegrationWorkspace::new(4).unwrap();
    ws.reset(0, 10);
    ws.set_initial_result(-40, 7);
    assert_eq!(ws.worst(), interval(0, 10, -40, 7, 0));
    assert_eq!(ws.total_error(), 7);
    assert_eq!(ws.total_result(), -40);
    assert_eq!(ws.size(), 1);
}

#[test]
fn update_replaces_the_worst_interval_by_its_children() {
    let mut ws = IntegrationWorkspace::new(4).unwrap();
    ws.reset(0, 10);
    ws.set_initial_result(100, 50);
    let out = ws.update(interval(0, 5, 60, 10, 1), interval(5, 10, 45, 30, 1));
    assert_eq!(out, None);
    assert_eq!(ws.size(), 2);
    assert_eq!(ws.worst(), interval(5, 10, 45, 30, 1));
    assert_eq!(ws.least(), interval(0, 5, 60, 10, 1));
    assert_eq!(ws.total_error(), 40);
    assert_eq!(ws.total_result(), 105);
    assert_eq!(ws.maximum_level(), 1);
    assert_eq!(ws.i(), 1);
}

#[test]
fn totals_equal_the_sums_over_the_active_intervals() {
    let mut ws = IntegrationWorkspace::new(5).unwrap();
    ws.reset(0, 64);
    ws.set_initial_result(1000, 900);
    let mut seed: u64 = 12345;
    for step in 0..40 {
        let w = ws.worst();
        let mid = w.a + (w.b - w.a) / 2;
        seed = seed.wrapping_mul(6364136223846793005).wrapping_add(1442695040888963407);
        let e1 = (seed >> 33) % 1000;
        seed = seed.wrapping_mul(6364136223846793005).wrapping_add(1442695040888963407);
        let e2 = (seed >> 33) % 1000;
        let r1 = (seed % 200) as i64 - 100;
        let r2 = ((seed >> 8) % 200) as i64 - 100;
        ws.update(interval(w.a, mid, r1, e1, w.level + 1), interval(mid, w.b, r2, e2, w.level + 1));
        let mut error: u128 = 0;
        let mut result: i128 = 0;
        for k in 0..ws.size() {
            error += ws.interval(k).error as u128;
            result += ws.interval(k).result as i128;
        }
        assert_eq!(ws.total_error(), error, "step {}", step);
        assert_eq!(ws.total_result(), result, "step {}", step);
        assert!(ws.size() <= ws.limit());
        for k in 1..ws.size() {
            assert!(ws.interval(k - 1).error <= ws.interval(k).error);
        }
        if step % 7 == 6 {
            ws.reset(0, 64);
            ws.set_initial_result(10, 10);
        }
    }
}

#[test]
fn the_interval_that_entered_last_wins_a_tie() {
    let mut ws = IntegrationWorkspace::new(4).unwrap();
    ws.reset(0, 8);
    ws.set_initial_result(0, 9);
    ws.update(interval(0, 4, 1, 5, 1), interval(4, 8, 2, 5, 1));
    assert_eq!(ws.worst(), interval(4, 8, 2, 5, 1));
    ws.update(interval(4, 6, 3, 5, 2), interval(6, 8, 4, 1, 2));
    assert_eq!(ws.worst(), interval(4, 6, 3, 5, 2));
    assert_eq!(ws.interval(0), interval(6, 8, 4, 1, 2));
    assert_eq!(ws.interval(1), interval(0, 4, 1, 5, 1));
}

#[test]
fn a_full_workspace_evicts_the_interval_with_the_smallest_error() {
    let mut ws = IntegrationWorkspace::new(2).unwrap();
    ws.reset(0, 8);
    ws.set_initial_result(0, 100);
    assert_eq!(ws.update(interval(0, 4, 1, 40, 1), interval(4, 8, 2, 60, 1)), None);
    assert!(ws.is_full());
    let out = ws.update(interval(4, 6, 3, 50, 2), interval(6, 8, 4, 45, 2));
    assert_eq!(out, Some(interval(0, 4, 1, 40, 1)));
    assert_eq!(ws.size(), 2);
    assert_eq!(ws.total_error(), 95);
    assert_eq!(ws.total_result(), 7);
    assert_eq!(ws.least(), interval(6, 8, 4, 45, 2));
    assert_eq!(ws.worst(), interval(4, 6, 3, 50, 2));
}

#[test]
fn a_child_with_the_smallest_error_is_the_one_evicted() {
    let mut ws = IntegrationWorkspace::new(2).unwrap();
    ws.reset(0, 8);
    ws.set_initial_result(0, 100);
    ws.update(interval(0, 4, 1, 40, 1), interval(4, 8, 2, 60, 1));
    let out = ws.update(interval(4, 6, 3, 50, 2), interval(6, 8, 4, 5, 2));
    assert_eq!(out, Some(interval(6, 8, 4, 5, 2)));
    assert_eq!(ws.total_error(), 90);
    assert_eq!(ws.total_result(), 4);
}

#[test]
fn a_workspace_of_one_keeps_the_larger_child() {
    let mut ws = IntegrationWorkspace::new(1).unwrap();
    ws.reset(0, 8);
    ws.set_initial_result(10, 100);
    assert!(ws.is_full());
    let out = ws.update(interval(0, 4, 1, 40, 1), interval(4, 8, 2, 60, 1));
    assert_eq!(out, Some(interval(0, 4, 1, 40, 1)));
    assert_eq!(ws.size(), 1);
    assert_eq!(ws.worst(), interval(4, 8, 2, 60, 1));
    assert_eq!(ws.total_error(), 60);
}

#[test]
fn insert_places_by_error_and_evicts_when_full() {
    let mut ws = IntegrationWorkspace::new(3).unwrap();
    ws.clear();
    assert_eq!(ws.insert(interval(0, 1, 1, 20, 0)), None);
    assert_eq!(ws.insert(interval(1, 2, 2, 10, 0)), None);
    assert_eq!(ws.insert(interval(2, 3, 3, 30, 0)), None);
    assert_eq!(ws.interval(0).error, 10);
    assert_eq!(ws.interval(1).error, 20);
    assert_eq!(ws.interval(2).error, 30);
    assert_eq!(ws.insert(interval(3, 4, 4, 5, 0)), Some(interval(3, 4, 4, 5, 0)));
    assert_eq!(ws.insert(interval(3, 4, 4, 25, 2)), Some(interval(1, 2, 2, 10, 0)));
    assert_eq!(ws.total_error(), 75);
    assert_eq!(ws.total_result(), 8);
    assert_eq!(ws.maximum_level(), 2);
}

#[test]
fn extract_worst_takes_the_largest_error_out() {
    let mut ws = IntegrationWorkspace::new(3).unwrap();
    ws.clear();
    ws.insert(interval(0, 1, 1, 20, 0));
    ws.insert(interval(1, 2, 2, 10, 0));
    assert_eq!(ws.extract_worst(), interval(0, 1, 1, 20, 0));
    assert_eq!(ws.size(), 1);
    assert_eq!(ws.total_error(), 10);
    assert_eq!(ws.total_result(), 2);
    assert_eq!(ws.extract_worst(), interval(1, 2, 2, 10, 0));
    assert_eq!(ws.size(), 0);
    assert_eq!(ws.total_error(), 0);
}

#[test]
fn revise_puts_the_new_estimate_in_its_place() {
    let mut ws = IntegrationWorkspace::new(3).unwrap();
    ws.clear();
    ws.insert(interval(0, 1, 1, 20, 0));
    ws.insert(interval(1, 2, 2, 10, 0));
    ws.revise(interval(0, 1, 5, 3, 1));
    assert_eq!(ws.size(), 2);
    assert_eq!(ws.worst(), interval(1, 2, 2, 10, 0));
    assert_eq!(ws.least(), interval(0, 1, 5, 3, 1));
    assert_eq!(ws.total_error(), 13);
    assert_eq!(ws.total_result(), 7);
    assert_eq!(ws.maximum_level(), 1);
}

#[test]
fn totals_do_not_overflow_with_extreme_estimates() {
    let mut ws = IntegrationWorkspace::new(3).unwrap();
    ws.clear();
    ws.insert(interval(0, 1, i64::MAX, u64::MAX, 0));
    ws.insert(interval(1, 2, i64::MAX, u64::MAX, 0));
    ws.insert(interval(2, 3, i64::MIN, u64::MAX, 0));
    assert_eq!(ws.total_error(), 3 * (u64::MAX as u128));
    assert_eq!(ws.total_result(), 2 * (i64::MAX as i128) + i64::MIN as i128);
    assert_eq!(ws.estimates(), (i64::MAX - 1, u64::MAX));
}

#[test]
fn a_child_that_ties_with_the_smallest_error_is_the_one_discarded() {
    let mut ws = IntegrationWorkspace::new(2).unwrap();
    ws.reset(0, 8);
    ws.set_initial_result(0, 100);
    ws.update(interval(0, 4, 1, 40, 1), interval(4, 8, 2, 60, 1));
    let out = ws.update(interval(4, 6, 3, 50, 2), interval(6, 8, 4, 40, 2));
    assert_eq!(out, Some(interval(6, 8, 4, 40, 2)));
    assert_eq!(ws.interval(0), interval(0, 4, 1, 40, 1));
    assert_eq!(ws.interval(1), interval(4, 6, 3, 50, 2));
    let out = ws.update(interval(4, 5, 5, 40, 3), interval(5, 6, 6, 40, 3));
    assert_eq!(out, Some(interval(5, 6, 6, 40, 3)));
    assert_eq!(ws.interval(0), interval(0, 4, 1, 40, 1));
    assert_eq!(ws.interval(1), interval(4, 5, 5, 40, 3));
    assert_eq!(ws.least(), interval(4, 5, 5, 40, 3));
    assert_eq!(ws.worst(), interval(4, 5, 5, 40, 3));
    assert_eq!(ws.total_error(), 80);
}

#[test]
fn enter_tells_the_places() {
    let mut ws = IntegrationWorkspace::new(3).unwrap();
    ws.clear();
    assert_eq!(ws.enter(interval(0, 1, 1, 20, 0)), (0, None));
    assert_eq!(ws.enter(interval(1, 2, 2, 10, 0)), (0, None));
    assert_eq!(ws.enter(interval(2, 3, 3, 20, 0)), (2, None));
    assert_eq!(ws.rank(9), 0);
    assert_eq!(ws.rank(10), 1);
    assert_eq!(ws.rank(19), 1);
    assert_eq!(ws.rank(20), 3);
    assert_eq!(ws.rank(u64::MAX), 3);
    assert_eq!(ws.enter(interval(3, 4, 4, 10, 0)), (1, Some((1, interval(3, 4, 4, 10, 0)))));
    assert_eq!(ws.enter(interval(3, 4, 4, 15, 0)), (1, Some((0, interval(1, 2, 2, 10, 0)))));
    assert_eq!(ws.enter(interval(3, 4, 4, 30, 0)), (3, Some((0, interval(3, 4, 4, 15, 0)))));
    assert_eq!(ws.enter(interval(4, 5, 5, 20, 0)), (2, Some((2, interval(4, 5, 5, 20, 0)))));
    assert_eq!(ws.interval(0), interval(0, 1, 1, 20, 0));
    assert_eq!(ws.interval(1), interval(2, 3, 3, 20, 0));
    assert_eq!(ws.interval(2), interval(3, 4, 4, 30, 0));
}

#[test]
fn a_workspace_is_made_where_the_memory_could_be_had() {
    let w = IntegrationWorkspace::on_storage(5, Vec::new(), true).unwrap();
    assert_eq!((w.limit(), w.size(), w.maximum_level()), (5, 0, 0));
    assert_eq!((w.total_result(), w.total_error()), (0, 0));
    assert!(IntegrationWorkspace::on_storage(1, Vec::with_capacity(2), true).is_some());
    assert!(IntegrationWorkspace::on_storage(usize::MAX, Vec::new(), true).is_some());
}

#[test]
fn no_workspace_is_made_where_the_memory_could_not_be_had() {
    assert!(IntegrationWorkspace::on_storage(5, Vec::new(), false).is_none());
    assert!(IntegrationWorkspace::on_storage(1, Vec::new(), false).is_none());
}

#[test]
fn no_workspace_is_made_for_no_interval_or_on_storage_in_use() {
    assert!(IntegrationWorkspace::on_storage(0, Vec::new(), true).is_none());
    assert!(IntegrationWorkspace::on_storage(0, Vec::new(), false).is_none());
    let one = Subinterval { a: 0, b: 4, result: 1, error: 1, level: 0 };
    assert!(IntegrationWorkspace::on_storage(5, vec![one], true).is_none());
}

#[test]
fn new_gives_the_workspace_that_on_storage_gives() {
    for n in [1usize, 2, 17, 1000] {
        let w = IntegrationWorkspace::new(n).unwrap();
        let v = IntegrationWorkspace::on_storage(n, Vec::new(), true).unwrap();
        assert_eq!((w.limit(), w.size(), w.maximum_level()), (v.limit(), v.size(), v.maximum_level()));
        assert_eq!((w.total_result(), w.total_error()), (v.total_result(), v.total_error()));
    }
    assert!(IntegrationWorkspace::new(0).is_none());
    assert!(IntegrationWorkspace::new(usize::MAX).is_none());
}
