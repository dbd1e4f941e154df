use fea_engine::diagnostics::engine_order_frequencies_mhz;
use fea_engine::diagnostics::mean_and_max;
use fea_engine::diagnostics::min_of;
use fea_engine::diagnostics::scan_violations;
use fea_engine::diagnostics::suggested_inflation;
use fea_engine::diagnostics::thickness2_table;

#[test]
fn violation_scan_reports_maximal_runs() {
    assert_eq!(scan_violations(&vec![1, -1, -2, 3, -4]), vec![(1, 3), (4, 4)]);
    assert_eq!(scan_violations(&vec![-1, 2]), vec![(0, 1)]);
    assert_eq!(scan_violations(&vec![-1, -2, -3]), vec![(0, 2)]);
    assert_eq!(scan_violations(&vec![3, 2, 1]), Vec::<(usize, usize)>::new());
    assert_eq!(scan_violations(&vec![0, -5, 0]), vec![(1, 2)]);
    assert_eq!(scan_violations(&Vec::new()), Vec::<(usize, usize)>::new());
}

#[test]
fn minimum_of_samples() {
    assert_eq!(min_of(&vec![3, -7, 2]), -7);
    assert_eq!(min_of(&vec![5]), 5);
    assert_eq!(min_of(&vec![-1, -1, 0]), -1);
}

#[test]
fn thickness_proxy_compares_periodic_neighbors() {
    assert_eq!(thickness2_table(&vec![10, 20, 10, 20]), vec![-20, 20, -20, 20]);
    assert_eq!(thickness2_table(&vec![7, 7, 7]), vec![0, 0, 0]);
    // The first and last samples wrap around the grid.
    assert_eq!(thickness2_table(&vec![10, 0, 0, 0]), vec![20, -10, 0, -10]);
}

#[test]
fn engine_orders_scale_the_rotation_frequency() {
    // 3000 revolutions per minute is 50 Hz.
    assert_eq!(
        engine_order_frequencies_mhz(3000),
        vec![50000, 100000, 150000, 200000, 250000]
    );
    let five = engine_order_frequencies_mhz(1);
    assert_eq!(five.len(), 5);
    for f in five {
        assert!(f > 0);
    }
}

#[test]
fn inflation_is_suggested_only_for_negative_clearance() {
    assert_eq!(suggested_inflation(-5, 10), 15);
    assert_eq!(suggested_inflation(0, 10), 0);
    assert_eq!(suggested_inflation(3, 10), 0);
    assert_eq!(suggested_inflation(-1, 0), 1);
}

#[test]
fn mean_never_exceeds_max() {
    assert_eq!(mean_and_max(&vec![1, 5, 3]), (3, 5));
    assert_eq!(mean_and_max(&vec![4]), (4, 4));
    assert_eq!(mean_and_max(&vec![0, 0, 9]), (3, 9));
    let (mean, max) = mean_and_max(&vec![10, 2, 7, 7]);
    assert!(mean <= max);
    assert_eq!(mean, 6);
    assert_eq!(max, 10);
}
