use fea_engine::conjugacy::bracket;
use fea_engine::conjugacy::cumulative_sum;
use fea_engine::conjugacy::force_monotone;
use fea_engine::conjugacy::interpolate;
use fea_engine::conjugacy::phi_of_theta_table;

#[test]
fn cumulative_sum_accumulates_the_steps() {
    assert_eq!(cumulative_sum(&vec![1, 2, 3]), vec![1, 3, 6]);
    assert_eq!(cumulative_sum(&vec![5]), vec![5]);
    assert_eq!(cumulative_sum(&Vec::new()), Vec::<u64>::new());
    assert_eq!(cumulative_sum(&vec![0, 0, 7]), vec![0, 0, 7]);
}

#[test]
fn force_monotone_lifts_regressions_and_clamps() {
    assert_eq!(force_monotone(&vec![5, 3, 7, 100], 50), vec![0, 3, 7, 50]);
    assert_eq!(force_monotone(&vec![0, 10, 5, 20], 100), vec![0, 10, 10, 20]);
    assert_eq!(force_monotone(&vec![9], 5), vec![0]);
    assert_eq!(force_monotone(&Vec::new(), 5), Vec::<u64>::new());
    // After a clamp the table stays at the cap.
    assert_eq!(force_monotone(&vec![0, 60, 10, 70], 50), vec![0, 50, 50, 50]);
}

#[test]
fn bracket_finds_the_enclosing_interval() {
    let tab: Vec<u64> = vec![0, 10, 20, 30];
    assert_eq!(bracket(&tab, 15), 1);
    assert_eq!(bracket(&tab, 5), 0);
    assert_eq!(bracket(&tab, 0), 0);
    assert_eq!(bracket(&tab, 30), 2);
    assert_eq!(bracket(&tab, 100), 2);
}

#[test]
fn interpolation_matches_the_fractional_position() {
    assert_eq!(interpolate(1, 10, 20, 15, 1000), 1500);
    assert_eq!(interpolate(1, 10, 20, 10, 1000), 1000);
    assert_eq!(interpolate(1, 10, 20, 20, 1000), 2000);
    assert_eq!(interpolate(3, 10, 20, 99, 1000), 4000);
    assert_eq!(interpolate(2, 10, 10, 15, 1000), 2000);
    assert_eq!(interpolate(0, 0, 4, 1, 1000), 250);
}

#[test]
fn inverse_angle_map_is_monotone_and_capped() {
    let s_cam: Vec<u64> = vec![10, 20, 30, 40];
    let s_ring: Vec<u64> = vec![10, 20, 30, 40];
    let phi = phi_of_theta_table(&s_cam, &s_ring, 1000, 3000);
    assert_eq!(phi, vec![0, 1000, 2000, 3000]);
    // A mismatched ring table still yields a monotone map under the cap.
    let ring2: Vec<u64> = vec![5, 25, 26, 50];
    let phi2 = phi_of_theta_table(&s_cam, &ring2, 1000, 2500);
    assert_eq!(phi2[0], 0);
    assert_eq!(phi2.len(), 4);
    for i in 1..phi2.len() {
        assert!(phi2[i - 1] <= phi2[i]);
        assert!(phi2[i] <= 2500);
    }
}

#[test]
fn repeated_inversion_is_bit_identical() {
    let s_cam: Vec<u64> = vec![7, 19, 33, 52, 70];
    let s_ring: Vec<u64> = vec![5, 21, 30, 55, 68];
    let first = phi_of_theta_table(&s_cam, &s_ring, 500, 2000);
    let second = phi_of_theta_table(&s_cam, &s_ring, 500, 2000);
    assert_eq!(first, second);
}
