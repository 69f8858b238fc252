use rand::rngs::StdRng;
use rand::SeedableRng;
use shogi_piece_values::driver::{gather, MAX_TRIALS};
use shogi_piece_values::grid::Grid;
use shogi_piece_values::scan::{scan, BOARD_MAX};
use shogi_piece_values::simulation::Simulation;
use shogi_piece_values::{simulate, simulate_n, simulate_n_par, simulate_with};

fn largest(s: &Simulation) -> u64 {
    let mut most = 0;
    for n in 0..8 {
        most = most.max(s.orthogonal_steps[n]).max(s.diagonal_steps[n]);
    }
    for n in 0..4 {
        most = most.max(s.orthogonal_jumps[n]).max(s.diagonal_jumps[n]);
    }
    for total in [
        s.dove,
        s.orthogonal_range,
        s.diagonal_range,
        s.knight_jump,
        s.orthogonal_flying_jump,
        s.diagonal_flying_jump,
        s.orthogonal_flying_capture,
        s.diagonal_flying_capture,
        s.orthogonal_jump_then_range,
        s.diagonal_jump_then_range,
        s.orthogonal_hook,
        s.diagonal_hook,
        s.full_lion,
        s.limited_lion,
    ] {
        most = most.max(total);
    }
    most
}

#[test]
fn most_trials_still_fit() {
    assert_eq!(MAX_TRIALS, 1_000_000_000_000);
    assert!((MAX_TRIALS as u128) * (BOARD_MAX as u128) <= u64::MAX as u128);
}

#[test]
fn trial_is_the_scan_of_the_board_drawn() {
    for seed in [0u64, 1, 2, 3, 1000] {
        let trial = simulate_with(&mut StdRng::seed_from_u64(seed)).unwrap();
        let grid = Grid::random(&mut StdRng::seed_from_u64(seed)).unwrap();
        assert_eq!(trial, scan(&grid));
        assert_eq!(trial.divisor, 4);
    }
}

#[test]
fn trial_is_settled_by_the_seed() {
    let first = simulate_with(&mut StdRng::seed_from_u64(42)).unwrap();
    let second = simulate_with(&mut StdRng::seed_from_u64(42)).unwrap();
    let other = simulate_with(&mut StdRng::seed_from_u64(43)).unwrap();
    assert_eq!(first, second);
    assert_ne!(first, other);
}

#[test]
fn trial_on_a_crowded_board_reaches_less_than_on_an_empty_one() {
    let empty = scan(&Grid::new());
    let trial = simulate().unwrap();
    assert_eq!(trial.divisor, 4);
    assert!(trial.pawn() > 0);
    assert!(trial.pawn() < empty.pawn());
    assert!(trial.orthogonal_range < empty.orthogonal_range);
    assert!(trial.orthogonal_steps[1] <= trial.orthogonal_steps[2]);
    assert!(trial.orthogonal_steps[7] <= trial.orthogonal_range);
    assert!(largest(&trial) <= BOARD_MAX);
}

#[test]
fn mean_of_no_trials_is_nothing_over_nothing() {
    let mut expected = Simulation::new();
    expected.divisor = 0;
    assert_eq!(simulate_n(0), Some(expected));
    assert_eq!(simulate_n_par(0), Some(expected));
}

#[test]
fn mean_of_one_trial_is_a_trial() {
    let mean = simulate_n(1).unwrap();
    assert_eq!(mean.divisor, 4);
    assert!(mean.pawn() > 0 && mean.pawn() < 4624);
    assert!(largest(&mean) <= BOARD_MAX);
    let par = simulate_n_par(1).unwrap();
    assert_eq!(par.divisor, 4);
    assert!(par.pawn() > 0 && par.pawn() < 4624);
}

#[test]
fn mean_of_trials_is_their_total_over_their_number() {
    for n in [2usize, 5, 12] {
        let mean = simulate_n(n).unwrap();
        assert_eq!(mean.divisor, 4 * n as u64);
        assert!(mean.pawn() > 0 && mean.pawn() < 4624 * n as u64);
        assert!(largest(&mean) <= n as u64 * BOARD_MAX);
        assert!(mean.orthogonal_steps[0] == 0);
    }
}

#[test]
fn parallel_mean_of_trials_is_their_total_over_their_number() {
    for n in [2usize, 5, 40] {
        let mean = simulate_n_par(n).unwrap();
        assert_eq!(mean.divisor, 4 * n as u64);
        assert!(mean.pawn() > 0 && mean.pawn() < 4624 * n as u64);
        assert!(largest(&mean) <= n as u64 * BOARD_MAX);
        assert!(mean.orthogonal_steps[0] == 0);
    }
}

#[test]
fn sequential_and_parallel_means_are_close() {
    let n = 60usize;
    let sequential = simulate_n(n).unwrap();
    let parallel = simulate_n_par(n).unwrap();
    assert_eq!(sequential.divisor, parallel.divisor);
    let a = sequential.orthogonal_range as i64;
    let b = parallel.orthogonal_range as i64;
    assert!((a - b).abs() * 2 < a);
}

#[test]
fn gather_wants_every_trial() {
    let a = simulate_with(&mut StdRng::seed_from_u64(1)).unwrap();
    let b = simulate_with(&mut StdRng::seed_from_u64(2)).unwrap();
    assert_eq!(gather(&vec![Some(a), Some(b)]), Some(vec![a, b]));
    assert_eq!(gather(&vec![Some(b), Some(a), Some(a)]), Some(vec![b, a, a]));
    assert_eq!(gather(&vec![Some(a), None, Some(b)]), None);
    assert_eq!(gather(&vec![None]), None);
    assert_eq!(gather(&Vec::new()), Some(Vec::new()));
}
