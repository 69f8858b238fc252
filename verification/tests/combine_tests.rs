use shogi_piece_values::combine::{mean_parallel, mean_sequential, sum_parallel, sum_sequential};
use shogi_piece_values::simulation::Simulation;

fn sample(seed: u64) -> Simulation {
    let mut s = Simulation::new();
    for n in 0..8 {
        s.orthogonal_steps[n] = seed * (n as u64 + 1);
        s.diagonal_steps[n] = seed + 10 * n as u64;
    }
    for n in 0..4 {
        s.orthogonal_jumps[n] = seed % (n as u64 + 2);
        s.diagonal_jumps[n] = seed / (n as u64 + 1);
    }
    s.dove = seed;
    s.orthogonal_hook = seed * seed;
    s.full_lion = 4 * seed;
    s.limited_lion = 1;
    s.divisor = 4;
    s
}

#[test]
fn sum_of_nothing_is_the_aggregate_of_nothing() {
    let none: Vec<Simulation> = Vec::new();
    assert_eq!(sum_sequential(&none), Simulation::new());
    assert_eq!(sum_parallel(&none), Simulation::new());
}

#[test]
fn sum_of_one_is_that_one() {
    let one = vec![sample(9)];
    assert_eq!(sum_sequential(&one), sample(9));
    assert_eq!(sum_parallel(&one), sample(9));
}

#[test]
fn sequential_sum_adds_every_aggregate() {
    let items = vec![sample(1), sample(2), sample(3), sample(10)];
    let sum = sum_sequential(&items);
    assert_eq!(sum.divisor, 4);
    assert_eq!(sum.dove, 16);
    assert_eq!(sum.orthogonal_steps[7], 8 * 16);
    assert_eq!(sum.diagonal_steps[3], 16 + 4 * 30);
    assert_eq!(sum.orthogonal_hook, 1 + 4 + 9 + 100);
    assert_eq!(sum.full_lion, 64);
    assert_eq!(sum.limited_lion, 4);
    assert_eq!(sum.orthogonal_range, 0);
    assert_eq!(sum, sample(1).add(sample(2)).add(sample(3)).add(sample(10)));
}

#[test]
fn parallel_sum_adds_every_aggregate() {
    let items = vec![sample(1), sample(2), sample(3), sample(10)];
    let sum = sum_parallel(&items);
    assert_eq!(sum.divisor, 4);
    assert_eq!(sum.dove, 16);
    assert_eq!(sum.orthogonal_hook, 114);
    assert_eq!(sum.limited_lion, 4);
    assert!(items.iter().all(|item| *item != sum));
}

#[test]
fn sequential_and_parallel_sums_agree() {
    for len in [0u64, 1, 2, 3, 7, 64, 1000, 4097] {
        let items: Vec<Simulation> = (0..len).map(|i| sample(i * 37 % 101)).collect();
        let sequential = sum_sequential(&items);
        let parallel = sum_parallel(&items);
        assert_eq!(sequential, parallel);
        assert_eq!(sequential.limited_lion, len);
    }
}

#[test]
fn sum_does_not_depend_on_the_order() {
    let mut items: Vec<Simulation> = (0..50).map(sample).collect();
    let forwards = sum_sequential(&items);
    items.reverse();
    assert_eq!(sum_sequential(&items), forwards);
    assert_eq!(sum_parallel(&items), forwards);
    items.swap(3, 40);
    assert_eq!(sum_sequential(&items), forwards);
}

#[test]
fn sum_in_two_parts_is_the_sum_of_the_whole() {
    let items: Vec<Simulation> = (0..30).map(sample).collect();
    let whole = sum_sequential(&items);
    for cut in [0, 1, 15, 29, 30] {
        let front = items[..cut].to_vec();
        let back = items[cut..].to_vec();
        assert_eq!(sum_sequential(&front).add(sum_sequential(&back)), whole);
        assert_eq!(sum_parallel(&front).add(sum_parallel(&back)), whole);
    }
}

#[test]
fn sequential_sum_takes_aggregates_over_any_divisors() {
    let mut half = Simulation::new();
    half.dove = 1;
    half.divisor = 2;
    let mut third = Simulation::new();
    third.dove = 1;
    third.knight_jump = 2;
    third.divisor = 3;
    let sum = sum_sequential(&vec![half, third, third]);
    assert_eq!(sum.divisor, 18);
    assert_eq!(sum.dove, 9 + 6 + 6);
    assert_eq!(sum.knight_jump, 12 + 12);
    assert_eq!(sum, half.add(third).add(third));
}

#[test]
fn mean_divides_the_total_once_by_the_number() {
    let items = vec![sample(1), sample(2), sample(3), sample(10)];
    let mean = mean_sequential(&items);
    assert_eq!(mean.divisor, 16);
    assert_eq!(mean.dove, 16);
    assert_eq!(mean.orthogonal_hook, 114);
    assert_eq!(mean, sum_sequential(&items).div(4));
    assert_eq!(mean_parallel(&items), mean);
}

#[test]
fn mean_of_nothing_is_nothing_over_nothing() {
    let none: Vec<Simulation> = Vec::new();
    let mut expected = Simulation::new();
    expected.divisor = 0;
    assert_eq!(mean_sequential(&none), expected);
    assert_eq!(mean_parallel(&none), expected);
}

#[test]
fn sequential_and_parallel_means_agree() {
    for len in [1u64, 2, 3, 16, 333, 2048] {
        let items: Vec<Simulation> = (0..len).map(|i| sample(i * 53 % 97)).collect();
        let sequential = mean_sequential(&items);
        assert_eq!(sequential, mean_parallel(&items));
        assert_eq!(sequential.divisor, 4 * len);
        assert_eq!(sequential.limited_lion, len);
    }
}
