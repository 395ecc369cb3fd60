use super_massive_io::queue::work::{DIter, Unit};
use rand_xoshiro::rand_core::{RngCore, SeedableRng};
use rand_xoshiro::Xoroshiro128PlusPlus;

const LOWER_BOUND: u64 = 0;
const UPPER_BOUND: u64 = 3 /*rows*/ * 4 /*columns*/;
const ITERATION_MAX: u64 = 12;
const RNG_SEED: u64 = 0xDEADBEEF;

/// Drains an iterator into the yielded (value, iteration) pairs.
fn drain<F: Fn(u64, Option<u64>, u64, u64) -> Option<u64>>(mut work: DIter<F>) -> Vec<(u64, u64)> {
    let mut yielded: Vec<(u64, u64)> = Vec::new();
    while let Some(item) = work.next() {
        yielded.push(item);
    }
    yielded
}

#[test]
/// iteration is a purely monotonic and sequential value.
fn queue_iteration_is_monotonic_and_sequential() {
    let sequenial_map = |_l, current: Option<u64>, _u, _i| {
        let next = if current.is_some() { Some(current.unwrap() + 1) } else { None };
        next
    };
    let work = DIter::new(LOWER_BOUND, UPPER_BOUND, ITERATION_MAX, sequenial_map);

    let yielded: Vec<(u64, u64)> = drain(work);
    let expected: Vec<(u64, u64)> = (0..12).into_iter().map(|i| (i, i)).collect();

    assert_eq!(yielded, expected);
}

#[test]
/// iteration increments on each invocation of the `step` function.
fn iteration_is_of_map() {
    current_is_static();
    current_is_out_of_bounds();
    current_bounded_to_lower_half();
    only_odd_values();
    only_even_values();
    random_bounded();
}

fn current_is_static() {
    let static_step = |_l, current: Option<u64>, _u, _i| current;
    let work = DIter::new(LOWER_BOUND, UPPER_BOUND, ITERATION_MAX, static_step);

    let yielded: Vec<(u64, u64)> = drain(work);
    let expected: Vec<(u64, u64)> = (0..12).into_iter().map(|i| (0, i)).collect();

    assert_eq!(yielded, expected);
}

fn current_is_out_of_bounds() {
    // Check _liveness_ is independent of _bounds_: UPPER_BOUND is exclusive.
    let null_step = |_l, _c: Option<u64>, _u, _i| Some(UPPER_BOUND);
    let work = DIter::new(LOWER_BOUND, UPPER_BOUND, ITERATION_MAX, null_step);

    let yielded: Vec<(u64, u64)> = drain(work);
    let expected: Vec<(u64, u64)> = vec![(0, 0)];

    assert_eq!(yielded, expected);
}

fn current_bounded_to_lower_half() {
    let iteration_bounds_exclusive: u64 = ITERATION_MAX / 2;

    let next = move |_l, c: Option<u64>, _u, i| {
        if c.is_some() && i < iteration_bounds_exclusive { Some(i) } else { None }
    };

    let work = DIter::new(LOWER_BOUND, UPPER_BOUND, ITERATION_MAX, next);

    let expected: Vec<u64> = (0..12).into_iter().filter(|x| x < &iteration_bounds_exclusive).collect();
    let yielded: Vec<u64> = drain(work).into_iter().map(|(v, _i)| v).collect();
    assert_eq!(yielded, expected);
}

fn only_odd_values() {
    let next = move |_l, _c: Option<u64>, _u, i: u64| {
        if i % 2 == 1 { Some(i) } else { None }
    };

    // Must provide valid first/initial
    let work = DIter::new_with_state((1, 1), LOWER_BOUND..UPPER_BOUND, ITERATION_MAX, next);

    let expected: Vec<u64> = (0..12).into_iter().filter(|x| x % 2 == 1).collect();
    let yielded: Vec<u64> = drain(work).into_iter().map(|(v, _i)| v).collect();

    assert_eq!(yielded, expected);
}

fn only_even_values() {
    let next = move |_l, _c: Option<u64>, _u, i: u64| {
        if i % 2 == 0 { Some(i) } else { None }
    };

    let work = DIter::new_with_state((0, 0), LOWER_BOUND..UPPER_BOUND, ITERATION_MAX, next);

    let expected: Vec<u64> = (0..12).into_iter().filter(|x| x % 2 == 0).collect();
    let yielded: Vec<u64> = drain(work).into_iter().map(|(v, _i)| v).collect();

    assert_eq!(yielded, expected);
}

fn random_bounded() {
    let random_bounded_map = move |_l, _c: Option<u64>, upperbound: u64, i: u64| {
        let next = Xoroshiro128PlusPlus::seed_from_u64(RNG_SEED + i).next_u64() % upperbound;
        Some(next)
    };

    let first_value: u64 = random_bounded_map(0, None, UPPER_BOUND, 0).unwrap();

    // Provide initial state because default initial state (0,0) is not valid for
    // random iterator.
    let work = DIter::new_with_state((first_value, 0), LOWER_BOUND..UPPER_BOUND.clone(), ITERATION_MAX, random_bounded_map);

    let expected: Vec<(u64, u64)> = (LOWER_BOUND as usize..UPPER_BOUND as usize)
        .into_iter()
        .map(|i| {
            let next = Xoroshiro128PlusPlus::seed_from_u64(RNG_SEED + i as u64).next_u64() % UPPER_BOUND;
            (next, i as u64)
        })
        .collect();

    let yielded: Vec<(u64, u64)> = drain(work);

    assert_eq!(yielded, expected);
}

#[test]
fn exhausted_iterator_stays_exhausted() {
    // The step keeps producing in-range values, but only while live.
    let step = |_l, _c: Option<u64>, _u, _i| Some(1);
    let mut work = DIter::new(0, 10, 3, step);
    assert_eq!(work.next(), Some((0, 0)));
    assert_eq!(work.next(), Some((1, 1)));
    assert_eq!(work.next(), Some((1, 2)));
    assert_eq!(work.next(), None);
    assert_eq!(work.next(), None);
    assert_eq!(work.next(), None);
}

#[test]
fn several_steps_per_yield() {
    // Only multiples of three are in range; iteration counts every step.
    let step = |_l, _c: Option<u64>, _u, i: u64| Some(i);
    let mut work = DIter::new_with_state((3, 3), 3..4, 10, step);
    assert_eq!(work.next(), Some((3, 3)));
    assert_eq!(work.next(), None);
}

#[test]
fn unit_conversions() {
    let u: Unit = Unit::from(1027u64);
    let back: u64 = u.into();
    assert_eq!(back, 1027);
    let a: Unit = 3u64.into();
    let b: Unit = 515u64.into();
    assert!(a < b);
    assert!(b > a);
    assert!(a == Unit::from(3u64));
    assert_eq!(a.partial_cmp(&Unit::from(3u64)), Some(std::cmp::Ordering::Equal));
}
