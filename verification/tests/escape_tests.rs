use mandelbrot_viewer::escape::{evaluate, EscapeResult};
use std::cell::{Cell, RefCell};

const SEED: (f64, f64) = (0.01, 0.01);

fn product(a: (f64, f64), b: (f64, f64)) -> (f64, f64) {
    (a.0 * b.0 - a.1 * b.1, a.0 * b.1 + a.1 * b.0)
}

fn sum(a: (f64, f64), b: (f64, f64)) -> (f64, f64) {
    (a.0 + b.0, a.1 + b.1)
}

fn magnitude(z: &(f64, f64)) -> f64 {
    (z.0 * z.0 + z.1 * z.1).sqrt()
}

fn escape_time(c: (f64, f64), max_iterations: u32, threshold: f64) -> EscapeResult {
    evaluate(c, SEED, max_iterations, &product, &sum, &|z: &(f64, f64)| magnitude(z) < threshold)
}

/// The orbit `z -> z + 1` from zero, stable while under `leaves_at`; counts the steps.
fn count_up(cap: u32, leaves_at: u64, steps: &Cell<u64>) -> EscapeResult {
    evaluate(
        1u64,
        0u64,
        cap,
        &|a: u64, _b: u64| {
            steps.set(steps.get() + 1);
            a
        },
        &|a: u64, c: u64| a + c,
        &|z: &u64| *z < leaves_at,
    )
}

#[test]
fn origin_is_bounded() {
    assert_eq!(escape_time((0.0, 0.0), 10, 2.0), EscapeResult::Bounded);
    assert_eq!(escape_time((0.0, 0.0), 100, 2.0), EscapeResult::Bounded);
    assert_eq!(escape_time((0.0, 0.0), 0, 2.0), EscapeResult::Bounded);
}

#[test]
fn far_corner_escapes_in_one_step() {
    assert_eq!(
        escape_time((-2.0, -2.0), 10, 2.0),
        EscapeResult::Escaped { iterations: 1, max_iterations: 10 }
    );
}

#[test]
fn escape_counts_the_steps() {
    // With c = 1 the orbit from near zero is about 1, 2: it leaves at the second step.
    assert_eq!(
        escape_time((1.0, 0.0), 100, 2.0),
        EscapeResult::Escaped { iterations: 2, max_iterations: 100 }
    );
    // With c = 0.5: 0.5, 0.75, 1.06, 1.63, 3.15.
    assert_eq!(
        escape_time((0.5, 0.0), 100, 2.0),
        EscapeResult::Escaped { iterations: 5, max_iterations: 100 }
    );
}

#[test]
fn minus_one_is_bounded() {
    assert_eq!(escape_time((-1.0, 0.0), 100, 2.0), EscapeResult::Bounded);
}

#[test]
fn step_is_the_square_plus_the_constant() {
    let squared = RefCell::new(Vec::new());
    let added = RefCell::new(Vec::new());
    let tested = RefCell::new(Vec::new());
    let result = evaluate(
        2u32,
        1u32,
        10,
        &|a: u32, b: u32| {
            squared.borrow_mut().push((a, b));
            a * b
        },
        &|a: u32, b: u32| {
            added.borrow_mut().push((a, b));
            a + b
        },
        &|z: &u32| {
            tested.borrow_mut().push(*z);
            *z < 50
        },
    );
    assert_eq!(result, EscapeResult::Escaped { iterations: 3, max_iterations: 10 });
    assert_eq!(*tested.borrow(), vec![1, 3, 11, 123]);
    assert_eq!(*squared.borrow(), vec![(1, 1), (3, 3), (11, 11)]);
    assert_eq!(*added.borrow(), vec![(1, 2), (9, 2), (121, 2)]);
}

#[test]
fn unstable_seed_escapes_at_once() {
    let steps = Cell::new(0u64);
    assert_eq!(
        count_up(10, 0, &steps),
        EscapeResult::Escaped { iterations: 0, max_iterations: 10 }
    );
    assert_eq!(steps.get(), 0);
}

#[test]
fn bounded_takes_one_step_more_than_the_cap() {
    for cap in [0u32, 1, 10, 1000] {
        let steps = Cell::new(0u64);
        assert_eq!(count_up(cap, u64::MAX, &steps), EscapeResult::Bounded);
        assert_eq!(steps.get(), cap as u64 + 1);
    }
}

#[test]
fn never_more_steps_than_the_cap_and_one() {
    for cap in 0u32..20 {
        for leaves_at in 0u64..40 {
            let steps = Cell::new(0u64);
            let result = count_up(cap, leaves_at, &steps);
            assert!(steps.get() <= cap as u64 + 1);
            if leaves_at <= cap as u64 + 1 {
                assert_eq!(
                    result,
                    EscapeResult::Escaped { iterations: leaves_at, max_iterations: cap }
                );
                assert_eq!(steps.get(), leaves_at);
            } else {
                assert_eq!(result, EscapeResult::Bounded);
                assert_eq!(steps.get(), cap as u64 + 1);
            }
        }
    }
}

#[test]
fn escape_at_the_last_step_counts_as_escape() {
    // The orbit leaves exactly when the cap is passed: the escape wins.
    let steps = Cell::new(0u64);
    assert_eq!(count_up(3, 4, &steps), EscapeResult::Escaped { iterations: 4, max_iterations: 3 });
    assert_eq!(count_up(3, 5, &steps), EscapeResult::Bounded);
}

#[test]
fn largest_cap_is_accepted() {
    let steps = Cell::new(0u64);
    assert_eq!(
        count_up(u32::MAX, 3, &steps),
        EscapeResult::Escaped { iterations: 3, max_iterations: u32::MAX }
    );
}
