use rand::{thread_rng, Rng};
use rust_invaders::formation::Formation;
use rust_invaders::maker::FormationMaker;
use std::cell::Cell;

/// A path that is told apart from others by one number.
fn path(tag: f64) -> Formation {
    Formation {
        start: (tag.to_bits(), (-tag).to_bits()),
        radius: ((80.0 + tag).to_bits(), 100.0f64.to_bits()),
        pivot: ((tag / 4.0).to_bits(), (tag / 3.0).to_bits()),
        speed: 50.0f64.to_bits(),
        angle: (tag / 100.0).to_bits(),
    }
}

/// A random path for a window of the given size, drawn as the game draws it.
fn random_path(width: f64, height: f64) -> Formation {
    let mut rng = thread_rng();
    let w_span = width / 2.0 + 100.0;
    let h_span = height / 2.0 + 100.0;
    let x = if rng.gen_bool(0.5) { w_span } else { -w_span };
    let y: f64 = rng.gen_range(-h_span..h_span);
    let pivot_x: f64 = rng.gen_range(-width / 4.0..width / 4.0);
    let pivot_y: f64 = rng.gen_range(0.0..height / 3.0 - 50.0);
    let rx: f64 = rng.gen_range(80.0..150.0);
    Formation {
        start: (x.to_bits(), y.to_bits()),
        radius: (rx.to_bits(), 100.0f64.to_bits()),
        pivot: (pivot_x.to_bits(), pivot_y.to_bits()),
        speed: 50.0f64.to_bits(),
        angle: (y - pivot_y).atan2(x - pivot_x).to_bits(),
    }
}

#[test]
fn new_maker_is_empty() {
    let maker = FormationMaker::new();
    assert_eq!(maker.current_template(), None);
    assert_eq!(maker.current_members(), 0);
    assert!(maker.needs_fresh(2));
    assert!(maker.needs_fresh(0));
}

#[test]
fn default_maker_is_empty() {
    let maker = FormationMaker::default();
    assert_eq!(maker.current_template(), None);
    assert_eq!(maker.current_members(), 0);
}

#[test]
fn first_call_generates_and_counts_one() {
    let mut maker = FormationMaker::new();
    let out = maker.make(5, || path(1.0));
    assert_eq!(out, path(1.0));
    assert_eq!(maker.current_template(), Some(path(1.0)));
    assert_eq!(maker.current_members(), 1);
    assert!(!maker.needs_fresh(5));
}

#[test]
fn reuse_draws_nothing_and_counts_up() {
    let calls = Cell::new(0u32);
    let mut maker = FormationMaker::new();
    let a = maker.make(3, || {
        calls.set(calls.get() + 1);
        path(1.0)
    });
    let b = maker.make(3, || {
        calls.set(calls.get() + 1);
        path(2.0)
    });
    let c = maker.make(3, || {
        calls.set(calls.get() + 1);
        path(3.0)
    });
    assert_eq!(calls.get(), 1);
    assert_eq!(a, path(1.0));
    assert_eq!(b, path(1.0));
    assert_eq!(c, path(1.0));
    assert_eq!(maker.current_members(), 3);
    assert!(maker.needs_fresh(3));
    assert!(!maker.needs_fresh(4));
}

#[test]
fn full_batch_is_replaced_and_count_resets() {
    let mut maker = FormationMaker::new();
    maker.make(2, || path(1.0));
    maker.make(2, || path(2.0));
    let third = maker.make(2, || path(3.0));
    assert_eq!(third, path(3.0));
    assert_eq!(maker.current_template(), Some(path(3.0)));
    assert_eq!(maker.current_members(), 1);
}

#[test]
fn seven_calls_in_batches_of_three() {
    let calls = Cell::new(0u32);
    let mut maker = FormationMaker::new();
    let mut out = Vec::new();
    for k in 0..7 {
        out.push(maker.make(3, || {
            calls.set(calls.get() + 1);
            path(k as f64)
        }));
    }
    assert_eq!(calls.get(), 3);
    let expected = vec![
        path(0.0),
        path(0.0),
        path(0.0),
        path(3.0),
        path(3.0),
        path(3.0),
        path(6.0),
    ];
    assert_eq!(out, expected);
    assert_eq!(maker.current_members(), 1);
}

#[test]
fn six_calls_in_batches_of_three_end_on_a_full_batch() {
    let calls = Cell::new(0u32);
    let mut maker = FormationMaker::new();
    for k in 0..6 {
        maker.make(3, || {
            calls.set(calls.get() + 1);
            path(k as f64)
        });
    }
    assert_eq!(calls.get(), 2);
    assert_eq!(maker.current_template(), Some(path(3.0)));
    assert_eq!(maker.current_members(), 3);
}

#[test]
fn batch_of_one_always_generates() {
    let mut maker = FormationMaker::new();
    for k in 0..4 {
        let out = maker.make(1, || path(k as f64));
        assert_eq!(out, path(k as f64));
        assert_eq!(maker.current_members(), 1);
    }
}

#[test]
fn batch_of_zero_always_generates() {
    let mut maker = FormationMaker::new();
    for k in 0..4 {
        assert!(maker.needs_fresh(0));
        let out = maker.make(0, || path(k as f64));
        assert_eq!(out, path(k as f64));
        assert_eq!(maker.current_template(), Some(path(k as f64)));
        assert_eq!(maker.current_members(), 1);
    }
}

#[test]
fn smaller_batch_size_closes_a_running_batch() {
    let mut maker = FormationMaker::new();
    maker.make(10, || path(1.0));
    maker.make(10, || path(2.0));
    maker.make(10, || path(3.0));
    assert_eq!(maker.current_members(), 3);
    let out = maker.make(2, || path(4.0));
    assert_eq!(out, path(4.0));
    assert_eq!(maker.current_members(), 1);
}

#[test]
fn window_500_by_700_batch_of_two_gives_a_a_b() {
    let mut maker = FormationMaker::new();
    let a1 = maker.make(2, || random_path(500.0, 700.0));
    assert_eq!(maker.current_members(), 1);
    let a2 = maker.make(2, || random_path(500.0, 700.0));
    assert_eq!(maker.current_members(), 2);
    let b = maker.make(2, || random_path(500.0, 700.0));
    assert_eq!(maker.current_members(), 1);

    assert_eq!(a1.start, a2.start);
    assert_eq!(a1.radius, a2.radius);
    assert_eq!(a1.pivot, a2.pivot);
    assert_eq!(a1.speed, a2.speed);
    assert_eq!(a1.angle, a2.angle);
    assert_ne!(a1, b);
    assert_eq!(maker.current_template(), Some(b));

    for f in [a1, b] {
        assert_eq!(f64::from_bits(f.start.0).abs(), 350.0);
        assert!(f64::from_bits(f.start.1).abs() <= 450.0);
        assert_eq!(f64::from_bits(f.radius.1), 100.0);
    }
}

#[test]
fn runs_of_any_length_generate_one_path_per_batch() {
    for batch_max in 1u32..=5 {
        for n in 0u32..=12 {
            let calls = Cell::new(0u32);
            let mut maker = FormationMaker::new();
            for k in 0..n {
                let out = maker.make(batch_max, || {
                    calls.set(calls.get() + 1);
                    path(f64::from(k))
                });
                assert_eq!(out, path(f64::from(k - k % batch_max)));
                assert_eq!(maker.current_members(), k % batch_max + 1);
            }
            assert_eq!(calls.get(), (n + batch_max - 1) / batch_max);
        }
    }
}
