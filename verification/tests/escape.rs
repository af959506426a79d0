use mandelbrot::escape::escape_time;

#[derive(Clone, Copy, Debug, PartialEq)]
struct Complex {
    x: f64,
    iy: f64,
}

fn add(a: Complex, b: Complex) -> Complex {
    Complex { x: a.x + b.x, iy: a.iy + b.iy }
}

fn mul(a: Complex, b: Complex) -> Complex {
    let mut new_x = a.x * b.x;
    let mut new_iy = a.x * b.iy;
    new_iy = new_iy + a.iy * b.x;
    new_x = new_x + a.iy * b.iy * -1.0;
    Complex { x: new_x, iy: new_iy }
}

fn pythagorean_escape(z: &Complex) -> bool {
    (z.x * z.x + z.iy * z.iy) >= 4.0
}

const ORIGIN: Complex = Complex { x: 0.0, iy: 0.0 };

/// The formulation by complex multiply and add.
fn generic(c: Complex, max_iterations: usize) -> usize {
    escape_time(ORIGIN, |z| add(mul(z, z), c), pythagorean_escape, max_iterations)
}

/// The formulation with the real and imaginary update written out.
fn expanded(c: Complex, max_iterations: usize) -> usize {
    escape_time(
        ORIGIN,
        |z: Complex| Complex { x: z.x * z.x - z.iy * z.iy + c.x, iy: 2.0 * z.x * z.iy + c.iy },
        |z: &Complex| z.x * z.x + z.iy * z.iy >= 4.0,
        max_iterations,
    )
}

fn point(x: f64, iy: f64) -> Complex {
    Complex { x, iy }
}

#[test]
fn counts_steps_to_first_escape() {
    // 0, 1, 2, 3: the first point of at least 3 is reached after 3 steps.
    assert_eq!(escape_time(0u64, |z| z + 1, |z: &u64| *z >= 3, 10), 3);
    // 1, 2, 4, 8, 16
    assert_eq!(escape_time(1u64, |z| z * 2, |z: &u64| *z > 10, 100), 4);
}

#[test]
fn stops_at_the_cap() {
    assert_eq!(escape_time(0u64, |z| z + 1, |z: &u64| *z >= 30, 10), 10);
    assert_eq!(escape_time(0u64, |z| z + 1, |z: &u64| *z >= 10, 10), 10);
    assert_eq!(escape_time(0u64, |z| z + 1, |z: &u64| *z >= 11, 10), 10);
    assert_eq!(escape_time(0u64, |z| z + 1, |z: &u64| *z >= 9, 10), 9);
}

#[test]
fn cap_of_zero_counts_zero() {
    assert_eq!(escape_time(0u64, |z| z + 1, |_z: &u64| false, 0), 0);
    assert_eq!(escape_time(0u64, |z| z + 1, |_z: &u64| true, 0), 0);
    assert_eq!(generic(point(0.0, 0.0), 0), 0);
    assert_eq!(expanded(point(3.0, 3.0), 0), 0);
}

#[test]
fn escaped_seed_counts_zero() {
    assert_eq!(escape_time(5u64, |z| z + 1, |z: &u64| *z >= 3, 10), 0);
    let seed = point(3.0, 0.0);
    let c = point(0.0, 0.0);
    assert_eq!(escape_time(seed, |z| add(mul(z, z), c), pythagorean_escape, 50), 0);
}

#[test]
fn step_is_not_called_after_escape() {
    // The map would overflow on the point that has escaped.
    let n = escape_time(250u8, |z| z + 1, |z: &u8| *z == 255, 1000);
    assert_eq!(n, 5);
}

#[test]
fn origin_never_escapes() {
    for cap in [0usize, 1, 2, 255, 256, 2500] {
        assert_eq!(generic(point(0.0, 0.0), cap), cap);
        assert_eq!(expanded(point(0.0, 0.0), cap), cap);
    }
}

#[test]
fn fixed_point_reaches_any_cap() {
    for cap in [0usize, 1, 7, 1000] {
        assert_eq!(escape_time(4u64, |z| z, |z: &u64| *z > 4, cap), cap);
    }
}

#[test]
fn two_escapes_after_one_step() {
    // z0 = 0 is tested first and stays; z1 = 2 has squared magnitude 4.0,
    // which counts as escaped.
    assert_eq!(generic(point(2.0, 0.0), 255), 1);
    assert_eq!(expanded(point(2.0, 0.0), 255), 1);
    assert_eq!(generic(point(2.0, 0.0), 1), 1);
    assert_eq!(expanded(point(2.0, 0.0), 2500), 1);
}

#[test]
fn minus_two_escapes_after_one_step() {
    // -2 lies on the circle of radius 2: the test is `>= 4.0`, not `> 4.0`.
    assert_eq!(generic(point(-2.0, 0.0), 255), 1);
    assert_eq!(expanded(point(-2.0, 0.0), 255), 1);
}

#[test]
fn points_beyond_radius_two_escape_after_one_step() {
    for c in [point(3.0, 0.0), point(-2.5, 1.0), point(0.0, 2.5), point(1.5, -1.5), point(-10.0, 10.0)] {
        assert_eq!(generic(c, 255), 1);
        assert_eq!(expanded(c, 255), 1);
    }
}

#[test]
fn known_escape_times() {
    // c = 1: 0, 1, 2
    assert_eq!(generic(point(1.0, 0.0), 255), 2);
    assert_eq!(expanded(point(1.0, 0.0), 255), 2);
    // c = 0.5: 0, 0.5, 0.75, 1.0625, 1.62890625, 3.1533...
    assert_eq!(generic(point(0.5, 0.0), 255), 5);
    assert_eq!(expanded(point(0.5, 0.0), 255), 5);
    // c = 0.5 under a cap of 3
    assert_eq!(generic(point(0.5, 0.0), 3), 3);
    assert_eq!(expanded(point(0.5, 0.0), 3), 3);
}

#[test]
fn points_of_the_set_reach_the_cap() {
    // -1 has the orbit 0, -1, 0, -1, ..; i has 0, i, -1+i, -i, -1+i, ..
    for c in [point(-1.0, 0.0), point(0.0, 1.0), point(-0.1, 0.1), point(0.25, 0.0)] {
        for cap in [1usize, 50, 255, 2500] {
            assert_eq!(generic(c, cap), cap);
            assert_eq!(expanded(c, cap), cap);
        }
    }
}

#[test]
fn count_is_within_the_cap() {
    for cap in [0usize, 1, 3, 40, 255] {
        for i in 0..40 {
            for j in 0..40 {
                let c = point(-2.5 + 3.5 * (i as f64 / 40.0), 1.0 - 2.0 * (j as f64 / 40.0));
                assert!(generic(c, cap) <= cap);
                assert!(expanded(c, cap) <= cap);
            }
        }
    }
}

#[test]
fn formulations_agree() {
    for i in 0..120 {
        for j in 0..80 {
            let c = point(-2.5 + 3.5 * (i as f64 / 120.0), 1.0 - 2.0 * (j as f64 / 80.0));
            assert_eq!(generic(c, 255), expanded(c, 255), "at {:?}", c);
        }
    }
    for cap in [0usize, 1, 2, 5, 2500] {
        for c in [point(0.3, 0.5), point(-0.75, 0.1), point(-1.75, 0.0), point(0.28, 0.53)] {
            assert_eq!(generic(c, cap), expanded(c, cap));
        }
    }
}

#[test]
fn same_input_same_count() {
    let c = point(-0.7453, 0.1127);
    let first = expanded(c, 2500);
    for _ in 0..5 {
        assert_eq!(expanded(c, 2500), first);
    }
}
