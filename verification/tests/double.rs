use lecture_distill::double::Double;

fn value(a: &Double) -> f64 {
    let size = match a.parts() {
        Some((mantissa, scale)) => mantissa as f64 * 2f64.powi(-scale),
        None if a.is_nan() => f64::NAN,
        None => f64::INFINITY,
    };
    if a.is_negative() {
        -size
    } else {
        size
    }
}

fn read(x: f64) -> Double {
    Double::read(&format!("{:?}", x)).unwrap()
}

fn next(state: &mut u64) -> u64 {
    *state = state.wrapping_mul(6364136223846793005).wrapping_add(1442695040888963407);
    *state >> 11
}

/// Numbers of many sizes, some of them on or near the middle of two others.
fn numbers() -> Vec<f64> {
    let mut state: u64 = 7;
    let mut all = vec![0.0, -0.0, 0.5, 1.5, 2.5, 0.05, 0.15, 0.25, 2.45, 999.9995, 1e15, 1e22, 1e-15];
    for i in 0..2000 {
        let mut x = (next(&mut state) % 10_000_000) as f64 / 1000.0;
        match i % 5 {
            0 => x *= 1e9,
            1 => x /= 1e9,
            2 => x = (x * 2.0).floor() / 2.0,
            3 => x = (x * 20.0).floor() / 20.0,
            _ => {}
        }
        all.push(if i % 3 == 0 { -x } else { x });
    }
    all
}

#[test]
fn texts_are_read_as_the_nearest_number() {
    for text in [
        "0", "-0", "1", "12.5", "+.5", "7.", "1.5e2", "2E-3", "0.1", "0.3", "1e22", "123456789012345678901234567890",
        "9007199254740993", "9007199254740992.5000000000000000000001", "0.000000000000000123456789", "4.35",
    ] {
        assert_eq!(value(&Double::read(text).unwrap()), text.parse::<f64>().unwrap(), "{}", text);
    }
    for x in numbers() {
        assert_eq!(value(&read(x)).to_bits(), x.to_bits(), "{:?}", x);
    }
}

#[test]
fn words_are_read_as_numbers() {
    assert_eq!(value(&Double::read("Infinity").unwrap()), f64::INFINITY);
    assert_eq!(value(&Double::read("-inf").unwrap()), f64::NEG_INFINITY);
    assert!(Double::read("NaN").unwrap().is_nan());
    for text in ["", ".", "1e", "e5", "1.2.3", "soon", "--1", "0x10", "1 "] {
        assert_eq!(Double::read(text).is_none(), text.parse::<f64>().is_err(), "{}", text);
    }
}

#[test]
fn numbers_are_shown_as_floating_point_is() {
    for x in numbers() {
        assert_eq!(read(x).show(false), format!("{:.0}", x), "{:?}", x);
        assert_eq!(read(x).show(true), format!("{:.1}", x), "{:?}", x);
    }
    for x in [f64::INFINITY, f64::NEG_INFINITY, f64::NAN] {
        assert_eq!(read(x).show(true), format!("{:.1}", x));
    }
}

#[test]
fn sums_and_parts_are_rounded_as_floating_point_is() {
    for x in numbers() {
        assert_eq!(value(&read(x).thousandth()), x / 1000.0, "{:?}", x);
        assert_eq!(value(&read(x).with_thousand()), x + 1000.0, "{:?}", x);
    }
    assert_eq!(value(&Double::of_parts(1, 3)), 1.0 / 3.0);
    assert_eq!(value(&Double::of_parts(u64::MAX, 1)), u64::MAX as f64);
}

#[test]
fn numbers_are_compared_as_floating_point_is() {
    let mut all = numbers();
    all.truncate(120);
    for x in [f64::INFINITY, f64::NEG_INFINITY, f64::NAN, 12.0009999, 12.0, 12.001, 0.0004, -0.0006] {
        all.push(x);
    }
    for x in &all {
        for y in &all {
            let (a, b) = (read(*x), read(*y));
            assert_eq!(a.less(&b), x < y, "{:?} {:?}", x, y);
            assert_eq!(a.is_close(&b), (x - y).abs() < 0.001, "{:?} {:?}", x, y);
            assert_eq!(a.rank() <= b.rank(), x.total_cmp(y).is_le(), "{:?} {:?}", x, y);
        }
    }
}
