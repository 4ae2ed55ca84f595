use klipper_estimator::decimal::{format_fixed, parse_double, parse_integer};
use klipper_estimator::double::Double;
use klipper_estimator::shortest::format_shortest;
use klipper_estimator::options::{fork_version, opt_parse, OverrideFault, OverrideValue};

fn d(x: f64) -> Double {
    Double { bits: x.to_bits() }
}

fn f(x: Double) -> f64 {
    f64::from_bits(x.bits)
}

fn same(a: Double, b: f64) -> bool {
    f(a).to_bits() == b.to_bits() || (f(a).is_nan() && b.is_nan())
}

/// Bit patterns that look like noise.
fn noise(seed: u64, count: usize) -> Vec<u64> {
    let mut state = seed;
    (0..count)
        .map(|_| {
            state = state
                .wrapping_mul(6364136223846793005)
                .wrapping_add(1442695040888963407);
            state ^ (state >> 29)
        })
        .collect()
}

/// Numbers of ordinary size, numbers of any size, and the special ones.
fn numbers() -> Vec<f64> {
    let mut all = vec![
        0.0,
        -0.0,
        1.0,
        -1.0,
        0.5,
        1.5,
        2.5,
        -2.5,
        0.1,
        1e308,
        -1e308,
        f64::MAX,
        f64::MIN_POSITIVE,
        5e-324,
        -5e-324,
        2.2250738585072009e-308,
        f64::INFINITY,
        f64::NEG_INFINITY,
        f64::NAN,
        4503599627370496.5,
        9007199254740993.0,
        18446744073709551615.0,
    ];
    for bits in noise(1, 60) {
        all.push(f64::from_bits(bits));
        all.push((bits % 2000000) as f64 / 1024.0 - 700.0);
    }
    all
}

#[test]
fn arithmetic_agrees_with_the_machine() {
    let all = numbers();
    for &a in &all {
        for &b in &all {
            let (x, y) = (d(a), d(b));
            assert!(same(x + y, a + b), "{a} + {b}");
            assert!(same(x - y, a - b), "{a} - {b}");
            assert!(same(x * y, a * b), "{a} * {b}");
            assert!(same(x / y, a / b), "{a} / {b}");
            assert_eq!(x < y, a < b, "{a} < {b}");
            assert_eq!(x <= y, a <= b, "{a} <= {b}");
            assert_eq!(x > y, a > b, "{a} > {b}");
            assert_eq!(x >= y, a >= b, "{a} >= {b}");
            assert_eq!(x == y, a == b, "{a} == {b}");
        }
    }
}

#[test]
fn functions_of_one_number_agree_with_the_machine() {
    for a in numbers() {
        let x = d(a);
        assert!(same(x.sqrt(), a.sqrt()), "sqrt {a}");
        assert!(same(x.floor(), a.floor()), "floor {a}");
        assert!(same(x.ceil(), a.ceil()), "ceil {a}");
        assert!(same(x.round(), a.round()), "round {a}");
        assert!(same(x.abs(), a.abs()), "abs {a}");
        assert!(same(x.negated(), -a), "neg {a}");
        assert!(same(x.squared(), a * a), "square {a}");
        assert_eq!(x.is_nan(), a.is_nan());
        assert_eq!(x.is_finite(), a.is_finite());
        assert_eq!(x.to_u64(), a as u64, "to u64 {a}");
    }
    for n in noise(7, 200) {
        assert!(same(Double::from_u64(n), n as f64), "from u64 {n}");
        let small = n % 100000;
        assert!(same(Double::from_u64(small), small as f64));
    }
}

#[test]
fn minimum_maximum_and_clamp_agree_with_the_machine() {
    for a in numbers() {
        for b in [0.0, 1.0, -3.5, 600.0, f64::NAN] {
            let least = f(d(a).min(d(b)));
            let most = f(d(a).max(d(b)));
            assert!(least == a.min(b) || (least.is_nan() && a.min(b).is_nan()), "min {a} {b}");
            assert!(most == a.max(b) || (most.is_nan() && a.max(b).is_nan()), "max {a} {b}");
        }
        let held = f(d(a).clamp(d(-1.0), d(2.0)));
        let expected = a.clamp(-1.0, 2.0);
        assert!(held == expected || (held.is_nan() && expected.is_nan()), "clamp {a}");
    }
}

#[test]
fn remainders_agree_with_the_machine() {
    for a in numbers() {
        for b in [60.0, 3600.0, 86400.0, 0.3, 7.0, f64::INFINITY, 0.0] {
            assert!(same(d(a).rem(d(b)), a % b), "{a} % {b}");
        }
    }
}

#[test]
fn decimal_numbers_are_read_as_the_machine_reads_them() {
    for text in [
        "0", "-0", "1", "-1.5", "+2.25", ".5", "5.", "1e3", "1E-3", "0.1", "0.2", "123456.789",
        "1e400", "1e-400", "2.2250738585072014e-308", "4.9e-324", "9007199254740993",
        "179769313486231570000000000000000000000", "inf", "-Infinity", "nan", "0.333333333333333333333",
        "1e23", "8.41e21", "9.5367431640625e-7",
    ] {
        let expected: f64 = text.parse().unwrap();
        let read = parse_double(text).unwrap_or_else(|| panic!("{text} was not read"));
        assert!(same(read, expected), "{text}");
    }
    for text in ["", ".", "-", "e5", "1e", "1x", " 1", "0x10", "--1", "1_0"] {
        assert!(text.parse::<f64>().is_err(), "{text}");
        assert!(parse_double(text).is_none(), "{text}");
    }
    for bits in noise(3, 200) {
        let x = (bits % 100000000) as f64 / 1000.0;
        let text = format!("{x}");
        assert!(same(parse_double(&text).unwrap(), x), "{text}");
        let any = f64::from_bits(bits);
        if any.is_finite() {
            let text = format!("{any:e}");
            assert!(same(parse_double(&text).unwrap(), any), "{text}");
        }
    }
    assert_eq!(parse_integer("42"), Some(42));
    assert_eq!(parse_integer("-7"), Some(-7));
    assert_eq!(parse_integer("4.2"), None);
}

#[test]
fn numbers_are_written_as_the_machine_writes_them() {
    for a in numbers() {
        if a.abs() < 1e15 || !a.is_finite() {
            assert_eq!(format_fixed(d(a), 0), format!("{a:.0}"), "{a}");
            assert_eq!(format_fixed(d(a), 3), format!("{a:.3}"), "{a}");
            assert_eq!(format_fixed(d(a), 6), format!("{a:.6}"), "{a}");
        }
    }
    assert_eq!(format_fixed(d(0.125), 2), "0.12");
    assert_eq!(format_fixed(d(0.375), 2), "0.38");
    assert_eq!(format_fixed(d(9.9995), 3), "9.999");
}

#[test]
fn overrides_have_a_key_and_a_value() {
    match opt_parse("max_velocity=300") {
        Ok((key, OverrideValue::Text(value))) => {
            assert_eq!(key, "max_velocity");
            assert_eq!(value, "300");
        }
        _ => panic!("expected text"),
    }
    match opt_parse("minimum_cruise_ratio=0.25") {
        Ok((key, OverrideValue::Number(value))) => {
            assert_eq!(key, "minimum_cruise_ratio");
            assert_eq!(f(value), 0.25);
        }
        _ => panic!("expected a number"),
    }
    assert!(matches!(opt_parse("max_velocity"), Err(OverrideFault::Format)));
    assert!(matches!(
        opt_parse("max_accel_to_decel=fast"),
        Err(OverrideFault::Number { key }) if key == "max_accel_to_decel"
    ));
}

#[test]
fn versions_carry_the_name_once() {
    assert_eq!(fork_version("3.7.3"), "v3.7.3-ste94pz");
    assert_eq!(fork_version("v3.7.3"), "v3.7.3-ste94pz");
    assert_eq!(fork_version("v3.7.3-ste94pz"), "v3.7.3-ste94pz");
}

#[test]
fn the_shortest_notation_reads_as_the_number() {
    let mut numbers = vec![
        0.0,
        -0.0,
        1.0,
        -5.0,
        0.1,
        0.3,
        10.0,
        250.5,
        1.0 / 3.0,
        2.0_f64.powi(70),
        9007199254740993.0,
        1.0e23,
        5.0e-7,
        f64::EPSILON,
        f64::INFINITY,
        f64::NEG_INFINITY,
        f64::NAN,
    ];
    for bits in noise(7, 12) {
        let scaled = (bits % 2_000_000) as f64 / 1000.0 - 1000.0;
        numbers.push(scaled);
        numbers.push(scaled * scaled);
    }
    for x in numbers {
        let text = format_shortest(d(x));
        assert_eq!(text, x.to_string());
        assert!(same(parse_double(&text).unwrap(), x), "{}", text);
    }
}

#[test]
fn the_largest_and_smallest_numbers_have_shortest_notations() {
    for x in [f64::MAX, f64::MIN_POSITIVE, f64::from_bits(1)] {
        assert_eq!(format_shortest(d(x)), x.to_string());
    }
}
