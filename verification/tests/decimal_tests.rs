use odm_postprocess::decimal::{Decimal, PLAIN_END, UNITS_PER_ONE};

fn units_of(text: &str) -> Option<i128> {
    Decimal::parse(text).map(|number| number.units().unwrap())
}

fn written(text: &str) -> Option<String> {
    Decimal::parse(text).map(|number| number.to_text())
}

const LAST: &str = "340282349999999999999999999999999999999.999999999999999999";
const LAST_BELOW_ZERO: &str = "-340282349999999999999999999999999999999.999999999999999999";

#[test]
fn parses_whole_numbers() {
    assert_eq!(units_of("0"), Some(0));
    assert_eq!(units_of("12"), Some(12 * UNITS_PER_ONE));
    assert_eq!(units_of("-180"), Some(-180 * UNITS_PER_ONE));
    assert_eq!(units_of("+7"), Some(7 * UNITS_PER_ONE));
    assert_eq!(units_of("007"), Some(7 * UNITS_PER_ONE));
}

#[test]
fn parses_fractions_exactly() {
    assert_eq!(units_of("1.5"), Some(1_500_000_000_000_000_000));
    assert_eq!(units_of("0.2"), Some(200_000_000_000_000_000));
    assert_eq!(units_of("10.0"), Some(10 * UNITS_PER_ONE));
    assert_eq!(
        units_of("-91.99394396058937"),
        Some(-91_993_943_960_589_370_000)
    );
    assert_eq!(
        units_of("46.84260274864454"),
        Some(46_842_602_748_644_540_000)
    );
    assert_eq!(units_of("0.000000000000000001"), Some(1));
}

#[test]
fn accepts_a_point_at_either_end() {
    assert_eq!(units_of(".5"), Some(500_000_000_000_000_000));
    assert_eq!(units_of("5."), Some(5 * UNITS_PER_ONE));
    assert_eq!(units_of("-.25"), Some(-250_000_000_000_000_000));
    assert_eq!(units_of("+3.e2"), Some(300 * UNITS_PER_ONE));
}

#[test]
fn applies_exponents() {
    assert_eq!(units_of("1e-7"), Some(100_000_000_000));
    assert_eq!(units_of("1.5E3"), Some(1500 * UNITS_PER_ONE));
    assert_eq!(units_of("1.5e+3"), Some(1500 * UNITS_PER_ONE));
    assert_eq!(units_of("25e-1"), Some(2_500_000_000_000_000_000));
    assert_eq!(units_of("1e0"), Some(UNITS_PER_ONE));
    assert_eq!(units_of("1e17"), Some(100_000_000_000_000_000 * UNITS_PER_ONE));
    assert_eq!(units_of("123456e-24"), Some(0));
    assert_eq!(units_of("123456e-23"), Some(1));
    assert_eq!(units_of("123456e-20"), Some(1235));
    assert_eq!(units_of("123449e-20"), Some(1234));
}

#[test]
fn rounds_at_the_eighteenth_place() {
    assert_eq!(units_of("0.0000000000000000019"), Some(2));
    assert_eq!(units_of("-0.0000000000000000019"), Some(-2));
    assert_eq!(units_of("0.0000000000000000014999"), Some(1));
    assert_eq!(units_of("-0.0000000000000000014999"), Some(-1));
    assert_eq!(units_of("0.0000000000000000015"), Some(2));
    assert_eq!(units_of("-0.0000000000000000015"), Some(-2));
    assert_eq!(units_of("0.0000000000000000005"), Some(1));
    assert_eq!(units_of("0.00000000000000000049999"), Some(0));
    assert_eq!(units_of("-0.00000000000000000049999"), Some(0));
    assert_eq!(units_of("0.00000000000000000099"), Some(1));
    assert_eq!(units_of("0.000000000000000000099"), Some(0));
    assert_eq!(units_of("0.9999999999999999999"), Some(UNITS_PER_ONE));
    assert_eq!(units_of("0.9999999999999999994"), Some(UNITS_PER_ONE - 1));
    assert_eq!(units_of("9.9999999999999999995"), Some(10 * UNITS_PER_ONE));
    assert_eq!(units_of("5e-19"), Some(1));
    assert_eq!(units_of("4e-19"), Some(0));
    assert_eq!(units_of("5e-20"), Some(0));
    assert_eq!(units_of("95e-20"), Some(1));
    assert_eq!(
        units_of("1.23456789012345678901234567890123456789"),
        Some(1_234_567_890_123_456_789)
    );
    assert_eq!(
        units_of("1.23456789012345678951234567890123456789"),
        Some(1_234_567_890_123_456_790)
    );
    assert_eq!(written("9.9999999999999999999"), Some("10".to_string()));
    assert_eq!(written("-99999999999999999999.9999999999999999995"), Some("-100000000000000000000".to_string()));
}

#[test]
fn zero_has_one_value() {
    assert_eq!(units_of("-0"), Some(0));
    assert_eq!(units_of("-0.0"), Some(0));
    assert_eq!(units_of("0e5"), Some(0));
    assert_eq!(Decimal::parse("-0"), Decimal::parse("0"));
}

#[test]
fn refuses_what_is_no_number() {
    for text in [
        "", " ", ".", "+", "-", "+.", "e5", ".e5", "1e", "1e+", "1e-", "1e1.5", " 1", "1 ", "1\n",
        "1.2.3", "1..2", "--1", "+-1", "abc", "1a", "0x10", "1,5", "1_000", "null", "true",
        "\"1\"", "inf", "-inf", "infinity", "nan", "NaN", "1e5x", "١٢", "1٫5", "１２",
    ] {
        assert_eq!(units_of(text), None, "{:?}", text);
    }
}

#[test]
fn reads_numbers_over_the_range_of_floats() {
    assert_eq!(units_of("1000000000000000000"), Some(UNITS_PER_ONE * UNITS_PER_ONE));
    assert_eq!(units_of("-1e18"), Some(-UNITS_PER_ONE * UNITS_PER_ONE));
    assert_eq!(units_of("18446744073709551615"), Some(18446744073709551615 * UNITS_PER_ONE));
    assert_eq!(written("1e20"), Some("100000000000000000000".to_string()));
    assert_eq!(written("0.1e39"), Some("100000000000000000000000000000000000000".to_string()));
    assert_eq!(
        written("340282346638528859811704183484516925440"),
        Some("340282346638528859811704183484516925440".to_string())
    );
    assert_eq!(
        written("-340282346638528859811704183484516925440.000000000000000001"),
        Some("-340282346638528859811704183484516925440.000000000000000001".to_string())
    );
    assert_eq!(written(LAST), Some(LAST.to_string()));
    assert_eq!(written(LAST_BELOW_ZERO), Some(LAST_BELOW_ZERO.to_string()));
    assert_eq!(
        written("3.4028234e38"),
        Some("340282340000000000000000000000000000000".to_string())
    );
}

#[test]
fn holds_numbers_beyond_the_range_at_its_end() {
    assert_eq!(written("340282350000000000000000000000000000000"), Some(LAST.to_string()));
    assert_eq!(written("3.4028235e38"), Some(LAST.to_string()));
    assert_eq!(written("340282366920938463463374607431768211456"), Some(LAST.to_string()));
    assert_eq!(written("1e39"), Some(LAST.to_string()));
    assert_eq!(written("1e400"), Some(LAST.to_string()));
    assert_eq!(written("-1e39"), Some(LAST_BELOW_ZERO.to_string()));
    assert_eq!(written("-340282350000000000000000000000000000000"), Some(LAST_BELOW_ZERO.to_string()));
    assert_eq!(
        written("340282349999999999999999999999999999999.9999999999999999999"),
        Some(LAST.to_string())
    );
    assert_eq!(Decimal::parse("1e39"), Decimal::parse("1e40"));
    assert!(Decimal::parse("1e39").unwrap().units().is_none());
    assert!(!Decimal::parse("1e39").unwrap().is_negative());
    assert!(Decimal::parse("-1e39").unwrap().is_negative());
}

#[test]
fn survives_exponents_of_any_size() {
    assert_eq!(written("1e99999999999999999999999999999999999999999"), Some(LAST.to_string()));
    assert_eq!(
        written("-1e99999999999999999999999999999999999999999"),
        Some(LAST_BELOW_ZERO.to_string())
    );
    assert_eq!(units_of("0e99999999999999999999999999999999999999999"), Some(0));
    assert_eq!(units_of("0.000e99999999999999999999999999999999999999999"), Some(0));
    assert_eq!(units_of("1e-99999999999999999999999999999999999999999"), Some(0));
    assert_eq!(units_of("987654321e-99999999999999999999999999999999999999999"), Some(0));
    assert_eq!(written("1e36893488147419103232"), Some(LAST.to_string()));
    assert_eq!(units_of("1e-36893488147419103232"), Some(0));
    assert_eq!(written("1e36893488147419103231"), Some(LAST.to_string()));
    assert_eq!(units_of("1e00000000000000000000000000000000000000002"), Some(100 * UNITS_PER_ONE));
}

#[test]
fn survives_long_runs_of_digits() {
    let mut text = String::new();
    for _ in 0..5000 {
        text.push('0');
    }
    text.push_str("12.5");
    assert_eq!(units_of(&text), Some(12_500_000_000_000_000_000));
    let mut small = String::from("0.");
    for _ in 0..5000 {
        small.push('0');
    }
    small.push_str("7e5001");
    assert_eq!(units_of(&small), Some(7 * UNITS_PER_ONE));
    let mut large = String::from("7");
    for _ in 0..5000 {
        large.push('0');
    }
    assert_eq!(written(&large), Some(LAST.to_string()));
    large.push_str("e-5000");
    assert_eq!(units_of(&large), Some(7 * UNITS_PER_ONE));
    large.push('0');
    assert_eq!(units_of(&large), Some(0));
}

#[test]
fn counts_of_units_go_in_and_out() {
    for units in [0, 1, -1, -5, UNITS_PER_ONE, PLAIN_END - 1, 1 - PLAIN_END] {
        assert_eq!(Decimal::from_units(units).units(), Some(units));
    }
    for units in [PLAIN_END, -PLAIN_END, i128::MAX, i128::MIN, i128::MIN + 1] {
        assert_eq!(Decimal::from_units(units).units(), None);
    }
    assert_eq!(Decimal::from_units(UNITS_PER_ONE), Decimal::parse("1").unwrap());
    assert_eq!(Decimal::from_units(PLAIN_END).to_text(), "100000000000000000000");
    assert_eq!(
        Decimal::from_units(i128::MAX).to_text(),
        "170141183460469231731.687303715884105727"
    );
    assert_eq!(
        Decimal::from_units(i128::MIN).to_text(),
        "-170141183460469231731.687303715884105728"
    );
    assert_eq!(Decimal::from_units(-10_000_000_000_000_000_000).to_text(), "-10");
    assert_eq!(Decimal::from_units(-10_000_000_000_000_000_001).to_text(), "-10.000000000000000001");
    assert_eq!(Decimal::from_units(-9_999_999_999_999_999_999).to_text(), "-9.999999999999999999");
    assert!(Decimal::from_units(-1).is_negative());
    assert!(!Decimal::from_units(0).is_negative());
    assert!(!Decimal::from_units(1).is_negative());
}

fn midpoint_units(a: i128, b: i128) -> i128 {
    Decimal::from_units(a).midpoint(Decimal::from_units(b)).units().unwrap()
}

#[test]
fn midpoint_is_the_mean() {
    assert_eq!(midpoint_units(10, 12), 11);
    assert_eq!(midpoint_units(12, 10), 11);
    assert_eq!(midpoint_units(-10, 10), 0);
    assert_eq!(midpoint_units(-10, -20), -15);
    assert_eq!(midpoint_units(7, 7), 7);
    assert_eq!(
        Decimal::parse("20.0").unwrap().midpoint(Decimal::parse("22.0").unwrap()),
        Decimal::parse("21").unwrap()
    );
    assert_eq!(
        Decimal::parse("-91.99394396058937")
            .unwrap()
            .midpoint(Decimal::parse("-91.99299933445848").unwrap())
            .units()
            .unwrap(),
        -91_993_471_647_523_925_000
    );
}

#[test]
fn midpoint_rounds_down() {
    assert_eq!(midpoint_units(0, 1), 0);
    assert_eq!(midpoint_units(1, 2), 1);
    assert_eq!(midpoint_units(-1, 0), -1);
    assert_eq!(midpoint_units(-3, 0), -2);
    assert_eq!(midpoint_units(-2, -1), -2);
    assert_eq!(midpoint_units(-1, 2), 0);
}

#[test]
fn midpoint_holds_at_the_ends_of_the_range() {
    let top = Decimal::parse(LAST).unwrap();
    let bottom = Decimal::parse(LAST_BELOW_ZERO).unwrap();
    assert_eq!(top.midpoint(top), top);
    assert_eq!(bottom.midpoint(bottom), bottom);
    assert_eq!(top.midpoint(bottom), Decimal::from_units(0));
    assert_eq!(bottom.midpoint(top), Decimal::from_units(0));
    assert_eq!(
        top.midpoint(Decimal::from_units(0)).to_text(),
        "170141174999999999999999999999999999999.999999999999999999"
    );
    assert_eq!(
        bottom.midpoint(Decimal::from_units(0)).to_text(),
        "-170141175000000000000000000000000000000"
    );
    assert_eq!(
        bottom.midpoint(Decimal::from_units(1)).to_text(),
        "-170141174999999999999999999999999999999.999999999999999999"
    );
    let edge = PLAIN_END - 1;
    assert_eq!(midpoint_units(edge, edge), edge);
    assert_eq!(midpoint_units(-edge, -edge), -edge);
    assert_eq!(midpoint_units(edge, edge - 1), edge - 1);
    assert_eq!(midpoint_units(-edge, 1 - edge), -edge);
    assert_eq!(midpoint_units(i128::MAX, i128::MIN + 1), 0);
    assert_eq!(midpoint_units(9_999_999_999_999_999_999, 10_000_000_000_000_000_001), 10_000_000_000_000_000_000);
    assert_eq!(midpoint_units(-9_999_999_999_999_999_999, -10_000_000_000_000_000_002), -10_000_000_000_000_000_001);
    assert_eq!(midpoint_units(-19_999_999_999_999_999_999, 1), -9_999_999_999_999_999_999);
    assert_eq!(midpoint_units(-1, 20_000_000_000_000_000_000), 9_999_999_999_999_999_999);
}

#[test]
fn midpoint_lies_within_half_a_unit_of_the_mean() {
    let samples: [i128; 9] = [-1_000_000_007, -8, -3, -1, 0, 1, 2, 9, 123_456_789_012_345_678_901];
    for a in samples {
        for b in samples {
            let middle = midpoint_units(a, b);
            assert!(2 * middle <= a + b && a + b <= 2 * middle + 1);
            if (a + b) % 2 == 0 {
                assert_eq!(2 * middle, a + b);
            }
            assert!(a.min(b) <= middle && middle <= a.max(b));
        }
    }
}

fn text_of(units: i128) -> String {
    Decimal::from_units(units).to_text()
}

#[test]
fn writes_numbers_in_full() {
    assert_eq!(text_of(0), "0");
    assert_eq!(text_of(UNITS_PER_ONE), "1");
    assert_eq!(text_of(-UNITS_PER_ONE), "-1");
    assert_eq!(text_of(21 * UNITS_PER_ONE), "21");
    assert_eq!(text_of(1_500_000_000_000_000_000), "1.5");
    assert_eq!(text_of(-250_000_000_000_000_000), "-0.25");
    assert_eq!(text_of(1), "0.000000000000000001");
    assert_eq!(text_of(-1), "-0.000000000000000001");
    assert_eq!(text_of(10), "0.00000000000000001");
    assert_eq!(text_of(100_000_000_000), "0.0000001");
    assert_eq!(text_of(-91_993_943_960_589_370_000), "-91.99394396058937");
    assert_eq!(text_of(1_000_000_000_000_000_001), "1.000000000000000001");
    assert_eq!(text_of(120 * UNITS_PER_ONE), "120");
    assert_eq!(text_of(PLAIN_END - 1), "99999999999999999999.999999999999999999");
    assert_eq!(text_of(1 - PLAIN_END), "-99999999999999999999.999999999999999999");
    assert_eq!(Decimal::parse("-0").unwrap().to_text(), "0");
    assert_eq!(Decimal::parse("+0012.3400e1").unwrap().to_text(), "123.4");
    assert_eq!(Decimal::parse("1e-7").unwrap().to_text(), "0.0000001");
}

#[test]
fn text_reads_back_as_the_number() {
    let samples: [i128; 14] = [
        0,
        1,
        -1,
        9,
        10,
        -10,
        UNITS_PER_ONE - 1,
        UNITS_PER_ONE,
        UNITS_PER_ONE + 1,
        -90 * UNITS_PER_ONE,
        46_842_602_748_644_540_000,
        -91_993_943_960_589_370_000,
        i128::MAX,
        i128::MIN,
    ];
    for units in samples {
        let number = Decimal::from_units(units);
        assert_eq!(Decimal::parse(&number.to_text()), Some(number), "{}", units);
    }
    for text in [LAST, LAST_BELOW_ZERO, "340282346638528859811704183484516925440.5"] {
        assert_eq!(written(text), Some(text.to_string()));
    }
}
