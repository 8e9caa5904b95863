use cch24::float_literal::is_float_literal_str;

const SAMPLES: &[&str] = &[
    "1", "1.0", "1.", ".5", ".", "", "+", "-", "+1", "-1.5", "1e5", "1E5", "1e+5", "1e-5", "1e",
    "1e+", "e5", ".e5", "1.e5", "1.5e3", "inf", "INF", "-inf", "+Infinity", "infinity", "infin",
    "nan", "NaN", "-nan", "1.2.3", "1,0", " 1", "1 ", "0x10", "1_000", "١", "1.0e1.0", "++1",
    "Christmas", "1.83", "001", "9999999999999999999999999999", "1e99999", "..5", "5..",
];

#[test]
fn agrees_with_std_parse() {
    for s in SAMPLES {
        assert_eq!(is_float_literal_str(s), s.parse::<f64>().is_ok(), "{:?}", s);
    }
}

#[test]
fn accepts_versions() {
    assert!(is_float_literal_str("1.83"));
    assert!(is_float_literal_str("2024"));
    assert!(!is_float_literal_str("1.83.0"));
    assert!(!is_float_literal_str("true"));
}
