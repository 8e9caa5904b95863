use cch24::text::{ascii_lowercase, chars_of, eq_ascii_lowercased, push_decimal, str_eq, to_ascii_lower};

#[test]
fn decimal_notation() {
    let mut s = String::from("q=");
    push_decimal(&mut s, 0);
    assert_eq!(s, "q=0");
    let mut s = String::new();
    push_decimal(&mut s, 4294967295);
    assert_eq!(s, "4294967295");
    let mut s = String::new();
    push_decimal(&mut s, 1020);
    assert_eq!(s, "1020");
}

#[test]
fn case_folding() {
    assert_eq!(to_ascii_lower('Q'), 'q');
    assert_eq!(to_ascii_lower('q'), 'q');
    assert_eq!(to_ascii_lower('É'), 'É');
    assert!(eq_ascii_lowercased("Application/TOML", "application/toml"));
    assert!(!eq_ascii_lowercased("application/tom", "application/toml"));
}

#[test]
fn characters_and_equality() {
    assert_eq!(chars_of("añb"), vec!['a', 'ñ', 'b']);
    assert!(str_eq("añb", "añb"));
    assert!(!str_eq("añb", "anb"));
    assert!(!str_eq("a", "ab"));
}

#[test]
fn lowercase_copy() {
    assert_eq!(ascii_lowercase("Application/JSON"), "application/json");
    assert_eq!(ascii_lowercase("ÄbC"), "Äbc");
}
