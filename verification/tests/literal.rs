use bdl::literal::{Decimal, NumberLiteral};

fn dec(s: &str) -> Decimal {
    NumberLiteral::new(s).decimal().expect("valid literal")
}

fn decimal(digits: &str, exponent: i64) -> Decimal {
    Decimal { digits: digits.into(), exponent }
}

#[test]
fn exact_readings() {
    assert_eq!(dec("0.1"), decimal("1", -1));
    assert_eq!(dec("90"), decimal("90", 0));
    assert_eq!(dec("1.5e3"), decimal("15", 2));
    assert_eq!(dec(".5"), decimal("5", -1));
    assert_eq!(dec("0.0"), decimal("0", 0));
    assert_eq!(dec("007"), decimal("7", 0));
    assert_eq!(dec("2E-3"), decimal("2", -3));
    assert_eq!(dec("1e999"), decimal("1", 999));
}

#[test]
fn spelling_is_preserved_and_normalization_is_value_equality() {
    let a = NumberLiteral::new("1.0");
    let b = NumberLiteral::new("1");
    assert_ne!(a, b);
    assert_ne!(dec("1.0"), dec("1"));
    assert_eq!(dec("1.0").normalized(), dec("1").normalized());
    assert_eq!(dec("10e-1").normalized(), dec("1").normalized());
    assert_eq!(dec("100").normalized(), decimal("1", 2));
}

#[test]
fn machine_boundary() {
    assert!(NumberLiteral::new("1e99999999999999999999")
        .decimal()
        .is_none());
    assert!(NumberLiteral::new("abc").decimal().is_none());
    assert!(NumberLiteral::new("42").is_integer_spelling());
    assert!(!NumberLiteral::new("4.2").is_integer_spelling());
}

#[test]
fn normalizing_twice_changes_nothing_more() {
    for s in ["100", "0.0", "1.5e3", "7", "0.010"] {
        let once = dec(s).normalized();
        assert_eq!(once.normalized(), once);
    }
    assert_eq!(dec("0.0").normalized(), decimal("0", 0));
    assert_eq!(NumberLiteral::new("1.5e3").as_str(), "1.5e3");
}

#[test]
fn equal_values_have_equal_normal_forms() {
    assert_eq!(dec("1.50e1").normalized(), dec("15").normalized());
    assert_eq!(dec("0.0").normalized(), dec("0e5").normalized());
    assert_ne!(dec("1.5").normalized(), dec("15").normalized());
    assert_eq!(dec("0.5").to_string(), "5e-1");
    assert_eq!(dec("1.5e3").to_string(), "15e2");
}
