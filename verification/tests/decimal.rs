use symrs::par::decimal;
use symrs::sym::Decimal;

fn text(negative: bool, digits: &[u8], exponent: i64) -> Option<String> {
    Decimal::new(negative, &digits.to_vec(), exponent).map(|d| d.to_text())
}

#[test]
fn decimal_text_is_positional() {
    assert_eq!(text(false, &[1, 3, 2], -2), Some("1.32".to_string()));
    assert_eq!(text(true, &[1, 2, 3, 3], -1), Some("-123.3".to_string()));
    assert_eq!(text(false, &[1, 2, 3, 3], 2), Some("123300".to_string()));
    assert_eq!(text(false, &[5], -1), Some("0.5".to_string()));
    assert_eq!(text(false, &[5], -3), Some("0.005".to_string()));
    assert_eq!(text(true, &[2, 5], -2), Some("-0.25".to_string()));
    assert_eq!(text(false, &[7], 0), Some("7".to_string()));
    assert_eq!(text(false, &[], 0), Some("0".to_string()));
}

#[test]
fn decimal_is_held_in_canonical_form() {
    let d = Decimal::new(false, &vec![0, 0, 1, 5, 0, 0], -3).unwrap();
    assert_eq!(d.digits(), &vec![1u8, 5]);
    assert_eq!(d.exponent(), -1);
    assert!(!d.is_negative());
    assert_eq!(d.to_text(), "1.5");
    assert_eq!(d, Decimal::new(false, &vec![1, 5], -1).unwrap());
    assert_eq!(d, Decimal::new(false, &vec![1, 5, 0], -2).unwrap());
    assert_ne!(d, Decimal::new(true, &vec![1, 5], -1).unwrap());
}

#[test]
fn decimal_zero_has_no_sign() {
    let zero = Decimal::new(true, &vec![0, 0], 17).unwrap();
    assert_eq!(zero, Decimal::zero());
    assert!(!zero.is_negative());
    assert_eq!(zero.exponent(), 0);
    assert!(zero.digits().is_empty());
    assert_eq!(zero.to_text(), "0");
    assert_eq!(Decimal::new(true, &vec![], i64::MAX), Some(Decimal::zero()));
}

#[test]
fn decimal_rejects_what_is_no_digit() {
    assert_eq!(Decimal::new(false, &vec![1, 10], 0), None);
    assert_eq!(Decimal::new(false, &vec![255], 0), None);
    assert_eq!(Decimal::new(false, &vec![0, 0, 10], 0), None);
}

#[test]
fn decimal_holds_an_exponent_that_does_not_fit_at_the_nearest_that_does() {
    let held = |digits: &[u8], exponent: i64| {
        let d = Decimal::new(false, &digits.to_vec(), exponent).unwrap();
        (d.digits().clone(), d.exponent())
    };
    assert_eq!(held(&[1], i64::MAX), (vec![1], i64::MAX));
    assert_eq!(held(&[1, 0], i64::MAX - 1), (vec![1], i64::MAX));
    assert_eq!(held(&[1, 0], i64::MAX), (vec![1], i64::MAX));
    assert_eq!(held(&[1, 0, 0, 0], i64::MAX - 1), (vec![1], i64::MAX));
    assert_eq!(held(&[1, 0], i64::MIN), (vec![1], i64::MIN + 1));
    assert_eq!(held(&[1], i64::MIN), (vec![1], i64::MIN));
}

#[test]
fn decimal_clone_is_equal() {
    let d = Decimal::new(true, &vec![4, 2], -7).unwrap();
    assert_eq!(d.clone(), d);
}

#[test]
fn decimal_of_a_whole_text() {
    let text = |s: &str| decimal(s).map(|d| d.to_text());
    assert_eq!(text("1.32"), Some("1.32".to_string()));
    assert_eq!(text("-5"), Some("-5".to_string()));
    assert_eq!(text("+5e0"), Some("5".to_string()));
    assert_eq!(text("1.32e0"), Some("1.32".to_string()));
    assert_eq!(text("1e21"), Some("1000000000000000000000".to_string()));
    assert_eq!(text("1.5e-7"), Some("0.00000015".to_string()));
    assert_eq!(text(".5e-3"), Some("0.0005".to_string()));
    assert_eq!(text("-0"), Some("0".to_string()));
    assert_eq!(text("007.100"), Some("7.1".to_string()));
    assert_eq!(decimal("12"), Decimal::new(false, &vec![1, 2], 0));
    assert_eq!(decimal("1200e-1"), Decimal::new(false, &vec![1, 2], 1));
    assert_eq!(decimal(""), None);
    assert_eq!(decimal("-"), None);
    assert_eq!(decimal("."), None);
    assert_eq!(decimal("e5"), None);
    assert_eq!(decimal("1.5 "), None);
    assert_eq!(decimal(" 1.5"), None);
    assert_eq!(decimal("1.5e"), None);
    assert_eq!(decimal("1.5x"), None);
    assert_eq!(decimal("NaN"), None);
    assert_eq!(decimal("inf"), None);
    assert_eq!(decimal("1e9223372036854775807").map(|d| d.exponent()), Some(i64::MAX));
    assert_eq!(decimal("1e9223372036854775808").map(|d| d.exponent()), Some(i64::MAX));
    assert_eq!(decimal("1e-99999999999999999999").map(|d| d.exponent()), Some(i64::MIN));
}

#[test]
fn decimal_of_a_float() {
    for f in [0.0, 1.0, -1.0, 0.1, 1.32, -123.3e3, 5e-324, 1.7976931348623157e308, 3.5554] {
        let d = decimal(&format!("{:e}", f)).unwrap();
        assert_eq!(d.to_text().parse::<f64>().unwrap(), f);
    }
}
