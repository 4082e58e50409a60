use csv2beancount::decimal::Decimal;
use csv2beancount::decimal::parse_decimal;

#[test]
fn parse_plain_amount() {
    let d = parse_decimal("12.50").unwrap();
    assert_eq!(
        d,
        Decimal {
            negative: false,
            units: 1250,
            scale: 2,
        }
    );
}

#[test]
fn parse_signed_amounts() {
    let plus = parse_decimal("+3.5").unwrap();
    assert_eq!(
        plus,
        Decimal {
            negative: false,
            units: 35,
            scale: 1,
        }
    );
    let minus = parse_decimal("-7").unwrap();
    assert_eq!(
        minus,
        Decimal {
            negative: true,
            units: 7,
            scale: 0,
        }
    );
    assert_eq!(minus.render(), "-7");
}

#[test]
fn parse_rejects_non_amounts() {
    assert!(parse_decimal("").is_none());
    assert!(parse_decimal("abc").is_none());
    assert!(parse_decimal("1.2.3").is_none());
    assert!(parse_decimal(".").is_none());
    assert!(parse_decimal("-").is_none());
    assert!(parse_decimal("--1").is_none());
    assert!(parse_decimal("1,5").is_none());
    assert!(parse_decimal(" 1").is_none());
}

#[test]
fn parse_digit_count_limit() {
    let thirty_eight = "1".repeat(38);
    assert!(parse_decimal(&thirty_eight).is_some());
    let thirty_nine = "1".repeat(39);
    assert!(parse_decimal(&thirty_nine).is_none());
}

#[test]
fn render_keeps_trailing_zeros() {
    let d = parse_decimal("7.00").unwrap();
    assert_eq!(d.render(), "7.00");
    assert_eq!(d.neg().render(), "-7.00");
}

#[test]
fn render_pads_fractional_part() {
    assert_eq!(parse_decimal("0.05").unwrap().render(), "0.05");
    assert_eq!(parse_decimal(".5").unwrap().render(), "0.5");
    assert_eq!(parse_decimal("5.").unwrap().render(), "5");
    assert_eq!(parse_decimal("007").unwrap().render(), "7");
}

#[test]
fn negated_zero_keeps_its_sign() {
    let z = parse_decimal("0.00").unwrap();
    assert_eq!(z.render(), "0.00");
    assert_eq!(z.neg().render(), "-0.00");
}

#[test]
fn negation_is_involutive() {
    let d = parse_decimal("-12.34").unwrap();
    assert_eq!(d.neg().neg(), d);
    assert_eq!(d.neg().units, d.units);
    assert_eq!(d.neg().scale, d.scale);
    assert_eq!(d.neg().negative, !d.negative);
}
