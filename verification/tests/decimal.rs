use arbitrage_observer::decimal::Decimal;

fn number(text: &str) -> Decimal {
    Decimal::parse(text).unwrap()
}

#[test]
fn adds_and_subtracts_at_the_larger_scale() {
    let total = Decimal::new(15, 1).checked_add(Decimal::new(25, 2)).unwrap();
    assert_eq!(total.mantissa(), 175);
    assert_eq!(total.scale(), 2);
    let rest = Decimal::new(15, 1).checked_sub(Decimal::new(250, 2)).unwrap();
    assert_eq!(rest.text(), "-1.00");
    assert_eq!(Decimal::zero().checked_sub(Decimal::new(5, 1)).unwrap().text(), "-0.5");
}

#[test]
fn multiplies_with_the_sum_of_the_scales() {
    let value = Decimal::new(12, 1).checked_mul(Decimal::new(-5, 2)).unwrap();
    assert_eq!(value.mantissa(), -60);
    assert_eq!(value.scale(), 3);
    let nothing = Decimal::new(12, 1).checked_mul(Decimal::zero()).unwrap();
    assert_eq!(nothing.text(), "0");
}

#[test]
fn divides_and_refuses_a_zero_divisor() {
    assert_eq!(Decimal::one().checked_div(Decimal::from_i64(4)).unwrap().text(), "0.25");
    assert_eq!(
        Decimal::one().checked_div(Decimal::from_i64(3)).unwrap().text(),
        "0.3333333333333333333333333333"
    );
    assert_eq!(Decimal::zero().checked_div(Decimal::new(30, 1)).unwrap().text(), "0");
    assert!(Decimal::one().checked_div(Decimal::zero()).is_none());
}

#[test]
fn overflow_is_reported() {
    let largest = Decimal::from_parts(79_228_162_514_264_337_593_543_950_335, 0).unwrap();
    assert!(largest.checked_add(Decimal::one()).is_none());
    assert!(largest.checked_mul(Decimal::from_i64(2)).is_none());
    assert!(largest.checked_sub(Decimal::from_i64(-1)).is_none());
    assert!(largest.checked_div(Decimal::new(1, 1)).is_none());
    assert!(Decimal::from_parts(79_228_162_514_264_337_593_543_950_336, 0).is_none());
    assert!(Decimal::from_parts(1, 29).is_none());
}

#[test]
fn compares_numbers_whatever_their_scale() {
    assert_eq!(number("1.0"), number("1.00"));
    assert!(number("0.1").less(&number("0.11")));
    assert!(!number("0.11").less(&number("0.110")));
    assert!(number("0.11").at_most(&number("0.110")));
    assert!(number("-2").less(&number("-1")));
    assert_eq!(number("2").min(number("3")).text(), "2");
    assert_eq!(number("2").max(number("3")).text(), "3");
    assert_eq!(number("2").max(number("2.0")).text(), "2");
}

#[test]
fn rounds_down_up_and_to_even() {
    assert_eq!(number("1.5").floor().text(), "1");
    assert_eq!(number("-1.5").floor().text(), "-2");
    assert_eq!(number("1.1").ceil().text(), "2");
    assert_eq!(number("-1.5").ceil().text(), "-1");
    assert_eq!(number("7").floor().text(), "7");
    assert_eq!(number("0.125").round_dp(2).text(), "0.12");
    assert_eq!(number("0.135").round_dp(2).text(), "0.14");
    assert_eq!(number("-0.1351").round_dp(2).text(), "-0.14");
    assert_eq!(number("0.1").round_dp(2).text(), "0.1");
}

#[test]
fn writes_and_reads_its_notation() {
    for text in ["0", "0.30", "-0.5", "12345.6789", "100", "0.0000000001"] {
        assert_eq!(number(text).text(), text);
    }
    assert_eq!(number("1.500").plain_text(), "1.5");
    assert_eq!(number("100").plain_text(), "100");
    assert_eq!(number("0.00").plain_text(), "0");
    assert_eq!(number("1.500").normalize().scale(), 1);
    assert_eq!(Decimal::from_u64(u64::MAX).text(), "18446744073709551615");
    assert!(Decimal::parse("").is_none());
    assert!(Decimal::parse("abc").is_none());
    assert!(Decimal::parse("1.2.3").is_none());
}

#[test]
fn tells_the_sign() {
    assert!(number("0.1").is_positive());
    assert!(!Decimal::zero().is_positive());
    assert!(number("-0.1").is_negative());
    assert!(number("0.0").is_zero());
    assert_eq!(number("-0.1").abs().text(), "0.1");
}

#[test]
fn quotients_have_the_sign_of_their_operands() {
    assert_eq!(Decimal::from_i64(-1).checked_div(Decimal::from_i64(4)).unwrap().text(), "-0.25");
    assert_eq!(Decimal::from_i64(-1).checked_div(Decimal::from_i64(-4)).unwrap().text(), "0.25");
    assert_eq!(Decimal::from_i64(1).checked_div(Decimal::from_i64(-4)).unwrap().text(), "-0.25");
}
