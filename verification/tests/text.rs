use arbitrage_observer::text::{
    ascii_lowercase, ascii_uppercase, contains, contrast_text, copy_list, eq_ignore_ascii_case,
    integer_text, is_before, join, parse_integer, parse_unsigned, same_option, starts_with,
    strip_suffix, tail_after, uppercase,
};

#[test]
fn changes_the_case_of_letters() {
    assert_eq!(uppercase("btc-ß"), "BTC-SS");
    assert_eq!(ascii_lowercase("BTC-Ä"), "btc-Ä");
    assert_eq!(ascii_uppercase("btc-ä"), "BTC-ä");
    assert_eq!(ascii_lowercase("AMZ@[`{"), "amz@[`{");
    assert_eq!(ascii_uppercase("amz@[`{"), "AMZ@[`{");
    assert_eq!(ascii_lowercase(""), "");
}

#[test]
fn compares_ignoring_the_case_of_ascii_letters() {
    assert!(eq_ignore_ascii_case("Up", "uP"));
    assert!(!eq_ignore_ascii_case("Up", "Ups"));
    assert!(!eq_ignore_ascii_case("Ä", "ä"));
    assert!(!eq_ignore_ascii_case("[", "{"));
}

#[test]
fn writes_and_reads_integers() {
    assert_eq!(integer_text(i64::MIN), "-9223372036854775808");
    assert_eq!(integer_text(0), "0");
    assert_eq!(integer_text(-9), "-9");
    assert_eq!(integer_text(1_234_567_890), "1234567890");
    assert_eq!(parse_integer("+5"), Some(5));
    assert_eq!(parse_integer("-05"), Some(-5));
    assert_eq!(parse_integer("-9223372036854775808"), Some(i64::MIN));
    assert_eq!(parse_integer("9223372036854775808"), None);
    assert_eq!(parse_integer(""), None);
    assert_eq!(parse_integer("-"), None);
    assert_eq!(parse_integer(" 1"), None);
    assert_eq!(parse_unsigned("+250"), Some(250));
    assert_eq!(parse_unsigned("18446744073709551615"), Some(u64::MAX));
    assert_eq!(parse_unsigned("18446744073709551616"), None);
    assert_eq!(parse_unsigned("-1"), None);
    assert_eq!(parse_unsigned("-0"), None);
}

#[test]
fn finds_and_cuts_parts_of_a_text() {
    assert!(contains("HTTP/1.1 200 OK", " 200 "));
    assert!(!contains("HTTP/1.1 407", " 200 "));
    assert!(contains("abc", ""));
    assert!(starts_with("第二腿预检失败：x", "第二腿"));
    assert!(!starts_with("a", "ab"));
    assert_eq!(strip_suffix("BTCUSDT", "USDT"), "BTC");
    assert_eq!(strip_suffix("BTCUSD", "USDT"), "BTCUSD");
    assert_eq!(tail_after("btc-updown-5m-1789460900", '-'), "1789460900");
    assert_eq!(tail_after("plain", '-'), "plain");
    assert_eq!(tail_after("ends-", '-'), "");
}

#[test]
fn joins_and_contrasts() {
    let none: Vec<String> = vec![];
    assert_eq!(join(&none, "；"), "");
    let parts: Vec<String> = vec!["甲".into(), "乙".into(), "丙".into()];
    assert_eq!(join(&parts, "；"), "甲；乙；丙");
    assert_eq!(copy_list(&parts), parts);
    assert_eq!(contrast_text("币种不同：", "USDT", "USD"), "币种不同：USDT / USD");
}

#[test]
fn orders_texts_by_their_characters() {
    assert!(is_before("15m", "1h"));
    assert!(is_before("1h", "5m"));
    assert!(is_before("", "a"));
    assert!(is_before("a", "aa"));
    assert!(!is_before("a", "a"));
    assert!(is_before("z", "甲"));
    assert!(!is_before("b", "aa"));
}

#[test]
fn compares_optional_texts() {
    assert!(same_option(&None, &None));
    assert!(same_option(&Some("a".into()), &Some("a".into())));
    assert!(!same_option(&Some("a".into()), &None));
    assert!(!same_option(&Some("a".into()), &Some("b".into())));
}
