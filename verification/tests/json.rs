use arbitrage_observer::json::{list_or_none, listed_texts, quoted, read_strings, stored_text};

fn texts(values: &[&str]) -> Vec<String> {
    values.iter().map(|value| value.to_string()).collect()
}

#[test]
fn reads_what_it_stored() {
    for list in [texts(&[]), texts(&["a"]), texts(&["甲\"乙", "\\", "\n\u{1}"])] {
        assert_eq!(listed_texts(Some(&stored_text(&list))), list);
    }
    assert_eq!(stored_text(&texts(&["a", "b\""])), "[\"a\",\"b\\\"\"]");
    assert_eq!(stored_text(&texts(&[])), "[]");
}

#[test]
fn counts_missing_and_unreadable_lists_as_empty() {
    assert!(listed_texts(None).is_empty());
    assert!(listed_texts(Some("")).is_empty());
    assert!(listed_texts(Some("{}")).is_empty());
    assert!(listed_texts(Some("[1]")).is_empty());
    assert_eq!(listed_texts(Some(" [\"x\"] ")), texts(&["x"]));
    assert!(read_strings("[1]").is_err());
    assert!(list_or_none(None).is_empty());
    assert!(list_or_none(Some(Err("bad".into()))).is_empty());
    assert_eq!(list_or_none(Some(Ok(texts(&["x"])))), texts(&["x"]));
}

#[test]
fn quotes_texts() {
    assert_eq!(quoted("btc/usd"), "\"btc/usd\"");
    assert_eq!(quoted("a\"b\\"), "\"a\\\"b\\\\\"");
}
