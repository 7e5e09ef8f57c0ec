use arbitrage_observer::schema::{column_alterations, trades_need_rebuilding};

#[test]
fn adds_the_columns_that_are_missing() {
    let present = vec!["slug".to_string(), "error".to_string()];
    let required = [("status", "TEXT"), ("error", "TEXT"), ("at_ms", "INTEGER")];
    assert_eq!(
        column_alterations("trades", &present, &required),
        vec![
            "ALTER TABLE trades ADD COLUMN status TEXT".to_string(),
            "ALTER TABLE trades ADD COLUMN at_ms INTEGER".to_string(),
        ]
    );
    assert!(column_alterations("trades", &present, &[]).is_empty());
}

#[test]
fn rebuilds_trades_of_the_first_model() {
    assert!(trades_need_rebuilding("CREATE TABLE t (UNIQUE(slug, direction))"));
    assert!(!trades_need_rebuilding("CREATE TABLE t (UNIQUE(slug, direction, fill_model))"));
    assert!(!trades_need_rebuilding("CREATE TABLE t (slug TEXT)"));
}
