use arbitrage_observer::decimal::Decimal;
use arbitrage_observer::ladder::{sort_levels, total_quantity};
use arbitrage_observer::table::PairTable;

#[test]
fn keeps_one_value_per_key() {
    let mut table: PairTable<i64> = PairTable::new();
    assert_eq!(table.get("a", "A"), None);
    table.insert("a", "A", 1);
    table.insert("a", "B", 2);
    table.insert("a", "A", 3);
    assert_eq!(table.get("a", "A"), Some(3));
    assert_eq!(table.get("a", "B"), Some(2));
    table.remove("a", "A");
    assert_eq!(table.get("a", "A"), None);
    assert_eq!(table.get("a", "B"), Some(2));
}

#[test]
fn sorts_levels_and_keeps_the_order_of_equal_prices() {
    let levels = vec![
        (Decimal::new(50, 2), Decimal::from_i64(1)),
        (Decimal::new(40, 2), Decimal::from_i64(2)),
        (Decimal::new(5, 1), Decimal::from_i64(3)),
    ];
    let rising: Vec<String> =
        sort_levels(&levels, false).iter().map(|level| level.1.text()).collect();
    assert_eq!(rising, vec!["2", "1", "3"]);
    let falling: Vec<String> =
        sort_levels(&levels, true).iter().map(|level| level.1.text()).collect();
    assert_eq!(falling, vec!["1", "3", "2"]);
    assert_eq!(total_quantity(&levels), Some(Decimal::from_i64(6)));
}
