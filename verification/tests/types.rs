use edix::types::{row_key_string, CellValue, DataRow, MatchType, SheetData, ValueType};

fn text(s: &str) -> CellValue {
    CellValue::String(s.to_string(), None)
}

fn row(n: usize, values: Vec<(&str, CellValue)>) -> DataRow {
    DataRow { row_number: n, values: values.into_iter().map(|(k, v)| (k.to_string(), v)).collect() }
}

fn normalized(v: &CellValue) -> String {
    v.to_normalized()
}

#[test]
fn normalized_forms_of_each_kind() {
    assert_eq!(normalized(&text("  Hello World ")), "hello world");
    assert_eq!(normalized(&CellValue::Number("1500".to_string())), "1500");
    assert_eq!(normalized(&CellValue::Date("2023-01-02".to_string())), "2023-01-02");
    assert_eq!(normalized(&CellValue::Boolean(true)), "true");
    assert_eq!(normalized(&CellValue::Boolean(false)), "false");
    assert_eq!(normalized(&CellValue::Empty), "");
    assert_eq!(normalized(&CellValue::Error("#DIV/0!".to_string())), "error:#DIV/0!");
}

#[test]
fn only_empty_cells_are_empty() {
    assert!(CellValue::Empty.is_empty());
    assert!(!text("").is_empty());
    assert!(!CellValue::Boolean(false).is_empty());
}

#[test]
fn text_coerces_to_the_number_it_reads_as() {
    let v = CellValue::String(" 1,234 ".to_string(), Some("1234".to_string()));
    assert_eq!(v.coerce_to(&ValueType::Number), Some(CellValue::Number("1234".to_string())));
    assert_eq!(text("abc").coerce_to(&ValueType::Number), None);
}

#[test]
fn numbers_and_dates_coerce_to_text() {
    let n = CellValue::Number("12.5".to_string());
    assert_eq!(n.coerce_to(&ValueType::String), Some(CellValue::String("12.5".to_string(), Some("12.5".to_string()))));
    let d = CellValue::Date("2023-01-02".to_string());
    assert_eq!(d.coerce_to(&ValueType::String), Some(text("2023-01-02")));
    assert_eq!(d.coerce_to(&ValueType::Date), Some(d.clone()));
    assert_eq!(CellValue::Boolean(true).coerce_to(&ValueType::Number), None);
    assert_eq!(CellValue::Empty.coerce_to(&ValueType::Auto), None);
}

#[test]
fn text_coerces_to_a_date_in_the_first_format_that_parses() {
    assert_eq!(text(" 2023-01-02 ").coerce_to(&ValueType::Date), Some(CellValue::Date("2023-01-02".to_string())));
    // Day first is tried before month first.
    assert_eq!(text("03/04/2023").coerce_to(&ValueType::Date), Some(CellValue::Date("2023-04-03".to_string())));
    assert_eq!(text("12/31/2023").coerce_to(&ValueType::Date), Some(CellValue::Date("2023-12-31".to_string())));
    assert_eq!(text("2023/07/09").coerce_to(&ValueType::Date), Some(CellValue::Date("2023-07-09".to_string())));
    assert_eq!(text("09-07-2023").coerce_to(&ValueType::Date), Some(CellValue::Date("2023-07-09".to_string())));
    assert_eq!(text("not a date").coerce_to(&ValueType::Date), None);
}

#[test]
fn a_row_gives_the_last_value_stored_for_a_column() {
    let r = row(3, vec![("a", text("first")), ("b", text("x")), ("a", text(" Second "))]);
    assert_eq!(r.get("a"), Some(&text(" Second ")));
    assert_eq!(r.get("c"), None);
    assert_eq!(r.get_normalized("a"), "second");
    assert_eq!(r.get_normalized("c"), "");
    let fresh = DataRow::new(7);
    assert_eq!(fresh.row_number, 7);
    assert!(fresh.values.is_empty());
}

#[test]
fn row_keys_join_normalized_values_with_bars() {
    let r = row(2, vec![("id", CellValue::Number("1".to_string())), ("name", text(" Alice "))]);
    let keys = vec!["id".to_string(), "name".to_string(), "missing".to_string()];
    assert_eq!(row_key_string(&r, &keys), "1|alice|");
    assert_eq!(row_key_string(&r, &[]), "");
}

#[test]
fn key_map_keeps_each_key_once_with_its_last_row() {
    let mut s = SheetData::new("s");
    s.rows = vec![
        row(2, vec![("k", text("b"))]),
        row(3, vec![("k", text("a"))]),
        row(4, vec![("k", text(" "))]),
        row(5, vec![("k", text("B"))]),
    ];
    let m = s.build_key_map(&["k".to_string()]);
    assert_eq!(m.entries, vec![("b".to_string(), 3), ("a".to_string(), 1)]);
    assert_eq!(m.find(&"a".to_string()), Some(1));
    assert_eq!(m.find(&"z".to_string()), None);
}

#[test]
fn sheet_accessors() {
    let mut s = SheetData::new("Data");
    assert_eq!(s.name, "Data");
    assert_eq!(s.row_count(), 0);
    s.rows = vec![row(2, vec![("a", text("1"))]), row(3, vec![("b", text("2"))]), row(4, vec![("a", text("3"))])];
    s.column_types = vec![("a".to_string(), ValueType::Number), ("a".to_string(), ValueType::Date)];
    assert_eq!(s.row_count(), 3);
    assert_eq!(s.column_values("a"), vec![text("1"), text("3")]);
    assert_eq!(s.column_type("a"), Some(ValueType::Date));
    assert_eq!(s.column_type("b"), None);
}

#[test]
fn defaults() {
    assert_eq!(ValueType::default(), ValueType::Auto);
    assert_eq!(MatchType::default(), MatchType::Exact);
}
