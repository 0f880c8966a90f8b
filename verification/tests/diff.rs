use edix::diff::compare_sheets;
use edix::types::{CellValue, DataRow, MatchType, Mismatch, MismatchType, Ratio, SheetData, Similarity, ValueType};

fn text(s: &str) -> CellValue {
    CellValue::String(s.to_string(), None)
}

fn num(s: &str) -> CellValue {
    CellValue::Number(s.to_string())
}

fn row(n: usize, values: Vec<(&str, CellValue)>) -> DataRow {
    DataRow { row_number: n, values: values.into_iter().map(|(k, v)| (k.to_string(), v)).collect() }
}

fn sheet(name: &str, headers: &[&str], rows: Vec<DataRow>, types: &[(&str, ValueType)]) -> SheetData {
    SheetData {
        name: name.to_string(),
        headers: headers.iter().map(|h| h.to_string()).collect(),
        rows,
        column_types: types.iter().map(|(c, t)| (c.to_string(), *t)).collect(),
    }
}

fn strings(v: &[&str]) -> Vec<String> {
    v.iter().map(|s| s.to_string()).collect()
}

const HEADERS: [&str; 5] = ["id", "name", "amount", "status", "date"];
const TYPES: [(&str, ValueType); 5] = [
    ("id", ValueType::Number),
    ("name", ValueType::String),
    ("amount", ValueType::Number),
    ("status", ValueType::String),
    ("date", ValueType::Date),
];

fn person(n: usize, id: &str, name: &str, amount: CellValue, status: &str, date: &str) -> DataRow {
    row(
        n,
        vec![
            ("id", num(id)),
            ("name", text(name)),
            ("amount", amount),
            ("status", text(status)),
            ("date", CellValue::Date(date.to_string())),
        ],
    )
}

fn sample_source() -> SheetData {
    sheet(
        "Sheet1",
        &HEADERS,
        vec![
            person(2, "1", "Alice", num("2500"), "active", "2023-01-02"),
            person(3, "2", "Bob", num("1000"), "active", "2023-01-02"),
            person(4, "3", "Charlie", num("1500"), "active", "2023-01-03"),
            person(5, "4", "Dave", num("2000"), "active", "2023-01-04"),
            person(6, "5", "Eve", num("700"), "inactive", "2023-01-05"),
        ],
        &TYPES,
    )
}

fn sample_compare() -> SheetData {
    sheet(
        "Sheet2",
        &HEADERS,
        vec![
            person(2, "2", "Bob", num("1000"), "ACTIVE ", "2023-01-02"),
            person(3, "3", "Charlie", num("1600"), "inactive", "2023-01-03"),
            person(4, "4", "Dave", CellValue::String("2000".to_string(), Some("2000".to_string())), "active", "2023-01-04"),
            person(5, "5", "Eve", num("700"), "inactive", "2023-01-05"),
        ],
        &TYPES,
    )
}

fn record(m: &Mismatch) -> (usize, &str, &str, &str, &str, MismatchType) {
    (m.row_number, m.key_value.as_str(), m.field.as_str(), m.source_value.as_str(), m.compare_value.as_str(), m.mismatch_type)
}

#[test]
fn sample_reconciliation_reports_missing_value_and_type_mismatches() {
    let r = compare_sheets(
        &sample_source(),
        &sample_compare(),
        &strings(&["id", "name"]),
        &strings(&["amount", "status", "date"]),
        MatchType::Exact,
    );
    let got: Vec<_> = r.mismatches.iter().map(record).collect();
    assert_eq!(
        got,
        vec![
            (4, "3|charlie", "amount", "1500", "1600", MismatchType::ValueMismatch),
            (4, "3|charlie", "status", "active", "inactive", MismatchType::ValueMismatch),
            (5, "4|dave", "amount", "2000", "2000", MismatchType::TypeMismatch),
            (2, "1|alice", "-", "present in source", "MISSING", MismatchType::MissingInCompare),
        ]
    );
    assert_eq!(r.matched_rows, 4);
    assert_eq!(r.missing_in_compare, 1);
    assert_eq!(r.missing_in_source, 0);
    assert_eq!(r.field_mismatches, 2);
    assert_eq!(r.type_mismatches, 1);
    assert_eq!(r.total_mismatches, 4);
    assert_eq!(r.mismatched_rows, 4);
    assert_eq!(r.source_row_count, 5);
    assert_eq!(r.compare_row_count, 4);
    assert_eq!(r.source_name, "Sheet1");
    assert_eq!(r.compare_name, "Sheet2");
    assert_eq!(r.key_columns, strings(&["id", "name"]));
    assert!(r.mismatches.iter().all(|m| m.similarity.is_none()));
}

#[test]
fn comparing_a_sheet_with_itself_finds_nothing() {
    let s = sample_source();
    for mt in [MatchType::Exact, MatchType::CaseInsensitive, MatchType::Fuzzy { threshold: Ratio { num: 1, den: 1 } }] {
        let r = compare_sheets(&s, &s, &strings(&["id"]), &strings(&["name", "amount", "status", "date"]), mt);
        assert!(r.mismatches.is_empty());
        assert_eq!(r.matched_rows, 5);
        assert_eq!(r.missing_in_compare + r.missing_in_source, 0);
    }
}

#[test]
fn swapping_sheets_swaps_missing_counts() {
    let keys = strings(&["id"]);
    let cols = strings(&["amount"]);
    let a = compare_sheets(&sample_source(), &sample_compare(), &keys, &cols, MatchType::Exact);
    let b = compare_sheets(&sample_compare(), &sample_source(), &keys, &cols, MatchType::Exact);
    assert_eq!((a.missing_in_compare, a.missing_in_source), (1, 0));
    assert_eq!((b.missing_in_compare, b.missing_in_source), (0, 1));
    assert_eq!(a.matched_rows, b.matched_rows);
    let missing = b.mismatches.last().unwrap();
    assert_eq!(record(missing), (0, "1", "-", "MISSING", "present in compare", MismatchType::MissingInSource));
    assert_eq!(
        a.total_mismatches,
        a.field_mismatches + a.type_mismatches + a.missing_in_compare + a.missing_in_source
    );
}

#[test]
fn case_insensitive_matching_ignores_ascii_case() {
    let s = sheet("s", &["k", "v"], vec![row(2, vec![("k", text("a")), ("v", CellValue::Date("2023-AB".to_string()))])], &[]);
    let c = sheet("c", &["k", "v"], vec![row(2, vec![("k", text("A")), ("v", CellValue::Date("2023-ab".to_string()))])], &[]);
    let keys = strings(&["k"]);
    let cols = strings(&["v"]);
    let exact = compare_sheets(&s, &c, &keys, &cols, MatchType::Exact);
    assert_eq!(exact.mismatches.len(), 1);
    assert_eq!(exact.mismatches[0].mismatch_type, MismatchType::ValueMismatch);
    let ci = compare_sheets(&s, &c, &keys, &cols, MatchType::CaseInsensitive);
    assert!(ci.mismatches.is_empty());
}

#[test]
fn fuzzy_matching_tolerates_small_differences_and_scores_the_rest() {
    let s = sheet(
        "s",
        &["k", "d"],
        vec![row(2, vec![("k", text("1")), ("d", text("hello"))]), row(3, vec![("k", text("2")), ("d", text("apple"))])],
        &[],
    );
    let c = sheet(
        "c",
        &["k", "d"],
        vec![row(2, vec![("k", text("1")), ("d", text("hellp"))]), row(3, vec![("k", text("2")), ("d", text("grape"))])],
        &[],
    );
    let r = compare_sheets(&s, &c, &strings(&["k"]), &strings(&["d"]), MatchType::Fuzzy { threshold: Ratio { num: 4, den: 5 } });
    assert_eq!(r.mismatches.len(), 1);
    let m = &r.mismatches[0];
    assert_eq!(record(m), (3, "2", "d", "apple", "grape", MismatchType::ValueMismatch));
    assert_eq!(m.similarity, Some(Similarity { distance: 4, length: 10 }));
    assert_eq!(r.field_mismatches, 1);
}

#[test]
fn missing_values_and_coercion() {
    // A value on one side only is a mismatch shown as <missing>; text that reads as the same
    // number as the other side matches once coerced to the column's number type.
    let number_text = |t: &str, n: &str| CellValue::String(t.to_string(), Some(n.to_string()));
    let s = sheet(
        "s",
        &["k", "a", "b"],
        vec![
            row(2, vec![("k", text("x")), ("a", text("5"))]),
            row(3, vec![("k", text("y")), ("b", number_text("1,000", "1000"))]),
        ],
        &[("b", ValueType::Number)],
    );
    let c = sheet(
        "c",
        &["k", "a", "b"],
        vec![
            row(2, vec![("k", text("x"))]),
            row(3, vec![("k", text("y")), ("b", number_text("1000", "1000"))]),
        ],
        &[("b", ValueType::Number)],
    );
    let r = compare_sheets(&s, &c, &strings(&["k"]), &strings(&["a", "b"]), MatchType::Exact);
    let got: Vec<_> = r.mismatches.iter().map(record).collect();
    assert_eq!(got, vec![(2, "x", "a", "5", "<missing>", MismatchType::ValueMismatch)]);
}

#[test]
fn blank_keys_are_skipped_and_the_last_row_of_a_key_wins() {
    let s = sheet(
        "s",
        &["k", "v"],
        vec![
            row(2, vec![("k", text("a")), ("v", text("old"))]),
            row(3, vec![("k", text("  ")), ("v", text("ignored"))]),
            row(4, vec![("k", text("A ")), ("v", text("new"))]),
        ],
        &[],
    );
    let c = sheet("c", &["k", "v"], vec![row(7, vec![("k", text("a")), ("v", text("new"))])], &[]);
    let r = compare_sheets(&s, &c, &strings(&["k"]), &strings(&["v"]), MatchType::Exact);
    assert!(r.mismatches.is_empty());
    assert_eq!(r.matched_rows, 1);
}

#[test]
fn only_the_compared_columns_are_reported() {
    let r = compare_sheets(&sample_source(), &sample_compare(), &strings(&["id"]), &strings(&["status"]), MatchType::Exact);
    let fields: Vec<&str> = r.mismatches.iter().map(|m| m.field.as_str()).collect();
    assert_eq!(fields, vec!["status", "-"]);
}

#[test]
fn swapped_comparison_reports_missing_source_rows() {
    let r = compare_sheets(&sample_compare(), &sample_source(), &strings(&["id"]), &vec![], MatchType::Exact);
    assert_eq!(r.mismatches.len(), 1);
    assert_eq!(record(&r.mismatches[0]), (0, "1", "-", "MISSING", "present in compare", MismatchType::MissingInSource));
    assert_eq!(r.matched_rows, 4);
}
