use edix::config::CsvOptions;
use edix::io::{
    build_csv_sheet, command_line_kind, csv_delimiter, csv_has_headers, detect_column_type,
    load_any_kind, normalize_headers, parse_sheet, select_sheet, CsvField, RangeCell,
    SheetChoiceError, SourceKind,
};
use edix::types::{CellValue, DataRow, ValueType};

fn strings(v: &[&str]) -> Vec<String> {
    v.iter().map(|s| s.to_string()).collect()
}

fn text(s: &str) -> CellValue {
    CellValue::String(s.to_string(), None)
}

fn cell(v: CellValue, t: &str) -> RangeCell {
    RangeCell { value: v, text: t.to_string() }
}

fn field(t: &str, n: Option<&str>) -> CsvField {
    CsvField { text: t.to_string(), number: n.map(|x| x.to_string()) }
}

fn pairs(r: &DataRow) -> Vec<(String, CellValue)> {
    r.values.iter().map(|(k, v)| (k.clone(), v.clone())).collect()
}

#[test]
fn headers_are_normalized() {
    let got = normalize_headers(&strings(&[
        " Invoice ID ",
        "Amount (USD)",
        "due-date",
        "a.b/c\\d#e",
        "Note: x;y",
        "[x]",
        "__x__",
    ]));
    assert_eq!(got, strings(&["invoice_id", "amount_usd", "due_date", "a_b_c_d_e", "note_xy", "x", "x_2"]));
}

#[test]
fn empty_headers_are_named_by_position_and_repeats_are_numbered() {
    let got = normalize_headers(&strings(&["", "Name", "name", "  ", "NAME", "--"]));
    assert_eq!(got, strings(&["column_1", "name", "name_2", "column_4", "name_3", "column_6"]));
}

#[test]
fn double_underscores_are_collapsed_once() {
    // `____` becomes `__` after one pass of replacing `__` by `_`.
    assert_eq!(normalize_headers(&strings(&["a    b"])), strings(&["a__b"]));
}

fn typed_rows() -> Vec<DataRow> {
    vec![
        DataRow { row_number: 2, values: vec![("a".to_string(), CellValue::Number("1".to_string())), ("b".to_string(), CellValue::Boolean(true))] },
        DataRow { row_number: 3, values: vec![("a".to_string(), text("x")), ("b".to_string(), CellValue::Empty)] },
        DataRow { row_number: 4, values: vec![("a".to_string(), CellValue::Number("2".to_string())), ("c".to_string(), CellValue::Date("2023-01-01".to_string()))] },
        DataRow { row_number: 5, values: vec![("c".to_string(), text("y")), ("d".to_string(), CellValue::Error("e".to_string()))] },
    ]
}

#[test]
fn column_type_is_the_most_common_kind() {
    let rows = typed_rows();
    assert_eq!(detect_column_type(&rows, "a"), ValueType::Number);
    assert_eq!(detect_column_type(&rows, "b"), ValueType::Boolean);
    // One date and one text tie: dates come first.
    assert_eq!(detect_column_type(&rows, "c"), ValueType::Date);
    // Errors count as text.
    assert_eq!(detect_column_type(&rows, "d"), ValueType::String);
    // No values at all.
    assert_eq!(detect_column_type(&rows, "zzz"), ValueType::String);
}

#[test]
fn excel_range_is_laid_out_under_its_headers() {
    let range = vec![
        vec![cell(text("ID"), " ID "), cell(text("Full Name"), "Full Name")],
        vec![cell(CellValue::Number("0".to_string()), "0"), cell(text("Bo"), "Bo")],
        vec![cell(CellValue::Number("1".to_string()), "1"), cell(text("Ann"), "Ann")],
        vec![cell(CellValue::Empty, ""), cell(CellValue::Empty, "")],
        vec![cell(CellValue::Number("2".to_string()), "2"), cell(CellValue::Empty, ""), cell(text("extra"), "extra")],
    ];
    let s = parse_sheet(&range, "Sheet1", 1);
    assert_eq!(s.name, "Sheet1");
    assert_eq!(s.headers, strings(&["id", "full_name"]));
    // Every row after the header row is loaded, numbered as in the sheet; rows without values
    // are dropped.
    assert_eq!(s.rows.len(), 3);
    assert_eq!(s.rows[0].row_number, 2);
    assert_eq!(pairs(&s.rows[0]), vec![("id".to_string(), CellValue::Number("0".to_string())), ("full_name".to_string(), text("Bo"))]);
    assert_eq!(s.rows[1].row_number, 3);
    assert_eq!(pairs(&s.rows[1]), vec![("id".to_string(), CellValue::Number("1".to_string())), ("full_name".to_string(), text("Ann"))]);
    assert_eq!(s.rows[2].row_number, 5);
    assert_eq!(pairs(&s.rows[2]), vec![("id".to_string(), CellValue::Number("2".to_string()))]);
    assert_eq!(s.column_types, vec![("id".to_string(), ValueType::Number), ("full_name".to_string(), ValueType::String)]);
}

#[test]
fn a_two_row_range_has_one_data_row() {
    let range = vec![vec![cell(text("a"), "a")], vec![cell(text("x"), "x")]];
    let s = parse_sheet(&range, "S", 1);
    assert_eq!(s.rows.len(), 1);
    assert_eq!(s.rows[0].row_number, 2);
    let s = parse_sheet(&range, "S", 0);
    assert_eq!(s.rows.len(), 1);
    assert_eq!(s.headers, strings(&["a"]));
}

#[test]
fn excel_range_without_its_header_row_gets_generated_headers() {
    let range = vec![vec![cell(text("a"), "a"), cell(text("b"), "b")]];
    let s = parse_sheet(&range, "S", 5);
    assert_eq!(s.headers, strings(&["column_1", "column_2"]));
    assert!(s.rows.is_empty());
    let empty = parse_sheet(&[], "E", 1);
    assert!(empty.headers.is_empty() && empty.rows.is_empty() && empty.column_types.is_empty());
}

#[test]
fn csv_records_become_rows() {
    let records = vec![
        vec![field("Code", None), field("Amount", None)],
        vec![field("A1", None), field(" 1,000 ", Some("1000"))],
        vec![field("  ", None), field("", None)],
        vec![field("B2", None), field("n/a", None)],
    ];
    let s = build_csv_sheet("data", &records, true, None);
    assert_eq!(s.name, "data");
    assert_eq!(s.headers, strings(&["code", "amount"]));
    assert_eq!(s.rows.len(), 2);
    assert_eq!(s.rows[0].row_number, 2);
    assert_eq!(pairs(&s.rows[0]), vec![("code".to_string(), text("A1")), ("amount".to_string(), CellValue::Number("1000".to_string()))]);
    assert_eq!(s.rows[1].row_number, 4);
    assert_eq!(pairs(&s.rows[1]), vec![("code".to_string(), text("B2")), ("amount".to_string(), text("n/a"))]);
    assert_eq!(s.column_types, vec![("code".to_string(), ValueType::String), ("amount".to_string(), ValueType::Number)]);
}

#[test]
fn csv_records_without_headers_get_generated_names() {
    let records = vec![vec![field("x", None), field("7", Some("7"))]];
    let s = build_csv_sheet("d", &records, false, Some(10));
    assert_eq!(s.headers, strings(&["column_1", "column_2"]));
    assert_eq!(s.rows.len(), 1);
    assert_eq!(s.rows[0].row_number, 10);
    let empty = build_csv_sheet("d", &[], true, None);
    assert!(empty.headers.is_empty() && empty.rows.is_empty());
}

#[test]
fn csv_options_give_delimiter_and_header_flag() {
    let opts = CsvOptions { delimiter: ";x".to_string(), has_headers: false, encoding: "utf-8".to_string() };
    assert_eq!(csv_delimiter(Some(&opts)), b';');
    assert!(!csv_has_headers(Some(&opts)));
    let blank = CsvOptions { delimiter: String::new(), has_headers: true, encoding: String::new() };
    assert_eq!(csv_delimiter(Some(&blank)), b',');
    assert_eq!(csv_delimiter(None), b',');
    assert!(csv_has_headers(None));
}

#[test]
fn sheet_selection() {
    let names = strings(&["Data", "GL"]);
    assert_eq!(select_sheet(&names, None).ok(), Some("Data".to_string()));
    assert_eq!(select_sheet(&names, Some("GL")).ok(), Some("GL".to_string()));
    match select_sheet(&names, Some("gl")) {
        Err(SheetChoiceError::NotFound(n)) => assert_eq!(n, "gl"),
        other => panic!("unexpected {:?}", other),
    }
    assert!(matches!(select_sheet(&[], Some("x")), Err(SheetChoiceError::NoSheets)));
}

#[test]
fn file_kind_by_extension() {
    assert_eq!(load_any_kind("CSV"), SourceKind::Csv);
    assert_eq!(load_any_kind("tsv"), SourceKind::Csv);
    assert_eq!(load_any_kind("Xlsx"), SourceKind::Excel);
    assert_eq!(load_any_kind("xlsm"), SourceKind::Unknown);
    assert_eq!(command_line_kind("XLSM"), SourceKind::Excel);
    assert_eq!(command_line_kind("txt"), SourceKind::Csv);
    assert_eq!(command_line_kind("tsv"), SourceKind::Unknown);
    assert_eq!(command_line_kind(""), SourceKind::Unknown);
}

fn read_number(s: String) -> Option<String> {
    s.trim().replace(',', "").parse::<f64>().ok().map(|n| n.to_string())
}

#[test]
fn csv_bytes_load_with_headers_from_the_first_line() {
    let bytes = b"Code,Amount\nA1,\"1,000\"\n , \nB2,n/a\n";
    let s = edix::loading::load_csv_bytes("data", bytes, None, None, read_number).unwrap();
    assert_eq!(s.name, "data");
    assert_eq!(s.headers, strings(&["code", "amount"]));
    assert_eq!(s.rows.len(), 2);
    assert_eq!(s.rows[0].row_number, 2);
    assert_eq!(pairs(&s.rows[0]), vec![("code".to_string(), text("A1")), ("amount".to_string(), CellValue::Number("1000".to_string()))]);
    assert_eq!(s.rows[1].row_number, 4);
    assert_eq!(s.column_types, vec![("code".to_string(), ValueType::String), ("amount".to_string(), ValueType::Number)]);
}

#[test]
fn csv_bytes_with_options() {
    let opts = CsvOptions { delimiter: ";".to_string(), has_headers: false, encoding: "utf-8".to_string() };
    let s = edix::loading::load_csv_bytes("d", b"x;7\ny;8\n", Some(&opts), None, read_number).unwrap();
    assert_eq!(s.headers, strings(&["column_1", "column_2"]));
    assert_eq!(s.rows.len(), 2);
    assert_eq!(s.rows[0].row_number, 1);
    assert_eq!(pairs(&s.rows[1]), vec![("column_1".to_string(), text("y")), ("column_2".to_string(), CellValue::Number("8".to_string()))]);
    let empty = edix::loading::load_csv_bytes("e", b"", None, None, read_number).unwrap();
    assert!(empty.headers.is_empty() && empty.rows.is_empty());
}

#[test]
fn csv_bytes_that_do_not_parse_or_overflow() {
    // Records of different lengths are refused by the parser.
    let r = edix::loading::load_csv_bytes("d", b"a,b\nc\n", None, None, read_number);
    assert!(matches!(r, Err(edix::loading::CsvLoadError::Parse(_))));
    let r = edix::loading::load_csv_bytes("d", b"a\nb\nc\n", None, Some(usize::MAX), read_number);
    assert!(matches!(r, Err(edix::loading::CsvLoadError::RowNumbersOverflow)));
}
