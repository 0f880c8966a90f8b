use edix::commands::{AuditSummary, RowStatus};
use edix::report::{
    audit_report, csv_header, csv_records, decimal_string, excel_detail_headers, excel_summary,
    excel_workbook, highlight_of, join_strings, markdown_report, row_status_text, text_of_lines,
    CellContent, CellStyle, ExcelCell, Highlight,
};
use edix::types::{ComparisonResult, Mismatch, MismatchType, SheetData, Similarity};

fn strings(v: &[&str]) -> Vec<String> {
    v.iter().map(|s| s.to_string()).collect()
}

fn mismatch(row: usize, key: &str, field: &str, s: &str, c: &str, t: MismatchType) -> Mismatch {
    Mismatch {
        row_number: row,
        key_value: key.to_string(),
        field: field.to_string(),
        source_value: s.to_string(),
        compare_value: c.to_string(),
        mismatch_type: t,
        similarity: None,
    }
}

fn result(mismatches: Vec<Mismatch>) -> ComparisonResult {
    let n = mismatches.len();
    ComparisonResult {
        source_name: "Bank".to_string(),
        compare_name: "GL".to_string(),
        key_columns: strings(&["id", "name"]),
        compare_columns: strings(&["amount"]),
        source_row_count: 5,
        compare_row_count: 4,
        matched_rows: 4,
        mismatched_rows: n,
        missing_in_compare: 1,
        missing_in_source: 0,
        field_mismatches: 1,
        type_mismatches: 0,
        total_mismatches: n,
        mismatches,
    }
}

#[test]
fn small_text_helpers() {
    assert_eq!(decimal_string(0), "0");
    assert_eq!(decimal_string(1024), "1024");
    assert_eq!(join_strings(&strings(&["a", "b", "c"]), ", "), "a, b, c");
    assert_eq!(join_strings(&vec![], "|"), "");
    assert_eq!(text_of_lines(&strings(&["x", "", "y"])), "x\n\ny\n");
}

#[test]
fn csv_report_records() {
    assert_eq!(
        csv_header(),
        strings(&["source_sheet", "compare_sheet", "key_columns", "compare_columns", "row_number", "key_value", "field", "source_value", "compare_value", "mismatch_type", "similarity"])
    );
    let r = result(vec![mismatch(3, "7|bo", "amount", "10", "12", MismatchType::ValueMismatch)]);
    let recs = csv_records(&r, &strings(&["ValueMismatch"]), &strings(&["0.5000"]));
    assert_eq!(recs, vec![strings(&["Bank", "GL", "id|name", "amount", "3", "7|bo", "amount", "10", "12", "ValueMismatch", "0.5000"])]);
}

#[test]
fn markdown_report_without_mismatches_has_only_the_summary() {
    let r = result(vec![]);
    let md = markdown_report(&r, "80.00", "12", &vec![], &vec![]);
    let expected = "# edix Comparison Report\n\n**Source:** Bank\n**Compare:** GL\n**Key Columns:** id, name\n**Compare Columns:** amount\n\n## Summary\n\n| Metric | Value |\n|--------|-------|\n| Source Rows | 5 |\n| Compare Rows | 4 |\n| Matched Rows | 4 |\n| Mismatched Rows | 0 |\n| Missing in Compare | 1 |\n| Missing in Source | 0 |\n| Field Mismatches | 1 |\n| Type Mismatches | 0 |\n| Total Mismatches | 0 |\n| Match Rate | 80.00% |\n| Execution Time | 12 ms |\n\n";
    assert_eq!(md, expected);
}

#[test]
fn markdown_report_lists_mismatches_with_escaped_values() {
    let r = result(vec![mismatch(4, "k", "note", "a|b", "line\nbreak", MismatchType::ValueMismatch)]);
    let md = markdown_report(&r, "80.00", "3", &strings(&["ValueMismatch"]), &strings(&["N/A"]));
    assert!(md.ends_with("## Mismatches\n\n| Row | Key | Field | Source | Compare | Type | Similarity |\n|-----|-----|-------|--------|---------|------|------------|\n| 4 | k | note | a\\|b | line break | ValueMismatch | N/A |\n"));
}

#[test]
fn excel_summary_rows_and_highlights() {
    let r = result(vec![]);
    let rows = excel_summary(&r, "80.00", "9");
    assert_eq!(rows.len(), 15);
    assert_eq!(rows[0], ("Source".to_string(), "Bank".to_string()));
    assert_eq!(rows[2], ("Key Columns".to_string(), "id, name".to_string()));
    assert_eq!(rows[13], ("Match Rate %".to_string(), "80.00".to_string()));
    assert_eq!(rows[14], ("Execution Time (ms)".to_string(), "9".to_string()));
    assert_eq!(highlight_of(MismatchType::MissingInSource), Highlight::Missing);
    assert_eq!(highlight_of(MismatchType::MissingInCompare), Highlight::Missing);
    assert_eq!(highlight_of(MismatchType::TypeMismatch), Highlight::TypeMismatch);
    assert_eq!(highlight_of(MismatchType::ValueMismatch), Highlight::Mismatch);
    assert_eq!(highlight_of(MismatchType::FuzzyMatch { similarity: Similarity { distance: 1, length: 5 } }), Highlight::Mismatch);
    assert_eq!(excel_detail_headers(), strings(&["Row", "Key Value", "Field", "Source Value", "Compare Value", "Mismatch Type", "Similarity"]));
}

#[test]
fn quick_audit_summary_text() {
    assert_eq!(row_status_text(RowStatus::SourceHasMore(3)), "Source has 3 more rows");
    assert_eq!(row_status_text(RowStatus::CompareHasMore(1)), "Compare has 1 more rows");
    assert_eq!(row_status_text(RowStatus::Match), "Row counts match");
    let mut s = SheetData::new("a.csv");
    s.headers = strings(&["id", "x"]);
    let mut c = SheetData::new("b.csv");
    c.headers = strings(&["id"]);
    let a = AuditSummary {
        common_columns: strings(&["id"]),
        source_only: strings(&["x"]),
        compare_only: vec![],
        type_mismatches: vec![],
        row_status: RowStatus::Match,
    };
    let text = audit_report(&s, &c, &a, "50", "75.0");
    assert_eq!(
        text,
        "### Quick Audit Report\n\n| Metric | Source | Compare |\n|--------|--------|---------|\n| File | a.csv | b.csv |\n| Rows | 0 | 0 |\n| Columns | 2 | 1 |\n| Column Overlap | 1 / 2 (50%) | |\n| Row Status | Row counts match | |\n| Audit Score | 75.0% | |\n\n"
    );
}

fn cell(t: &str, style: CellStyle) -> ExcelCell {
    ExcelCell { content: CellContent::Text(t.to_string()), style }
}

#[test]
fn excel_workbook_layout() {
    let clean = excel_workbook(&result(vec![]), "100.00", "7", &vec![], &vec![]);
    assert_eq!(clean.len(), 1);
    assert_eq!(clean[0].name, "Summary");
    assert_eq!(clean[0].rows.len(), 16);
    assert_eq!(clean[0].rows[0], vec![cell("Metric", CellStyle::Header), cell("Value", CellStyle::Header)]);
    assert_eq!(clean[0].rows[1], vec![cell("Source", CellStyle::Normal), cell("Bank", CellStyle::Normal)]);
    assert_eq!(clean[0].rows[3], vec![cell("Key Columns", CellStyle::Normal), cell("id, name", CellStyle::Normal)]);
    assert_eq!(clean[0].rows[15], vec![cell("Execution Time (ms)", CellStyle::Normal), cell("7", CellStyle::Normal)]);
    assert!(clean[0].column_widths.is_empty());

    let r = result(vec![
        mismatch(3, "7", "amount", "10", "12", MismatchType::ValueMismatch),
        mismatch(9, "8", "", "x", "", MismatchType::MissingInCompare),
        mismatch(4, "2", "date", "1", "a", MismatchType::TypeMismatch),
    ]);
    let kinds = strings(&["ValueMismatch", "MissingInCompare", "TypeMismatch"]);
    let scores = strings(&["N/A", "N/A", "N/A"]);
    let book = excel_workbook(&r, "80.00", "12", &kinds, &scores);
    assert_eq!(book.len(), 2);
    assert_eq!(book[0].rows[14], vec![cell("Match Rate %", CellStyle::Normal), cell("80.00", CellStyle::Normal)]);
    let detail = &book[1];
    assert_eq!(detail.name, "Mismatches");
    assert_eq!(detail.rows.len(), 4);
    let titles: Vec<ExcelCell> = excel_detail_headers().iter().map(|t| cell(t, CellStyle::Header)).collect();
    assert_eq!(detail.rows[0], titles);
    let red = CellStyle::Highlighted(Highlight::Mismatch);
    assert_eq!(
        detail.rows[1],
        vec![
            ExcelCell { content: CellContent::Number(3), style: red },
            cell("7", red),
            cell("amount", red),
            cell("10", red),
            cell("12", red),
            cell("ValueMismatch", red),
            cell("N/A", red),
        ]
    );
    assert_eq!(detail.rows[2][0], ExcelCell { content: CellContent::Number(9), style: CellStyle::Highlighted(Highlight::Missing) });
    assert_eq!(detail.rows[3][5], cell("TypeMismatch", CellStyle::Highlighted(Highlight::TypeMismatch)));
    assert_eq!(detail.column_widths, vec![(0, 0, 8), (1, 1, 25), (2, 2, 20), (3, 4, 30), (5, 5, 20), (6, 6, 12)]);
}
