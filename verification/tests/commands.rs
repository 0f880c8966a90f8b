use edix::commands::{
    contains_string, match_type_of, quick_audit, resolve_compare_columns, resolve_key_columns,
    resolve_match_type, KeyColumnError, MatchMode, RowStatus,
};
use edix::config::FuzzyConfig;
use edix::types::{DataRow, MatchType, Ratio, SheetData, ValueType};

fn strings(v: &[&str]) -> Vec<String> {
    v.iter().map(|s| s.to_string()).collect()
}

#[test]
fn match_modes_map_to_match_types() {
    assert_eq!(match_type_of(MatchMode::Exact), MatchType::Exact);
    assert_eq!(match_type_of(MatchMode::CaseInsensitive), MatchType::CaseInsensitive);
    assert_eq!(match_type_of(MatchMode::Fuzzy), MatchType::Fuzzy { threshold: Ratio { num: 4, den: 5 } });
}

#[test]
fn fuzzy_threshold_comes_from_the_command_line_then_the_configuration() {
    let off = FuzzyConfig { enabled: false, threshold: Ratio { num: 85, den: 100 }, columns: vec![] };
    let on = FuzzyConfig { enabled: true, threshold: Ratio { num: 9, den: 10 }, columns: vec![] };
    let given = Some(Ratio { num: 1, den: 2 });
    assert_eq!(resolve_match_type(MatchMode::Fuzzy, given, &on), MatchType::Fuzzy { threshold: Ratio { num: 1, den: 2 } });
    assert_eq!(resolve_match_type(MatchMode::Fuzzy, None, &on), MatchType::Fuzzy { threshold: Ratio { num: 9, den: 10 } });
    assert_eq!(resolve_match_type(MatchMode::Fuzzy, None, &off), MatchType::Fuzzy { threshold: Ratio { num: 4, den: 5 } });
    assert_eq!(resolve_match_type(MatchMode::Exact, given, &on), MatchType::Exact);
    assert_eq!(resolve_match_type(MatchMode::CaseInsensitive, None, &on), MatchType::CaseInsensitive);
}

#[test]
fn key_columns_are_given_configured_or_the_first_source_column() {
    let src = strings(&["id", "name", "amount"]);
    let cmp = strings(&["id", "name"]);
    assert_eq!(resolve_key_columns(&strings(&["name"]), &strings(&["id"]), &src, &cmp).ok(), Some(strings(&["name"])));
    assert_eq!(resolve_key_columns(&vec![], &strings(&["name", "id"]), &src, &cmp).ok(), Some(strings(&["name", "id"])));
    assert_eq!(resolve_key_columns(&vec![], &vec![], &src, &cmp).ok(), Some(strings(&["id"])));
}

#[test]
fn key_columns_must_exist_in_both_sheets() {
    let src = strings(&["id", "amount"]);
    let cmp = strings(&["id"]);
    assert!(matches!(resolve_key_columns(&vec![], &vec![], &vec![], &cmp), Err(KeyColumnError::NoKeyColumns)));
    match resolve_key_columns(&strings(&["id", "zip", "amount"]), &vec![], &src, &cmp) {
        Err(KeyColumnError::NotInSource(c)) => assert_eq!(c, "zip"),
        other => panic!("unexpected {:?}", other),
    }
    match resolve_key_columns(&strings(&["amount"]), &vec![], &src, &cmp) {
        Err(KeyColumnError::NotInCompare(c)) => assert_eq!(c, "amount"),
        other => panic!("unexpected {:?}", other),
    }
}

#[test]
fn compare_columns_default_to_the_non_key_source_columns() {
    let src = strings(&["id", "name", "amount", "date"]);
    assert_eq!(resolve_compare_columns(&strings(&["x"]), &strings(&["id"]), &src), strings(&["x"]));
    assert_eq!(resolve_compare_columns(&vec![], &strings(&["id", "date"]), &src), strings(&["name", "amount"]));
    assert!(contains_string(&src, &"date".to_string()));
    assert!(!contains_string(&src, &"Date".to_string()));
}

fn sheet(headers: &[&str], rows: usize, types: &[(&str, ValueType)]) -> SheetData {
    SheetData {
        name: "s".to_string(),
        headers: strings(headers),
        rows: (0..rows).map(|i| DataRow::new(i + 2)).collect(),
        column_types: types.iter().map(|(c, t)| (c.to_string(), *t)).collect(),
    }
}

#[test]
fn quick_audit_compares_structure() {
    let s = sheet(&["id", "amount", "date", "note"], 5, &[("id", ValueType::Number), ("amount", ValueType::Number), ("date", ValueType::Date)]);
    let c = sheet(&["id", "amount", "date", "extra"], 3, &[("id", ValueType::Number), ("amount", ValueType::String)]);
    let a = quick_audit(&s, &c);
    assert_eq!(a.common_columns, strings(&["id", "amount", "date"]));
    assert_eq!(a.source_only, strings(&["note"]));
    assert_eq!(a.compare_only, strings(&["extra"]));
    assert_eq!(
        a.type_mismatches,
        vec![
            ("amount".to_string(), ValueType::Number, ValueType::String),
            ("date".to_string(), ValueType::Date, ValueType::Auto),
        ]
    );
    assert_eq!(a.row_status, RowStatus::SourceHasMore(2));
    assert_eq!(quick_audit(&c, &s).row_status, RowStatus::CompareHasMore(2));
    assert_eq!(quick_audit(&s, &s).row_status, RowStatus::Match);
    assert!(quick_audit(&s, &s).type_mismatches.is_empty());
}
