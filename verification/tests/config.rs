use edix::config::{EdixConfig, FileConfig, FuzzyConfig, MatchingConfig, OutputConfig, OutputFormat};
use edix::types::{MatchType, Ratio, ValueType};

#[test]
fn default_configuration() {
    let c = EdixConfig::default();
    assert_eq!(c.name, "edix-comparison");
    assert_eq!(c.source.path, "data.xlsx");
    assert_eq!(c.source.header_row, Some(1));
    assert!(c.compares.is_empty());
    assert_eq!(c.output.format, OutputFormat::Csv);
    assert_eq!(c.output.path, "edix_output");
    assert_eq!(c.output.max_rows_per_file, 500_000);
    assert_eq!(c.matching.key_columns, vec!["id".to_string()]);
    assert_eq!(c.matching.match_type, MatchType::Exact);
    assert!(!c.matching.case_sensitive);
    assert!(!c.fuzzy.enabled);
    assert_eq!(c.fuzzy.threshold, Ratio { num: 85, den: 100 });
}

#[test]
fn part_defaults() {
    let f = FileConfig::default();
    assert!(f.sheet.is_none() && f.csv_options.is_none());
    let o = OutputConfig::default();
    assert!(o.include_summary && o.highlight_mismatches);
    let m = MatchingConfig::default();
    assert!(m.compare_columns.is_empty());
    let z = FuzzyConfig::default();
    assert!(z.columns.is_empty());
}

#[test]
fn sample_configuration() {
    let c = EdixConfig::generate_sample();
    assert_eq!(c.name, "bank-vs-gl-reconciliation");
    assert_eq!(c.source.path, "bank_export.xlsx");
    assert_eq!(c.source.sheet.as_deref(), Some("Bank"));
    let opts = c.source.csv_options.as_ref().unwrap();
    assert_eq!(opts.delimiter, ",");
    assert!(opts.has_headers);
    assert_eq!(c.compares.len(), 1);
    assert_eq!(c.compares[0].sheet.as_deref(), Some("GL"));
    assert_eq!(c.output.path, "reconciliation_result");
    assert_eq!(c.matching.key_columns, vec!["transaction_id".to_string()]);
    assert_eq!(c.matching.compare_columns, vec!["amount".to_string(), "date".to_string(), "description".to_string()]);
    assert_eq!(c.type_coercion.len(), 2);
    assert_eq!(c.type_coercion[0].target_type, ValueType::Number);
    assert_eq!(c.type_coercion[1].column, "date");
    assert_eq!(c.fuzzy.columns, vec!["description".to_string()]);
}
