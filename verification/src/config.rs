//! Configuration of a comparison job.

use vstd::prelude::*;
use crate::types::{strings_view, MatchType, Ratio, ValueType};

verus! {

/// Where to read a sheet from.
#[derive(Debug)]
pub struct FileConfig {
    pub path: String,
    pub sheet: Option<String>,
    pub csv_options: Option<CsvOptions>,
    pub header_row: Option<usize>,
}

impl Default for FileConfig {
    fn default() -> (r: Self)
        ensures
            r.path@ == "data.xlsx"@,
            r.sheet is None,
            r.csv_options is None,
            r.header_row == Some(1usize),
    {
        FileConfig {
            path: String::from_str("data.xlsx"),
            sheet: None,
            csv_options: None,
            header_row: Some(1),
        }
    }
}

/// How to read a CSV file.
#[derive(Debug)]
pub struct CsvOptions {
    pub delimiter: String,
    pub has_headers: bool,
    pub encoding: String,
}

/// Where and how to write the results.
#[derive(Debug)]
pub struct OutputConfig {
    pub format: OutputFormat,
    pub path: String,
    pub include_summary: bool,
    pub highlight_mismatches: bool,
    pub max_rows_per_file: usize,
}

impl Default for OutputConfig {
    fn default() -> (r: Self)
        ensures
            r.format == OutputFormat::Csv,
            r.path@ == "edix_output"@,
            r.include_summary,
            r.highlight_mismatches,
            r.max_rows_per_file == 500_000,
    {
        OutputConfig {
            format: OutputFormat::Csv,
            path: String::from_str("edix_output"),
            include_summary: true,
            highlight_mismatches: true,
            max_rows_per_file: 500_000,
        }
    }
}

/// The format of the output files.
#[derive(Debug, Clone, Copy, PartialEq, Eq, Structural)]
pub enum OutputFormat {
    Csv,
    Excel,
    Markdown,
    Json,
    /// Generate all formats
    All,
}

/// Matching rules.
#[derive(Debug)]
pub struct MatchingConfig {
    pub key_columns: Vec<String>,
    pub compare_columns: Vec<String>,
    pub match_type: MatchType,
    pub case_sensitive: bool,
}

impl Default for MatchingConfig {
    fn default() -> (r: Self)
        ensures
            strings_view(r.key_columns@) == seq!["id"@],
            r.compare_columns@.len() == 0,
            r.match_type == MatchType::Exact,
            !r.case_sensitive,
    {
        let mut key_columns = Vec::new();
        key_columns.push(String::from_str("id"));
        assert(strings_view(key_columns@) =~= seq!["id"@]);
        MatchingConfig {
            key_columns,
            compare_columns: Vec::new(),
            match_type: MatchType::Exact,
            case_sensitive: false,
        }
    }
}

/// The type that a column's values are coerced to.
#[derive(Debug)]
pub struct ColumnTypeConfig {
    pub column: String,
    pub target_type: ValueType,
}

/// Fuzzy matching settings.
#[derive(Debug)]
pub struct FuzzyConfig {
    pub enabled: bool,
    pub threshold: Ratio,
    pub columns: Vec<String>,
}

impl Default for FuzzyConfig {
    fn default() -> (r: Self)
        ensures
            !r.enabled,
            r.threshold == (Ratio { num: 85, den: 100 }),
            r.columns@.len() == 0,
    {
        FuzzyConfig { enabled: false, threshold: Ratio { num: 85, den: 100 }, columns: Vec::new() }
    }
}

/// Main configuration of a comparison job.
#[derive(Debug)]
pub struct EdixConfig {
    /// Job name (for reporting)
    pub name: String,
    /// Source file configuration
    pub source: FileConfig,
    /// Compare file(s) configuration
    pub compares: Vec<FileConfig>,
    /// Output configuration
    pub output: OutputConfig,
    /// Matching rules
    pub matching: MatchingConfig,
    /// Type coercion rules per column
    pub type_coercion: Vec<ColumnTypeConfig>,
    /// Fuzzy matching settings
    pub fuzzy: FuzzyConfig,
}

impl Default for EdixConfig {
    fn default() -> (r: Self)
        ensures
            r.name@ == "edix-comparison"@,
            r.source.path@ == "data.xlsx"@,
            r.source.sheet is None,
            r.source.csv_options is None,
            r.source.header_row == Some(1usize),
            r.compares@.len() == 0,
            r.output.format == OutputFormat::Csv,
            r.output.path@ == "edix_output"@,
            r.output.include_summary,
            r.output.highlight_mismatches,
            r.output.max_rows_per_file == 500_000,
            strings_view(r.matching.key_columns@) == seq!["id"@],
            r.matching.compare_columns@.len() == 0,
            r.matching.match_type == MatchType::Exact,
            !r.matching.case_sensitive,
            r.type_coercion@.len() == 0,
            !r.fuzzy.enabled,
            r.fuzzy.threshold == (Ratio { num: 85, den: 100 }),
            r.fuzzy.columns@.len() == 0,
    {
        EdixConfig {
            name: String::from_str("edix-comparison"),
            source: FileConfig::default(),
            compares: Vec::new(),
            output: OutputConfig::default(),
            matching: MatchingConfig::default(),
            type_coercion: Vec::new(),
            fuzzy: FuzzyConfig::default(),
        }
    }
}

impl EdixConfig {
    /// A sample configuration for a bank-statement against general-ledger reconciliation.
    pub fn generate_sample() -> (r: Self)
        ensures
            r.name@ == "bank-vs-gl-reconciliation"@,
            r.source.path@ == "bank_export.xlsx"@,
            r.source.sheet matches Some(s) && s@ == "Bank"@,
            r.source.csv_options matches Some(o) && o.delimiter@ == ","@ && o.has_headers
                && o.encoding@ == "utf-8"@,
            r.source.header_row == Some(1usize),
            r.compares@.len() == 1,
            r.compares@[0].path@ == "gl_export.xlsx"@,
            r.compares@[0].sheet matches Some(s) && s@ == "GL"@,
            r.compares@[0].csv_options is None,
            r.compares@[0].header_row == Some(1usize),
            r.output.format == OutputFormat::Csv,
            r.output.path@ == "reconciliation_result"@,
            r.output.include_summary,
            r.output.highlight_mismatches,
            r.output.max_rows_per_file == 500_000,
            strings_view(r.matching.key_columns@) == seq!["transaction_id"@],
            strings_view(r.matching.compare_columns@) == seq![
                "amount"@,
                "date"@,
                "description"@,
            ],
            r.matching.match_type == MatchType::Exact,
            !r.matching.case_sensitive,
            r.type_coercion@.len() == 2,
            r.type_coercion@[0].column@ == "amount"@,
            r.type_coercion@[0].target_type == ValueType::Number,
            r.type_coercion@[1].column@ == "date"@,
            r.type_coercion@[1].target_type == ValueType::Date,
            !r.fuzzy.enabled,
            r.fuzzy.threshold == (Ratio { num: 85, den: 100 }),
            strings_view(r.fuzzy.columns@) == seq!["description"@],
    {
        let mut compares = Vec::new();
        compares.push(
            FileConfig {
                path: String::from_str("gl_export.xlsx"),
                sheet: Some(String::from_str("GL")),
                csv_options: None,
                header_row: Some(1),
            },
        );
        let mut key_columns = Vec::new();
        key_columns.push(String::from_str("transaction_id"));
        assert(strings_view(key_columns@) =~= seq!["transaction_id"@]);
        let mut compare_columns = Vec::new();
        compare_columns.push(String::from_str("amount"));
        compare_columns.push(String::from_str("date"));
        compare_columns.push(String::from_str("description"));
        assert(strings_view(compare_columns@) =~= seq!["amount"@, "date"@, "description"@]);
        let mut type_coercion = Vec::new();
        type_coercion.push(
            ColumnTypeConfig { column: String::from_str("amount"), target_type: ValueType::Number },
        );
        type_coercion.push(
            ColumnTypeConfig { column: String::from_str("date"), target_type: ValueType::Date },
        );
        let mut fuzzy_columns = Vec::new();
        fuzzy_columns.push(String::from_str("description"));
        assert(strings_view(fuzzy_columns@) =~= seq!["description"@]);
        EdixConfig {
            name: String::from_str("bank-vs-gl-reconciliation"),
            source: FileConfig {
                path: String::from_str("bank_export.xlsx"),
                sheet: Some(String::from_str("Bank")),
                csv_options: Some(
                    CsvOptions {
                        delimiter: String::from_str(","),
                        has_headers: true,
                        encoding: String::from_str("utf-8"),
                    },
                ),
                header_row: Some(1),
            },
            compares,
            output: OutputConfig {
                format: OutputFormat::Csv,
                path: String::from_str("reconciliation_result"),
                include_summary: true,
                highlight_mismatches: true,
                max_rows_per_file: 500_000,
            },
            matching: MatchingConfig {
                key_columns,
                compare_columns,
                match_type: MatchType::Exact,
                case_sensitive: false,
            },
            type_coercion,
            fuzzy: FuzzyConfig {
                enabled: false,
                threshold: Ratio { num: 85, den: 100 },
                columns: fuzzy_columns,
            },
        }
    }
}

} // verus!
