//! The contents of the comparison reports: the CSV records, the Markdown report, the rows of
//! the Excel summary, and the quick audit summary.
//!
//! Scores, rates and timings are measured quantities that the caller renders as text; the
//! functions here lay out everything else.

use vstd::prelude::*;
use crate::commands::{AuditSummary, RowStatus};
use crate::formatter::{escape_md, escape_md_text};
use crate::text::{decimal, decimal_chars, join, string_from_chars};
use crate::types::{
    lookup, strings_view, ComparisonResult, Mismatch, MismatchType, MismatchView, SheetData,
};

verus! {

/// Lines of text, each followed by a line break.
pub open spec fn lines_text(lines: Seq<Seq<char>>) -> Seq<char>
    decreases lines.len(),
{
    if lines.len() == 0 {
        seq![]
    } else {
        lines_text(lines.drop_last()) + lines.last() + seq!['\n']
    }
}

/// The decimal text of a count.
pub fn decimal_string(n: usize) -> (s: String)
    ensures
        s@ == decimal(n as nat),
{
    let d = decimal_chars(n);
    string_from_chars(d.as_slice())
}

/// `parts` joined with `sep` between consecutive parts.
pub fn join_strings(parts: &Vec<String>, sep: &str) -> (s: String)
    ensures
        s@ == join(strings_view(parts@), sep@),
{
    let ghost pv = strings_view(parts@);
    let mut out = String::new();
    let mut i: usize = 0;
    assert(pv.take(0) =~= Seq::<Seq<char>>::empty());
    while i < parts.len()
        invariant
            i <= parts@.len(),
            pv == strings_view(parts@),
            out@ == join(pv.take(i as int), sep@),
        decreases parts@.len() - i,
    {
        assert(pv.take(i + 1).drop_last() =~= pv.take(i as int));
        if i > 0 {
            out.append(sep);
        } else {
            assert(out@ =~= Seq::<char>::empty());
        }
        out.append(parts[i].as_str());
        i = i + 1;
    }
    assert(pv.take(parts@.len() as int) =~= pv);
    out
}

/// The text of lines, each followed by a line break.
pub fn text_of_lines(lines: &Vec<String>) -> (s: String)
    ensures
        s@ == lines_text(strings_view(lines@)),
{
    let ghost lv = strings_view(lines@);
    let mut out = String::new();
    let mut i: usize = 0;
    assert(lv.take(0) =~= Seq::<Seq<char>>::empty());
    while i < lines.len()
        invariant
            i <= lines@.len(),
            lv == strings_view(lines@),
            out@ == lines_text(lv.take(i as int)),
        decreases lines@.len() - i,
    {
        assert(lv.take(i + 1).drop_last() =~= lv.take(i as int));
        assert(lv.take(i + 1).last() == lines@[i as int]@);
        out.append(lines[i].as_str());
        out.append("\n");
        proof {
            reveal_strlit("\n");
        }
        i = i + 1;
    }
    assert(lv.take(lines@.len() as int) =~= lv);
    out
}

/// The header record of the CSV report.
pub open spec fn csv_header_spec() -> Seq<Seq<char>> {
    seq![
        "source_sheet"@,
        "compare_sheet"@,
        "key_columns"@,
        "compare_columns"@,
        "row_number"@,
        "key_value"@,
        "field"@,
        "source_value"@,
        "compare_value"@,
        "mismatch_type"@,
        "similarity"@,
    ]
}

/// The CSV record of a mismatch record, given the texts of its kind and its score.
pub open spec fn csv_record_spec(
    r: &ComparisonResult,
    m: Mismatch,
    kind: Seq<char>,
    score: Seq<char>,
) -> Seq<Seq<char>> {
    seq![
        r.source_name@,
        r.compare_name@,
        join(strings_view(r.key_columns@), "|"@),
        join(strings_view(r.compare_columns@), "|"@),
        decimal(m.row_number as nat),
        m.key_value@,
        m.field@,
        m.source_value@,
        m.compare_value@,
        kind,
        score,
    ]
}

/// The header record of the CSV report.
pub fn csv_header() -> (h: Vec<String>)
    ensures
        strings_view(h@) == csv_header_spec(),
{
    let h = vec![
        String::from_str("source_sheet"),
        String::from_str("compare_sheet"),
        String::from_str("key_columns"),
        String::from_str("compare_columns"),
        String::from_str("row_number"),
        String::from_str("key_value"),
        String::from_str("field"),
        String::from_str("source_value"),
        String::from_str("compare_value"),
        String::from_str("mismatch_type"),
        String::from_str("similarity"),
    ];
    assert(strings_view(h@) =~= csv_header_spec());
    h
}

/// The records of the CSV report after its header: one per mismatch record, with the texts of
/// its kind and its score (empty where it has none) taken from `kinds` and `scores`.
pub fn csv_records(r: &ComparisonResult, kinds: &Vec<String>, scores: &Vec<String>) -> (out: Vec<
    Vec<String>,
>)
    requires
        kinds@.len() == r.mismatches@.len(),
        scores@.len() == r.mismatches@.len(),
    ensures
        out@.len() == r.mismatches@.len(),
        forall|i: int|
            0 <= i < out@.len() ==> strings_view((#[trigger] out@[i])@) == csv_record_spec(
                r,
                r.mismatches@[i],
                kinds@[i]@,
                scores@[i]@,
            ),
{
    let key_cols = join_strings(&r.key_columns, "|");
    let compared_cols = join_strings(&r.compare_columns, "|");
    let mut out: Vec<Vec<String>> = Vec::new();
    let mut i: usize = 0;
    while i < r.mismatches.len()
        invariant
            i <= r.mismatches@.len(),
            kinds@.len() == r.mismatches@.len(),
            scores@.len() == r.mismatches@.len(),
            key_cols@ == join(strings_view(r.key_columns@), "|"@),
            compared_cols@ == join(strings_view(r.compare_columns@), "|"@),
            out@.len() == i,
            forall|j: int|
                0 <= j < i ==> strings_view((#[trigger] out@[j])@) == csv_record_spec(
                    r,
                    r.mismatches@[j],
                    kinds@[j]@,
                    scores@[j]@,
                ),
        decreases r.mismatches@.len() - i,
    {
        let m = &r.mismatches[i];
        let rec = vec![
            r.source_name.clone(),
            r.compare_name.clone(),
            key_cols.clone(),
            compared_cols.clone(),
            decimal_string(m.row_number),
            m.key_value.clone(),
            m.field.clone(),
            m.source_value.clone(),
            m.compare_value.clone(),
            kinds[i].clone(),
            scores[i].clone(),
        ];
        assert(strings_view(rec@) =~= csv_record_spec(r, r.mismatches@[i as int], kinds@[i as int]@, scores@[i as int]@));
        out.push(rec);
        i = i + 1;
    }
    out
}

/// A row of a Markdown summary table.
pub open spec fn summary_line(metric: Seq<char>, value: Seq<char>) -> Seq<char> {
    "| "@ + metric + " | "@ + value + " |"@
}

/// The lines of the Markdown report before the table of mismatch records.
pub open spec fn markdown_summary_lines(
    r: &ComparisonResult,
    match_rate: Seq<char>,
    execution_ms: Seq<char>,
) -> Seq<Seq<char>> {
    seq![
        "# edix Comparison Report"@,
        seq![],
        "**Source:** "@ + r.source_name@,
        "**Compare:** "@ + r.compare_name@,
        "**Key Columns:** "@ + join(strings_view(r.key_columns@), ", "@),
        "**Compare Columns:** "@ + join(strings_view(r.compare_columns@), ", "@),
        seq![],
        "## Summary"@,
        seq![],
        "| Metric | Value |"@,
        "|--------|-------|"@,
        summary_line("Source Rows"@, decimal(r.source_row_count as nat)),
        summary_line("Compare Rows"@, decimal(r.compare_row_count as nat)),
        summary_line("Matched Rows"@, decimal(r.matched_rows as nat)),
        summary_line("Mismatched Rows"@, decimal(r.mismatched_rows as nat)),
        summary_line("Missing in Compare"@, decimal(r.missing_in_compare as nat)),
        summary_line("Missing in Source"@, decimal(r.missing_in_source as nat)),
        summary_line("Field Mismatches"@, decimal(r.field_mismatches as nat)),
        summary_line("Type Mismatches"@, decimal(r.type_mismatches as nat)),
        summary_line("Total Mismatches"@, decimal(r.total_mismatches as nat)),
        summary_line("Match Rate"@, match_rate + "%"@),
        summary_line("Execution Time"@, execution_ms + " ms"@),
        seq![],
    ]
}

/// The Markdown table row of a mismatch record, given the texts of its kind and its score.
pub open spec fn markdown_record_line(m: Mismatch, kind: Seq<char>, score: Seq<char>) -> Seq<char> {
    "| "@ + decimal(m.row_number as nat) + " | "@ + m.key_value@ + " | "@ + m.field@ + " | "@
        + escape_md_text(m.source_value@) + " | "@ + escape_md_text(m.compare_value@) + " | "@
        + kind + " | "@ + score + " |"@
}

/// The Markdown table rows of the first `n` mismatch records.
pub open spec fn markdown_record_lines(
    r: &ComparisonResult,
    kinds: Seq<Seq<char>>,
    scores: Seq<Seq<char>>,
    n: int,
) -> Seq<Seq<char>>
    decreases n,
{
    if n <= 0 {
        seq![]
    } else {
        markdown_record_lines(r, kinds, scores, n - 1).push(
            markdown_record_line(r.mismatches@[n - 1], kinds[n - 1], scores[n - 1]),
        )
    }
}

/// The lines of the Markdown report: the summary, then, where there are mismatch records, a
/// table of them.
pub open spec fn markdown_lines(
    r: &ComparisonResult,
    match_rate: Seq<char>,
    execution_ms: Seq<char>,
    kinds: Seq<Seq<char>>,
    scores: Seq<Seq<char>>,
) -> Seq<Seq<char>> {
    markdown_summary_lines(r, match_rate, execution_ms) + if r.mismatches@.len() == 0 {
        seq![]
    } else {
        seq![
            "## Mismatches"@,
            seq![],
            "| Row | Key | Field | Source | Compare | Type | Similarity |"@,
            "|-----|-----|-------|--------|---------|------|------------|"@,
        ] + markdown_record_lines(r, kinds, scores, r.mismatches@.len() as int)
    }
}

fn summary_row(metric: &str, value: String) -> (s: String)
    ensures
        s@ == summary_line(metric@, value@),
{
    String::from_str("| ").concat(metric).concat(" | ").concat(value.as_str()).concat(" |")
}

fn labelled(label: &str, value: &str) -> (s: String)
    ensures
        s@ == label@ + value@,
{
    String::from_str(label).concat(value)
}

/// The Markdown report of a comparison, given the texts of its match rate (a percentage) and
/// execution time (in milliseconds), and of each mismatch record's kind and score (`N/A` where
/// it has none).
pub fn markdown_report(
    r: &ComparisonResult,
    match_rate: &str,
    execution_ms: &str,
    kinds: &Vec<String>,
    scores: &Vec<String>,
) -> (s: String)
    requires
        kinds@.len() == r.mismatches@.len(),
        scores@.len() == r.mismatches@.len(),
    ensures
        s@ == lines_text(
            markdown_lines(r, match_rate@, execution_ms@, strings_view(kinds@), strings_view(scores@)),
        ),
{
    let mut lines: Vec<String> = Vec::new();
    lines.push(String::from_str("# edix Comparison Report"));
    lines.push(String::new());
    lines.push(labelled("**Source:** ", r.source_name.as_str()));
    lines.push(labelled("**Compare:** ", r.compare_name.as_str()));
    let keys = join_strings(&r.key_columns, ", ");
    lines.push(labelled("**Key Columns:** ", keys.as_str()));
    let cols = join_strings(&r.compare_columns, ", ");
    lines.push(labelled("**Compare Columns:** ", cols.as_str()));
    lines.push(String::new());
    lines.push(String::from_str("## Summary"));
    lines.push(String::new());
    lines.push(String::from_str("| Metric | Value |"));
    lines.push(String::from_str("|--------|-------|"));
    lines.push(summary_row("Source Rows", decimal_string(r.source_row_count)));
    lines.push(summary_row("Compare Rows", decimal_string(r.compare_row_count)));
    lines.push(summary_row("Matched Rows", decimal_string(r.matched_rows)));
    lines.push(summary_row("Mismatched Rows", decimal_string(r.mismatched_rows)));
    lines.push(summary_row("Missing in Compare", decimal_string(r.missing_in_compare)));
    lines.push(summary_row("Missing in Source", decimal_string(r.missing_in_source)));
    lines.push(summary_row("Field Mismatches", decimal_string(r.field_mismatches)));
    lines.push(summary_row("Type Mismatches", decimal_string(r.type_mismatches)));
    lines.push(summary_row("Total Mismatches", decimal_string(r.total_mismatches)));
    lines.push(summary_row("Match Rate", labelled(match_rate, "%")));
    lines.push(summary_row("Execution Time", labelled(execution_ms, " ms")));
    lines.push(String::new());
    let ghost head = markdown_summary_lines(r, match_rate@, execution_ms@);
    assert(strings_view(lines@) =~= head);
    if r.mismatches.len() > 0 {
        lines.push(String::from_str("## Mismatches"));
        lines.push(String::new());
        lines.push(String::from_str("| Row | Key | Field | Source | Compare | Type | Similarity |"));
        lines.push(String::from_str("|-----|-----|-------|--------|---------|------|------------|"));
        let ghost table_head = head + seq![
            "## Mismatches"@,
            seq![],
            "| Row | Key | Field | Source | Compare | Type | Similarity |"@,
            "|-----|-----|-------|--------|---------|------|------------|"@,
        ];
        assert(strings_view(lines@) =~= table_head);
        let mut i: usize = 0;
        while i < r.mismatches.len()
            invariant
                i <= r.mismatches@.len(),
                kinds@.len() == r.mismatches@.len(),
                scores@.len() == r.mismatches@.len(),
                strings_view(lines@) == table_head + markdown_record_lines(
                    r,
                    strings_view(kinds@),
                    strings_view(scores@),
                    i as int,
                ),
            decreases r.mismatches@.len() - i,
        {
            let m = &r.mismatches[i];
            let line = String::from_str("| ").concat(decimal_string(m.row_number).as_str()).concat(
                " | ",
            ).concat(m.key_value.as_str()).concat(" | ").concat(m.field.as_str()).concat(
                " | ",
            ).concat(escape_md(m.source_value.as_str()).as_str()).concat(" | ").concat(
                escape_md(m.compare_value.as_str()).as_str(),
            ).concat(" | ").concat(kinds[i].as_str()).concat(" | ").concat(
                scores[i].as_str(),
            ).concat(" |");
            let ghost before = strings_view(lines@);
            lines.push(line);
            assert(line@ == markdown_record_line(
                r.mismatches@[i as int],
                strings_view(kinds@)[i as int],
                strings_view(scores@)[i as int],
            ));
            assert(strings_view(lines@) =~= before.push(line@));
            i = i + 1;
        }
        assert(strings_view(lines@) =~= markdown_lines(
            r,
            match_rate@,
            execution_ms@,
            strings_view(kinds@),
            strings_view(scores@),
        ));
    } else {
        assert(strings_view(lines@) =~= markdown_lines(
            r,
            match_rate@,
            execution_ms@,
            strings_view(kinds@),
            strings_view(scores@),
        ));
    }
    text_of_lines(&lines)
}

/// The (metric, value) rows of the Excel summary sheet, given the texts of the match rate and
/// the execution time.
pub open spec fn excel_summary_spec(
    r: &ComparisonResult,
    match_rate: Seq<char>,
    execution_ms: Seq<char>,
) -> Seq<(Seq<char>, Seq<char>)> {
    seq![
        ("Source"@, r.source_name@),
        ("Compare"@, r.compare_name@),
        ("Key Columns"@, join(strings_view(r.key_columns@), ", "@)),
        ("Compare Columns"@, join(strings_view(r.compare_columns@), ", "@)),
        ("Source Rows"@, decimal(r.source_row_count as nat)),
        ("Compare Rows"@, decimal(r.compare_row_count as nat)),
        ("Matched Rows"@, decimal(r.matched_rows as nat)),
        ("Mismatched Rows"@, decimal(r.mismatched_rows as nat)),
        ("Missing in Compare"@, decimal(r.missing_in_compare as nat)),
        ("Missing in Source"@, decimal(r.missing_in_source as nat)),
        ("Field Mismatches"@, decimal(r.field_mismatches as nat)),
        ("Type Mismatches"@, decimal(r.type_mismatches as nat)),
        ("Total Mismatches"@, decimal(r.total_mismatches as nat)),
        ("Match Rate %"@, match_rate),
        ("Execution Time (ms)"@, execution_ms),
    ]
}

/// Each row of the Excel summary shows the field that its title names: looking a metric up by
/// its title gives that field's value (counts in decimal), every title names one row only, and
/// the summary has fifteen rows.
pub proof fn law_summary_rows_show_their_fields(
    r: &ComparisonResult,
    match_rate: Seq<char>,
    execution_ms: Seq<char>,
)
    ensures
        ({
            let s = excel_summary_spec(r, match_rate, execution_ms);
            &&& s.len() == 15
            &&& forall|i: int, j: int| 0 <= i < j < s.len() ==> s[i].0 != s[j].0
            &&& lookup(s, "Source"@) == Some(r.source_name@)
            &&& lookup(s, "Compare"@) == Some(r.compare_name@)
            &&& lookup(s, "Key Columns"@) == Some(join(strings_view(r.key_columns@), ", "@))
            &&& lookup(s, "Compare Columns"@) == Some(join(strings_view(r.compare_columns@), ", "@))
            &&& lookup(s, "Source Rows"@) == Some(decimal(r.source_row_count as nat))
            &&& lookup(s, "Compare Rows"@) == Some(decimal(r.compare_row_count as nat))
            &&& lookup(s, "Matched Rows"@) == Some(decimal(r.matched_rows as nat))
            &&& lookup(s, "Mismatched Rows"@) == Some(decimal(r.mismatched_rows as nat))
            &&& lookup(s, "Missing in Compare"@) == Some(decimal(r.missing_in_compare as nat))
            &&& lookup(s, "Missing in Source"@) == Some(decimal(r.missing_in_source as nat))
            &&& lookup(s, "Field Mismatches"@) == Some(decimal(r.field_mismatches as nat))
            &&& lookup(s, "Type Mismatches"@) == Some(decimal(r.type_mismatches as nat))
            &&& lookup(s, "Total Mismatches"@) == Some(decimal(r.total_mismatches as nat))
            &&& lookup(s, "Match Rate %"@) == Some(match_rate)
            &&& lookup(s, "Execution Time (ms)"@) == Some(execution_ms)
        }),
{
    reveal_strlit("Source");
    reveal_strlit("Compare");
    reveal_strlit("Key Columns");
    reveal_strlit("Compare Columns");
    reveal_strlit("Source Rows");
    reveal_strlit("Compare Rows");
    reveal_strlit("Matched Rows");
    reveal_strlit("Mismatched Rows");
    reveal_strlit("Missing in Compare");
    reveal_strlit("Missing in Source");
    reveal_strlit("Field Mismatches");
    reveal_strlit("Type Mismatches");
    reveal_strlit("Total Mismatches");
    reveal_strlit("Match Rate %");
    reveal_strlit("Execution Time (ms)");
    let s = excel_summary_spec(r, match_rate, execution_ms);
    assert("Key Columns"@[0] != "Source Rows"@[0]);
    assert("Compare Rows"@[0] != "Matched Rows"@[0]);
    assert("Compare Rows"@[0] != "Match Rate %"@[0]);
    assert("Matched Rows"@[5] != "Match Rate %"@[5]);
    assert("Compare Columns"@[0] != "Mismatched Rows"@[0]);
    assert("Compare Columns"@[0] != "Type Mismatches"@[0]);
    assert("Mismatched Rows"@[0] != "Type Mismatches"@[0]);
    assert("Field Mismatches"@[0] != "Total Mismatches"@[0]);
    assert forall|i: int, j: int| 0 <= i < j < s.len() implies s[i].0 != s[j].0 by {
        if s[i].0 == s[j].0 {
            assert(s[i].0.len() == s[j].0.len());
            assert(s[i].0[0] == s[j].0[0]);
            assert(s[i].0[5] == s[j].0[5]);
        }
    }
    assert forall|i: int| 0 <= i < s.len() implies lookup(s, #[trigger] s[i].0) == Some(s[i].1) by {
        lemma_lookup_at(s, i);
    }
    assert(lookup(s, s[0].0) == Some(s[0].1));
    assert(lookup(s, s[1].0) == Some(s[1].1));
    assert(lookup(s, s[2].0) == Some(s[2].1));
    assert(lookup(s, s[3].0) == Some(s[3].1));
    assert(lookup(s, s[4].0) == Some(s[4].1));
    assert(lookup(s, s[5].0) == Some(s[5].1));
    assert(lookup(s, s[6].0) == Some(s[6].1));
    assert(lookup(s, s[7].0) == Some(s[7].1));
    assert(lookup(s, s[8].0) == Some(s[8].1));
    assert(lookup(s, s[9].0) == Some(s[9].1));
    assert(lookup(s, s[10].0) == Some(s[10].1));
    assert(lookup(s, s[11].0) == Some(s[11].1));
    assert(lookup(s, s[12].0) == Some(s[12].1));
    assert(lookup(s, s[13].0) == Some(s[13].1));
    assert(lookup(s, s[14].0) == Some(s[14].1));
}

/// The field of `record` under the header `name`: the header row and the record read
/// position by position.
pub open spec fn under_header(header: Seq<Seq<char>>, record: Seq<Seq<char>>, name: Seq<char>) -> Option<
    Seq<char>,
> {
    lookup(Seq::new(header.len(), |i: int| (header[i], record[i])), name)
}

/// Each field of a CSV record sits under the header that names it: the sheets, the key and
/// compared columns (joined with `|`), the record's row number in decimal, its key, field,
/// source and compare values, kind and score; and no header names two columns.
pub proof fn law_csv_fields_sit_under_their_headers(
    r: &ComparisonResult,
    m: Mismatch,
    kind: Seq<char>,
    score: Seq<char>,
)
    ensures
        ({
            let h = csv_header_spec();
            let rec = csv_record_spec(r, m, kind, score);
            &&& h.len() == rec.len()
            &&& forall|i: int, j: int| 0 <= i < j < h.len() ==> h[i] != h[j]
            &&& under_header(h, rec, "source_sheet"@) == Some(r.source_name@)
            &&& under_header(h, rec, "compare_sheet"@) == Some(r.compare_name@)
            &&& under_header(h, rec, "key_columns"@) == Some(join(strings_view(r.key_columns@), "|"@))
            &&& under_header(h, rec, "compare_columns"@) == Some(
                join(strings_view(r.compare_columns@), "|"@),
            )
            &&& under_header(h, rec, "row_number"@) == Some(decimal(m.row_number as nat))
            &&& under_header(h, rec, "key_value"@) == Some(m.key_value@)
            &&& under_header(h, rec, "field"@) == Some(m.field@)
            &&& under_header(h, rec, "source_value"@) == Some(m.source_value@)
            &&& under_header(h, rec, "compare_value"@) == Some(m.compare_value@)
            &&& under_header(h, rec, "mismatch_type"@) == Some(kind)
            &&& under_header(h, rec, "similarity"@) == Some(score)
        }),
{
    reveal_strlit("source_sheet");
    reveal_strlit("compare_sheet");
    reveal_strlit("key_columns");
    reveal_strlit("compare_columns");
    reveal_strlit("row_number");
    reveal_strlit("key_value");
    reveal_strlit("field");
    reveal_strlit("source_value");
    reveal_strlit("compare_value");
    reveal_strlit("mismatch_type");
    reveal_strlit("similarity");
    let h = csv_header_spec();
    let rec = csv_record_spec(r, m, kind, score);
    let z = Seq::new(h.len(), |i: int| (h[i], rec[i]));
    assert("source_sheet"@[7] != "source_value"@[7]);
    assert("compare_sheet"@[8] != "compare_value"@[8]);
    assert("compare_sheet"@[0] != "mismatch_type"@[0]);
    assert("compare_value"@[0] != "mismatch_type"@[0]);
    assert("row_number"@[0] != "similarity"@[0]);
    assert forall|i: int, j: int| 0 <= i < j < h.len() implies h[i] != h[j] by {
        if h[i] == h[j] {
            assert(h[i].len() == h[j].len());
            assert(h[i][0] == h[j][0]);
            assert(h[i][7] == h[j][7]);
            assert(h[i][8] == h[j][8]);
        }
    }
    assert forall|i: int| 0 <= i < z.len() implies lookup(z, #[trigger] z[i].0) == Some(z[i].1) by {
        assert forall|j: int| i < j < z.len() implies z[j].0 != z[i].0 by {
            assert(z[j].0 == h[j] && z[i].0 == h[i]);
        }
        lemma_lookup_at(z, i);
    }
    assert(lookup(z, z[0].0) == Some(z[0].1));
    assert(lookup(z, z[1].0) == Some(z[1].1));
    assert(lookup(z, z[2].0) == Some(z[2].1));
    assert(lookup(z, z[3].0) == Some(z[3].1));
    assert(lookup(z, z[4].0) == Some(z[4].1));
    assert(lookup(z, z[5].0) == Some(z[5].1));
    assert(lookup(z, z[6].0) == Some(z[6].1));
    assert(lookup(z, z[7].0) == Some(z[7].1));
    assert(lookup(z, z[8].0) == Some(z[8].1));
    assert(lookup(z, z[9].0) == Some(z[9].1));
    assert(lookup(z, z[10].0) == Some(z[10].1));
}

/// The Markdown report shows the same figures as the Excel summary: its header lines give the
/// Excel summary's sheet names and columns, and its table rows the Excel summary's row counts
/// and mismatch counts, metric by metric in the same order.
pub proof fn law_markdown_summary_agrees_with_excel_summary(
    r: &ComparisonResult,
    match_rate: Seq<char>,
    execution_ms: Seq<char>,
)
    ensures
        ({
            let md = markdown_summary_lines(r, match_rate, execution_ms);
            let xl = excel_summary_spec(r, match_rate, execution_ms);
            &&& md[2] == "**Source:** "@ + xl[0].1
            &&& md[3] == "**Compare:** "@ + xl[1].1
            &&& md[4] == "**Key Columns:** "@ + xl[2].1
            &&& md[5] == "**Compare Columns:** "@ + xl[3].1
            &&& forall|k: int| 4 <= k <= 12 ==> md[k + 7] == summary_line(
                #[trigger] xl[k].0,
                xl[k].1,
            )
        }),
{
}

/// Looking up the key of an entry that no later entry shares gives that entry's value.
proof fn lemma_lookup_at<V>(e: Seq<(Seq<char>, V)>, i: int)
    requires
        0 <= i < e.len(),
        forall|j: int| i < j < e.len() ==> e[j].0 != e[i].0,
    ensures
        lookup(e, e[i].0) == Some(e[i].1),
    decreases e.len(),
{
    if i < e.len() - 1 {
        assert(e.last().0 != e[i].0);
        assert(e.drop_last()[i] == e[i]);
        lemma_lookup_at(e.drop_last(), i);
    }
}

/// The views of (metric, value) rows.
pub open spec fn pairs_view(v: Seq<(String, String)>) -> Seq<(Seq<char>, Seq<char>)> {
    v.map_values(|p: (String, String)| (p.0@, p.1@))
}

/// The (metric, value) rows of the Excel summary sheet.
pub fn excel_summary(r: &ComparisonResult, match_rate: &str, execution_ms: &str) -> (v: Vec<
    (String, String),
>)
    ensures
        pairs_view(v@) == excel_summary_spec(r, match_rate@, execution_ms@),
{
    let v = vec![
        (String::from_str("Source"), r.source_name.clone()),
        (String::from_str("Compare"), r.compare_name.clone()),
        (String::from_str("Key Columns"), join_strings(&r.key_columns, ", ")),
        (String::from_str("Compare Columns"), join_strings(&r.compare_columns, ", ")),
        (String::from_str("Source Rows"), decimal_string(r.source_row_count)),
        (String::from_str("Compare Rows"), decimal_string(r.compare_row_count)),
        (String::from_str("Matched Rows"), decimal_string(r.matched_rows)),
        (String::from_str("Mismatched Rows"), decimal_string(r.mismatched_rows)),
        (String::from_str("Missing in Compare"), decimal_string(r.missing_in_compare)),
        (String::from_str("Missing in Source"), decimal_string(r.missing_in_source)),
        (String::from_str("Field Mismatches"), decimal_string(r.field_mismatches)),
        (String::from_str("Type Mismatches"), decimal_string(r.type_mismatches)),
        (String::from_str("Total Mismatches"), decimal_string(r.total_mismatches)),
        (String::from_str("Match Rate %"), String::from_str(match_rate)),
        (String::from_str("Execution Time (ms)"), String::from_str(execution_ms)),
    ];
    assert(pairs_view(v@) =~= excel_summary_spec(r, match_rate@, execution_ms@));
    v
}

/// How a row of the Excel mismatch sheet is highlighted.
#[derive(Debug, Clone, Copy, PartialEq, Eq, Structural)]
pub enum Highlight {
    /// A row missing on one side
    Missing,
    /// Values of different types
    TypeMismatch,
    /// Values that differ
    Mismatch,
}

/// The highlight of a mismatch record of the given kind: a missing row, values of different
/// types, or any other difference.
pub open spec fn highlight_spec(t: MismatchType) -> Highlight {
    match t {
        MismatchType::MissingInCompare | MismatchType::MissingInSource => Highlight::Missing,
        MismatchType::TypeMismatch => Highlight::TypeMismatch,
        _ => Highlight::Mismatch,
    }
}

/// The highlight of a mismatch record of the given kind.
pub fn highlight_of(t: MismatchType) -> (h: Highlight)
    ensures
        h == highlight_spec(t),
{
    match t {
        MismatchType::MissingInCompare | MismatchType::MissingInSource => Highlight::Missing,
        MismatchType::TypeMismatch => Highlight::TypeMismatch,
        _ => Highlight::Mismatch,
    }
}

/// The column titles of the Excel mismatch sheet.
pub open spec fn detail_headers_spec() -> Seq<Seq<char>> {
    seq![
        "Row"@,
        "Key Value"@,
        "Field"@,
        "Source Value"@,
        "Compare Value"@,
        "Mismatch Type"@,
        "Similarity"@,
    ]
}

/// The header row of the Excel mismatch sheet.
pub fn excel_detail_headers() -> (h: Vec<String>)
    ensures
        strings_view(h@) == detail_headers_spec(),
{
    let h = vec![
        String::from_str("Row"),
        String::from_str("Key Value"),
        String::from_str("Field"),
        String::from_str("Source Value"),
        String::from_str("Compare Value"),
        String::from_str("Mismatch Type"),
        String::from_str("Similarity"),
    ];
    assert(strings_view(h@) =~= detail_headers_spec());
    h
}

/// What a cell of a written workbook holds.
#[derive(Debug, PartialEq)]
pub enum CellContent {
    Text(String),
    Number(usize),
}

/// The mathematical value of a cell's content.
pub enum ContentView {
    Text(Seq<char>),
    Number(usize),
}

/// How a cell of a written workbook is formatted: as a column title, plainly, or with the
/// highlight of its mismatch record.
#[derive(Debug, Clone, Copy, PartialEq, Eq, Structural)]
pub enum CellStyle {
    Header,
    Normal,
    Highlighted(Highlight),
}

/// A cell of a written workbook.
#[derive(Debug, PartialEq)]
pub struct ExcelCell {
    pub content: CellContent,
    pub style: CellStyle,
}

/// The mathematical value of a cell.
pub struct ExcelCellView {
    pub content: ContentView,
    pub style: CellStyle,
}

impl View for ExcelCell {
    type V = ExcelCellView;

    open spec fn view(&self) -> ExcelCellView {
        ExcelCellView {
            content: match self.content {
                CellContent::Text(t) => ContentView::Text(t@),
                CellContent::Number(n) => ContentView::Number(n),
            },
            style: self.style,
        }
    }
}

/// A worksheet of a written workbook: its name, its rows from the first, and the widths of
/// its columns, each as (first column, last column, width in characters).
#[derive(Debug, PartialEq)]
pub struct ExcelSheet {
    pub name: String,
    pub rows: Vec<Vec<ExcelCell>>,
    pub column_widths: Vec<(u16, u16, u16)>,
}

/// The mathematical value of a worksheet.
pub struct ExcelSheetView {
    pub name: Seq<char>,
    pub rows: Seq<Seq<ExcelCellView>>,
    pub column_widths: Seq<(u16, u16, u16)>,
}

/// The views of a row of cells.
pub open spec fn cells_row_view(r: Seq<ExcelCell>) -> Seq<ExcelCellView> {
    r.map_values(|c: ExcelCell| c@)
}

impl View for ExcelSheet {
    type V = ExcelSheetView;

    open spec fn view(&self) -> ExcelSheetView {
        ExcelSheetView {
            name: self.name@,
            rows: self.rows@.map_values(|r: Vec<ExcelCell>| cells_row_view(r@)),
            column_widths: self.column_widths@,
        }
    }
}

/// The views of a workbook's sheets.
pub open spec fn sheets_view(s: Seq<ExcelSheet>) -> Seq<ExcelSheetView> {
    s.map_values(|x: ExcelSheet| x@)
}

/// A cell holding the text `t`, formatted by `style`.
pub open spec fn text_cell(t: Seq<char>, style: CellStyle) -> ExcelCellView {
    ExcelCellView { content: ContentView::Text(t), style }
}

/// A row of column titles.
pub open spec fn header_cells(titles: Seq<Seq<char>>) -> Seq<ExcelCellView> {
    titles.map_values(|t: Seq<char>| text_cell(t, CellStyle::Header))
}

/// A plain row of two texts.
pub open spec fn plain_row(p: (Seq<char>, Seq<char>)) -> Seq<ExcelCellView> {
    seq![text_cell(p.0, CellStyle::Normal), text_cell(p.1, CellStyle::Normal)]
}

/// The Summary sheet: the titles "Metric" and "Value", then one plain row for each metric of
/// the summary, in its order.
pub open spec fn summary_sheet_spec(
    r: &ComparisonResult,
    match_rate: Seq<char>,
    execution_ms: Seq<char>,
) -> ExcelSheetView {
    ExcelSheetView {
        name: "Summary"@,
        rows: seq![header_cells(seq!["Metric"@, "Value"@])] + excel_summary_spec(
            r,
            match_rate,
            execution_ms,
        ).map_values(|p: (Seq<char>, Seq<char>)| plain_row(p)),
        column_widths: seq![],
    }
}

/// The row of the mismatch sheet for the record `m`: its row number as a number, then its key,
/// field, the two values, its kind and its score as texts, all with the record's highlight.
pub open spec fn detail_row_spec(m: MismatchView, kind: Seq<char>, score: Seq<char>) -> Seq<
    ExcelCellView,
> {
    let s = CellStyle::Highlighted(highlight_spec(m.mismatch_type));
    seq![
        ExcelCellView { content: ContentView::Number(m.row_number), style: s },
        text_cell(m.key_value, s),
        text_cell(m.field, s),
        text_cell(m.source_value, s),
        text_cell(m.compare_value, s),
        text_cell(kind, s),
        text_cell(score, s),
    ]
}

/// The column widths of the mismatch sheet.
pub open spec fn detail_widths() -> Seq<(u16, u16, u16)> {
    seq![(0u16, 0u16, 8u16), (1, 1, 25), (2, 2, 20), (3, 4, 30), (5, 5, 20), (6, 6, 12)]
}

/// The Mismatches sheet: the column titles, then row `i + 1` for mismatch record `i`.
pub open spec fn mismatch_sheet_spec(
    r: &ComparisonResult,
    kinds: Seq<Seq<char>>,
    scores: Seq<Seq<char>>,
) -> ExcelSheetView {
    ExcelSheetView {
        name: "Mismatches"@,
        rows: seq![header_cells(detail_headers_spec())] + Seq::new(
            r.mismatches@.len(),
            |i: int| detail_row_spec(r.mismatches@[i]@, kinds[i], scores[i]),
        ),
        column_widths: detail_widths(),
    }
}

/// The sheets of the Excel report: the Summary sheet, and the Mismatches sheet when there is a
/// mismatch record.
pub open spec fn excel_workbook_spec(
    r: &ComparisonResult,
    match_rate: Seq<char>,
    execution_ms: Seq<char>,
    kinds: Seq<Seq<char>>,
    scores: Seq<Seq<char>>,
) -> Seq<ExcelSheetView> {
    if r.mismatches@.len() == 0 {
        seq![summary_sheet_spec(r, match_rate, execution_ms)]
    } else {
        seq![
            summary_sheet_spec(r, match_rate, execution_ms),
            mismatch_sheet_spec(r, kinds, scores),
        ]
    }
}

/// The Excel report always opens with the Summary sheet of its title row and fifteen metric
/// rows; it has the Mismatches sheet exactly when there is a mismatch record, and there row
/// `i + 1` shows record `i` (its row number first), every cell highlighted by the record's
/// kind.
pub proof fn law_excel_rows_follow_records(
    r: &ComparisonResult,
    match_rate: Seq<char>,
    execution_ms: Seq<char>,
    kinds: Seq<Seq<char>>,
    scores: Seq<Seq<char>>,
)
    requires
        kinds.len() == r.mismatches@.len(),
        scores.len() == r.mismatches@.len(),
    ensures
        ({
            let book = excel_workbook_spec(r, match_rate, execution_ms, kinds, scores);
            &&& book[0].name == "Summary"@
            &&& book[0].rows.len() == 16
            &&& (book.len() == 2 <==> r.mismatches@.len() > 0)
            &&& book.len() == 1 || book.len() == 2
            &&& r.mismatches@.len() > 0 ==> book[1].name == "Mismatches"@ && book[1].rows.len()
                == r.mismatches@.len() + 1
            &&& forall|i: int, j: int|
                0 <= i < r.mismatches@.len() && 0 <= j < 7 ==> (#[trigger] book[1].rows[i + 1][j]).style
                    == CellStyle::Highlighted(highlight_spec(r.mismatches@[i].mismatch_type))
            &&& forall|i: int|
                0 <= i < r.mismatches@.len() ==> (#[trigger] book[1].rows[i + 1])[0].content
                    == ContentView::Number(r.mismatches@[i].row_number)
        }),
{
    let book = excel_workbook_spec(r, match_rate, execution_ms, kinds, scores);
    assert(book[0].rows.len() == 16);
    if r.mismatches@.len() > 0 {
        let detail = mismatch_sheet_spec(r, kinds, scores);
        assert forall|i: int| 0 <= i < r.mismatches@.len() implies detail.rows[i + 1] == detail_row_spec(
            r.mismatches@[i]@,
            kinds[i],
            scores[i],
        ) by {}
    }
}

fn text_cell_of(t: String, style: CellStyle) -> (c: ExcelCell)
    ensures
        c@ == text_cell(t@, style),
{
    ExcelCell { content: CellContent::Text(t), style }
}

fn header_row(titles: &Vec<String>) -> (row: Vec<ExcelCell>)
    ensures
        cells_row_view(row@) == header_cells(strings_view(titles@)),
{
    let mut row: Vec<ExcelCell> = Vec::new();
    let mut i: usize = 0;
    while i < titles.len()
        invariant
            i <= titles@.len(),
            cells_row_view(row@) == header_cells(strings_view(titles@.take(i as int))),
        decreases titles@.len() - i,
    {
        let ghost before = row@;
        let c = text_cell_of(titles[i].clone(), CellStyle::Header);
        row.push(c);
        i = i + 1;
        assert(cells_row_view(row@) =~= cells_row_view(before).push(c@));
        assert(strings_view(titles@.take(i as int)) =~= strings_view(titles@.take(i - 1)).push(
            titles@[i - 1]@,
        ));
        assert(header_cells(strings_view(titles@.take(i as int))) =~= header_cells(
            strings_view(titles@.take(i - 1)),
        ).push(text_cell(titles@[i - 1]@, CellStyle::Header)));
    }
    assert(titles@.take(i as int) =~= titles@);
    row
}

fn detail_row(m: &Mismatch, kind: &String, score: &String) -> (row: Vec<ExcelCell>)
    ensures
        cells_row_view(row@) == detail_row_spec(m@, kind@, score@),
{
    let s = CellStyle::Highlighted(highlight_of(m.mismatch_type));
    let row = vec![
        ExcelCell { content: CellContent::Number(m.row_number), style: s },
        text_cell_of(m.key_value.clone(), s),
        text_cell_of(m.field.clone(), s),
        text_cell_of(m.source_value.clone(), s),
        text_cell_of(m.compare_value.clone(), s),
        text_cell_of(kind.clone(), s),
        text_cell_of(score.clone(), s),
    ];
    assert(cells_row_view(row@) =~= detail_row_spec(m@, kind@, score@));
    row
}

/// The sheets of the Excel report, each with its rows of formatted cells and its column
/// widths. The match rate, the execution time, and each mismatch record's kind and score are
/// given as the texts to write.
pub fn excel_workbook(
    r: &ComparisonResult,
    match_rate: &str,
    execution_ms: &str,
    kinds: &Vec<String>,
    scores: &Vec<String>,
) -> (sheets: Vec<ExcelSheet>)
    requires
        kinds@.len() == r.mismatches@.len(),
        scores@.len() == r.mismatches@.len(),
    ensures
        sheets_view(sheets@) == excel_workbook_spec(
            r,
            match_rate@,
            execution_ms@,
            strings_view(kinds@),
            strings_view(scores@),
        ),
{
    let summary = excel_summary(r, match_rate, execution_ms);
    let ghost pairs = excel_summary_spec(r, match_rate@, execution_ms@);
    let titles = vec![String::from_str("Metric"), String::from_str("Value")];
    let mut rows: Vec<Vec<ExcelCell>> = Vec::new();
    rows.push(header_row(&titles));
    assert(strings_view(titles@) =~= seq!["Metric"@, "Value"@]);
    let mut i: usize = 0;
    while i < summary.len()
        invariant
            i <= summary@.len(),
            pairs_view(summary@) == pairs,
            rows@.len() == i + 1,
            cells_row_view(rows@[0]@) == header_cells(seq!["Metric"@, "Value"@]),
            forall|k: int| 0 <= k < i ==> cells_row_view(#[trigger] rows@[k + 1]@) == plain_row(pairs[k]),
        decreases summary@.len() - i,
    {
        let metric = text_cell_of(summary[i].0.clone(), CellStyle::Normal);
        let value = text_cell_of(summary[i].1.clone(), CellStyle::Normal);
        let mut row: Vec<ExcelCell> = Vec::new();
        row.push(metric);
        row.push(value);
        assert(pairs[i as int] == (summary@[i as int].0@, summary@[i as int].1@));
        assert(cells_row_view(row@) =~= plain_row(pairs[i as int]));
        rows.push(row);
        i = i + 1;
    }
    let first = ExcelSheet { name: String::from_str("Summary"), rows, column_widths: Vec::new() };
    proof {
        let expected = summary_sheet_spec(r, match_rate@, execution_ms@);
        assert(first@.rows =~= expected.rows) by {
            assert(first@.rows.len() == expected.rows.len());
            assert forall|k: int| 0 <= k < first@.rows.len() implies first@.rows[k] == expected.rows[k] by {
                if k > 0 {
                    assert(rows@[(k - 1) + 1] == rows@[k]);
                }
            }
        }
        assert(first@.column_widths =~= expected.column_widths);
    }
    let mut sheets: Vec<ExcelSheet> = Vec::new();
    sheets.push(first);
    if r.mismatches.len() > 0 {
        let mut detail: Vec<Vec<ExcelCell>> = Vec::new();
        detail.push(header_row(&excel_detail_headers()));
        let mut j: usize = 0;
        while j < r.mismatches.len()
            invariant
                j <= r.mismatches@.len(),
                kinds@.len() == r.mismatches@.len(),
                scores@.len() == r.mismatches@.len(),
                detail@.len() == j + 1,
                cells_row_view(detail@[0]@) == header_cells(detail_headers_spec()),
                forall|k: int|
                    0 <= k < j ==> cells_row_view(#[trigger] detail@[k + 1]@) == detail_row_spec(
                        r.mismatches@[k]@,
                        kinds@[k]@,
                        scores@[k]@,
                    ),
            decreases r.mismatches@.len() - j,
        {
            detail.push(detail_row(&r.mismatches[j], &kinds[j], &scores[j]));
            j = j + 1;
        }
        let widths = vec![(0u16, 0u16, 8u16), (1, 1, 25), (2, 2, 20), (3, 4, 30), (5, 5, 20), (6, 6, 12)];
        let second = ExcelSheet { name: String::from_str("Mismatches"), rows: detail, column_widths: widths };
        proof {
            let expected = mismatch_sheet_spec(r, strings_view(kinds@), strings_view(scores@));
            assert(second@.rows =~= expected.rows) by {
                assert forall|k: int| 0 <= k < second@.rows.len() implies second@.rows[k] == expected.rows[k] by {
                    if k > 0 {
                        assert(detail@[(k - 1) + 1] == detail@[k]);
                    }
                }
            }
            assert(second@.column_widths =~= expected.column_widths);
        }
        sheets.push(second);
    }
    assert(sheets_view(sheets@) =~= excel_workbook_spec(
        r,
        match_rate@,
        execution_ms@,
        strings_view(kinds@),
        strings_view(scores@),
    ));
    sheets
}

/// How the row counts compare, in words.
pub open spec fn row_status_spec(s: RowStatus) -> Seq<char> {
    match s {
        RowStatus::SourceHasMore(n) => "Source has "@ + decimal(n as nat) + " more rows"@,
        RowStatus::CompareHasMore(n) => "Compare has "@ + decimal(n as nat) + " more rows"@,
        RowStatus::Match => "Row counts match"@,
    }
}

/// How the row counts compare, in words.
pub fn row_status_text(s: RowStatus) -> (t: String)
    ensures
        t@ == row_status_spec(s),
{
    match s {
        RowStatus::SourceHasMore(n) => String::from_str("Source has ").concat(
            decimal_string(n).as_str(),
        ).concat(" more rows"),
        RowStatus::CompareHasMore(n) => String::from_str("Compare has ").concat(
            decimal_string(n).as_str(),
        ).concat(" more rows"),
        RowStatus::Match => String::from_str("Row counts match"),
    }
}

/// The lines of the quick audit summary file, given the texts of the column overlap (a
/// percentage, without decimals) and of the audit score (a percentage, one decimal).
pub open spec fn audit_report_lines(
    source: &SheetData,
    compare: &SheetData,
    a: &AuditSummary,
    overlap: Seq<char>,
    score: Seq<char>,
) -> Seq<Seq<char>> {
    seq![
        "### Quick Audit Report"@,
        seq![],
        "| Metric | Source | Compare |"@,
        "|--------|--------|---------|"@,
        "| File | "@ + source.name@ + " | "@ + compare.name@ + " |"@,
        "| Rows | "@ + decimal(source.rows@.len()) + " | "@ + decimal(compare.rows@.len()) + " |"@,
        "| Columns | "@ + decimal(source.headers@.len()) + " | "@ + decimal(compare.headers@.len())
            + " |"@,
        "| Column Overlap | "@ + decimal(a.common_columns@.len()) + " / "@ + decimal(
            source.headers@.len(),
        ) + " ("@ + overlap + "%) | |"@,
        "| Row Status | "@ + row_status_spec(a.row_status) + " | |"@,
        "| Audit Score | "@ + score + "% | |"@,
        seq![],
    ]
}

/// The quick audit summary written to a file.
pub fn audit_report(
    source: &SheetData,
    compare: &SheetData,
    a: &AuditSummary,
    overlap: &str,
    score: &str,
) -> (s: String)
    ensures
        s@ == lines_text(audit_report_lines(source, compare, a, overlap@, score@)),
{
    let mut lines: Vec<String> = Vec::new();
    lines.push(String::from_str("### Quick Audit Report"));
    lines.push(String::new());
    lines.push(String::from_str("| Metric | Source | Compare |"));
    lines.push(String::from_str("|--------|--------|---------|"));
    lines.push(
        String::from_str("| File | ").concat(source.name.as_str()).concat(" | ").concat(
            compare.name.as_str(),
        ).concat(" |"),
    );
    lines.push(
        String::from_str("| Rows | ").concat(decimal_string(source.rows.len()).as_str()).concat(
            " | ",
        ).concat(decimal_string(compare.rows.len()).as_str()).concat(" |"),
    );
    lines.push(
        String::from_str("| Columns | ").concat(decimal_string(source.headers.len()).as_str()).concat(
            " | ",
        ).concat(decimal_string(compare.headers.len()).as_str()).concat(" |"),
    );
    lines.push(
        String::from_str("| Column Overlap | ").concat(
            decimal_string(a.common_columns.len()).as_str(),
        ).concat(" / ").concat(decimal_string(source.headers.len()).as_str()).concat(" (").concat(
            overlap,
        ).concat("%) | |"),
    );
    lines.push(
        String::from_str("| Row Status | ").concat(row_status_text(a.row_status).as_str()).concat(
            " | |",
        ),
    );
    lines.push(String::from_str("| Audit Score | ").concat(score).concat("% | |"));
    lines.push(String::new());
    assert(strings_view(lines@) =~= audit_report_lines(source, compare, a, overlap@, score@));
    text_of_lines(&lines)
}

} // verus!
