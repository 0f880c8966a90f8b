//! Output format selection and Markdown escaping.

use vstd::prelude::*;
use crate::text::{
    ascii_lowercase, chars_of, is_ascii, lowercase, str_eq, string_from_chars, to_lowercase,
};

verus! {

/// Output format selector.
#[derive(Debug, Clone, Copy, PartialEq, Eq, Structural)]
pub enum OutputFormat {
    Csv,
    Markdown,
    Excel,
}

/// The format that a lowercase name stands for: `csv`; `md` or `markdown`; `xlsx` or `excel`.
pub open spec fn format_named(l: Seq<char>) -> Option<OutputFormat> {
    if l == "csv"@ {
        Some(OutputFormat::Csv)
    } else if l == "md"@ || l == "markdown"@ {
        Some(OutputFormat::Markdown)
    } else if l == "xlsx"@ || l == "excel"@ {
        Some(OutputFormat::Excel)
    } else {
        None
    }
}

/// The display name of an output format.
pub open spec fn display_name(f: OutputFormat) -> Seq<char> {
    match f {
        OutputFormat::Csv => "CSV"@,
        OutputFormat::Markdown => "Markdown"@,
        OutputFormat::Excel => "Excel"@,
    }
}

impl OutputFormat {
    /// The format that a name stands for, in any case: `csv`; `md` or `markdown`; `xlsx` or
    /// `excel`.
    pub fn from_str(s: &str) -> (r: Option<Self>)
        ensures
            r == format_named(lowercase(s@)),
            is_ascii(s@) ==> r == format_named(ascii_lowercase(s@)),
    {
        let l = to_lowercase(s);
        let l = l.as_str();
        if str_eq(l, "csv") {
            Some(OutputFormat::Csv)
        } else if str_eq(l, "md") || str_eq(l, "markdown") {
            Some(OutputFormat::Markdown)
        } else if str_eq(l, "xlsx") || str_eq(l, "excel") {
            Some(OutputFormat::Excel)
        } else {
            None
        }
    }
}

/// The display name of an output format.
pub fn format_to_str(f: &OutputFormat) -> (s: &'static str)
    ensures
        s@ == display_name(*f),
{
    match f {
        OutputFormat::Csv => "CSV",
        OutputFormat::Markdown => "Markdown",
        OutputFormat::Excel => "Excel",
    }
}

/// The display name of a format reads back as that format.
pub proof fn law_display_name_reads_back(f: OutputFormat)
    ensures
        is_ascii(display_name(f)),
        format_named(ascii_lowercase(display_name(f))) == Some(f),
{
    reveal_strlit("CSV");
    reveal_strlit("Markdown");
    reveal_strlit("Excel");
    reveal_strlit("csv");
    reveal_strlit("md");
    reveal_strlit("markdown");
    reveal_strlit("xlsx");
    reveal_strlit("excel");
    assert(ascii_lowercase("CSV"@) =~= "csv"@);
    assert(ascii_lowercase("Markdown"@) =~= "markdown"@);
    assert(ascii_lowercase("Excel"@) =~= "excel"@);
}

/// The Markdown table text of one character: `|` escaped, line breaks as spaces.
pub open spec fn escape_md_char(c: char) -> Seq<char> {
    if c == '|' {
        seq!['\\', '|']
    } else if c == '\n' || c == '\r' {
        seq![' ']
    } else {
        seq![c]
    }
}

/// The Markdown table text of a string.
pub open spec fn escape_md_text(s: Seq<char>) -> Seq<char>
    decreases s.len(),
{
    if s.len() == 0 {
        seq![]
    } else {
        escape_md_text(s.drop_last()) + escape_md_char(s.last())
    }
}

/// Escape a value for a Markdown table cell: `|` becomes `\|`, and line breaks become spaces.
pub fn escape_md(s: &str) -> (r: String)
    ensures
        r@ == escape_md_text(s@),
{
    let v = chars_of(s);
    let mut out: Vec<char> = Vec::new();
    let mut i: usize = 0;
    while i < v.len()
        invariant
            i <= v@.len(),
            v@ == s@,
            out@ == escape_md_text(v@.take(i as int)),
        decreases v@.len() - i,
    {
        assert(v@.take(i + 1).drop_last() =~= v@.take(i as int));
        let c = v[i];
        let ghost before = out@;
        if c == '|' {
            out.push('\\');
            out.push('|');
        } else if c == '\n' || c == '\r' {
            out.push(' ');
        } else {
            out.push(c);
        }
        assert(out@ =~= before + escape_md_char(c));
        i = i + 1;
    }
    assert(v@.take(v@.len() as int) =~= v@);
    string_from_chars(out.as_slice())
}

} // verus!
