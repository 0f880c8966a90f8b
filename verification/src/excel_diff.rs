//! Comparison of one column of two sheets of an Excel workbook: the cleaned values of the
//! source sheet that the other sheet (the general ledger) does not hold.

use vstd::prelude::*;
use calamine::{Data, Reader, Xlsx};
use std::io::Cursor;
use crate::text::{chars_eq, chars_of, string_from_chars};
use crate::types::strings_view;

verus! {

/// Error types for Excel operations.
#[derive(Debug)]
pub enum ExcelDiffError {
    WorkbookOpenError(String),
    SheetNotFoundError(String),
    DataError(String),
    IoError(String),
}

/// Result type for Excel operations.
pub type ExcelDiffResult<T> = Result<T, ExcelDiffError>;

/// The message that describes an error.
pub open spec fn error_text(e: &ExcelDiffError) -> Seq<char> {
    match e {
        ExcelDiffError::WorkbookOpenError(s) => "Failed to open workbook: "@ + s@,
        ExcelDiffError::SheetNotFoundError(s) => "Sheet '"@ + s@ + "' not found"@,
        ExcelDiffError::DataError(s) => "Invalid data in sheet: "@ + s@,
        ExcelDiffError::IoError(s) => "IO error: "@ + s@,
    }
}

impl ExcelDiffError {
    /// The message that describes the error.
    pub fn message(&self) -> (m: String)
        ensures
            m@ == error_text(self),
    {
        match self {
            ExcelDiffError::WorkbookOpenError(s) => String::from_str(
                "Failed to open workbook: ",
            ).concat(s.as_str()),
            ExcelDiffError::SheetNotFoundError(s) => String::from_str("Sheet '").concat(
                s.as_str(),
            ).concat("' not found"),
            ExcelDiffError::DataError(s) => String::from_str("Invalid data in sheet: ").concat(
                s.as_str(),
            ),
            ExcelDiffError::IoError(s) => String::from_str("IO error: ").concat(s.as_str()),
        }
    }
}

/// The position of the first `-` or space in `s`.
pub open spec fn first_separator(s: Seq<char>) -> Option<int>
    decreases s.len(),
{
    if s.len() == 0 {
        None
    } else if s[0] == '-' || s[0] == ' ' {
        Some(0)
    } else {
        match first_separator(s.drop_first()) {
            Some(i) => Some(i + 1),
            None => None,
        }
    }
}

/// A cell's text cleaned for comparison: what follows its first `-` or space, or all of it.
pub open spec fn clean_cell(s: Seq<char>) -> Seq<char> {
    match first_separator(s) {
        Some(i) => s.skip(i + 1),
        None => s,
    }
}

/// The position of the first separator in text that has none before a separator `sep` at
/// position `p.len()`.
proof fn lemma_first_separator_after(p: Seq<char>, sep: char, q: Seq<char>)
    requires
        forall|i: int| 0 <= i < p.len() ==> #[trigger] p[i] != '-' && p[i] != ' ',
        sep == '-' || sep == ' ',
    ensures
        first_separator(p + seq![sep] + q) == Some(p.len() as int),
    decreases p.len(),
{
    let s = p + seq![sep] + q;
    if p.len() > 0 {
        assert(s[0] == p[0]);
        assert(s.drop_first() =~= p.drop_first() + seq![sep] + q);
        assert forall|i: int| 0 <= i < p.drop_first().len() implies #[trigger] p.drop_first()[i]
            != '-' && p.drop_first()[i] != ' ' by {
            assert(p.drop_first()[i] == p[i + 1]);
        }
        lemma_first_separator_after(p.drop_first(), sep, q);
    } else {
        assert(s[0] == sep);
    }
}

/// Text without a separator has none.
proof fn lemma_no_separator(p: Seq<char>)
    requires
        forall|i: int| 0 <= i < p.len() ==> #[trigger] p[i] != '-' && p[i] != ' ',
    ensures
        first_separator(p) is None,
    decreases p.len(),
{
    if p.len() > 0 {
        assert(p[0] != '-' && p[0] != ' ');
        assert forall|i: int| 0 <= i < p.drop_first().len() implies #[trigger] p.drop_first()[i]
            != '-' && p.drop_first()[i] != ' ' by {
            assert(p.drop_first()[i] == p[i + 1]);
        }
        lemma_no_separator(p.drop_first());
    }
}

/// Cleaning a cell keeps everything after its first `-` or space, later separators included,
/// and keeps text without a separator whole.
pub proof fn law_cleaning_keeps_text_after_first_separator(p: Seq<char>, sep: char, q: Seq<char>)
    requires
        forall|i: int| 0 <= i < p.len() ==> #[trigger] p[i] != '-' && p[i] != ' ',
        sep == '-' || sep == ' ',
    ensures
        clean_cell(p + seq![sep] + q) == q,
        clean_cell(p) == p,
{
    lemma_first_separator_after(p, sep, q);
    assert((p + seq![sep] + q).skip(p.len() + 1int) =~= q);
    lemma_no_separator(p);
}

/// The rows after the header row, at most `limit` of them.
pub open spec fn limited_body(rows: Seq<Seq<Seq<char>>>, limit: usize) -> Seq<Seq<Seq<char>>> {
    if rows.len() <= 1 {
        seq![]
    } else if limit < rows.len() - 1 {
        rows.skip(1).take(limit as int)
    } else {
        rows.skip(1)
    }
}

/// The non-empty cleaned values in column `col` of `body`, each with the 1-based row number it
/// has in the sheet (the header row being row 1).
pub open spec fn source_items(body: Seq<Seq<Seq<char>>>, col: usize) -> Seq<(usize, Seq<char>)>
    decreases body.len(),
{
    if body.len() == 0 {
        seq![]
    } else {
        let r = body.last();
        source_items(body.drop_last(), col) + if col < r.len() && clean_cell(r[col as int]).len()
            > 0 {
            seq![((body.len() + 1) as usize, clean_cell(r[col as int]))]
        } else {
            seq![]
        }
    }
}

/// The non-empty cleaned values in column `col` of `body`.
pub open spec fn ledger_items(body: Seq<Seq<Seq<char>>>, col: usize) -> Seq<Seq<char>>
    decreases body.len(),
{
    if body.len() == 0 {
        seq![]
    } else {
        let r = body.last();
        ledger_items(body.drop_last(), col) + if col < r.len() && clean_cell(r[col as int]).len()
            > 0 {
            seq![clean_cell(r[col as int])]
        } else {
            seq![]
        }
    }
}

/// The source items whose value the ledger does not hold.
pub open spec fn unmatched_items(
    source: Seq<Seq<Seq<char>>>,
    ledger: Seq<Seq<Seq<char>>>,
    col: usize,
    source_limit: usize,
    ledger_limit: usize,
) -> Seq<(usize, Seq<char>)> {
    source_items(limited_body(source, source_limit), col).filter(
        |e: (usize, Seq<char>)| !ledger_items(limited_body(ledger, ledger_limit), col).contains(e.1),
    )
}

/// The distinct ledger values.
pub open spec fn ledger_set(ledger: Seq<Seq<Seq<char>>>, col: usize, ledger_limit: usize) -> Set<
    Seq<char>,
> {
    ledger_items(limited_body(ledger, ledger_limit), col).to_set()
}

proof fn lemma_limited_prefix(rows: Seq<Seq<Seq<char>>>, l: usize, l2: usize)
    requires
        l <= l2,
    ensures
        limited_body(rows, l).len() <= limited_body(rows, l2).len(),
        limited_body(rows, l2).take(limited_body(rows, l).len() as int) == limited_body(rows, l),
{
    assert(limited_body(rows, l2).take(limited_body(rows, l).len() as int) =~= limited_body(
        rows,
        l,
    ));
}

proof fn lemma_source_items_prefix(b: Seq<Seq<Seq<char>>>, k: int, col: usize)
    requires
        0 <= k <= b.len(),
    ensures
        source_items(b.take(k), col).len() <= source_items(b, col).len(),
        source_items(b, col).take(source_items(b.take(k), col).len() as int) == source_items(
            b.take(k),
            col,
        ),
    decreases b.len(),
{
    if k == b.len() {
        assert(b.take(k) =~= b);
        assert(source_items(b, col).take(source_items(b, col).len() as int) =~= source_items(
            b,
            col,
        ));
    } else {
        lemma_source_items_prefix(b.drop_last(), k, col);
        assert(b.drop_last().take(k) =~= b.take(k));
        let p = source_items(b.take(k), col);
        let q = source_items(b.drop_last(), col);
        assert(source_items(b, col).take(p.len() as int) =~= q.take(p.len() as int));
    }
}

proof fn lemma_ledger_items_prefix(b: Seq<Seq<Seq<char>>>, k: int, col: usize)
    requires
        0 <= k <= b.len(),
    ensures
        ledger_items(b.take(k), col).len() <= ledger_items(b, col).len(),
        ledger_items(b, col).take(ledger_items(b.take(k), col).len() as int) == ledger_items(
            b.take(k),
            col,
        ),
    decreases b.len(),
{
    if k == b.len() {
        assert(b.take(k) =~= b);
        assert(ledger_items(b, col).take(ledger_items(b, col).len() as int) =~= ledger_items(
            b,
            col,
        ));
    } else {
        lemma_ledger_items_prefix(b.drop_last(), k, col);
        assert(b.drop_last().take(k) =~= b.take(k));
        let p = ledger_items(b.take(k), col);
        let q = ledger_items(b.drop_last(), col);
        assert(ledger_items(b, col).take(p.len() as int) =~= q.take(p.len() as int));
    }
}

proof fn lemma_filter_refine<A>(s: Seq<A>, p: spec_fn(A) -> bool, q: spec_fn(A) -> bool)
    requires
        forall|x: A| #[trigger] q(x) ==> p(x),
    ensures
        s.filter(q) == s.filter(p).filter(q),
    decreases s.len(),
{
    if s.len() > 0 {
        let init = s.drop_last();
        let l = s.last();
        lemma_filter_refine(init, p, q);
        assert(s =~= init.push(l));
        init.lemma_filter_push(l, q);
        init.lemma_filter_push(l, p);
        init.filter(p).lemma_filter_push(l, q);
    } else {
        reveal(Seq::filter);
    }
}

/// The source items are, for each row of the body with a non-empty cleaned value in the
/// column, that value with the row's number in the sheet.
proof fn lemma_source_items_member(body: Seq<Seq<Seq<char>>>, col: usize, e: (usize, Seq<char>))
    ensures
        source_items(body, col).contains(e) <==> exists|b: int|
            0 <= b < body.len() && col < (#[trigger] body[b]).len() && clean_cell(
                body[b][col as int],
            ).len() > 0 && e == ((b + 2) as usize, clean_cell(body[b][col as int])),
    decreases body.len(),
{
    if body.len() > 0 {
        let init = body.drop_last();
        let r = body.last();
        lemma_source_items_member(init, col, e);
        let tail = if col < r.len() && clean_cell(r[col as int]).len() > 0 {
            seq![((body.len() + 1) as usize, clean_cell(r[col as int]))]
        } else {
            seq![]
        };
        let all = source_items(body, col);
        assert(all == source_items(init, col) + tail);
        if all.contains(e) {
            let k = choose|k: int| 0 <= k < all.len() && all[k] == e;
            if k < source_items(init, col).len() {
                assert(source_items(init, col)[k] == e);
                let b = choose|b: int|
                    0 <= b < init.len() && col < (#[trigger] init[b]).len() && clean_cell(
                        init[b][col as int],
                    ).len() > 0 && e == ((b + 2) as usize, clean_cell(init[b][col as int]));
                assert(body[b] == init[b]);
            } else {
                assert(body[body.len() - 1] == r);
            }
        }
        if exists|b: int|
            0 <= b < body.len() && col < (#[trigger] body[b]).len() && clean_cell(
                body[b][col as int],
            ).len() > 0 && e == ((b + 2) as usize, clean_cell(body[b][col as int])) {
            let b = choose|b: int|
                0 <= b < body.len() && col < (#[trigger] body[b]).len() && clean_cell(
                    body[b][col as int],
                ).len() > 0 && e == ((b + 2) as usize, clean_cell(body[b][col as int]));
            if b < init.len() {
                assert(init[b] == body[b]);
                let k = choose|k: int| 0 <= k < source_items(init, col).len() && source_items(init, col)[k] == e;
                assert(all[k] == e);
            } else {
                assert(all[all.len() - 1] == e);
            }
        }
    }
}

/// The ledger items are the non-empty cleaned values of the column, row by row.
proof fn lemma_ledger_items_member(body: Seq<Seq<Seq<char>>>, col: usize, v: Seq<char>)
    ensures
        ledger_items(body, col).contains(v) <==> exists|b: int|
            0 <= b < body.len() && col < (#[trigger] body[b]).len() && clean_cell(
                body[b][col as int],
            ).len() > 0 && v == clean_cell(body[b][col as int]),
    decreases body.len(),
{
    if body.len() > 0 {
        let init = body.drop_last();
        let r = body.last();
        lemma_ledger_items_member(init, col, v);
        let tail = if col < r.len() && clean_cell(r[col as int]).len() > 0 {
            seq![clean_cell(r[col as int])]
        } else {
            seq![]
        };
        let all = ledger_items(body, col);
        assert(all == ledger_items(init, col) + tail);
        if all.contains(v) {
            let k = choose|k: int| 0 <= k < all.len() && all[k] == v;
            if k < ledger_items(init, col).len() {
                assert(ledger_items(init, col)[k] == v);
                let b = choose|b: int|
                    0 <= b < init.len() && col < (#[trigger] init[b]).len() && clean_cell(
                        init[b][col as int],
                    ).len() > 0 && v == clean_cell(init[b][col as int]);
                assert(body[b] == init[b]);
            } else {
                assert(body[body.len() - 1] == r);
            }
        }
        if exists|b: int|
            0 <= b < body.len() && col < (#[trigger] body[b]).len() && clean_cell(
                body[b][col as int],
            ).len() > 0 && v == clean_cell(body[b][col as int]) {
            let b = choose|b: int|
                0 <= b < body.len() && col < (#[trigger] body[b]).len() && clean_cell(
                    body[b][col as int],
                ).len() > 0 && v == clean_cell(body[b][col as int]);
            if b < init.len() {
                assert(init[b] == body[b]);
                let k = choose|k: int| 0 <= k < ledger_items(init, col).len() && ledger_items(init, col)[k] == v;
                assert(all[k] == v);
            } else {
                assert(all[all.len() - 1] == v);
            }
        }
    }
}

/// Row `i` (0-based, after the header row 0) of `rows` is within the first `limit` rows of
/// the body.
pub open spec fn within_limit(rows: Seq<Seq<Seq<char>>>, limit: usize, i: int) -> bool {
    1 <= i < rows.len() && i <= limit
}

/// Some ledger row within the limit holds, in the column, a cell that cleans to `v`.
pub open spec fn ledger_holds(ledger: Seq<Seq<Seq<char>>>, col: usize, limit: usize, v: Seq<char>) -> bool {
    exists|j: int|
        within_limit(ledger, limit, j) && col < (#[trigger] ledger[j]).len() && clean_cell(
            ledger[j][col as int],
        ) == v
}

/// A value is reported exactly for each source row within the limit whose cell in the column
/// cleans to a non-empty value that no ledger row within its limit cleans to: the reported
/// pair is the row's 1-based number in the sheet and that cleaned value.
pub proof fn law_reported_values_are_source_rows_the_ledger_lacks(
    source: Seq<Seq<Seq<char>>>,
    ledger: Seq<Seq<Seq<char>>>,
    col: usize,
    source_limit: usize,
    ledger_limit: usize,
    e: (usize, Seq<char>),
)
    ensures
        unmatched_items(source, ledger, col, source_limit, ledger_limit).contains(e) <==> exists|
            i: int,
        |
            within_limit(source, source_limit, i) && col < (#[trigger] source[i]).len()
                && clean_cell(source[i][col as int]).len() > 0 && e == (
                (i + 1) as usize,
                clean_cell(source[i][col as int]),
            ) && !ledger_holds(ledger, col, ledger_limit, e.1),
{
    let sb = limited_body(source, source_limit);
    let gb = limited_body(ledger, ledger_limit);
    let items = source_items(sb, col);
    let gl = ledger_items(gb, col);
    let pred = |x: (usize, Seq<char>)| !gl.contains(x.1);
    lemma_source_items_member(sb, col, e);
    lemma_ledger_items_member(gb, col, e.1);
    assert(forall|b: int| 0 <= b < sb.len() ==> #[trigger] sb[b] == source[b + 1]);
    assert(forall|b: int| 0 <= b < gb.len() ==> #[trigger] gb[b] == ledger[b + 1]);
    // The ledger holds the value exactly when its items do.
    if ledger_holds(ledger, col, ledger_limit, e.1) && e.1.len() > 0 {
        let j = choose|j: int|
            within_limit(ledger, ledger_limit, j) && col < (#[trigger] ledger[j]).len() && clean_cell(
                ledger[j][col as int],
            ) == e.1;
        assert(gb[j - 1] == ledger[j]);
        assert(gl.contains(e.1));
    }
    if gl.contains(e.1) {
        let b = choose|b: int|
            0 <= b < gb.len() && col < (#[trigger] gb[b]).len() && clean_cell(
                gb[b][col as int],
            ).len() > 0 && e.1 == clean_cell(gb[b][col as int]);
        assert(ledger[b + 1] == gb[b]);
        assert(ledger_holds(ledger, col, ledger_limit, e.1));
    }
    // The filter keeps exactly the items the ledger lacks.
    let out = unmatched_items(source, ledger, col, source_limit, ledger_limit);
    assert(out == items.filter(pred));
    if out.contains(e) {
        items.lemma_filter_contains_rev(pred, e);
        let k = choose|k: int| 0 <= k < out.len() && out[k] == e;
        items.lemma_filter_pred(pred, k);
        let b = choose|b: int|
            0 <= b < sb.len() && col < (#[trigger] sb[b]).len() && clean_cell(
                sb[b][col as int],
            ).len() > 0 && e == ((b + 2) as usize, clean_cell(sb[b][col as int]));
        assert(source[b + 1] == sb[b]);
        assert(within_limit(source, source_limit, b + 1));
    }
    if exists|i: int|
        within_limit(source, source_limit, i) && col < (#[trigger] source[i]).len()
            && clean_cell(source[i][col as int]).len() > 0 && e == (
            (i + 1) as usize,
            clean_cell(source[i][col as int]),
        ) && !ledger_holds(ledger, col, ledger_limit, e.1) {
        let i = choose|i: int|
            within_limit(source, source_limit, i) && col < (#[trigger] source[i]).len()
                && clean_cell(source[i][col as int]).len() > 0 && e == (
                (i + 1) as usize,
                clean_cell(source[i][col as int]),
            ) && !ledger_holds(ledger, col, ledger_limit, e.1);
        assert(sb[i - 1] == source[i]);
        assert(items.contains(e));
        let k = choose|k: int| 0 <= k < items.len() && items[k] == e;
        items.lemma_filter_contains(pred, k);
    }
}

/// More source rows only add values lacking, after those found with fewer; more ledger rows
/// only remove some of them (those that the longer ledger holds), and the ledger's distinct
/// values only grow.
pub proof fn law_limits_extend_results(
    source: Seq<Seq<Seq<char>>>,
    ledger: Seq<Seq<Seq<char>>>,
    col: usize,
    source_limit: usize,
    more_source: usize,
    ledger_limit: usize,
    more_ledger: usize,
)
    requires
        source_limit <= more_source,
        ledger_limit <= more_ledger,
    ensures
        ({
            let fewer = unmatched_items(source, ledger, col, source_limit, ledger_limit);
            let longer = unmatched_items(source, ledger, col, more_source, ledger_limit);
            &&& fewer.len() <= longer.len()
            &&& longer.take(fewer.len() as int) == fewer
        }),
        unmatched_items(source, ledger, col, source_limit, more_ledger) == unmatched_items(
            source,
            ledger,
            col,
            source_limit,
            ledger_limit,
        ).filter(
            |e: (usize, Seq<char>)|
                !ledger_items(limited_body(ledger, more_ledger), col).contains(e.1),
        ),
        ledger_set(ledger, col, ledger_limit).subset_of(ledger_set(ledger, col, more_ledger)),
        ledger_set(ledger, col, ledger_limit).len() <= ledger_set(ledger, col, more_ledger).len(),
{
    // More source rows.
    let sb = limited_body(source, source_limit);
    let sb2 = limited_body(source, more_source);
    lemma_limited_prefix(source, source_limit, more_source);
    lemma_source_items_prefix(sb2, sb.len() as int, col);
    let gl = ledger_items(limited_body(ledger, ledger_limit), col);
    let pred = |e: (usize, Seq<char>)| !gl.contains(e.1);
    let small = source_items(sb, col);
    let big = source_items(sb2, col);
    assert(big =~= small + big.skip(small.len() as int));
    Seq::filter_distributes_over_add(small, big.skip(small.len() as int), pred);
    assert(big.filter(pred).take(small.filter(pred).len() as int) =~= small.filter(pred));
    // More ledger rows.
    let gb = limited_body(ledger, ledger_limit);
    let gb2 = limited_body(ledger, more_ledger);
    lemma_limited_prefix(ledger, ledger_limit, more_ledger);
    lemma_ledger_items_prefix(gb2, gb.len() as int, col);
    let gl2 = ledger_items(gb2, col);
    assert(gb2.take(gb.len() as int) == gb);
    assert forall|v: Seq<char>| gl.contains(v) implies gl2.contains(v) by {
        let i = choose|i: int| 0 <= i < gl.len() && gl[i] == v;
        assert(gl2[i] == gl[i]);
    }
    let pred2 = |e: (usize, Seq<char>)| !gl2.contains(e.1);
    lemma_filter_refine(small, pred, pred2);
    assert(gl.to_set().subset_of(gl2.to_set()));
    vstd::set_lib::lemma_len_subset(gl.to_set(), gl2.to_set());
}

/// The views of a grid of texts.
pub open spec fn text_grid_view(g: Seq<Vec<String>>) -> Seq<Seq<Seq<char>>> {
    g.map_values(|r: Vec<String>| strings_view(r@))
}

/// The views of (row, value) pairs.
pub open spec fn items_view(m: Seq<(usize, String)>) -> Seq<(usize, Seq<char>)> {
    m.map_values(|p: (usize, String)| (p.0, p.1@))
}

fn clean_cell_chars(s: &Vec<char>) -> (r: Vec<char>)
    ensures
        r@ == clean_cell(s@),
{
    let mut i: usize = 0;
    assert(s@.skip(0) =~= s@);
    while i < s.len()
        invariant
            i <= s@.len(),
            forall|j: int| 0 <= j < i ==> s@[j] != '-' && s@[j] != ' ',
            first_separator(s@) == match first_separator(s@.skip(i as int)) {
                Some(k) => Some(k + i),
                None => None,
            },
        decreases s@.len() - i,
    {
        let ghost t = s@.skip(i as int);
        assert(t[0] == s@[i as int]);
        if s[i] == '-' || s[i] == ' ' {
            let mut r: Vec<char> = Vec::new();
            let mut k: usize = i + 1;
            while k < s.len()
                invariant
                    i + 1 <= k <= s@.len(),
                    r@ == s@.subrange(i + 1, k as int),
                decreases s@.len() - k,
            {
                r.push(s[k]);
                k = k + 1;
                assert(r@ =~= s@.subrange(i + 1, k as int));
            }
            assert(r@ =~= s@.skip(i + 1));
            return r;
        }
        assert(t.drop_first() =~= s@.skip(i + 1));
        i = i + 1;
    }
    assert(s@.skip(i as int).len() == 0);
    s.clone()
}

/// The non-empty cleaned value in column `col` of `row`, if any.
fn cleaned_at(row: &Vec<String>, col: usize) -> (r: Option<Vec<char>>)
    ensures
        match r {
            Some(v) => col < row@.len() && v@ == clean_cell(row@[col as int]@) && v@.len() > 0,
            None => !(col < row@.len() && clean_cell(row@[col as int]@).len() > 0),
        },
{
    if col < row.len() {
        let v = chars_of(row[col].as_str());
        let c = clean_cell_chars(&v);
        if c.len() > 0 {
            Some(c)
        } else {
            None
        }
    } else {
        None
    }
}

fn contains_chars(set: &Vec<Vec<char>>, v: &Vec<char>) -> (b: bool)
    ensures
        b == set@.map_values(|x: Vec<char>| x@).contains(v@),
{
    let ghost sv = set@.map_values(|x: Vec<char>| x@);
    let mut i: usize = 0;
    while i < set.len()
        invariant
            i <= set@.len(),
            sv == set@.map_values(|x: Vec<char>| x@),
            forall|j: int| 0 <= j < i ==> sv[j] != v@,
        decreases set@.len() - i,
    {
        if chars_eq(&set[i], v) {
            assert(sv[i as int] == v@);
            return true;
        }
        i = i + 1;
    }
    false
}

/// The number of rows of `rows` after the header row, at most `limit`.
fn limited_len(rows_len: usize, limit: usize) -> (n: usize)
    ensures
        n == limited_body_len(rows_len as nat, limit),
{
    if rows_len <= 1 {
        0
    } else if limit < rows_len - 1 {
        limit
    } else {
        rows_len - 1
    }
}

/// The length of `limited_body` for `n` rows.
pub open spec fn limited_body_len(n: nat, limit: usize) -> nat {
    if n <= 1 {
        0
    } else if limit < n - 1 {
        limit as nat
    } else {
        (n - 1) as nat
    }
}

proof fn lemma_limited_body(rows: Seq<Seq<Seq<char>>>, limit: usize, k: int)
    requires
        0 <= k < limited_body_len(rows.len(), limit),
    ensures
        limited_body(rows, limit).len() == limited_body_len(rows.len(), limit),
        limited_body(rows, limit)[k] == rows[k + 1],
{
}

/// The cleaned values of column `col` in the source rows (after the header row, at most
/// `source_limit` of them) that the ledger rows (likewise, at most `ledger_limit`) do not hold,
/// with their row numbers; the number of distinct ledger values; and the number of such values.
pub fn diff_ledger_column(
    source: &Vec<Vec<String>>,
    ledger: &Vec<Vec<String>>,
    col: usize,
    source_limit: usize,
    ledger_limit: usize,
) -> (r: (Vec<(usize, String)>, usize, usize))
    ensures
        items_view(r.0@) == unmatched_items(
            text_grid_view(source@),
            text_grid_view(ledger@),
            col,
            source_limit,
            ledger_limit,
        ),
        r.1 == ledger_set(text_grid_view(ledger@), col, ledger_limit).len(),
        r.2 == r.0@.len(),
{
    let ghost src = text_grid_view(source@);
    let ghost gl = text_grid_view(ledger@);
    let ghost sbody = limited_body(src, source_limit);
    let ghost gbody = limited_body(gl, ledger_limit);
    // The ledger's distinct values
    let gn = limited_len(ledger.len(), ledger_limit);
    let mut gl_set: Vec<Vec<char>> = Vec::new();
    let mut i: usize = 0;
    while i < gn
        invariant
            i <= gn,
            gn == limited_body_len(gl.len(), ledger_limit),
            gl == text_grid_view(ledger@),
            gbody == limited_body(gl, ledger_limit),
            gbody.len() == gn,
            gl_set@.map_values(|x: Vec<char>| x@).no_duplicates(),
            gl_set@.map_values(|x: Vec<char>| x@).to_set() == ledger_items(
                gbody.take(i as int),
                col,
            ).to_set(),
        decreases gn - i,
    {
        proof {
            lemma_limited_body(gl, ledger_limit, i as int);
        }
        assert(gbody.take(i + 1).drop_last() =~= gbody.take(i as int));
        assert(gbody.take(i + 1).last() == gbody[i as int]);
        let ghost before = gl_set@.map_values(|x: Vec<char>| x@);
        match cleaned_at(&ledger[i + 1], col) {
            Some(v) => {
                if !contains_chars(&gl_set, &v) {
                    gl_set.push(v);
                    assert(gl_set@.map_values(|x: Vec<char>| x@) =~= before.push(v@));
                    assert(before.push(v@).to_set() =~= before.to_set().insert(v@)) by {
                        before.lemma_push_to_set_commute(v@);
                    }
                    assert(ledger_items(gbody.take(i + 1), col).to_set() =~= ledger_items(
                        gbody.take(i as int),
                        col,
                    ).to_set().insert(v@)) by {
                        Seq::lemma_to_set_insert_commutes(ledger_items(gbody.take(i as int), col), v@);
                    }
                    assert(before.push(v@).no_duplicates()) by {
                        assert forall|a: int, b: int|
                            0 <= a < before.push(v@).len() && 0 <= b < before.push(v@).len() && a
                                != b implies before.push(v@)[a] != before.push(v@)[b] by {
                            if a == before.len() as int {
                                assert(before.contains(before[b]));
                            } else if b == before.len() as int {
                                assert(before.contains(before[a]));
                            }
                        }
                    }
                } else {
                    assert(ledger_items(gbody.take(i + 1), col).to_set() =~= ledger_items(
                        gbody.take(i as int),
                        col,
                    ).to_set().insert(v@)) by {
                        Seq::lemma_to_set_insert_commutes(ledger_items(gbody.take(i as int), col), v@);
                    }
                    assert(before.to_set().contains(v@));
                    assert(before.to_set().insert(v@) =~= before.to_set());
                }
            },
            None => {
                assert(ledger_items(gbody.take(i + 1), col) =~= ledger_items(
                    gbody.take(i as int),
                    col,
                ));
            },
        }
        i = i + 1;
    }
    assert(gbody.take(gn as int) =~= gbody);
    proof {
        gl_set@.map_values(|x: Vec<char>| x@).unique_seq_to_set();
    }
    let gl_count = gl_set.len();
    // Source values the ledger lacks
    let source_len = source.len();
    let sn = limited_len(source_len, source_limit);
    let mut mismatches: Vec<(usize, String)> = Vec::new();
    let ghost pred = |e: (usize, Seq<char>)| !ledger_items(gbody, col).contains(e.1);
    let mut i: usize = 0;
    while i < sn
        invariant
            i <= sn,
            sn == limited_body_len(src.len(), source_limit),
            src == text_grid_view(source@),
            src.len() == source@.len(),
            source_len == source@.len(),
            sbody == limited_body(src, source_limit),
            sbody.len() == sn,
            gl_set@.map_values(|x: Vec<char>| x@).to_set() == ledger_items(gbody, col).to_set(),
            pred == (|e: (usize, Seq<char>)| !ledger_items(gbody, col).contains(e.1)),
            items_view(mismatches@) == source_items(sbody.take(i as int), col).filter(pred),
        decreases sn - i,
    {
        proof {
            lemma_limited_body(src, source_limit, i as int);
            reveal(Seq::filter);
        }
        assert(sbody.take(i + 1).drop_last() =~= sbody.take(i as int));
        assert(sbody.take(i + 1).last() == sbody[i as int]);
        let ghost before = items_view(mismatches@);
        let ghost prev_items = source_items(sbody.take(i as int), col);
        match cleaned_at(&source[i + 1], col) {
            Some(v) => {
                let ghost item = ((i + 2) as usize, v@);
                assert(source_items(sbody.take(i + 1), col) =~= prev_items.push(item));
                assert(prev_items.push(item).filter(pred) == if pred(item) {
                    prev_items.filter(pred).push(item)
                } else {
                    prev_items.filter(pred)
                }) by {
                    prev_items.lemma_filter_push(item, pred);
                }
                let held = contains_chars(&gl_set, &v);
                assert(held == ledger_items(gbody, col).contains(v@)) by {
                    assert(gl_set@.map_values(|x: Vec<char>| x@).contains(v@) == gl_set@.map_values(
                        |x: Vec<char>| x@,
                    ).to_set().contains(v@));
                    assert(ledger_items(gbody, col).contains(v@) == ledger_items(
                        gbody,
                        col,
                    ).to_set().contains(v@));
                }
                if !held {
                    mismatches.push((i + 2, string_from_chars(v.as_slice())));
                    assert(items_view(mismatches@) =~= before.push(item));
                }
            },
            None => {
                assert(source_items(sbody.take(i + 1), col) =~= prev_items);
            },
        }
        i = i + 1;
    }
    assert(sbody.take(sn as int) =~= sbody);
    let n = mismatches.len();
    (mismatches, gl_count, n)
}

/// The kind of a worksheet cell as read: a date-time cell carries the year, month and day of
/// its calendar date.
pub enum ReadKind {
    Text,
    Number,
    Bool(bool),
    DateTime(u16, u8, u8),
    Iso,
    Duration,
    Error,
    Empty,
}

/// A worksheet cell as read: its kind, and its value as it displays.
pub struct CellReading {
    pub kind: ReadKind,
    pub text: Seq<char>,
}

/// What an opened workbook holds: the names of its sheets, and the cells of each readable
/// sheet's used range, by name.
pub struct WorkbookContents {
    pub names: Seq<Seq<char>>,
    pub sheets: Map<Seq<char>, Seq<Seq<CellReading>>>,
}

/// The display texts of a grid of cells.
pub open spec fn reading_texts(g: Seq<Seq<CellReading>>) -> Seq<Seq<Seq<char>>> {
    g.map_values(|r: Seq<CellReading>| r.map_values(|c: CellReading| c.text))
}

/// The kind of a worksheet cell.
#[derive(Debug)]
pub enum CellKind {
    Text,
    Number,
    Bool(bool),
    /// A date-time, by the year, month and day of its date
    DateTime(u16, u8, u8),
    Iso,
    Duration,
    Error,
    Empty,
}

/// A worksheet cell: its kind, and its value as it displays.
#[derive(Debug)]
pub struct SheetCell {
    pub kind: CellKind,
    pub text: String,
}

impl View for SheetCell {
    type V = CellReading;

    open spec fn view(&self) -> CellReading {
        CellReading {
            kind: match self.kind {
                CellKind::Text => ReadKind::Text,
                CellKind::Number => ReadKind::Number,
                CellKind::Bool(b) => ReadKind::Bool(b),
                CellKind::DateTime(y, m, d) => ReadKind::DateTime(y, m, d),
                CellKind::Iso => ReadKind::Iso,
                CellKind::Duration => ReadKind::Duration,
                CellKind::Error => ReadKind::Error,
                CellKind::Empty => ReadKind::Empty,
            },
            text: self.text@,
        }
    }
}

/// The views of a grid of worksheet cells.
pub open spec fn cells_view(g: Seq<Vec<SheetCell>>) -> Seq<Seq<CellReading>> {
    g.map_values(|r: Vec<SheetCell>| r@.map_values(|c: SheetCell| c@))
}

/// What an opened workbook holds.
pub uninterp spec fn workbook_contents(book: Xlsx<Cursor<Vec<u8>>>) -> WorkbookContents;

/// What opening the bytes of an `.xlsx` file gives: what the workbook holds, or the message of
/// the failure.
pub uninterp spec fn xlsx_opened(bytes: Seq<u8>) -> Result<WorkbookContents, Seq<char>>;

/// calamine's `open_workbook_from_rs` over the bytes of an `.xlsx` file held in memory: the
/// workbook, whose contents are those that the bytes hold, or the failure's message. Both are
/// determined by the bytes.
#[verifier::external_body]
pub(crate) fn open_xlsx(bytes: Vec<u8>) -> (r: Result<Xlsx<Cursor<Vec<u8>>>, String>)
    ensures
        match r {
            Ok(book) => xlsx_opened(bytes@) == Ok::<_, Seq<char>>(workbook_contents(book)),
            Err(e) => xlsx_opened(bytes@) == Err::<WorkbookContents, _>(e@),
        },
{
    calamine::open_workbook_from_rs(Cursor::new(bytes)).map_err(
        |e: calamine::XlsxError| e.to_string(),
    )
}

/// calamine's `Reader::sheet_names`: the names of the workbook's sheets, in order.
#[verifier::external_body]
pub(crate) fn sheet_names_of(book: &Xlsx<Cursor<Vec<u8>>>) -> (r: Vec<String>)
    ensures
        strings_view(r@) == workbook_contents(*book).names,
{
    book.sheet_names()
}

/// calamine's `Reader::worksheet_range` on an `.xlsx` workbook: the rows of the named sheet,
/// each cell as its value displays, when the workbook has it readable; otherwise a failure,
/// whose message is not stated. The workbook's contents stay as they were.
#[verifier::external_body]
fn sheet_texts(book: &mut Xlsx<Cursor<Vec<u8>>>, name: &str) -> (r: Result<
    Vec<Vec<String>>,
    String,
>)
    ensures
        workbook_contents(*final(book)) == workbook_contents(*old(book)),
        r is Ok <==> workbook_contents(*old(book)).sheets.contains_key(name@),
        r matches Ok(rows) ==> text_grid_view(rows@) == reading_texts(
            workbook_contents(*old(book)).sheets[name@],
        ),
{
    book.worksheet_range(name).map(
        |range| range.rows().map(|row| row.iter().map(|c| c.to_string()).collect()).collect(),
    ).map_err(|e| e.to_string())
}

/// calamine's `Reader::worksheet_range` on an `.xlsx` workbook, each cell read as its kind and
/// its display text, when the workbook has the sheet readable; otherwise a failure, whose
/// message is not stated. A date-time cell's date is the year, month and day that
/// `ExcelDateTime::to_ymd_hms_milli` gives, which returns a date for every serial value (below
/// the calendar's range the first day, above it 9999-12-31). The workbook's contents stay as
/// they were.
#[verifier::external_body]
pub(crate) fn sheet_cells(book: &mut Xlsx<Cursor<Vec<u8>>>, name: &str) -> (r: Result<
    Vec<Vec<SheetCell>>,
    String,
>)
    ensures
        workbook_contents(*final(book)) == workbook_contents(*old(book)),
        r is Ok <==> workbook_contents(*old(book)).sheets.contains_key(name@),
        r matches Ok(rows) ==> cells_view(rows@) == workbook_contents(*old(book)).sheets[name@],
{
    book.worksheet_range(name).map(|range| range.rows().map(|row| row.iter().map(|c| SheetCell {
        text: c.to_string(),
        kind: match c {
            Data::String(_) => CellKind::Text,
            Data::Float(_) | Data::Int(_) => CellKind::Number,
            Data::Bool(b) => CellKind::Bool(*b),
            Data::DateTime(d) => { let t = d.to_ymd_hms_milli(); CellKind::DateTime(t.0, t.1, t.2) },
            Data::DateTimeIso(_) => CellKind::Iso,
            Data::DurationIso(_) => CellKind::Duration,
            Data::Error(_) => CellKind::Error,
            Data::Empty => CellKind::Empty,
        },
    }).collect()).collect()).map_err(|e| e.to_string())
}

#[verifier::external_type_specification]
#[verifier::external_body]
#[verifier::reject_recursive_types(RS)]
pub struct ExXlsx<RS>(Xlsx<RS>);

#[verifier::external_type_specification]
#[verifier::external_body]
#[verifier::reject_recursive_types(T)]
pub struct ExCursor<T>(Cursor<T>);

fn sheet_error(sheet: &String, e: String) -> (r: ExcelDiffError)
    ensures
        r matches ExcelDiffError::SheetNotFoundError(m) && m@ == sheet@ + ": "@ + e@,
{
    ExcelDiffError::SheetNotFoundError(sheet.clone().concat(": ").concat(e.as_str()))
}

/// The sheet-not-found error that names `sheet`, with some message after it.
pub open spec fn names_missing_sheet(
    r: ExcelDiffResult<(Vec<(usize, String)>, usize, usize)>,
    sheet: Seq<char>,
) -> bool {
    r matches Err(ExcelDiffError::SheetNotFoundError(m)) && exists|e: Seq<char>|
        m@ == sheet + ": "@ + e
}

/// Compare one column of two sheets of an `.xlsx` workbook (given by its bytes): the cleaned
/// values of the source sheet that the ledger sheet lacks, with their row numbers; the number
/// of distinct ledger values; and the number of values lacking.
pub fn compare_sheets_sync(
    workbook: Vec<u8>,
    source_sheet: String,
    gl_sheet: String,
    column_index: usize,
    source_limit: usize,
    gl_limit: usize,
) -> (r: ExcelDiffResult<(Vec<(usize, String)>, usize, usize)>)
    ensures
        match xlsx_opened(workbook@) {
            Err(msg) => r matches Err(ExcelDiffError::WorkbookOpenError(m)) && m@ == msg,
            Ok(wb) => if !wb.sheets.contains_key(source_sheet@) {
                names_missing_sheet(r, source_sheet@)
            } else if !wb.sheets.contains_key(gl_sheet@) {
                names_missing_sheet(r, gl_sheet@)
            } else {
                r matches Ok(res) && {
                    &&& items_view(res.0@) == unmatched_items(
                        reading_texts(wb.sheets[source_sheet@]),
                        reading_texts(wb.sheets[gl_sheet@]),
                        column_index,
                        source_limit,
                        gl_limit,
                    )
                    &&& res.1 == ledger_set(
                        reading_texts(wb.sheets[gl_sheet@]),
                        column_index,
                        gl_limit,
                    ).len()
                    &&& res.2 == res.0@.len()
                }
            },
        },
{
    let ghost bytes = workbook@;
    let mut book = match open_xlsx(workbook) {
        Ok(b) => b,
        Err(e) => {
            return Err(ExcelDiffError::WorkbookOpenError(e));
        },
    };
    let source = match sheet_texts(&mut book, source_sheet.as_str()) {
        Ok(rows) => rows,
        Err(e) => {
            let err = sheet_error(&source_sheet, e);
            return Err(err);
        },
    };
    let ledger = match sheet_texts(&mut book, gl_sheet.as_str()) {
        Ok(rows) => rows,
        Err(e) => {
            let err = sheet_error(&gl_sheet, e);
            return Err(err);
        },
    };
    let res = diff_ledger_column(&source, &ledger, column_index, source_limit, gl_limit);
    Ok(res)
}

} // verus!
