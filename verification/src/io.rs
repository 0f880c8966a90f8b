//! Building sheets from loaded cells: header normalization, column type detection, and the
//! layout of Excel ranges and CSV records into rows.

use vstd::prelude::*;
use crate::text::{
    chars_eq, chars_of, decimal, decimal_chars, is_blank, is_blank_chars, lower_chars, lowercase,
    str_eq, string_from_chars, to_lowercase, trim, trim_chars,
};
use crate::config::CsvOptions;
use crate::types::{
    cell_at, rows_view, strings_view, types_view, CellValue, CellView, DataRow, RowView,
    SheetData, ValueType,
};

verus! {

/// The characters that header normalization turns into `_`.
pub open spec fn is_header_separator(c: char) -> bool {
    c == ' ' || c == '-' || c == '.' || c == '(' || c == ')' || c == '[' || c == ']' || c == '/'
        || c == '\\' || c == '#'
}

/// `s` with every separator character replaced by `_`.
pub open spec fn underscore_separators(s: Seq<char>) -> Seq<char> {
    s.map_values(|c: char| if is_header_separator(c) { '_' } else { c })
}

/// `s` without its `:` and `;` characters.
pub open spec fn without_colons(s: Seq<char>) -> Seq<char>
    decreases s.len(),
{
    if s.len() == 0 {
        s
    } else if s.last() == ':' || s.last() == ';' {
        without_colons(s.drop_last())
    } else {
        without_colons(s.drop_last()).push(s.last())
    }
}

/// `s` with each `__`, taken from the left without overlap, replaced by `_`
/// (as `str::replace("__", "_")` does).
pub open spec fn collapse_underscores(s: Seq<char>) -> Seq<char>
    decreases s.len(),
{
    if s.len() >= 2 && s[0] == '_' && s[1] == '_' {
        seq!['_'] + collapse_underscores(s.skip(2))
    } else if s.len() == 0 {
        s
    } else {
        seq![s[0]] + collapse_underscores(s.skip(1))
    }
}

/// `s` without its leading `_` characters.
pub open spec fn strip_leading_underscores(s: Seq<char>) -> Seq<char>
    decreases s.len(),
{
    if s.len() > 0 && s[0] == '_' {
        strip_leading_underscores(s.drop_first())
    } else {
        s
    }
}

/// `s` without its trailing `_` characters.
pub open spec fn strip_trailing_underscores(s: Seq<char>) -> Seq<char>
    decreases s.len(),
{
    if s.len() > 0 && s.last() == '_' {
        strip_trailing_underscores(s.drop_last())
    } else {
        s
    }
}

/// The normalized form of a header: trimmed, lowercased, separators replaced by `_`, `:` and
/// `;` removed, `__` collapsed, and leading and trailing `_` removed.
pub open spec fn header_base(h: Seq<char>) -> Seq<char> {
    strip_trailing_underscores(
        strip_leading_underscores(
            collapse_underscores(without_colons(underscore_separators(lowercase(trim(h))))),
        ),
    )
}

/// The number of positions before `i` in `bases` that hold `b`.
pub open spec fn count_before(bases: Seq<Seq<char>>, i: int, b: Seq<char>) -> nat
    decreases i,
{
    if i <= 0 {
        0
    } else {
        count_before(bases, i - 1, b) + if bases[i - 1] == b {
            1nat
        } else {
            0nat
        }
    }
}

/// The final name of the header at position `i`, given the normalized forms `bases` of all
/// headers: `column_{i+1}` when the normalized form is empty; the normalized form when it
/// occurred before; otherwise the normalized form, `_`, and its occurrence number.
pub open spec fn header_name(bases: Seq<Seq<char>>, i: int) -> Seq<char> {
    if bases[i].len() == 0 {
        "column_"@ + decimal((i + 1) as nat)
    } else if count_before(bases, i, bases[i]) > 0 {
        bases[i] + seq!['_'] + decimal(count_before(bases, i, bases[i]) + 1)
    } else {
        bases[i]
    }
}

/// The normalized forms of `headers`.
pub open spec fn header_bases(headers: Seq<Seq<char>>) -> Seq<Seq<char>> {
    headers.map_values(|h: Seq<char>| header_base(h))
}

/// The final names of `headers`.
pub open spec fn normalized_headers(headers: Seq<Seq<char>>) -> Seq<Seq<char>> {
    Seq::new(headers.len(), |i: int| header_name(header_bases(headers), i))
}

fn underscore_separators_chars(s: &Vec<char>) -> (r: Vec<char>)
    ensures
        r@ == underscore_separators(s@),
{
    let mut r: Vec<char> = Vec::new();
    let mut i: usize = 0;
    while i < s.len()
        invariant
            i <= s@.len(),
            r@ == underscore_separators(s@.take(i as int)),
        decreases s@.len() - i,
    {
        let c = s[i];
        let d = if c == ' ' || c == '-' || c == '.' || c == '(' || c == ')' || c == '[' || c == ']'
            || c == '/' || c == '\\' || c == '#' {
            '_'
        } else {
            c
        };
        r.push(d);
        i = i + 1;
        assert(r@ =~= underscore_separators(s@.take(i as int)));
    }
    assert(s@.take(s@.len() as int) =~= s@);
    r
}

fn without_colons_chars(s: &Vec<char>) -> (r: Vec<char>)
    ensures
        r@ == without_colons(s@),
{
    let mut r: Vec<char> = Vec::new();
    let mut i: usize = 0;
    while i < s.len()
        invariant
            i <= s@.len(),
            r@ == without_colons(s@.take(i as int)),
        decreases s@.len() - i,
    {
        assert(s@.take(i + 1).drop_last() =~= s@.take(i as int));
        let c = s[i];
        if c != ':' && c != ';' {
            r.push(c);
        }
        i = i + 1;
    }
    assert(s@.take(s@.len() as int) =~= s@);
    r
}

fn collapse_underscores_chars(s: &Vec<char>) -> (r: Vec<char>)
    ensures
        r@ == collapse_underscores(s@),
{
    let mut r: Vec<char> = Vec::new();
    let mut i: usize = 0;
    assert(s@.skip(0) =~= s@);
    while i < s.len()
        invariant
            i <= s@.len(),
            r@ + collapse_underscores(s@.skip(i as int)) == collapse_underscores(s@),
        decreases s@.len() - i,
    {
        let ghost t = s@.skip(i as int);
        if i + 1 < s.len() && s[i] == '_' && s[i + 1] == '_' {
            assert(t[0] == '_' && t[1] == '_');
            assert(t.skip(2) =~= s@.skip(i + 2));
            r.push('_');
            i = i + 2;
            assert(r@ + collapse_underscores(s@.skip(i as int)) =~= collapse_underscores(s@));
        } else {
            assert(t.skip(1) =~= s@.skip(i + 1));
            assert(t[0] == s@[i as int]);
            r.push(s[i]);
            i = i + 1;
            assert(r@ + collapse_underscores(s@.skip(i as int)) =~= collapse_underscores(s@));
        }
    }
    assert(s@.skip(i as int).len() == 0);
    assert(r@ + collapse_underscores(s@.skip(i as int)) =~= r@);
    r
}

proof fn lemma_strip_leading_skip(s: Seq<char>, i: int)
    requires
        0 <= i <= s.len(),
        forall|j: int| 0 <= j < i ==> #[trigger] s[j] == '_',
    ensures
        strip_leading_underscores(s) == strip_leading_underscores(s.skip(i)),
    decreases i,
{
    if i > 0 {
        assert(s.skip(1).skip(i - 1) =~= s.skip(i));
        lemma_strip_leading_skip(s.drop_first(), i - 1);
    } else {
        assert(s.skip(0) =~= s);
    }
}

proof fn lemma_strip_trailing_take(s: Seq<char>, j: int)
    requires
        0 <= j <= s.len(),
        forall|k: int| j <= k < s.len() ==> #[trigger] s[k] == '_',
    ensures
        strip_trailing_underscores(s) == strip_trailing_underscores(s.take(j)),
    decreases s.len() - j,
{
    if j < s.len() {
        assert(s.drop_last().take(j) =~= s.take(j));
        lemma_strip_trailing_take(s.drop_last(), j);
    } else {
        assert(s.take(j) =~= s);
    }
}

fn strip_underscores_chars(s: &Vec<char>) -> (r: Vec<char>)
    ensures
        r@ == strip_trailing_underscores(strip_leading_underscores(s@)),
{
    let n = s.len();
    let mut i: usize = 0;
    while i < n && s[i] == '_'
        invariant
            i <= n,
            n == s@.len(),
            forall|j: int| 0 <= j < i ==> #[trigger] s@[j] == '_',
        decreases n - i,
    {
        i = i + 1;
    }
    proof {
        lemma_strip_leading_skip(s@, i as int);
    }
    let ghost t = s@.skip(i as int);
    assert(i < n ==> t[0] != '_');
    assert(strip_leading_underscores(t) == t);
    let mut j: usize = n;
    while j > i && s[j - 1] == '_'
        invariant
            i <= j <= n,
            n == s@.len(),
            forall|k: int| j <= k < n ==> #[trigger] s@[k] == '_',
        decreases j,
    {
        j = j - 1;
    }
    proof {
        let tt = t.take(j - i);
        assert forall|k: int| j - i <= k < t.len() implies #[trigger] t[k] == '_' by {
            assert(t[k] == s@[k + i]);
        }
        lemma_strip_trailing_take(t, j - i);
        assert(tt.len() > 0 ==> tt.last() == s@[j - 1]);
        assert(strip_trailing_underscores(tt) == tt);
        assert(tt =~= s@.subrange(i as int, j as int));
    }
    let mut r: Vec<char> = Vec::new();
    let mut k: usize = i;
    while k < j
        invariant
            i <= k <= j <= n,
            n == s@.len(),
            r@ == s@.subrange(i as int, k as int),
        decreases j - k,
    {
        r.push(s[k]);
        k = k + 1;
        assert(r@ =~= s@.subrange(i as int, k as int));
    }
    r
}

/// The normalized form of one header.
fn header_base_chars(h: &str) -> (r: Vec<char>)
    ensures
        r@ == header_base(h@),
{
    let v = chars_of(h);
    let t = trim_chars(&v);
    let l = lower_chars(&t);
    let a = underscore_separators_chars(&l);
    let b = without_colons_chars(&a);
    let c = collapse_underscores_chars(&b);
    strip_underscores_chars(&c)
}

fn append_chars(r: &mut Vec<char>, s: &Vec<char>)
    ensures
        final(r)@ == old(r)@ + s@,
{
    let mut i: usize = 0;
    let ghost start = r@;
    while i < s.len()
        invariant
            i <= s@.len(),
            r@ == start + s@.take(i as int),
        decreases s@.len() - i,
    {
        r.push(s[i]);
        i = i + 1;
        assert(r@ =~= start + s@.take(i as int));
    }
    assert(s@.take(s@.len() as int) =~= s@);
}

/// Normalize headers: trim, lowercase, replace spaces and special characters with `_`; name
/// headers that normalize to nothing `column_{n}` by position, and number repeated names.
pub fn normalize_headers(headers: &[String]) -> (r: Vec<String>)
    ensures
        strings_view(r@) == normalized_headers(strings_view(headers@)),
{
    let ghost bases = header_bases(strings_view(headers@));
    let mut seen: Vec<Vec<char>> = Vec::new();
    let mut result: Vec<String> = Vec::new();
    let mut i: usize = 0;
    while i < headers.len()
        invariant
            i <= headers@.len(),
            bases == header_bases(strings_view(headers@)),
            seen@.len() == i,
            result@.len() == i,
            forall|j: int| 0 <= j < i ==> (#[trigger] seen@[j])@ == bases[j],
            forall|j: int| 0 <= j < i ==> (#[trigger] result@[j])@ == header_name(bases, j),
        decreases headers@.len() - i,
    {
        let base = header_base_chars(headers[i].as_str());
        assert(base@ == bases[i as int]);
        let name: Vec<char> = if base.len() == 0 {
            let mut name = chars_of("column_");
            let digits = decimal_chars(i + 1);
            append_chars(&mut name, &digits);
            name
        } else {
            let mut count: usize = 0;
            let mut j: usize = 0;
            while j < i
                invariant
                    j <= i,
                    i <= headers@.len(),
                    seen@.len() == i,
                    forall|k: int| 0 <= k < i ==> (#[trigger] seen@[k])@ == bases[k],
                    count as nat == count_before(bases, j as int, base@),
                    count <= j,
                decreases i - j,
            {
                if chars_eq(&seen[j], &base) {
                    count = count + 1;
                }
                j = j + 1;
            }
            if count > 0 {
                let mut name = base.clone();
                name.push('_');
                let digits = decimal_chars(count + 1);
                append_chars(&mut name, &digits);
                name
            } else {
                base.clone()
            }
        };
        assert(name@ == header_name(bases, i as int));
        result.push(string_from_chars(name.as_slice()));
        seen.push(base);
        i = i + 1;
    }
    assert(strings_view(result@) =~= normalized_headers(strings_view(headers@)));
    result
}

/// The category that column type detection counts a value under: 0 for numbers, 1 for
/// dates, 2 for booleans, 3 for text and errors; empty values are not counted.
pub open spec fn type_category(v: CellView) -> Option<int> {
    match v {
        CellView::Number(_) => Some(0),
        CellView::Date(_) => Some(1),
        CellView::Boolean(_) => Some(2),
        CellView::Empty => None,
        _ => Some(3),
    }
}

/// The number of rows whose value in `column` falls under category `k`.
pub open spec fn category_count(rows: Seq<RowView>, column: Seq<char>, k: int) -> nat
    decreases rows.len(),
{
    if rows.len() == 0 {
        0
    } else {
        category_count(rows.drop_last(), column, k) + match cell_at(rows.last(), column) {
            Some(v) => if type_category(v) == Some(k) {
                1nat
            } else {
                0nat
            },
            None => 0nat,
        }
    }
}

/// The value type of a category.
pub open spec fn category_type(k: int) -> ValueType {
    if k == 0 {
        ValueType::Number
    } else if k == 1 {
        ValueType::Date
    } else if k == 2 {
        ValueType::Boolean
    } else {
        ValueType::String
    }
}

/// The detected type of a column: the category with the most values (the first of numbers,
/// dates, booleans, text when several tie), or text when the column holds no value.
pub open spec fn detected_type(rows: Seq<RowView>, column: Seq<char>) -> ValueType {
    let n = category_count(rows, column, 0);
    let d = category_count(rows, column, 1);
    let b = category_count(rows, column, 2);
    let s = category_count(rows, column, 3);
    if n >= d && n >= b && n >= s && n > 0 {
        ValueType::Number
    } else if d >= b && d >= s && d > n {
        ValueType::Date
    } else if b >= s && b > n && b > d {
        ValueType::Boolean
    } else {
        ValueType::String
    }
}

/// The detected type has the largest count, and a positive one unless the column holds no
/// value.
pub proof fn law_detected_type_is_most_common(rows: Seq<RowView>, column: Seq<char>)
    ensures
        (forall|k: int| 0 <= k < 4 ==> category_count(rows, column, k) == 0) ==> detected_type(
            rows,
            column,
        ) == ValueType::String,
        (exists|k: int| 0 <= k < 4 && category_count(rows, column, k) > 0) ==> exists|k: int|
            0 <= k < 4 && detected_type(rows, column) == category_type(k) && category_count(
                rows,
                column,
                k,
            ) > 0 && forall|m: int|
                0 <= m < 4 ==> category_count(rows, column, m) <= category_count(rows, column, k),
{
    let n = category_count(rows, column, 0);
    let d = category_count(rows, column, 1);
    let b = category_count(rows, column, 2);
    let s = category_count(rows, column, 3);
    if n > 0 || d > 0 || b > 0 || s > 0 {
        let k = if n >= d && n >= b && n >= s {
            0int
        } else if d >= b && d >= s {
            1int
        } else if b >= s {
            2int
        } else {
            3int
        };
        assert(detected_type(rows, column) == category_type(k));
        assert(category_count(rows, column, k) > 0);
        assert forall|m: int| 0 <= m < 4 implies category_count(rows, column, m)
            <= category_count(rows, column, k) by {
            if m == 0 {
            } else if m == 1 {
            } else if m == 2 {
            } else {
                assert(m == 3);
            }
        }
    }
}

/// Detect the data type of a column: the most common kind of value in it.
pub fn detect_column_type(rows: &[DataRow], column: &str) -> (t: ValueType)
    ensures
        t == detected_type(rows_view(rows@), column@),
{
    let mut counts: [usize; 4] = [0, 0, 0, 0];
    let mut i: usize = 0;
    while i < rows.len()
        invariant
            i <= rows@.len(),
            forall|k: int|
                0 <= k < 4 ==> counts@[k] as nat == category_count(
                    rows_view(rows@.take(i as int)),
                    column@,
                    k,
                ),
            forall|k: int| 0 <= k < 4 ==> counts@[k] <= i,
        decreases rows@.len() - i,
    {
        let ghost prefix = rows_view(rows@.take(i + 1));
        assert(prefix.drop_last() =~= rows_view(rows@.take(i as int)));
        assert(prefix.last() == rows@[i as int]@);
        match rows[i].get(column) {
            Some(v) => {
                let k: usize = match v {
                    CellValue::Number(_) => 0,
                    CellValue::Date(_) => 1,
                    CellValue::Boolean(_) => 2,
                    CellValue::Empty => 4,
                    _ => 3,
                };
                if k < 4 {
                    counts[k] = counts[k] + 1;
                }
            },
            None => {},
        }
        i = i + 1;
    }
    assert(rows@.take(rows@.len() as int) =~= rows@);
    let n = counts[0];
    let d = counts[1];
    let b = counts[2];
    let s = counts[3];
    if n >= d && n >= b && n >= s && n > 0 {
        ValueType::Number
    } else if d >= b && d >= s && d > n {
        ValueType::Date
    } else if b >= s && b > n && b > d {
        ValueType::Boolean
    } else {
        ValueType::String
    }
}

/// The (column, value) pairs of a row from its cells, for the first `n` cells: each cell that
/// is not empty, under the header at its position.
pub open spec fn row_entries(headers: Seq<Seq<char>>, cells: Seq<CellView>, n: int) -> Seq<
    (Seq<char>, CellView),
>
    decreases n,
{
    if n <= 0 {
        seq![]
    } else {
        let prev = row_entries(headers, cells, n - 1);
        if cells[n - 1] is Empty {
            prev
        } else {
            prev.push((headers[n - 1], cells[n - 1]))
        }
    }
}

/// The smaller of two lengths.
pub open spec fn min_len(a: int, b: int) -> int {
    if a <= b {
        a
    } else {
        b
    }
}

/// The rows made of the cell rows `grid`, numbered from `first`, without those that hold no
/// value.
pub open spec fn sheet_rows(headers: Seq<Seq<char>>, grid: Seq<Seq<CellView>>, first: int) -> Seq<
    RowView,
>
    decreases grid.len(),
{
    if grid.len() == 0 {
        seq![]
    } else {
        let prev = sheet_rows(headers, grid.drop_last(), first);
        let cells = grid.last();
        let values = row_entries(headers, cells, min_len(headers.len() as int, cells.len() as int));
        if values.len() == 0 {
            prev
        } else {
            prev.push(RowView { row_number: (first + grid.len() - 1) as usize, values })
        }
    }
}

/// The detected type of each header's column, in header order.
pub open spec fn column_types_for(headers: Seq<Seq<char>>, rows: Seq<RowView>) -> Seq<
    (Seq<char>, ValueType),
> {
    headers.map_values(|h: Seq<char>| (h, detected_type(rows, h)))
}

/// The views of a grid of cells.
pub open spec fn grid_view(grid: Seq<Vec<CellValue>>) -> Seq<Seq<CellView>> {
    grid.map_values(|r: Vec<CellValue>| r@.map_values(|c: CellValue| c@))
}

fn copy_string(s: &String) -> (r: String)
    ensures
        r == s,
{
    s.clone()
}

/// The row numbered `row_number` made of `cells` under `headers`.
fn build_row(headers: &Vec<String>, cells: &Vec<CellValue>, row_number: usize) -> (r: DataRow)
    ensures
        r@.row_number == row_number,
        r@.values == row_entries(
            strings_view(headers@),
            cells@.map_values(|c: CellValue| c@),
            min_len(headers@.len() as int, cells@.len() as int),
        ),
{
    let ghost hs = strings_view(headers@);
    let ghost cs = cells@.map_values(|c: CellValue| c@);
    let n = if headers.len() <= cells.len() {
        headers.len()
    } else {
        cells.len()
    };
    let mut row = DataRow::new(row_number);
    let mut j: usize = 0;
    assert(row@.values =~= row_entries(hs, cs, 0));
    while j < n
        invariant
            j <= n,
            n == min_len(headers@.len() as int, cells@.len() as int),
            hs == strings_view(headers@),
            cs == cells@.map_values(|c: CellValue| c@),
            row@.row_number == row_number,
            row@.values == row_entries(hs, cs, j as int),
        decreases n - j,
    {
        if !cells[j].is_empty() {
            let ghost before = row@.values;
            row.values.push((copy_string(&headers[j]), cells[j].clone()));
            assert(row@.values =~= before.push((hs[j as int], cs[j as int])));
        }
        j = j + 1;
    }
    row
}

/// The rows of `grid` under `headers`, numbered from `first`, without those that hold no
/// value.
fn build_rows(headers: &Vec<String>, grid: &[Vec<CellValue>], first: usize) -> (r: Vec<DataRow>)
    requires
        first + grid@.len() <= usize::MAX + 1,
    ensures
        rows_view(r@) == sheet_rows(strings_view(headers@), grid_view(grid@), first as int),
{
    let ghost hs = strings_view(headers@);
    let mut rows: Vec<DataRow> = Vec::new();
    let mut i: usize = 0;
    while i < grid.len()
        invariant
            i <= grid@.len(),
            first + grid@.len() <= usize::MAX + 1,
            hs == strings_view(headers@),
            rows_view(rows@) == sheet_rows(hs, grid_view(grid@.take(i as int)), first as int),
        decreases grid@.len() - i,
    {
        let ghost g = grid_view(grid@.take(i + 1));
        assert(g.drop_last() =~= grid_view(grid@.take(i as int)));
        assert(g.last() == grid@[i as int]@.map_values(|c: CellValue| c@));
        let row = build_row(headers, &grid[i], first + i);
        if row.values.len() > 0 {
            let ghost before = rows_view(rows@);
            rows.push(row);
            assert(rows_view(rows@) =~= before.push(row@));
        }
        i = i + 1;
    }
    assert(grid@.take(grid@.len() as int) =~= grid@);
    rows
}

/// The detected type of each header's column, in header order.
fn build_column_types(headers: &Vec<String>, rows: &Vec<DataRow>) -> (r: Vec<(String, ValueType)>)
    ensures
        types_view(r@) == column_types_for(strings_view(headers@), rows_view(rows@)),
{
    let mut r: Vec<(String, ValueType)> = Vec::new();
    let mut i: usize = 0;
    while i < headers.len()
        invariant
            i <= headers@.len(),
            types_view(r@) == column_types_for(strings_view(headers@.take(i as int)), rows_view(rows@)),
        decreases headers@.len() - i,
    {
        let t = detect_column_type(rows.as_slice(), headers[i].as_str());
        let ghost before = types_view(r@);
        r.push((copy_string(&headers[i]), t));
        assert(types_view(r@) =~= before.push((headers@[i as int]@, t)));
        assert(strings_view(headers@.take(i + 1)) =~= strings_view(headers@.take(i as int)).push(
            headers@[i as int]@,
        ));
        assert(column_types_for(strings_view(headers@.take(i + 1)), rows_view(rows@))
            =~= column_types_for(strings_view(headers@.take(i as int)), rows_view(rows@)).push(
            (headers@[i as int]@, t),
        ));
        i = i + 1;
    }
    assert(headers@.take(headers@.len() as int) =~= headers@);
    r
}

/// A cell of a sheet's range: its value, and its text as the cell displays it.
#[derive(Debug)]
pub struct RangeCell {
    pub value: CellValue,
    pub text: String,
}

/// A field of a CSV record: its text, and the rendering of the number that its trimmed text
/// reads as once `,` separators are removed, if it reads as one.
#[derive(Debug)]
pub struct CsvField {
    pub text: String,
    pub number: Option<String>,
}

/// The headers `column_1`, `column_2`, ... for `n` columns.
pub open spec fn generated_headers(n: nat) -> Seq<Seq<char>> {
    Seq::new(n, |i: int| "column_"@ + decimal((i + 1) as nat))
}

/// The 0-based position of the 1-based header row.
pub open spec fn header_index(header_row: usize) -> int {
    if header_row == 0 {
        0
    } else {
        header_row - 1
    }
}

/// The headers of a range: the header row's trimmed texts, normalized, when the range has
/// that row; otherwise `column_{n}` for each cell of the first row.
pub open spec fn range_headers(range: Seq<Vec<RangeCell>>, header_row: usize) -> Seq<Seq<char>> {
    if header_index(header_row) < range.len() {
        normalized_headers(
            range[header_index(header_row)]@.map_values(|c: RangeCell| trim(c.text@)),
        )
    } else {
        generated_headers(range[0]@.len())
    }
}

/// The data part of a range: every row after the header row.
pub open spec fn range_data(range: Seq<Vec<RangeCell>>, header_row: usize) -> Seq<Seq<CellView>> {
    if header_index(header_row) + 1 < range.len() {
        range.skip(header_index(header_row) + 1).map_values(
            |r: Vec<RangeCell>| r@.map_values(|c: RangeCell| c.value@),
        )
    } else {
        seq![]
    }
}

/// The value of a CSV field: empty when its text is blank, the number it reads as if any,
/// otherwise its text.
pub open spec fn csv_cell(f: CsvField) -> CellView {
    if is_blank(f.text@) {
        CellView::Empty
    } else {
        match f.number {
            Some(t) => CellView::Number(t@),
            None => CellView::Text(f.text@, None),
        }
    }
}

/// The headers of CSV records: the first record's texts when it is a header record, otherwise
/// `column_{n}` for each field of the first record; normalized either way.
pub open spec fn csv_headers(records: Seq<Vec<CsvField>>, has_headers: bool) -> Seq<Seq<char>> {
    if has_headers {
        normalized_headers(records[0]@.map_values(|f: CsvField| f.text@))
    } else {
        normalized_headers(generated_headers(records[0]@.len()))
    }
}

/// The data records of CSV records: all but the first when it is a header record.
pub open spec fn csv_data(records: Seq<Vec<CsvField>>, has_headers: bool) -> Seq<Seq<CellView>> {
    let data = if has_headers {
        records.skip(1)
    } else {
        records
    };
    data.map_values(|r: Vec<CsvField>| r@.map_values(|f: CsvField| csv_cell(f)))
}

/// The row number of the first CSV data record.
pub open spec fn csv_first_row(has_headers: bool, header_row: Option<usize>) -> usize {
    match header_row {
        Some(h) => h,
        None => if has_headers {
            2
        } else {
            1
        },
    }
}

fn generated_header_strings(n: usize) -> (r: Vec<String>)
    ensures
        strings_view(r@) == generated_headers(n as nat),
{
    let mut r: Vec<String> = Vec::new();
    let mut i: usize = 0;
    while i < n
        invariant
            i <= n,
            strings_view(r@) == generated_headers(i as nat),
        decreases n - i,
    {
        let mut name = chars_of("column_");
        let digits = decimal_chars(i + 1);
        append_chars(&mut name, &digits);
        let ghost before = strings_view(r@);
        r.push(string_from_chars(name.as_slice()));
        assert(strings_view(r@) =~= before.push(name@));
        i = i + 1;
        assert(strings_view(r@) =~= generated_headers(i as nat));
    }
    r
}

/// `r` is the sheet named `name` parsed from a range: its headers from the 1-based header row
/// (0 is taken as 1), and every row after the header row, numbered from the one after it,
/// with the type of each column detected.
pub open spec fn parsed_sheet(
    r: SheetData,
    range: Seq<Vec<RangeCell>>,
    name: Seq<char>,
    header_row: usize,
) -> bool {
    &&& r.name@ == name
    &&& range.len() == 0 ==> r.headers@.len() == 0 && r.rows@.len() == 0
        && r.column_types@.len() == 0
    &&& range.len() > 0 ==> {
        &&& strings_view(r.headers@) == range_headers(range, header_row)
        &&& rows_view(r.rows@) == sheet_rows(
            range_headers(range, header_row),
            range_data(range, header_row),
            header_index(header_row) + 2,
        )
        &&& types_view(r.column_types@) == column_types_for(
            range_headers(range, header_row),
            rows_view(r.rows@),
        )
    }
}

/// Parse a sheet's range into rows under its headers (1-based `header_row`; 0 is taken as 1):
/// every row after the header row, numbered from the one after it, with the type of each
/// column detected.
pub fn parse_sheet(range: &[Vec<RangeCell>], sheet_name: &str, header_row: usize) -> (r:
    SheetData)
    ensures
        parsed_sheet(r, range@, sheet_name@, header_row),
{
    let mut sheet = SheetData::new(sheet_name);
    if range.len() == 0 {
        return sheet;
    }
    let header_idx = if header_row == 0 {
        0
    } else {
        header_row - 1
    };
    if header_idx < range.len() {
        let row = &range[header_idx];
        let mut raw: Vec<String> = Vec::new();
        let mut j: usize = 0;
        while j < row.len()
            invariant
                j <= row@.len(),
                strings_view(raw@) == row@.take(j as int).map_values(|c: RangeCell| trim(c.text@)),
            decreases row@.len() - j,
        {
            let t = trim_chars(&chars_of(row[j].text.as_str()));
            let ghost before = strings_view(raw@);
            raw.push(string_from_chars(t.as_slice()));
            assert(strings_view(raw@) =~= before.push(t@));
            assert(row@.take(j + 1).map_values(|c: RangeCell| trim(c.text@)) =~= row@.take(
                j as int,
            ).map_values(|c: RangeCell| trim(c.text@)).push(trim(row@[j as int].text@)));
            j = j + 1;
            assert(strings_view(raw@) =~= row@.take(j as int).map_values(
                |c: RangeCell| trim(c.text@),
            ));
        }
        assert(row@.take(row@.len() as int) =~= row@);
        sheet.headers = normalize_headers(raw.as_slice());
    } else {
        sheet.headers = generated_header_strings(range[0].len());
    }
    let mut grid: Vec<Vec<CellValue>> = Vec::new();
    let ghost data = range_data(range@, header_row);
    let start = header_idx + 1;
    if start < range.len() {
        let mut i: usize = start;
        while i < range.len()
            invariant
                start <= i <= range@.len(),
                start == header_index(header_row) + 1,
                data == range@.skip(start as int).map_values(
                    |r: Vec<RangeCell>| r@.map_values(|c: RangeCell| c.value@),
                ),
                grid_view(grid@) == data.take(i - start),
            decreases range@.len() - i,
        {
            let row = &range[i];
            let mut cells: Vec<CellValue> = Vec::new();
            let mut j: usize = 0;
            while j < row.len()
                invariant
                    j <= row@.len(),
                    cells@.map_values(|c: CellValue| c@) == row@.take(j as int).map_values(
                        |c: RangeCell| c.value@,
                    ),
                decreases row@.len() - j,
            {
                let ghost before = cells@.map_values(|c: CellValue| c@);
                cells.push(row[j].value.clone());
                assert(cells@.map_values(|c: CellValue| c@) =~= before.push(row@[j as int].value@));
                assert(row@.take(j + 1).map_values(|c: RangeCell| c.value@) =~= row@.take(
                    j as int,
                ).map_values(|c: RangeCell| c.value@).push(row@[j as int].value@));
                j = j + 1;
                assert(cells@.map_values(|c: CellValue| c@) =~= row@.take(j as int).map_values(
                    |c: RangeCell| c.value@,
                ));
            }
            assert(row@.take(row@.len() as int) =~= row@);
            let ghost before = grid_view(grid@);
            grid.push(cells);
            assert(grid_view(grid@) =~= before.push(cells@.map_values(|c: CellValue| c@)));
            assert(data[i - start] == row@.map_values(|c: RangeCell| c.value@));
            i = i + 1;
            assert(grid_view(grid@) =~= data.take(i - start));
        }
        assert(data.take(range@.len() - start) =~= data);
    } else {
        assert(grid_view(grid@) =~= data);
    }
    let first = if start < range.len() {
        header_idx + 2
    } else {
        0
    };
    let rows = build_rows(&sheet.headers, grid.as_slice(), first);
    sheet.column_types = build_column_types(&sheet.headers, &rows);
    sheet.rows = rows;
    sheet
}

/// The CSV field delimiter byte: the first character of the configured delimiter, truncated
/// to a byte, or `,`.
pub open spec fn csv_delimiter_of(options: Option<&CsvOptions>) -> u8 {
    match options {
        Some(o) => if o.delimiter@.len() > 0 {
            ((o.delimiter@[0] as u32) % 256) as u8
        } else {
            44
        },
        None => 44,
    }
}

/// The CSV delimiter to read with.
pub fn csv_delimiter(options: Option<&CsvOptions>) -> (d: u8)
    ensures
        d == csv_delimiter_of(options),
{
    match options {
        Some(o) => {
            let v = chars_of(o.delimiter.as_str());
            if v.len() > 0 {
                ((v[0] as u32) % 256) as u8
            } else {
                44
            }
        },
        None => 44,
    }
}

/// Whether the first CSV record holds the headers (it does unless the options say otherwise).
pub fn csv_has_headers(options: Option<&CsvOptions>) -> (b: bool)
    ensures
        b == match options {
            Some(o) => o.has_headers,
            None => true,
        },
{
    match options {
        Some(o) => o.has_headers,
        None => true,
    }
}

fn csv_cell_value(f: &CsvField) -> (v: CellValue)
    ensures
        v@ == csv_cell(*f),
{
    let t = chars_of(f.text.as_str());
    if is_blank_chars(&t) {
        CellValue::Empty
    } else {
        match &f.number {
            Some(n) => CellValue::Number(copy_string(n)),
            None => CellValue::String(copy_string(&f.text), None),
        }
    }
}

/// The number of data records among `n` records.
pub open spec fn csv_data_len(n: nat, has_headers: bool) -> int {
    if has_headers {
        n - 1
    } else {
        n as int
    }
}

/// `r` is the sheet named `name` built from CSV records: headers from the first record (or
/// generated), the remaining records as rows numbered from `header_row` (by default 2 after a
/// header record, 1 otherwise), and the type of each column detected.
pub open spec fn csv_sheet(
    r: SheetData,
    name: Seq<char>,
    records: Seq<Vec<CsvField>>,
    has_headers: bool,
    header_row: Option<usize>,
) -> bool {
    &&& r.name@ == name
    &&& records.len() == 0 ==> r.headers@.len() == 0 && r.rows@.len() == 0
        && r.column_types@.len() == 0
    &&& records.len() > 0 ==> {
        &&& strings_view(r.headers@) == csv_headers(records, has_headers)
        &&& rows_view(r.rows@) == sheet_rows(
            csv_headers(records, has_headers),
            csv_data(records, has_headers),
            csv_first_row(has_headers, header_row) as int,
        )
        &&& types_view(r.column_types@) == column_types_for(
            csv_headers(records, has_headers),
            rows_view(r.rows@),
        )
    }
}

/// The row numbers of the records fit in a `usize`.
pub open spec fn csv_rows_fit(n: nat, has_headers: bool, header_row: Option<usize>) -> bool {
    n == 0 || csv_first_row(has_headers, header_row) + csv_data_len(n, has_headers) <= usize::MAX
        + 1
}

/// Build a sheet named `name` from CSV records: headers from the first record (or generated),
/// the remaining records as rows numbered from `header_row` (by default 2 after a header
/// record, 1 otherwise), and the type of each column detected.
pub fn build_csv_sheet(
    name: &str,
    records: &[Vec<CsvField>],
    has_headers: bool,
    header_row: Option<usize>,
) -> (r: SheetData)
    requires
        csv_rows_fit(records@.len(), has_headers, header_row),
    ensures
        csv_sheet(r, name@, records@, has_headers, header_row),
{
    let mut sheet = SheetData::new(name);
    if records.len() == 0 {
        return sheet;
    }
    let raw: Vec<String> = if has_headers {
        let first = &records[0];
        let mut raw: Vec<String> = Vec::new();
        let mut j: usize = 0;
        while j < first.len()
            invariant
                j <= first@.len(),
                strings_view(raw@) == first@.take(j as int).map_values(|f: CsvField| f.text@),
            decreases first@.len() - j,
        {
            let ghost before = strings_view(raw@);
            raw.push(copy_string(&first[j].text));
            assert(strings_view(raw@) =~= before.push(first@[j as int].text@));
            assert(first@.take(j + 1).map_values(|f: CsvField| f.text@) =~= first@.take(
                j as int,
            ).map_values(|f: CsvField| f.text@).push(first@[j as int].text@));
            j = j + 1;
        }
        assert(first@.take(first@.len() as int) =~= first@);
        raw
    } else {
        generated_header_strings(records[0].len())
    };
    sheet.headers = normalize_headers(raw.as_slice());
    let start: usize = if has_headers {
        1
    } else {
        0
    };
    let ghost data = csv_data(records@, has_headers);
    let ghost src = if has_headers {
        records@.skip(1)
    } else {
        records@
    };
    assert(src =~= records@.skip(start as int));
    let mut grid: Vec<Vec<CellValue>> = Vec::new();
    let mut i: usize = start;
    while i < records.len()
        invariant
            start <= i <= records@.len(),
            src == records@.skip(start as int),
            data == src.map_values(|r: Vec<CsvField>| r@.map_values(|f: CsvField| csv_cell(f))),
            grid_view(grid@) == data.take(i - start),
        decreases records@.len() - i,
    {
        let rec = &records[i];
        let mut cells: Vec<CellValue> = Vec::new();
        let mut j: usize = 0;
        while j < rec.len()
            invariant
                j <= rec@.len(),
                cells@.map_values(|c: CellValue| c@) == rec@.take(j as int).map_values(
                    |f: CsvField| csv_cell(f),
                ),
            decreases rec@.len() - j,
        {
            let ghost before = cells@.map_values(|c: CellValue| c@);
            let v = csv_cell_value(&rec[j]);
            cells.push(v);
            assert(cells@.map_values(|c: CellValue| c@) =~= before.push(csv_cell(rec@[j as int])));
            assert(rec@.take(j + 1).map_values(|f: CsvField| csv_cell(f)) =~= rec@.take(
                j as int,
            ).map_values(|f: CsvField| csv_cell(f)).push(csv_cell(rec@[j as int])));
            j = j + 1;
        }
        assert(rec@.take(rec@.len() as int) =~= rec@);
        let ghost before = grid_view(grid@);
        grid.push(cells);
        assert(grid_view(grid@) =~= before.push(cells@.map_values(|c: CellValue| c@)));
        assert(data[i - start] == rec@.map_values(|f: CsvField| csv_cell(f)));
        i = i + 1;
        assert(grid_view(grid@) =~= data.take(i - start));
    }
    assert(data.take(records@.len() - start) =~= data);
    let first_row = match header_row {
        Some(h) => h,
        None => if has_headers {
            2
        } else {
            1
        },
    };
    let rows = build_rows(&sheet.headers, grid.as_slice(), first_row);
    sheet.column_types = build_column_types(&sheet.headers, &rows);
    sheet.rows = rows;
    sheet
}

/// Why no sheet of a workbook can be read.
#[derive(Debug)]
pub enum SheetChoiceError {
    /// The workbook has no sheets
    NoSheets,
    /// The named sheet is not among the workbook's sheets
    NotFound(String),
}

/// The sheet to read: the requested one, or the first; it must be among `sheet_names`.
pub fn select_sheet(sheet_names: &[String], requested: Option<&str>) -> (r: Result<
    String,
    SheetChoiceError,
>)
    ensures
        sheet_names@.len() == 0 ==> r matches Err(SheetChoiceError::NoSheets),
        sheet_names@.len() > 0 ==> {
            let chosen = match requested {
                Some(q) => q@,
                None => sheet_names@[0]@,
            };
            &&& (strings_view(sheet_names@).contains(chosen) ==> (r matches Ok(s) && s@ == chosen))
            &&& (!strings_view(sheet_names@).contains(chosen) ==> (r matches Err(
                SheetChoiceError::NotFound(n),
            ) && n@ == chosen))
        },
{
    if sheet_names.len() == 0 {
        return Err(SheetChoiceError::NoSheets);
    }
    let chosen = match requested {
        Some(q) => String::from_str(q),
        None => copy_string(&sheet_names[0]),
    };
    let mut i: usize = 0;
    while i < sheet_names.len()
        invariant
            i <= sheet_names@.len(),
            sheet_names@.len() > 0,
            chosen@ == match requested {
                Some(q) => q@,
                None => sheet_names@[0]@,
            },
            forall|j: int| 0 <= j < i ==> sheet_names@[j]@ != chosen@,
        decreases sheet_names@.len() - i,
    {
        if sheet_names[i] == chosen {
            assert(strings_view(sheet_names@)[i as int] == chosen@);
            return Ok(chosen);
        }
        i = i + 1;
    }
    assert(!strings_view(sheet_names@).contains(chosen@)) by {
        if strings_view(sheet_names@).contains(chosen@) {
            let j = choose|j: int|
                0 <= j < strings_view(sheet_names@).len() && strings_view(sheet_names@)[j]
                    == chosen@;
            assert(sheet_names@[j]@ == chosen@);
        }
    }
    Err(SheetChoiceError::NotFound(chosen))
}

/// How a file is read.
#[derive(Debug, Clone, Copy, PartialEq, Eq, Structural)]
pub enum SourceKind {
    Csv,
    Excel,
    /// Try Excel first, then CSV
    Unknown,
}

/// How a file is read by its extension, for loading any file: `csv`, `tsv` and `txt` as CSV,
/// `xlsx` and `xls` as Excel, in any case.
pub fn load_any_kind(extension: &str) -> (k: SourceKind)
    ensures
        k == (if lowercase(extension@) == "csv"@ || lowercase(extension@) == "tsv"@ || lowercase(
            extension@,
        ) == "txt"@ {
            SourceKind::Csv
        } else if lowercase(extension@) == "xlsx"@ || lowercase(extension@) == "xls"@ {
            SourceKind::Excel
        } else {
            SourceKind::Unknown
        }),
{
    let e = to_lowercase(extension);
    let e = e.as_str();
    if str_eq(e, "csv") || str_eq(e, "tsv") || str_eq(e, "txt") {
        SourceKind::Csv
    } else if str_eq(e, "xlsx") || str_eq(e, "xls") {
        SourceKind::Excel
    } else {
        SourceKind::Unknown
    }
}

/// How a file named on the command line is read by its extension: `xlsx`, `xls` and `xlsm` as
/// Excel, `csv` and `txt` as CSV, in any case.
pub fn command_line_kind(extension: &str) -> (k: SourceKind)
    ensures
        k == (if lowercase(extension@) == "xlsx"@ || lowercase(extension@) == "xls"@ || lowercase(
            extension@,
        ) == "xlsm"@ {
            SourceKind::Excel
        } else if lowercase(extension@) == "csv"@ || lowercase(extension@) == "txt"@ {
            SourceKind::Csv
        } else {
            SourceKind::Unknown
        }),
{
    let e = to_lowercase(extension);
    let e = e.as_str();
    if str_eq(e, "xlsx") || str_eq(e, "xls") || str_eq(e, "xlsm") {
        SourceKind::Excel
    } else if str_eq(e, "csv") || str_eq(e, "txt") {
        SourceKind::Csv
    } else {
        SourceKind::Unknown
    }
}

} // verus!
