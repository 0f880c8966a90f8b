//! Core data types: cells, rows, sheets, and the records of a comparison.

use vstd::prelude::*;
use crate::text::{
    chars_of, is_blank, is_blank_chars, join, lowercase, str_eq, string_from_chars, trim,
    trim_chars, trim_lower,
};

verus! {

/// A cell's value.
///
/// Numbers are held by their decimal rendering (what the number displays as), and a text cell
/// carries, next to its text, the rendering of the number that its trimmed text reads as once
/// thousands separators (`,`) are removed, if it reads as one.
#[derive(Debug, PartialEq)]
pub enum CellValue {
    String(String, Option<String>),
    Number(String),
    /// ISO 8601 date text
    Date(String),
    Boolean(bool),
    Empty,
    Error(String),
}

/// The mathematical value of a cell.
pub enum CellView {
    Text(Seq<char>, Option<Seq<char>>),
    Number(Seq<char>),
    Date(Seq<char>),
    Boolean(bool),
    Empty,
    Error(Seq<char>),
}

/// The view of an optional string.
pub open spec fn opt_view(o: Option<String>) -> Option<Seq<char>> {
    match o {
        Some(s) => Some(s@),
        None => None,
    }
}

impl View for CellValue {
    type V = CellView;

    open spec fn view(&self) -> CellView {
        match self {
            CellValue::String(s, n) => CellView::Text(s@, opt_view(*n)),
            CellValue::Number(t) => CellView::Number(t@),
            CellValue::Date(d) => CellView::Date(d@),
            CellValue::Boolean(b) => CellView::Boolean(*b),
            CellValue::Empty => CellView::Empty,
            CellValue::Error(e) => CellView::Error(e@),
        }
    }
}

/// The view of an optional cell.
pub open spec fn opt_cell_view(o: Option<CellValue>) -> Option<CellView> {
    match o {
        Some(v) => Some(v@),
        None => None,
    }
}

/// The characters of `true` and `false`.
pub open spec fn bool_text(b: bool) -> Seq<char> {
    if b {
        seq!['t', 'r', 'u', 'e']
    } else {
        seq!['f', 'a', 'l', 's', 'e']
    }
}

/// The prefix of an error cell's normalized form.
pub open spec fn error_prefix() -> Seq<char> {
    seq!['e', 'r', 'r', 'o', 'r', ':']
}

/// The normalized string by which cells are compared: text trimmed and lowercased, numbers
/// by their rendering, dates as they are, booleans as `true`/`false`, empty as the empty string,
/// and errors as `error:` and their message.
pub open spec fn normalized(v: CellView) -> Seq<char> {
    match v {
        CellView::Text(s, _) => lowercase(trim(s)),
        CellView::Number(t) => t,
        CellView::Date(d) => d,
        CellView::Boolean(b) => bool_text(b),
        CellView::Empty => seq![],
        CellView::Error(e) => error_prefix() + e,
    }
}

/// Target value type for coercion.
#[derive(Debug, Clone, Copy, PartialEq, Eq, Structural)]
pub enum ValueType {
    String,
    Number,
    Date,
    Boolean,
    /// Detect from the data
    Auto,
}

impl Default for ValueType {
    fn default() -> (r: Self)
        ensures
            r == ValueType::Auto,
    {
        ValueType::Auto
    }
}

/// What `chrono::NaiveDate::parse_from_str(s, fmt)` parses, rendered as `%Y-%m-%d`.
pub uninterp spec fn parsed_date(s: Seq<char>, fmt: Seq<char>) -> Option<Seq<char>>;

/// The date formats tried, in order, when text is coerced to a date.
pub open spec fn date_formats() -> Seq<Seq<char>> {
    seq![
        "%Y-%m-%d"@,
        "%d/%m/%Y"@,
        "%m/%d/%Y"@,
        "%Y/%m/%d"@,
        "%d-%m-%Y"@,
        "%m-%d-%Y"@,
    ]
}

/// The first of `formats` under which `s` parses as a date, as an ISO date.
pub open spec fn first_date(s: Seq<char>, formats: Seq<Seq<char>>) -> Option<Seq<char>>
    decreases formats.len(),
{
    if formats.len() == 0 {
        None
    } else {
        match parsed_date(s, formats[0]) {
            Some(d) => Some(d),
            None => first_date(s, formats.drop_first()),
        }
    }
}

/// The result of coercing a cell to a target type.
pub open spec fn coerce(v: CellView, target: ValueType) -> Option<CellView> {
    match (v, target) {
        (CellView::Text(..), ValueType::String) => Some(v),
        (CellView::Number(_), ValueType::Number) => Some(v),
        (CellView::Date(_), ValueType::Date) => Some(v),
        (CellView::Boolean(_), ValueType::Boolean) => Some(v),
        (CellView::Text(_, n), ValueType::Number) => match n {
            Some(t) => Some(CellView::Number(t)),
            None => None,
        },
        (CellView::Number(t), ValueType::String) => Some(CellView::Text(t, Some(t))),
        (CellView::Text(s, _), ValueType::Date) => match first_date(trim(s), date_formats()) {
            Some(d) => Some(CellView::Date(d)),
            None => None,
        },
        (CellView::Date(d), ValueType::String) => Some(CellView::Text(d, None)),
        _ => None,
    }
}

/// `chrono::NaiveDate::parse_from_str` with the parsed date rendered by
/// `NaiveDate::format("%Y-%m-%d")`: the date that `s` spells under `fmt`, as ISO text.
#[verifier::external_body]
fn parse_date(s: &str, fmt: &str) -> (r: Option<String>)
    ensures
        opt_view(r) == parsed_date(s@, fmt@),
{
    chrono::NaiveDate::parse_from_str(s, fmt).ok().map(|d| d.format("%Y-%m-%d").to_string())
}

fn copy_string(s: &String) -> (r: String)
    ensures
        r == s,
{
    s.clone()
}

fn copy_opt_string(o: &Option<String>) -> (r: Option<String>)
    ensures
        r == o,
{
    match o {
        Some(s) => Some(copy_string(s)),
        None => None,
    }
}

impl Clone for CellValue {
    fn clone(&self) -> (r: Self)
        ensures
            r == *self,
    {
        match self {
            CellValue::String(s, n) => CellValue::String(copy_string(s), copy_opt_string(n)),
            CellValue::Number(t) => CellValue::Number(copy_string(t)),
            CellValue::Date(d) => CellValue::Date(copy_string(d)),
            CellValue::Boolean(b) => CellValue::Boolean(*b),
            CellValue::Empty => CellValue::Empty,
            CellValue::Error(e) => CellValue::Error(copy_string(e)),
        }
    }
}

impl CellValue {
    /// Convert to a normalized string for comparison.
    pub fn to_normalized(&self) -> (r: String)
        ensures
            r@ == normalized(self@),
    {
        match self {
            CellValue::String(s, _) => {
                let v = trim_lower(s.as_str());
                string_from_chars(v.as_slice())
            },
            CellValue::Number(t) => copy_string(t),
            CellValue::Date(d) => copy_string(d),
            CellValue::Boolean(b) => {
                if *b {
                    let r = String::from_str("true");
                    proof {
                        reveal_strlit("true");
                    }
                    r
                } else {
                    let r = String::from_str("false");
                    proof {
                        reveal_strlit("false");
                    }
                    r
                }
            },
            CellValue::Empty => String::new(),
            CellValue::Error(e) => {
                let p = String::from_str("error:");
                proof {
                    reveal_strlit("error:");
                }
                p.concat(e.as_str())
            },
        }
    }

    /// Check if empty.
    pub fn is_empty(&self) -> (b: bool)
        ensures
            b == (self@ is Empty),
    {
        match self {
            CellValue::Empty => true,
            _ => false,
        }
    }

    /// Attempt type coercion to the target type.
    pub fn coerce_to(&self, target: &ValueType) -> (r: Option<CellValue>)
        ensures
            opt_cell_view(r) == coerce(self@, *target),
    {
        match (self, target) {
            (CellValue::String(..), ValueType::String) => Some(self.clone()),
            (CellValue::Number(_), ValueType::Number) => Some(self.clone()),
            (CellValue::Date(_), ValueType::Date) => Some(self.clone()),
            (CellValue::Boolean(_), ValueType::Boolean) => Some(self.clone()),
            (CellValue::String(_, n), ValueType::Number) => match n {
                Some(t) => Some(CellValue::Number(copy_string(t))),
                None => None,
            },
            (CellValue::Number(t), ValueType::String) => Some(
                CellValue::String(copy_string(t), Some(copy_string(t))),
            ),
            (CellValue::String(s, _), ValueType::Date) => {
                let v = chars_of(s.as_str());
                let t = string_from_chars(trim_chars(&v).as_slice());
                let ghost ts = trim(s@);
                let formats: [&str; 6] = [
                    "%Y-%m-%d",
                    "%d/%m/%Y",
                    "%m/%d/%Y",
                    "%Y/%m/%d",
                    "%d-%m-%Y",
                    "%m-%d-%Y",
                ];
                let ghost fs = date_formats();
                assert(formats@.map_values(|f: &str| f@) =~= fs);
                assert(fs.skip(0) =~= fs);
                let mut i: usize = 0;
                while i < 6
                    invariant
                        i <= 6,
                        t@ == ts,
                        formats@.map_values(|f: &str| f@) == fs,
                        first_date(ts, fs) == first_date(ts, fs.skip(i as int)),
                        coerce(self@, *target) == match first_date(ts, fs) {
                            Some(d) => Some(CellView::Date(d)),
                            None => None,
                        },
                    decreases 6 - i,
                {
                    let fmt = formats[i];
                    assert(fmt@ == fs[i as int]);
                    assert(fs.skip(i as int).drop_first() =~= fs.skip(i + 1));
                    assert(fs.skip(i as int)[0] == fs[i as int]);
                    if let Some(d) = parse_date(t.as_str(), fmt) {
                        return Some(CellValue::Date(d));
                    }
                    i = i + 1;
                }
                assert(fs.skip(6).len() == 0);
                None
            },
            (CellValue::Date(d), ValueType::String) => Some(
                CellValue::String(copy_string(d), None),
            ),
            _ => None,
        }
    }
}

/// The value last stored under key `k` in `entries`, if any.
pub open spec fn lookup<V>(entries: Seq<(Seq<char>, V)>, k: Seq<char>) -> Option<V>
    decreases entries.len(),
{
    if entries.len() == 0 {
        None
    } else if entries.last().0 == k {
        Some(entries.last().1)
    } else {
        lookup(entries.drop_last(), k)
    }
}

/// A single row of data keyed by column name.
///
/// `values` holds (column, value) pairs; a later pair for a column stands in place of an
/// earlier one.
#[derive(Debug)]
pub struct DataRow {
    /// 1-based, for display
    pub row_number: usize,
    pub values: Vec<(String, CellValue)>,
}

/// The mathematical value of a row.
pub struct RowView {
    pub row_number: usize,
    pub values: Seq<(Seq<char>, CellView)>,
}

/// The view of a row's (column, value) pairs.
pub open spec fn entries_view(e: Seq<(String, CellValue)>) -> Seq<(Seq<char>, CellView)> {
    e.map_values(|p: (String, CellValue)| (p.0@, p.1@))
}

impl View for DataRow {
    type V = RowView;

    open spec fn view(&self) -> RowView {
        RowView { row_number: self.row_number, values: entries_view(self.values@) }
    }
}

/// The cell of `row` in `column`, if the row has one.
pub open spec fn cell_at(row: RowView, column: Seq<char>) -> Option<CellView> {
    lookup(row.values, column)
}

/// The normalized value of `row` in `column`; the empty string where the row has none.
pub open spec fn normalized_at(row: RowView, column: Seq<char>) -> Seq<char> {
    match cell_at(row, column) {
        Some(v) => normalized(v),
        None => seq![],
    }
}

/// The view of an optional borrowed cell.
pub open spec fn opt_ref_view(o: Option<&CellValue>) -> Option<CellView> {
    match o {
        Some(v) => Some(v@),
        None => None,
    }
}

/// The views of a sequence of strings.
pub open spec fn strings_view(s: Seq<String>) -> Seq<Seq<char>> {
    s.map_values(|x: String| x@)
}

/// The views of a sequence of rows.
pub open spec fn rows_view(rows: Seq<DataRow>) -> Seq<RowView> {
    rows.map_values(|r: DataRow| r@)
}

/// The views of (column, type) pairs.
pub open spec fn types_view(t: Seq<(String, ValueType)>) -> Seq<(Seq<char>, ValueType)> {
    t.map_values(|p: (String, ValueType)| (p.0@, p.1))
}

impl DataRow {
    pub fn new(row_number: usize) -> (r: Self)
        ensures
            r.row_number == row_number,
            r.values@.len() == 0,
    {
        DataRow { row_number, values: Vec::new() }
    }

    pub fn get(&self, column: &str) -> (r: Option<&CellValue>)
        ensures
            opt_ref_view(r) == cell_at(self@, column@),
    {
        let mut i = self.values.len();
        assert(self.values@.take(i as int) =~= self.values@);
        while i > 0
            invariant
                i <= self.values@.len(),
                cell_at(self@, column@) == lookup(entries_view(self.values@.take(i as int)), column@),
            decreases i,
        {
            assert(entries_view(self.values@.take(i as int)).drop_last() =~= entries_view(
                self.values@.take(i - 1),
            ));
            if str_eq(self.values[i - 1].0.as_str(), column) {
                return Some(&self.values[i - 1].1);
            }
            i = i - 1;
        }
        None
    }

    pub fn get_normalized(&self, column: &str) -> (r: String)
        ensures
            r@ == normalized_at(self@, column@),
    {
        match self.get(column) {
            Some(v) => v.to_normalized(),
            None => String::new(),
        }
    }
}

/// The lookup key of `row` under `key_columns`: the normalized values of those columns joined
/// with `|`.
pub open spec fn row_key(row: RowView, key_columns: Seq<Seq<char>>) -> Seq<char> {
    join(key_columns.map_values(|c: Seq<char>| normalized_at(row, c)), seq!['|'])
}

/// The position of the last entry with key `k`.
pub open spec fn key_position<V>(entries: Seq<(Seq<char>, V)>, k: Seq<char>) -> Option<int>
    decreases entries.len(),
{
    if entries.len() == 0 {
        None
    } else if entries.last().0 == k {
        Some(entries.len() - 1)
    } else {
        key_position(entries.drop_last(), k)
    }
}

/// The key index of `rows`: each non-blank row key, in the order of its first row, with the
/// position of the last row that has it.
pub open spec fn key_index(rows: Seq<RowView>, key_columns: Seq<Seq<char>>) -> Seq<
    (Seq<char>, int),
>
    decreases rows.len(),
{
    if rows.len() == 0 {
        seq![]
    } else {
        let prev = key_index(rows.drop_last(), key_columns);
        let k = row_key(rows.last(), key_columns);
        if is_blank(k) {
            prev
        } else {
            match key_position(prev, k) {
                Some(p) => prev.update(p, (k, rows.len() - 1)),
                None => prev.push((k, rows.len() - 1)),
            }
        }
    }
}

proof fn lemma_key_position_bounds<V>(entries: Seq<(Seq<char>, V)>, k: Seq<char>)
    ensures
        key_position(entries, k) matches Some(p) ==> 0 <= p < entries.len() && entries[p].0 == k,
    decreases entries.len(),
{
    if entries.len() > 0 && entries.last().0 != k {
        lemma_key_position_bounds(entries.drop_last(), k);
    }
}

/// Every entry of a key index stands for a row of the sheet.
pub proof fn lemma_key_index_bounds(rows: Seq<RowView>, key_columns: Seq<Seq<char>>)
    ensures
        forall|i: int|
            0 <= i < key_index(rows, key_columns).len() ==> 0 <= (#[trigger] key_index(
                rows,
                key_columns,
            )[i]).1 < rows.len(),
    decreases rows.len(),
{
    if rows.len() > 0 {
        let prev = key_index(rows.drop_last(), key_columns);
        lemma_key_index_bounds(rows.drop_last(), key_columns);
        lemma_key_position_bounds(prev, row_key(rows.last(), key_columns));
    }
}

/// An entry with key `k` sits at position `i`: the key's position is found, at `i` or later.
pub proof fn lemma_key_position_found<V>(entries: Seq<(Seq<char>, V)>, i: int)
    requires
        0 <= i < entries.len(),
    ensures
        key_position(entries, entries[i].0) matches Some(p) && i <= p < entries.len()
            && entries[p].0 == entries[i].0,
    decreases entries.len(),
{
    if entries.last().0 != entries[i].0 {
        lemma_key_position_found(entries.drop_last(), i);
    }
}

/// No entry has key `k` exactly when its position is not found.
pub proof fn lemma_key_position_none<V>(entries: Seq<(Seq<char>, V)>, k: Seq<char>)
    ensures
        key_position(entries, k) is None <==> forall|i: int|
            0 <= i < entries.len() ==> (#[trigger] entries[i]).0 != k,
    decreases entries.len(),
{
    lemma_key_position_bounds(entries, k);
    if entries.len() > 0 && entries.last().0 != k {
        lemma_key_position_none(entries.drop_last(), k);
        assert forall|i: int| 0 <= i < entries.len() - 1 implies entries.drop_last()[i]
            == #[trigger] entries[i] by {}
    }
}

/// The keys of a sequence of entries are pairwise distinct.
pub open spec fn distinct_keys<V>(entries: Seq<(Seq<char>, V)>) -> bool {
    forall|i: int, j: int|
        0 <= i < j < entries.len() ==> (#[trigger] entries[i]).0 != (#[trigger] entries[j]).0
}

/// Where keys are distinct, the position of an entry's key is that entry's position.
pub proof fn lemma_distinct_key_position<V>(entries: Seq<(Seq<char>, V)>, i: int)
    requires
        distinct_keys(entries),
        0 <= i < entries.len(),
    ensures
        key_position(entries, entries[i].0) == Some(i),
{
    lemma_key_position_found(entries, i);
}

/// The key index holds each non-blank row key once, paired with the last row that has that
/// key, and every row whose key is not blank has its key in the index.
pub proof fn law_key_index_contents(rows: Seq<RowView>, key_columns: Seq<Seq<char>>)
    ensures
        distinct_keys(key_index(rows, key_columns)),
        forall|i: int|
            #![trigger key_index(rows, key_columns)[i]]
            0 <= i < key_index(rows, key_columns).len() ==> {
                let e = key_index(rows, key_columns)[i];
                &&& 0 <= e.1 < rows.len()
                &&& e.0 == row_key(rows[e.1], key_columns)
                &&& !is_blank(e.0)
                &&& forall|j: int|
                    e.1 < j < rows.len() ==> row_key(#[trigger] rows[j], key_columns) != e.0
            },
        forall|j: int|
            0 <= j < rows.len() && !is_blank(row_key(#[trigger] rows[j], key_columns))
                ==> key_position(key_index(rows, key_columns), row_key(rows[j], key_columns)) is Some,
    decreases rows.len(),
{
    if rows.len() > 0 {
        let n = rows.len();
        let init = rows.drop_last();
        let prev = key_index(init, key_columns);
        let k = row_key(rows.last(), key_columns);
        let ki = key_index(rows, key_columns);
        law_key_index_contents(init, key_columns);
        lemma_key_position_bounds(prev, k);
        lemma_key_position_none(prev, k);
        assert forall|j: int| 0 <= j < n - 1 implies #[trigger] init[j] == rows[j] by {}
        assert forall|i: int| 0 <= i < ki.len() implies {
            let e = #[trigger] ki[i];
            &&& 0 <= e.1 < rows.len()
            &&& e.0 == row_key(rows[e.1], key_columns)
            &&& !is_blank(e.0)
            &&& forall|j: int| e.1 < j < rows.len() ==> row_key(#[trigger] rows[j], key_columns) != e.0
        } by {
            let e = ki[i];
            if i < prev.len() && (is_blank(k) || key_position(prev, k) != Some(i)) {
                assert(e == prev[i]);
                assert(init[e.1] == rows[e.1]);
                assert forall|j: int| e.1 < j < rows.len() implies row_key(
                    #[trigger] rows[j],
                    key_columns,
                ) != e.0 by {
                    if j < n - 1 {
                        assert(init[j] == rows[j]);
                    } else {
                        assert(rows[j] == rows.last());
                    }
                }
            } else {
                assert(e == (k, n - 1));
                assert(rows[n - 1] == rows.last());
            }
        }
        assert forall|j: int|
            0 <= j < n && !is_blank(row_key(#[trigger] rows[j], key_columns)) implies key_position(
            ki,
            row_key(rows[j], key_columns),
        ) is Some by {
            if j < n - 1 {
                assert(init[j] == rows[j]);
                let q = key_position(prev, row_key(init[j], key_columns)).unwrap();
                lemma_key_position_bounds(prev, row_key(init[j], key_columns));
                assert(ki[q].0 == prev[q].0);
                lemma_key_position_none(ki, row_key(rows[j], key_columns));
            } else {
                if !is_blank(k) {
                    match key_position(prev, k) {
                        Some(p) => {
                            assert(ki[p].0 == k);
                        },
                        None => {
                            assert(ki[prev.len() as int].0 == k);
                        },
                    }
                    lemma_key_position_none(ki, k);
                }
            }
        }
    }
}

/// Row keys with the position of the row each one stands for.
#[derive(Debug)]
pub struct KeyMap {
    pub entries: Vec<(String, usize)>,
}

impl View for KeyMap {
    type V = Seq<(Seq<char>, int)>;

    open spec fn view(&self) -> Seq<(Seq<char>, int)> {
        self.entries@.map_values(|p: (String, usize)| (p.0@, p.1 as int))
    }
}

impl KeyMap {
    /// The row position stored for `key`.
    pub fn find(&self, key: &String) -> (r: Option<usize>)
        ensures
            match r {
                Some(i) => key_position(self@, key@) == Some(i as int),
                None => key_position(self@, key@) is None,
            },
            r matches Some(i) ==> self@[i as int].0 == key@,
            r matches Some(i) ==> i < self@.len(),
    {
        let mut i = self.entries.len();
        assert(self@.take(i as int) =~= self@);
        while i > 0
            invariant
                i <= self.entries@.len(),
                key_position(self@, key@) == key_position(self@.take(i as int), key@),
            decreases i,
        {
            assert(self@.take(i as int).drop_last() =~= self@.take(i - 1));
            if self.entries[i - 1].0 == *key {
                return Some(i - 1);
            }
            i = i - 1;
        }
        None
    }
}

/// The key of `row`: the normalized values of `key_columns` joined with `|`.
pub fn row_key_string(row: &DataRow, key_columns: &[String]) -> (k: String)
    ensures
        k@ == row_key(row@, strings_view(key_columns@)),
{
    let ghost kc = strings_view(key_columns@);
    let ghost parts = kc.map_values(|c: Seq<char>| normalized_at(row@, c));
    let sep = "|";
    proof {
        reveal_strlit("|");
    }
    let mut key = String::new();
    let mut i: usize = 0;
    assert(parts.take(0) =~= Seq::<Seq<char>>::empty());
    while i < key_columns.len()
        invariant
            i <= key_columns@.len(),
            kc == strings_view(key_columns@),
            parts == kc.map_values(|c: Seq<char>| normalized_at(row@, c)),
            key@ == join(parts.take(i as int), seq!['|']),
            sep@ == seq!['|'],
        decreases key_columns@.len() - i,
    {
        let part = row.get_normalized(key_columns[i].as_str());
        assert(parts.take(i + 1).drop_last() =~= parts.take(i as int));
        if i > 0 {
            key.append(sep);
        } else {
            assert(key@ =~= Seq::<char>::empty());
        }
        key.append(part.as_str());
        i = i + 1;
    }
    assert(parts.take(key_columns@.len() as int) =~= parts);
    key
}

/// A sheet loaded from Excel or CSV.
#[derive(Debug)]
pub struct SheetData {
    pub name: String,
    pub headers: Vec<String>,
    pub rows: Vec<DataRow>,
    /// (column, type) pairs; a later pair for a column stands in place of an earlier one
    pub column_types: Vec<(String, ValueType)>,
}

impl SheetData {
    pub fn new(name: &str) -> (r: Self)
        ensures
            r.name@ == name@,
            r.headers@.len() == 0,
            r.rows@.len() == 0,
            r.column_types@.len() == 0,
    {
        SheetData {
            name: String::from_str(name),
            headers: Vec::new(),
            rows: Vec::new(),
            column_types: Vec::new(),
        }
    }

    /// The type stored for `column`, if any.
    pub fn column_type(&self, column: &str) -> (r: Option<ValueType>)
        ensures
            r == lookup(types_view(self.column_types@), column@),
    {
        let mut i = self.column_types.len();
        assert(self.column_types@.take(i as int) =~= self.column_types@);
        while i > 0
            invariant
                i <= self.column_types@.len(),
                lookup(types_view(self.column_types@), column@) == lookup(
                    types_view(self.column_types@.take(i as int)),
                    column@,
                ),
            decreases i,
        {
            assert(types_view(self.column_types@.take(i as int)).drop_last() =~= types_view(
                self.column_types@.take(i - 1),
            ));
            if str_eq(self.column_types[i - 1].0.as_str(), column) {
                return Some(self.column_types[i - 1].1);
            }
            i = i - 1;
        }
        None
    }

    pub fn row_count(&self) -> (n: usize)
        ensures
            n == self.rows@.len(),
    {
        self.rows.len()
    }

    /// The values that the rows hold in `column`, in row order, skipping rows without one.
    pub fn column_values(&self, column: &str) -> (r: Vec<CellValue>)
        ensures
            r@.map_values(|v: CellValue| v@) == rows_view(self.rows@).filter_map(
                |row: RowView| cell_at(row, column@),
            ),
    {
        let ghost f = |row: RowView| cell_at(row, column@);
        let mut r: Vec<CellValue> = Vec::new();
        let mut i: usize = 0;
        while i < self.rows.len()
            invariant
                i <= self.rows@.len(),
                f == (|row: RowView| cell_at(row, column@)),
                r@.map_values(|v: CellValue| v@) == rows_view(self.rows@.take(i as int)).filter_map(f),
            decreases self.rows@.len() - i,
        {
            assert(rows_view(self.rows@.take(i + 1)).drop_last() =~= rows_view(
                self.rows@.take(i as int),
            ));
            assert(rows_view(self.rows@.take(i + 1)).last() == self.rows@[i as int]@);
            match self.rows[i].get(column) {
                Some(v) => {
                    r.push(v.clone());
                    assert(r@.map_values(|v: CellValue| v@) =~= rows_view(
                        self.rows@.take(i as int),
                    ).filter_map(f) + seq![v@]);
                },
                None => {},
            }
            i = i + 1;
        }
        assert(self.rows@.take(self.rows@.len() as int) =~= self.rows@);
        r
    }

    /// Build the lookup index by key columns for joins.
    pub fn build_key_map(&self, key_columns: &[String]) -> (m: KeyMap)
        ensures
            m@ == key_index(rows_view(self.rows@), strings_view(key_columns@)),
            forall|i: int| 0 <= i < m@.len() ==> 0 <= (#[trigger] m@[i]).1 < self.rows@.len(),
    {
        proof {
            lemma_key_index_bounds(rows_view(self.rows@), strings_view(key_columns@));
        }
        let ghost kc = strings_view(key_columns@);
        let mut m = KeyMap { entries: Vec::new() };
        let mut i: usize = 0;
        while i < self.rows.len()
            invariant
                i <= self.rows@.len(),
                kc == strings_view(key_columns@),
                m@ == key_index(rows_view(self.rows@.take(i as int)), kc),
            decreases self.rows@.len() - i,
        {
            let ghost prefix = rows_view(self.rows@.take(i + 1));
            assert(prefix.drop_last() =~= rows_view(self.rows@.take(i as int)));
            assert(prefix.last() == self.rows@[i as int]@);
            let key = row_key_string(&self.rows[i], key_columns);
            let kc_chars = chars_of(key.as_str());
            if !is_blank_chars(&kc_chars) {
                match m.find(&key) {
                    Some(p) => {
                        m.entries.set(p, (key, i));
                        assert(m@ =~= key_index(prefix.drop_last(), kc).update(
                            p as int,
                            (row_key(prefix.last(), kc), i as int),
                        ));
                    },
                    None => {
                        m.entries.push((key, i));
                        assert(m@ =~= key_index(prefix.drop_last(), kc).push(
                            (row_key(prefix.last(), kc), i as int),
                        ));
                    },
                }
            }
            i = i + 1;
        }
        assert(self.rows@.take(self.rows@.len() as int) =~= self.rows@);
        m
    }
}

/// A non-negative ratio `num / den`, standing for a fractional setting such as a similarity
/// threshold (`den` is meant to be positive).
#[derive(Debug, Clone, Copy, PartialEq, Eq, Structural)]
pub struct Ratio {
    pub num: u64,
    pub den: u64,
}

/// A similarity score between two strings: `1 - distance / length`, where `distance` is the
/// number of insertions and deletions that turn one into the other and `length` their total
/// character count; `length == 0` stands for identical strings (score 1).
#[derive(Debug, Clone, Copy, PartialEq, Eq, Structural)]
pub struct Similarity {
    pub distance: u128,
    pub length: u128,
}

/// The numerator of a similarity score over `score_den`.
pub open spec fn score_num(s: Similarity) -> int {
    if s.length == 0 {
        1
    } else {
        s.length - s.distance
    }
}

/// The denominator of a similarity score.
pub open spec fn score_den(s: Similarity) -> int {
    if s.length == 0 {
        1
    } else {
        s.length as int
    }
}

/// The score of `s` is at least `t`.
pub open spec fn score_at_least(s: Similarity, t: Ratio) -> bool {
    score_num(s) * t.den >= t.num * score_den(s)
}

/// The score of `a` is greater than that of `b`.
pub open spec fn score_greater(a: Similarity, b: Similarity) -> bool {
    score_num(a) * score_den(b) > score_num(b) * score_den(a)
}

/// The score of `s` is 1: the strings are the same up to the normalization applied.
pub open spec fn score_is_full(s: Similarity) -> bool {
    score_num(s) == score_den(s)
}

/// Comparison match type.
#[derive(Debug, Clone, Copy, PartialEq, Eq, Structural)]
pub enum MatchType {
    Exact,
    CaseInsensitive,
    Fuzzy { threshold: Ratio },
}

impl Default for MatchType {
    fn default() -> (r: Self)
        ensures
            r == MatchType::Exact,
    {
        MatchType::Exact
    }
}

/// The kind of a mismatch record.
#[derive(Debug, Clone, Copy, PartialEq, Eq, Structural)]
pub enum MismatchType {
    /// Row exists in source but not in compare sheet
    MissingInCompare,
    /// Row exists in compare but not in source
    MissingInSource,
    /// Same key, different values
    ValueMismatch,
    /// Same key, different data types
    TypeMismatch,
    /// Near match, with its similarity score
    FuzzyMatch { similarity: Similarity },
}

/// A single mismatch record.
#[derive(Debug)]
pub struct Mismatch {
    pub row_number: usize,
    pub key_value: String,
    pub field: String,
    pub source_value: String,
    pub compare_value: String,
    pub mismatch_type: MismatchType,
    /// For fuzzy matching
    pub similarity: Option<Similarity>,
}

/// The mathematical value of a mismatch record.
pub struct MismatchView {
    pub row_number: usize,
    pub key_value: Seq<char>,
    pub field: Seq<char>,
    pub source_value: Seq<char>,
    pub compare_value: Seq<char>,
    pub mismatch_type: MismatchType,
    pub similarity: Option<Similarity>,
}

impl View for Mismatch {
    type V = MismatchView;

    open spec fn view(&self) -> MismatchView {
        MismatchView {
            row_number: self.row_number,
            key_value: self.key_value@,
            field: self.field@,
            source_value: self.source_value@,
            compare_value: self.compare_value@,
            mismatch_type: self.mismatch_type,
            similarity: self.similarity,
        }
    }
}

/// The views of a sequence of mismatch records.
pub open spec fn mismatches_view(m: Seq<Mismatch>) -> Seq<MismatchView> {
    m.map_values(|x: Mismatch| x@)
}

/// Comparison result summary.
#[derive(Debug)]
pub struct ComparisonResult {
    pub source_name: String,
    pub compare_name: String,
    pub key_columns: Vec<String>,
    pub compare_columns: Vec<String>,
    pub source_row_count: usize,
    pub compare_row_count: usize,
    pub matched_rows: usize,
    pub mismatched_rows: usize,
    pub missing_in_compare: usize,
    pub missing_in_source: usize,
    pub field_mismatches: usize,
    pub type_mismatches: usize,
    pub total_mismatches: usize,
    pub mismatches: Vec<Mismatch>,
}

} // verus!
