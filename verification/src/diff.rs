//! Key-based comparison of two sheets.
//!
//! Rows are joined by their key (the normalized values of the key columns joined with `|`);
//! rows of both sheets under the same key are compared column by column, after coercing each
//! value to its column's type; keys found in one sheet only are reported as missing rows.

use vstd::prelude::*;
use crate::fuzzy::{at_least, similarity, similarity_of};
use crate::text::{chars_eq_ignore_ascii_case, chars_of, eq_ignore_ascii_case, str_eq};
use crate::types::{
    cell_at, coerce, key_index, key_position, lookup, mismatches_view, normalized, opt_cell_view,
    opt_ref_view, rows_view, score_at_least, strings_view, types_view, CellValue, CellView,
    ComparisonResult, DataRow, KeyMap, MatchType, Mismatch, MismatchType, MismatchView, RowView,
    SheetData, Similarity, ValueType,
};

verus! {

/// The typed kind of a value, for the four kinds between which a type mismatch is reported.
pub open spec fn typed_kind(v: CellView) -> Option<int> {
    match v {
        CellView::Text(..) => Some(0),
        CellView::Number(_) => Some(1),
        CellView::Date(_) => Some(2),
        CellView::Boolean(_) => Some(3),
        _ => None,
    }
}

/// Both values are present, both are text, numbers, dates or booleans, and of different kinds.
pub open spec fn type_mismatch(s: Option<CellView>, c: Option<CellView>) -> bool {
    match (s, c) {
        (Some(a), Some(b)) => typed_kind(a) is Some && typed_kind(b) is Some && typed_kind(a)
            != typed_kind(b),
        _ => false,
    }
}

/// The text that stands for the literal `<missing>`.
pub open spec fn missing_marker() -> Seq<char> {
    "<missing>"@
}

/// How a value is shown in a mismatch record: its normalized form, or `<missing>`.
pub open spec fn format_value(v: Option<CellView>) -> Seq<char> {
    match v {
        Some(x) => normalized(x),
        None => missing_marker(),
    }
}

/// The value coerced to the column's type when the type is known and coercion succeeds;
/// otherwise the value as it is.
pub open spec fn maybe_coerce(v: Option<CellView>, target: Option<ValueType>) -> Option<CellView> {
    match (v, target) {
        (Some(x), Some(t)) => match coerce(x, t) {
            Some(y) => Some(y),
            None => Some(x),
        },
        _ => v,
    }
}

/// Two optional values match under a match type: both missing, or both present and their
/// normalized forms equal, equal up to ASCII case, or similar at least to the threshold.
pub open spec fn values_match(s: Option<CellView>, c: Option<CellView>, mt: MatchType) -> bool {
    match (s, c) {
        (None, None) => true,
        (Some(a), Some(b)) => match mt {
            MatchType::Exact => normalized(a) == normalized(b),
            MatchType::CaseInsensitive => eq_ignore_ascii_case(normalized(a), normalized(b)),
            MatchType::Fuzzy { threshold } => score_at_least(
                similarity_of(normalized(a), normalized(b)),
                threshold,
            ),
        },
        _ => false,
    }
}

/// The inputs of a comparison, as mathematical values.
pub struct CompareInput {
    pub source_rows: Seq<RowView>,
    pub source_types: Seq<(Seq<char>, ValueType)>,
    pub compare_rows: Seq<RowView>,
    pub compare_types: Seq<(Seq<char>, ValueType)>,
    pub key_columns: Seq<Seq<char>>,
    pub compare_columns: Seq<Seq<char>>,
    pub match_type: MatchType,
}

/// The inputs of `compare_sheets` as mathematical values.
pub open spec fn compare_input(
    source: &SheetData,
    compare: &SheetData,
    key_columns: Seq<String>,
    compare_columns: Seq<String>,
    match_type: MatchType,
) -> CompareInput {
    CompareInput {
        source_rows: rows_view(source.rows@),
        source_types: types_view(source.column_types@),
        compare_rows: rows_view(compare.rows@),
        compare_types: types_view(compare.column_types@),
        key_columns: strings_view(key_columns),
        compare_columns: strings_view(compare_columns),
        match_type,
    }
}

/// The key index of the source sheet.
pub open spec fn source_keys(c: CompareInput) -> Seq<(Seq<char>, int)> {
    key_index(c.source_rows, c.key_columns)
}

/// The key index of the compare sheet.
pub open spec fn compare_keys(c: CompareInput) -> Seq<(Seq<char>, int)> {
    key_index(c.compare_rows, c.key_columns)
}

/// The mismatch record, if any, for column `col` of a source row and a compare row that share
/// key `key`.
pub open spec fn field_mismatch(
    source_types: Seq<(Seq<char>, ValueType)>,
    compare_types: Seq<(Seq<char>, ValueType)>,
    match_type: MatchType,
    sr: RowView,
    cr: RowView,
    key: Seq<char>,
    col: Seq<char>,
) -> Option<MismatchView> {
    let sv = cell_at(sr, col);
    let cv = cell_at(cr, col);
    if type_mismatch(sv, cv) {
        Some(
            MismatchView {
                row_number: sr.row_number,
                key_value: key,
                field: col,
                source_value: format_value(sv),
                compare_value: format_value(cv),
                mismatch_type: MismatchType::TypeMismatch,
                similarity: None,
            },
        )
    } else {
        let sc = maybe_coerce(sv, lookup(source_types, col));
        let cc = maybe_coerce(cv, lookup(compare_types, col));
        if values_match(sc, cc, match_type) {
            None
        } else {
            let (mtype, sim) = match match_type {
                MatchType::Fuzzy { threshold } => {
                    let s = similarity_of(format_value(sv), format_value(cv));
                    if score_at_least(s, threshold) {
                        (MismatchType::FuzzyMatch { similarity: s }, Some(s))
                    } else {
                        (MismatchType::ValueMismatch, Some(s))
                    }
                },
                _ => (MismatchType::ValueMismatch, None),
            };
            Some(
                MismatchView {
                    row_number: sr.row_number,
                    key_value: key,
                    field: col,
                    source_value: format_value(sv),
                    compare_value: format_value(cv),
                    mismatch_type: mtype,
                    similarity: sim,
                },
            )
        }
    }
}

/// The mismatch records of two rows that share key `key`, in the order of the compared
/// columns.
pub open spec fn row_mismatches(
    c: CompareInput,
    sr: RowView,
    cr: RowView,
    key: Seq<char>,
    columns: Seq<Seq<char>>,
) -> Seq<MismatchView> {
    columns.filter_map(
        |col: Seq<char>|
            field_mismatch(c.source_types, c.compare_types, c.match_type, sr, cr, key, col),
    )
}

/// The mismatch records of the rows whose keys both sheets hold, for the source key entries
/// `sk`, in their order.
pub open spec fn matched_mismatches(c: CompareInput, sk: Seq<(Seq<char>, int)>) -> Seq<
    MismatchView,
>
    decreases sk.len(),
{
    if sk.len() == 0 {
        seq![]
    } else {
        let e = sk.last();
        let ck = compare_keys(c);
        matched_mismatches(c, sk.drop_last()) + match key_position(ck, e.0) {
            Some(p) => row_mismatches(
                c,
                c.source_rows[e.1],
                c.compare_rows[ck[p].1],
                e.0,
                c.compare_columns,
            ),
            None => seq![],
        }
    }
}

/// The record of a source key that the compare sheet lacks.
pub open spec fn missing_in_compare_record(c: CompareInput, e: (Seq<char>, int)) -> Option<
    MismatchView,
> {
    if key_position(compare_keys(c), e.0) is None {
        Some(
            MismatchView {
                row_number: c.source_rows[e.1].row_number,
                key_value: e.0,
                field: "-"@,
                source_value: "present in source"@,
                compare_value: "MISSING"@,
                mismatch_type: MismatchType::MissingInCompare,
                similarity: None,
            },
        )
    } else {
        None
    }
}

/// The record of a compare key that the source sheet lacks.
pub open spec fn missing_in_source_record(c: CompareInput, e: (Seq<char>, int)) -> Option<
    MismatchView,
> {
    if key_position(source_keys(c), e.0) is None {
        Some(
            MismatchView {
                row_number: 0,
                key_value: e.0,
                field: "-"@,
                source_value: "MISSING"@,
                compare_value: "present in compare"@,
                mismatch_type: MismatchType::MissingInSource,
                similarity: None,
            },
        )
    } else {
        None
    }
}

/// All mismatch records of a comparison: those of matched rows (in the order of the source
/// keys, then of the compared columns), then the source keys missing in the compare sheet,
/// then the compare keys missing in the source sheet.
pub open spec fn all_mismatches(c: CompareInput) -> Seq<MismatchView> {
    matched_mismatches(c, source_keys(c)) + missing_in_compare_records(c, source_keys(c))
        + missing_in_source_records(c, compare_keys(c))
}

/// The records of the entries `sk` of source keys that the compare sheet lacks.
pub open spec fn missing_in_compare_records(c: CompareInput, sk: Seq<(Seq<char>, int)>) -> Seq<
    MismatchView,
> {
    sk.filter_map(|e: (Seq<char>, int)| missing_in_compare_record(c, e))
}

/// The records of the entries `ck` of compare keys that the source sheet lacks.
pub open spec fn missing_in_source_records(c: CompareInput, ck: Seq<(Seq<char>, int)>) -> Seq<
    MismatchView,
> {
    ck.filter_map(|e: (Seq<char>, int)| missing_in_source_record(c, e))
}

/// Those of the source key entries `sk` whose key the compare sheet also holds.
pub open spec fn matched_entries(c: CompareInput, sk: Seq<(Seq<char>, int)>) -> Seq<
    (Seq<char>, int),
> {
    sk.filter(|e: (Seq<char>, int)| key_position(compare_keys(c), e.0) is Some)
}

/// Those of the source key entries `sk` whose key the compare sheet lacks.
pub open spec fn unmatched_source_entries(c: CompareInput, sk: Seq<(Seq<char>, int)>) -> Seq<
    (Seq<char>, int),
> {
    sk.filter(|e: (Seq<char>, int)| key_position(compare_keys(c), e.0) is None)
}

/// Those of the compare key entries `ck` whose key the source sheet lacks.
pub open spec fn unmatched_compare_entries(c: CompareInput, ck: Seq<(Seq<char>, int)>) -> Seq<
    (Seq<char>, int),
> {
    ck.filter(|e: (Seq<char>, int)| key_position(source_keys(c), e.0) is None)
}

/// The number of source keys that the compare sheet also holds.
pub open spec fn matched_count(c: CompareInput) -> nat {
    matched_entries(c, source_keys(c)).len()
}

/// The number of source keys that the compare sheet lacks.
pub open spec fn missing_in_compare_count(c: CompareInput) -> nat {
    unmatched_source_entries(c, source_keys(c)).len()
}

/// The number of compare keys that the source sheet lacks.
pub open spec fn missing_in_source_count(c: CompareInput) -> nat {
    unmatched_compare_entries(c, compare_keys(c)).len()
}

/// The number of type mismatch records among `m`.
pub open spec fn type_mismatch_count(m: Seq<MismatchView>) -> nat {
    m.filter(|x: MismatchView| x.mismatch_type is TypeMismatch).len()
}

/// The number of records among `m` that are not type mismatches.
pub open spec fn field_mismatch_count(m: Seq<MismatchView>) -> nat {
    m.filter(|x: MismatchView| !(x.mismatch_type is TypeMismatch)).len()
}

proof fn lemma_counts_push(m: Seq<MismatchView>, x: MismatchView)
    ensures
        type_mismatch_count(m.push(x)) == type_mismatch_count(m) + if x.mismatch_type is TypeMismatch {
            1nat
        } else {
            0nat
        },
        field_mismatch_count(m.push(x)) == field_mismatch_count(m) + if x.mismatch_type is TypeMismatch {
            0nat
        } else {
            1nat
        },
        type_mismatch_count(m) <= m.len(),
        field_mismatch_count(m) <= m.len(),
{
    reveal(Seq::filter);
    assert(m.push(x).drop_last() =~= m);
    m.lemma_filter_len(|x: MismatchView| x.mismatch_type is TypeMismatch);
    m.lemma_filter_len(|x: MismatchView| !(x.mismatch_type is TypeMismatch));
}

fn kind_code(v: &CellValue) -> (k: u8)
    ensures
        match typed_kind(v@) {
            Some(x) => k == x,
            None => k == 4,
        },
{
    match v {
        CellValue::String(..) => 0,
        CellValue::Number(_) => 1,
        CellValue::Date(_) => 2,
        CellValue::Boolean(_) => 3,
        _ => 4,
    }
}

fn detect_type_mismatch(s: Option<&CellValue>, c: Option<&CellValue>) -> (b: bool)
    ensures
        b == type_mismatch(opt_ref_view(s), opt_ref_view(c)),
{
    match (s, c) {
        (Some(a), Some(b)) => {
            let ka = kind_code(a);
            let kb = kind_code(b);
            ka != 4 && kb != 4 && ka != kb
        },
        _ => false,
    }
}

fn format_value_string(v: Option<&CellValue>) -> (r: String)
    ensures
        r@ == format_value(opt_ref_view(v)),
{
    match v {
        Some(x) => x.to_normalized(),
        None => String::from_str("<missing>"),
    }
}

fn maybe_coerce_value(v: Option<&CellValue>, target: Option<ValueType>) -> (r: Option<CellValue>)
    ensures
        opt_cell_view(r) == maybe_coerce(opt_ref_view(v), target),
{
    match (v, target) {
        (Some(x), Some(t)) => match x.coerce_to(&t) {
            Some(y) => Some(y),
            None => Some(x.clone()),
        },
        (Some(x), None) => Some(x.clone()),
        (None, _) => None,
    }
}

fn match_values(s: &Option<CellValue>, c: &Option<CellValue>, match_type: MatchType) -> (b: bool)
    ensures
        b == values_match(opt_cell_view(*s), opt_cell_view(*c), match_type),
{
    match (s, c) {
        (None, None) => true,
        (Some(a), Some(b)) => {
            let na = a.to_normalized();
            let nb = b.to_normalized();
            match match_type {
                MatchType::Exact => na == nb,
                MatchType::CaseInsensitive => {
                    let va = chars_of(na.as_str());
                    let vb = chars_of(nb.as_str());
                    chars_eq_ignore_ascii_case(&va, &vb)
                },
                MatchType::Fuzzy { threshold } => {
                    let sim = similarity(na.as_str(), nb.as_str());
                    at_least(sim, threshold)
                },
            }
        },
        _ => false,
    }
}

fn copy_string(s: &String) -> (r: String)
    ensures
        r == s,
{
    s.clone()
}

/// The mismatch record, if any, for column `col` of rows `sr` and `cr` that share `key`.
fn column_mismatch(
    source: &SheetData,
    compare: &SheetData,
    sr: &DataRow,
    cr: &DataRow,
    key: &String,
    col: &String,
    match_type: MatchType,
) -> (r: Option<Mismatch>)
    ensures
        match r {
            Some(m) => field_mismatch(
                types_view(source.column_types@),
                types_view(compare.column_types@),
                match_type,
                sr@,
                cr@,
                key@,
                col@,
            ) == Some(m@),
            None => field_mismatch(
                types_view(source.column_types@),
                types_view(compare.column_types@),
                match_type,
                sr@,
                cr@,
                key@,
                col@,
            ) is None,
        },
{
    let sv = sr.get(col.as_str());
    let cv = cr.get(col.as_str());
    if detect_type_mismatch(sv, cv) {
        return Some(
            Mismatch {
                row_number: sr.row_number,
                key_value: copy_string(key),
                field: copy_string(col),
                source_value: format_value_string(sv),
                compare_value: format_value_string(cv),
                mismatch_type: MismatchType::TypeMismatch,
                similarity: None,
            },
        );
    }
    let sc = maybe_coerce_value(sv, source.column_type(col.as_str()));
    let cc = maybe_coerce_value(cv, compare.column_type(col.as_str()));
    if match_values(&sc, &cc, match_type) {
        return None;
    }
    let source_value = format_value_string(sv);
    let compare_value = format_value_string(cv);
    let (mismatch_type, sim) = match match_type {
        MatchType::Fuzzy { threshold } => {
            let s = similarity(source_value.as_str(), compare_value.as_str());
            if at_least(s, threshold) {
                (MismatchType::FuzzyMatch { similarity: s }, Some(s))
            } else {
                (MismatchType::ValueMismatch, Some(s))
            }
        },
        _ => (MismatchType::ValueMismatch, None),
    };
    Some(
        Mismatch {
            row_number: sr.row_number,
            key_value: copy_string(key),
            field: copy_string(col),
            source_value,
            compare_value,
            mismatch_type,
            similarity: sim,
        },
    )
}

fn copy_strings(v: &[String]) -> (r: Vec<String>)
    ensures
        r@ == v@,
{
    let mut r: Vec<String> = Vec::new();
    let mut i: usize = 0;
    while i < v.len()
        invariant
            i <= v@.len(),
            r@ == v@.take(i as int),
        decreases v@.len() - i,
    {
        r.push(copy_string(&v[i]));
        i = i + 1;
        assert(r@ =~= v@.take(i as int));
    }
    assert(v@.take(v@.len() as int) =~= v@);
    r
}

/// Compare two sheets and return detailed results.
pub fn compare_sheets(
    source: &SheetData,
    compare: &SheetData,
    key_columns: &[String],
    compare_columns: &[String],
    match_type: MatchType,
) -> (r: ComparisonResult)
    ensures
        mismatches_view(r.mismatches@) == all_mismatches(
            compare_input(source, compare, key_columns@, compare_columns@, match_type),
        ),
        r.matched_rows == matched_count(
            compare_input(source, compare, key_columns@, compare_columns@, match_type),
        ),
        r.missing_in_compare == missing_in_compare_count(
            compare_input(source, compare, key_columns@, compare_columns@, match_type),
        ),
        r.missing_in_source == missing_in_source_count(
            compare_input(source, compare, key_columns@, compare_columns@, match_type),
        ),
        r.type_mismatches == type_mismatch_count(
            matched_mismatches(
                compare_input(source, compare, key_columns@, compare_columns@, match_type),
                source_keys(compare_input(source, compare, key_columns@, compare_columns@, match_type)),
            ),
        ),
        r.field_mismatches == field_mismatch_count(
            matched_mismatches(
                compare_input(source, compare, key_columns@, compare_columns@, match_type),
                source_keys(compare_input(source, compare, key_columns@, compare_columns@, match_type)),
            ),
        ),
        r.total_mismatches == r.mismatches@.len(),
        r.mismatched_rows == r.mismatches@.len(),
        r.source_row_count == source.rows@.len(),
        r.compare_row_count == compare.rows@.len(),
        r.source_name == source.name,
        r.compare_name == compare.name,
        r.key_columns@ == key_columns@,
        r.compare_columns@ == compare_columns@,
{
    let ghost c = compare_input(source, compare, key_columns@, compare_columns@, match_type);
    let source_map = source.build_key_map(key_columns);
    let compare_map = compare.build_key_map(key_columns);
    let ghost sk = source_keys(c);
    let ghost ck = compare_keys(c);
    assert(source_map@ == sk);
    assert(compare_map@ == ck);

    let mut mismatches: Vec<Mismatch> = Vec::new();
    let mut field_mismatch_count_v: usize = 0;
    let mut type_mismatch_count_v: usize = 0;
    let mut matched: usize = 0;

    // Compare matched rows field by field
    let mut i: usize = 0;
    assert(sk.take(0) =~= Seq::<(Seq<char>, int)>::empty());
    proof {
        reveal(Seq::filter);
    }
    while i < source_map.entries.len()
        invariant
            i <= source_map@.len(),
            c == compare_input(source, compare, key_columns@, compare_columns@, match_type),
            sk == source_keys(c),
            ck == compare_keys(c),
            source_map@ == sk,
            compare_map@ == ck,
            forall|j: int| 0 <= j < sk.len() ==> 0 <= (#[trigger] sk[j]).1 < source.rows@.len(),
            forall|j: int| 0 <= j < ck.len() ==> 0 <= (#[trigger] ck[j]).1 < compare.rows@.len(),
            mismatches_view(mismatches@) == matched_mismatches(c, sk.take(i as int)),
            matched as nat == matched_entries(c, sk.take(i as int)).len(),
            matched <= i,
            type_mismatch_count_v as nat == type_mismatch_count(mismatches_view(mismatches@)),
            field_mismatch_count_v as nat == field_mismatch_count(mismatches_view(mismatches@)),
        decreases source_map@.len() - i,
    {
        let ghost prefix = sk.take(i + 1);
        assert(prefix.drop_last() =~= sk.take(i as int));
        assert(prefix.last() == sk[i as int]);
        proof {
            reveal(Seq::filter);
        }
        let key = &source_map.entries[i].0;
        let si = source_map.entries[i].1;
        match compare_map.find(key) {
            Some(p) => {
                let ci = compare_map.entries[p].1;
                let sr = &source.rows[si];
                let cr = &compare.rows[ci];
                assert(sr@ == c.source_rows[si as int]);
                assert(cr@ == c.compare_rows[ci as int]);
                let ghost before = mismatches_view(mismatches@);
                let mut j: usize = 0;
                assert(c.compare_columns.take(0) =~= Seq::<Seq<char>>::empty());
                while j < compare_columns.len()
                    invariant
                        j <= compare_columns@.len(),
                        c == compare_input(source, compare, key_columns@, compare_columns@, match_type),
                        mismatches_view(mismatches@) == before + row_mismatches(
                            c,
                            sr@,
                            cr@,
                            key@,
                            c.compare_columns.take(j as int),
                        ),
                        type_mismatch_count_v as nat == type_mismatch_count(mismatches_view(mismatches@)),
                        field_mismatch_count_v as nat == field_mismatch_count(mismatches_view(mismatches@)),
                    decreases compare_columns@.len() - j,
                {
                    let ghost cols = c.compare_columns.take(j + 1);
                    assert(cols.drop_last() =~= c.compare_columns.take(j as int));
                    assert(cols.last() == compare_columns@[j as int]@);
                    match column_mismatch(source, compare, sr, cr, key, &compare_columns[j], match_type) {
                        Some(m) => {
                            proof {
                                lemma_counts_push(mismatches_view(mismatches@), m@);
                            }
                            let is_type = match m.mismatch_type {
                                MismatchType::TypeMismatch => true,
                                _ => false,
                            };
                            let ghost old_view = mismatches_view(mismatches@);
                            mismatches.push(m);
                            let n = mismatches.len();
                            assert(mismatches_view(mismatches@) =~= old_view.push(m@));
                            assert(row_mismatches(c, sr@, cr@, key@, cols) == row_mismatches(
                                c,
                                sr@,
                                cr@,
                                key@,
                                cols.drop_last(),
                            ) + seq![m@]);
                            assert(mismatches_view(mismatches@) =~= before + row_mismatches(
                                c,
                                sr@,
                                cr@,
                                key@,
                                cols,
                            ));
                            assert(old_view.len() + 1 == n);
                            if is_type {
                                type_mismatch_count_v = type_mismatch_count_v + 1;
                            } else {
                                field_mismatch_count_v = field_mismatch_count_v + 1;
                            }
                        },
                        None => {
                            assert(row_mismatches(c, sr@, cr@, key@, cols) == row_mismatches(
                                c,
                                sr@,
                                cr@,
                                key@,
                                cols.drop_last(),
                            ));
                        },
                    }
                    j = j + 1;
                }
                assert(c.compare_columns.take(compare_columns@.len() as int) =~= c.compare_columns);
                matched = matched + 1;
            },
            None => {},
        }
        i = i + 1;
    }
    assert(sk.take(sk.len() as int) =~= sk);
    let ghost matched_part = mismatches_view(mismatches@);

    // Add missing row mismatches
    let mut missing_compare: usize = 0;
    let mut i: usize = 0;
    while i < source_map.entries.len()
        invariant
            i <= source_map@.len(),
            c == compare_input(source, compare, key_columns@, compare_columns@, match_type),
            sk == source_keys(c),
            ck == compare_keys(c),
            source_map@ == sk,
            compare_map@ == ck,
            forall|j: int| 0 <= j < sk.len() ==> 0 <= (#[trigger] sk[j]).1 < source.rows@.len(),
            mismatches_view(mismatches@) == matched_part + missing_in_compare_records(
                c,
                sk.take(i as int),
            ),
            missing_compare as nat == unmatched_source_entries(c, sk.take(i as int)).len(),
            missing_compare <= i,
        decreases source_map@.len() - i,
    {
        let ghost prefix = sk.take(i + 1);
        assert(prefix.drop_last() =~= sk.take(i as int));
        assert(prefix.last() == sk[i as int]);
        proof {
            reveal(Seq::filter);
        }
        let key = &source_map.entries[i].0;
        let si = source_map.entries[i].1;
        assert(source.rows@[si as int]@ == c.source_rows[si as int]);
        let found = compare_map.find(key);
        let ghost rec = missing_in_compare_record(c, sk[i as int]);
        assert(missing_in_compare_records(c, prefix) == missing_in_compare_records(
            c,
            prefix.drop_last(),
        ) + match rec {
            Some(x) => seq![x],
            None => seq![],
        });
        if found.is_none() {
            let m = Mismatch {
                row_number: source.rows[si].row_number,
                key_value: copy_string(key),
                field: String::from_str("-"),
                source_value: String::from_str("present in source"),
                compare_value: String::from_str("MISSING"),
                mismatch_type: MismatchType::MissingInCompare,
                similarity: None,
            };
            assert(rec == Some(m@));
            let ghost old_view = mismatches_view(mismatches@);
            mismatches.push(m);
            assert(mismatches_view(mismatches@) =~= old_view.push(m@));
            assert(mismatches_view(mismatches@) =~= matched_part + missing_in_compare_records(
                c,
                prefix,
            ));
            missing_compare = missing_compare + 1;
        }
        i = i + 1;
    }
    assert(sk.take(sk.len() as int) =~= sk);
    let ghost missing_part = mismatches_view(mismatches@);

    let mut missing_source: usize = 0;
    let mut i: usize = 0;
    while i < compare_map.entries.len()
        invariant
            i <= compare_map@.len(),
            c == compare_input(source, compare, key_columns@, compare_columns@, match_type),
            sk == source_keys(c),
            ck == compare_keys(c),
            source_map@ == sk,
            compare_map@ == ck,
            mismatches_view(mismatches@) == missing_part + missing_in_source_records(
                c,
                ck.take(i as int),
            ),
            missing_source as nat == unmatched_compare_entries(c, ck.take(i as int)).len(),
            missing_source <= i,
        decreases compare_map@.len() - i,
    {
        let ghost prefix = ck.take(i + 1);
        assert(prefix.drop_last() =~= ck.take(i as int));
        assert(prefix.last() == ck[i as int]);
        proof {
            reveal(Seq::filter);
        }
        let key = &compare_map.entries[i].0;
        let found = source_map.find(key);
        let ghost rec = missing_in_source_record(c, ck[i as int]);
        assert(missing_in_source_records(c, prefix) == missing_in_source_records(
            c,
            prefix.drop_last(),
        ) + match rec {
            Some(x) => seq![x],
            None => seq![],
        });
        if found.is_none() {
            let m = Mismatch {
                row_number: 0,
                key_value: copy_string(key),
                field: String::from_str("-"),
                source_value: String::from_str("MISSING"),
                compare_value: String::from_str("present in compare"),
                mismatch_type: MismatchType::MissingInSource,
                similarity: None,
            };
            assert(rec == Some(m@));
            let ghost old_view = mismatches_view(mismatches@);
            mismatches.push(m);
            assert(mismatches_view(mismatches@) =~= old_view.push(m@));
            assert(mismatches_view(mismatches@) =~= missing_part + missing_in_source_records(
                c,
                prefix,
            ));
            missing_source = missing_source + 1;
        }
        i = i + 1;
    }
    assert(ck.take(ck.len() as int) =~= ck);

    let total_mismatches = mismatches.len();
    ComparisonResult {
        source_name: copy_string(&source.name),
        compare_name: copy_string(&compare.name),
        key_columns: copy_strings(key_columns),
        compare_columns: copy_strings(compare_columns),
        source_row_count: source.rows.len(),
        compare_row_count: compare.rows.len(),
        matched_rows: matched,
        mismatched_rows: total_mismatches,
        missing_in_compare: missing_compare,
        missing_in_source: missing_source,
        field_mismatches: field_mismatch_count_v,
        type_mismatches: type_mismatch_count_v,
        total_mismatches,
        mismatches,
    }
}

} // verus!
