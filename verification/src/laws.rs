//! Laws of sheet comparison: what holds of every comparison, stated over the same spec
//! functions that the contract of `compare_sheets` uses.

use vstd::prelude::*;
use crate::diff::{
    all_mismatches, compare_input, compare_keys, field_mismatch, field_mismatch_count,
    matched_count, matched_mismatches, maybe_coerce, missing_in_compare_count,
    missing_in_compare_record, missing_in_compare_records, missing_in_source_count,
    missing_in_source_record, missing_in_source_records, row_mismatches, source_keys,
    type_mismatch, type_mismatch_count, values_match, CompareInput,
};
use crate::fuzzy::similarity_of;
use crate::types::{
    cell_at, distinct_keys, key_position, lemma_distinct_key_position, law_key_index_contents,
    lemma_key_position_none, lookup, normalized, CellView, MatchType, MismatchType, MismatchView,
    RowView, SheetData, ValueType,
};
use crate::text::ascii_lower;

verus! {

/// A filter whose predicate holds of every element keeps the whole sequence.
proof fn lemma_filter_all<A>(s: Seq<A>, p: spec_fn(A) -> bool)
    requires
        forall|i: int| 0 <= i < s.len() ==> p(#[trigger] s[i]),
    ensures
        s.filter(p) == s,
    decreases s.len(),
{
    reveal(Seq::filter);
    if s.len() > 0 {
        assert forall|i: int| 0 <= i < s.len() - 1 implies p(#[trigger] s.drop_last()[i]) by {
            assert(s.drop_last()[i] == s[i]);
        }
        lemma_filter_all(s.drop_last(), p);
        assert(s.drop_last().push(s.last()) =~= s);
    }
}

/// A filter whose predicate holds of no element keeps nothing.
proof fn lemma_filter_none<A>(s: Seq<A>, p: spec_fn(A) -> bool)
    requires
        forall|i: int| 0 <= i < s.len() ==> !p(#[trigger] s[i]),
    ensures
        s.filter(p).len() == 0,
    decreases s.len(),
{
    reveal(Seq::filter);
    if s.len() > 0 {
        assert forall|i: int| 0 <= i < s.len() - 1 implies !p(#[trigger] s.drop_last()[i]) by {
            assert(s.drop_last()[i] == s[i]);
        }
        lemma_filter_none(s.drop_last(), p);
    }
}

/// A filter-map whose function gives nothing for every element gives nothing.
proof fn lemma_filter_map_none<A, B>(s: Seq<A>, f: spec_fn(A) -> Option<B>)
    requires
        forall|i: int| 0 <= i < s.len() ==> f(#[trigger] s[i]) is None,
    ensures
        s.filter_map(f) == Seq::<B>::empty(),
    decreases s.len(),
{
    if s.len() > 0 {
        assert forall|i: int| 0 <= i < s.len() - 1 implies f(#[trigger] s.drop_last()[i]) is None by {
            assert(s.drop_last()[i] == s[i]);
        }
        lemma_filter_map_none(s.drop_last(), f);
    }
}

/// An element kept by a predicate or by its negation: the two filters share out the whole.
proof fn lemma_filter_partition<A>(s: Seq<A>, p: spec_fn(A) -> bool, q: spec_fn(A) -> bool)
    requires
        forall|x: A| #[trigger] q(x) == !p(x),
    ensures
        s.filter(p).len() + s.filter(q).len() == s.len(),
    decreases s.len(),
{
    reveal(Seq::filter);
    if s.len() > 0 {
        lemma_filter_partition(s.drop_last(), p, q);
    }
}

/// A filter-map gives as many results as a filter by the predicate "gives a result".
proof fn lemma_filter_map_len<A, B>(s: Seq<A>, f: spec_fn(A) -> Option<B>, p: spec_fn(A) -> bool)
    requires
        forall|x: A| #[trigger] p(x) == f(x) is Some,
    ensures
        s.filter_map(f).len() == s.filter(p).len(),
    decreases s.len(),
{
    reveal(Seq::filter);
    if s.len() > 0 {
        lemma_filter_map_len(s.drop_last(), f, p);
    }
}

/// Two values compared with themselves match, for any match type whose threshold is at most 1.
proof fn lemma_values_match_self(v: Option<CellView>, mt: MatchType)
    requires
        mt matches MatchType::Fuzzy { threshold } ==> threshold.num <= threshold.den,
    ensures
        values_match(v, v, mt),
{
    match v {
        Some(a) => {
            let n = normalized(a);
            match mt {
                MatchType::Fuzzy { threshold } => {
                    assert(similarity_of(n, n).length == 0);
                },
                MatchType::CaseInsensitive => {
                    assert(forall|i: int| 0 <= i < n.len() ==> ascii_lower(#[trigger] n[i])
                        == ascii_lower(n[i]));
                },
                _ => {},
            }
        },
        None => {},
    }
}

/// A row compared with itself gives no mismatch record in any column.
proof fn lemma_row_mismatches_self(
    c: CompareInput,
    r: RowView,
    key: Seq<char>,
    columns: Seq<Seq<char>>,
)
    requires
        c.source_types == c.compare_types,
        c.match_type matches MatchType::Fuzzy { threshold } ==> threshold.num <= threshold.den,
    ensures
        row_mismatches(c, r, r, key, columns) == Seq::<MismatchView>::empty(),
{
    let f = |col: Seq<char>|
        field_mismatch(c.source_types, c.compare_types, c.match_type, r, r, key, col);
    assert forall|i: int| 0 <= i < columns.len() implies f(#[trigger] columns[i]) is None by {
        let col = columns[i];
        let sv = cell_at(r, col);
        let sc = maybe_coerce(sv, lookup(c.source_types, col));
        lemma_values_match_self(sc, c.match_type);
    }
    lemma_filter_map_none(columns, f);
}

/// A sheet compared with itself gives no mismatch record: every key is matched, with the same
/// row on both sides, and every value matches itself. This holds for exact and
/// case-insensitive matching, and for fuzzy matching whose threshold is at most 1.
pub proof fn law_self_comparison_finds_nothing(
    sheet: SheetData,
    key_columns: Seq<String>,
    compare_columns: Seq<String>,
    match_type: MatchType,
)
    requires
        match_type matches MatchType::Fuzzy { threshold } ==> threshold.num <= threshold.den,
    ensures
        ({
            let c = compare_input(&sheet, &sheet, key_columns, compare_columns, match_type);
            &&& all_mismatches(c) == Seq::<MismatchView>::empty()
            &&& matched_count(c) == source_keys(c).len()
            &&& missing_in_compare_count(c) == 0
            &&& missing_in_source_count(c) == 0
        }),
{
    let c = compare_input(&sheet, &sheet, key_columns, compare_columns, match_type);
    let sk = source_keys(c);
    let ck = compare_keys(c);
    assert(sk == ck);
    law_key_index_contents(c.source_rows, c.key_columns);
    assert forall|i: int| 0 <= i < sk.len() implies key_position(ck, (#[trigger] sk[i]).0) == Some(
        i,
    ) by {
        lemma_distinct_key_position(sk, i);
    }
    // Matched rows: each source key finds its own entry, hence its own row.
    assert forall|n: int| 0 <= n <= sk.len() implies #[trigger] matched_mismatches(
        c,
        sk.take(n),
    ) == Seq::<MismatchView>::empty() by {
        lemma_matched_self_prefix(c, n);
    }
    assert(sk.take(sk.len() as int) =~= sk);
    lemma_filter_map_none(sk, |e: (Seq<char>, int)| missing_in_compare_record(c, e));
    lemma_filter_map_none(ck, |e: (Seq<char>, int)| missing_in_source_record(c, e));
    lemma_filter_all(sk, |e: (Seq<char>, int)| key_position(compare_keys(c), e.0) is Some);
    lemma_filter_none(sk, |e: (Seq<char>, int)| key_position(compare_keys(c), e.0) is None);
    lemma_filter_none(ck, |e: (Seq<char>, int)| key_position(source_keys(c), e.0) is None);
    assert(all_mismatches(c) =~= Seq::<MismatchView>::empty());
}

proof fn lemma_matched_self_prefix(c: CompareInput, n: int)
    requires
        c.source_rows == c.compare_rows,
        c.source_types == c.compare_types,
        c.match_type matches MatchType::Fuzzy { threshold } ==> threshold.num <= threshold.den,
        0 <= n <= source_keys(c).len(),
        forall|i: int|
            0 <= i < source_keys(c).len() ==> key_position(
                compare_keys(c),
                (#[trigger] source_keys(c)[i]).0,
            ) == Some(i),
    ensures
        matched_mismatches(c, source_keys(c).take(n)) == Seq::<MismatchView>::empty(),
    decreases n,
{
    let sk = source_keys(c);
    if n > 0 {
        let prefix = sk.take(n);
        assert(prefix.drop_last() =~= sk.take(n - 1));
        assert(prefix.last() == sk[n - 1]);
        lemma_matched_self_prefix(c, n - 1);
        let e = sk[n - 1];
        assert(key_position(compare_keys(c), e.0) == Some(n - 1));
        assert(compare_keys(c)[n - 1] == e);
        lemma_row_mismatches_self(c, c.source_rows[e.1], e.0, c.compare_columns);
        assert(matched_mismatches(c, prefix) =~= Seq::<MismatchView>::empty());
    }
}


/// Filtering by either of two predicates that never hold together keeps as many elements as
/// the two filters together.
proof fn lemma_filter_disjoint_or<A>(
    s: Seq<A>,
    r: spec_fn(A) -> bool,
    p: spec_fn(A) -> bool,
    q: spec_fn(A) -> bool,
)
    requires
        forall|x: A| #[trigger] r(x) == (p(x) || q(x)),
        forall|x: A| !(#[trigger] p(x) && q(x)),
    ensures
        s.filter(r).len() == s.filter(p).len() + s.filter(q).len(),
    decreases s.len(),
{
    reveal(Seq::filter);
    if s.len() > 0 {
        lemma_filter_disjoint_or(s.drop_last(), r, p, q);
    }
}

/// Where keys are distinct, exactly one entry has a key that occurs, and none one that does
/// not.
proof fn lemma_count_key(ys: Seq<(Seq<char>, int)>, k: Seq<char>, q: spec_fn((Seq<char>, int)) -> bool)
    requires
        distinct_keys(ys),
        forall|e: (Seq<char>, int)| #[trigger] q(e) == (e.0 == k),
    ensures
        ys.filter(q).len() == if key_position(ys, k) is Some {
            1nat
        } else {
            0nat
        },
    decreases ys.len(),
{
    reveal(Seq::filter);
    if ys.len() > 0 {
        let init = ys.drop_last();
        assert(distinct_keys(init)) by {
            assert forall|i: int, j: int| 0 <= i < j < init.len() implies (#[trigger] init[i]).0
                != (#[trigger] init[j]).0 by {
                assert(init[i] == ys[i] && init[j] == ys[j]);
            }
        }
        lemma_count_key(init, k, q);
        if ys.last().0 == k {
            lemma_key_position_none(init, k);
            assert forall|i: int| 0 <= i < init.len() implies (#[trigger] init[i]).0 != k by {
                assert(init[i] == ys[i]);
                assert(ys[i].0 != ys[ys.len() - 1].0);
            }
        }
    }
}

/// For two entry sequences with distinct keys, as many entries of the first have a key of the
/// second as entries of the second have a key of the first.
proof fn lemma_shared_keys_count(xs: Seq<(Seq<char>, int)>, ys: Seq<(Seq<char>, int)>)
    requires
        distinct_keys(xs),
        distinct_keys(ys),
    ensures
        xs.filter(|e: (Seq<char>, int)| key_position(ys, e.0) is Some).len() == ys.filter(
            |e: (Seq<char>, int)| key_position(xs, e.0) is Some,
        ).len(),
    decreases xs.len(),
{
    reveal(Seq::filter);
    if xs.len() == 0 {
        lemma_filter_none(ys, |e: (Seq<char>, int)| key_position(xs, e.0) is Some);
    } else {
        let init = xs.drop_last();
        let x = xs.last();
        assert(distinct_keys(init)) by {
            assert forall|i: int, j: int| 0 <= i < j < init.len() implies (#[trigger] init[i]).0
                != (#[trigger] init[j]).0 by {
                assert(init[i] == xs[i] && init[j] == xs[j]);
            }
        }
        lemma_shared_keys_count(init, ys);
        lemma_key_position_none(init, x.0);
        assert forall|i: int| 0 <= i < init.len() implies (#[trigger] init[i]).0 != x.0 by {
            assert(init[i] == xs[i]);
            assert(xs[i].0 != xs[xs.len() - 1].0);
        }
        let q = |e: (Seq<char>, int)| e.0 == x.0;
        lemma_filter_disjoint_or(
            ys,
            |e: (Seq<char>, int)| key_position(xs, e.0) is Some,
            |e: (Seq<char>, int)| key_position(init, e.0) is Some,
            q,
        );
        lemma_count_key(ys, x.0, q);
    }
}

/// The number of mismatch records adds up: the records of matched rows are type mismatches or
/// field mismatches, and the rest are the source keys missing in the compare sheet and the
/// compare keys missing in the source sheet. Every source key is either matched or missing in
/// the compare sheet, and every compare key either matched or missing in the source sheet.
pub proof fn law_mismatch_counts_add_up(
    source: SheetData,
    compare: SheetData,
    key_columns: Seq<String>,
    compare_columns: Seq<String>,
    match_type: MatchType,
)
    ensures
        ({
            let c = compare_input(&source, &compare, key_columns, compare_columns, match_type);
            let m = matched_mismatches(c, source_keys(c));
            &&& all_mismatches(c).len() == type_mismatch_count(m) + field_mismatch_count(m)
                + missing_in_compare_count(c) + missing_in_source_count(c)
            &&& matched_count(c) + missing_in_compare_count(c) == source_keys(c).len()
            &&& matched_count(c) + missing_in_source_count(c) == compare_keys(c).len()
        }),
{
    let c = compare_input(&source, &compare, key_columns, compare_columns, match_type);
    let sk = source_keys(c);
    let ck = compare_keys(c);
    let m = matched_mismatches(c, sk);
    lemma_filter_partition(
        m,
        |x: MismatchView| x.mismatch_type is TypeMismatch,
        |x: MismatchView| !(x.mismatch_type is TypeMismatch),
    );
    let in_compare = |e: (Seq<char>, int)| key_position(compare_keys(c), e.0) is Some;
    let not_in_compare = |e: (Seq<char>, int)| key_position(compare_keys(c), e.0) is None;
    let in_source = |e: (Seq<char>, int)| key_position(source_keys(c), e.0) is Some;
    let not_in_source = |e: (Seq<char>, int)| key_position(source_keys(c), e.0) is None;
    lemma_filter_partition(sk, in_compare, not_in_compare);
    lemma_filter_partition(ck, in_source, not_in_source);
    lemma_filter_map_len(
        sk,
        |e: (Seq<char>, int)| missing_in_compare_record(c, e),
        not_in_compare,
    );
    lemma_filter_map_len(
        ck,
        |e: (Seq<char>, int)| missing_in_source_record(c, e),
        not_in_source,
    );
    law_key_index_contents(c.source_rows, c.key_columns);
    law_key_index_contents(c.compare_rows, c.key_columns);
    lemma_shared_keys_count(sk, ck);
}

/// Swapping the two sheets swaps the counts of keys missing on either side and keeps the
/// number of matched keys.
pub proof fn law_swapping_sheets_swaps_missing(
    source: SheetData,
    compare: SheetData,
    key_columns: Seq<String>,
    compare_columns: Seq<String>,
    match_type: MatchType,
)
    ensures
        ({
            let c = compare_input(&source, &compare, key_columns, compare_columns, match_type);
            let d = compare_input(&compare, &source, key_columns, compare_columns, match_type);
            &&& missing_in_compare_count(d) == missing_in_source_count(c)
            &&& missing_in_source_count(d) == missing_in_compare_count(c)
            &&& matched_count(d) == matched_count(c)
        }),
{
    let c = compare_input(&source, &compare, key_columns, compare_columns, match_type);
    let d = compare_input(&compare, &source, key_columns, compare_columns, match_type);
    let sk = source_keys(c);
    let ck = compare_keys(c);
    assert(source_keys(d) == ck);
    assert(compare_keys(d) == sk);
    assert((|e: (Seq<char>, int)| key_position(compare_keys(d), e.0) is None) =~= (|e: (
        Seq<char>,
        int,
    )| key_position(source_keys(c), e.0) is None));
    assert((|e: (Seq<char>, int)| key_position(source_keys(d), e.0) is None) =~= (|e: (
        Seq<char>,
        int,
    )| key_position(compare_keys(c), e.0) is None));
    assert((|e: (Seq<char>, int)| key_position(compare_keys(d), e.0) is Some) =~= (|e: (
        Seq<char>,
        int,
    )| key_position(sk, e.0) is Some));
    assert((|e: (Seq<char>, int)| key_position(compare_keys(c), e.0) is Some) =~= (|e: (
        Seq<char>,
        int,
    )| key_position(ck, e.0) is Some));
    law_key_index_contents(c.source_rows, c.key_columns);
    law_key_index_contents(c.compare_rows, c.key_columns);
    lemma_shared_keys_count(sk, ck);
}


/// Only the compared columns are reported: every record of a matched row names one of the
/// compare columns, and every record of a missing row names the field `-`.
pub proof fn law_only_compared_columns_are_reported(
    source: SheetData,
    compare: SheetData,
    key_columns: Seq<String>,
    compare_columns: Seq<String>,
    match_type: MatchType,
)
    ensures
        ({
            let c = compare_input(&source, &compare, key_columns, compare_columns, match_type);
            let m = matched_mismatches(c, source_keys(c));
            let all = all_mismatches(c);
            &&& forall|i: int| 0 <= i < m.len() ==> c.compare_columns.contains(#[trigger] m[i].field)
            &&& forall|i: int| m.len() <= i < all.len() ==> (#[trigger] all[i]).field == "-"@
        }),
{
    let c = compare_input(&source, &compare, key_columns, compare_columns, match_type);
    let sk = source_keys(c);
    lemma_matched_fields(c, sk);
    let m = matched_mismatches(c, sk);
    let a = missing_in_compare_records(c, sk);
    let b = missing_in_source_records(c, compare_keys(c));
    let all = all_mismatches(c);
    assert forall|i: int| m.len() <= i < all.len() implies (#[trigger] all[i]).field == "-"@ by {
        if i < m.len() + a.len() {
            let x = a[i - m.len()];
            assert(all[i] == x);
            assert(a.contains(x));
            sk.lemma_filter_map_contains(|e: (Seq<char>, int)| missing_in_compare_record(c, e), x);
        } else {
            let x = b[i - m.len() - a.len()];
            assert(all[i] == x);
            assert(b.contains(x));
            compare_keys(c).lemma_filter_map_contains(
                |e: (Seq<char>, int)| missing_in_source_record(c, e),
                x,
            );
        }
    }
}

proof fn lemma_matched_fields(c: CompareInput, sk: Seq<(Seq<char>, int)>)
    ensures
        forall|i: int|
            0 <= i < matched_mismatches(c, sk).len() ==> c.compare_columns.contains(
                #[trigger] matched_mismatches(c, sk)[i].field,
            ),
    decreases sk.len(),
{
    if sk.len() > 0 {
        let e = sk.last();
        let ck = compare_keys(c);
        let prev = matched_mismatches(c, sk.drop_last());
        lemma_matched_fields(c, sk.drop_last());
        let rest = match key_position(ck, e.0) {
            Some(p) => row_mismatches(c, c.source_rows[e.1], c.compare_rows[ck[p].1], e.0, c.compare_columns),
            None => seq![],
        };
        assert(matched_mismatches(c, sk) == prev + rest);
        assert forall|i: int| 0 <= i < rest.len() implies c.compare_columns.contains(
            #[trigger] rest[i].field,
        ) by {
            let p = key_position(ck, e.0).unwrap();
            let sr = c.source_rows[e.1];
            let cr = c.compare_rows[ck[p].1];
            let f = |col: Seq<char>|
                field_mismatch(c.source_types, c.compare_types, c.match_type, sr, cr, e.0, col);
            assert(rest.contains(rest[i]));
            c.compare_columns.lemma_filter_map_contains(f, rest[i]);
        }
        assert forall|i: int| 0 <= i < matched_mismatches(c, sk).len() implies c.compare_columns.contains(
            #[trigger] matched_mismatches(c, sk)[i].field,
        ) by {
            if i < prev.len() {
                assert(matched_mismatches(c, sk)[i] == prev[i]);
            } else {
                assert(matched_mismatches(c, sk)[i] == rest[i - prev.len()]);
            }
        }
    }
}

/// Text that reads as the same number on both sides matches in a column typed as a number on
/// both sides, whatever its thousands separators or surrounding spaces.
pub proof fn law_numbers_stored_as_text_match(
    source_types: Seq<(Seq<char>, ValueType)>,
    compare_types: Seq<(Seq<char>, ValueType)>,
    match_type: MatchType,
    sr: RowView,
    cr: RowView,
    key: Seq<char>,
    col: Seq<char>,
    a: Seq<char>,
    b: Seq<char>,
    n: Seq<char>,
)
    requires
        lookup(source_types, col) == Some(ValueType::Number),
        lookup(compare_types, col) == Some(ValueType::Number),
        cell_at(sr, col) == Some(CellView::Text(a, Some(n))),
        cell_at(cr, col) == Some(CellView::Text(b, Some(n))),
        match_type matches MatchType::Fuzzy { threshold } ==> threshold.num <= threshold.den,
    ensures
        field_mismatch(source_types, compare_types, match_type, sr, cr, key, col) is None,
{
    lemma_values_match_self(Some(CellView::Number(n)), match_type);
}

/// The two values are of different kinds among text, number, date and boolean.
pub open spec fn of_different_kinds(a: CellView, b: CellView) -> bool {
    &&& (a is Text || a is Number || a is Date || a is Boolean)
    &&& (b is Text || b is Number || b is Date || b is Boolean)
    &&& !(a is Text && b is Text)
    &&& !(a is Number && b is Number)
    &&& !(a is Date && b is Date)
    &&& !(a is Boolean && b is Boolean)
}

/// A type mismatch is reported between two present values exactly when they are of different
/// kinds among text, number, date and boolean (so a date against a text always is, whatever
/// either holds), and never when a value is missing.
pub proof fn law_type_mismatch_between_kinds(a: CellView, b: CellView)
    ensures
        type_mismatch(Some(a), Some(b)) <==> of_different_kinds(a, b),
        type_mismatch(Some(a), Some(b)) == type_mismatch(Some(b), Some(a)),
        !type_mismatch(None, Some(b)),
        !type_mismatch(Some(a), None),
{
}

/// In a compared column where the two rows hold values of different kinds (a date against a
/// text, say), the column gives a type mismatch record for the source row, under its key,
/// showing both values; no coercion or matching rule turns it into a match.
pub proof fn law_values_of_different_kinds_are_type_mismatches(
    source_types: Seq<(Seq<char>, ValueType)>,
    compare_types: Seq<(Seq<char>, ValueType)>,
    match_type: MatchType,
    sr: RowView,
    cr: RowView,
    key: Seq<char>,
    col: Seq<char>,
    a: CellView,
    b: CellView,
)
    requires
        cell_at(sr, col) == Some(a),
        cell_at(cr, col) == Some(b),
        of_different_kinds(a, b),
    ensures
        field_mismatch(source_types, compare_types, match_type, sr, cr, key, col) == Some(
            MismatchView {
                row_number: sr.row_number,
                key_value: key,
                field: col,
                source_value: normalized(a),
                compare_value: normalized(b),
                mismatch_type: MismatchType::TypeMismatch,
                similarity: None,
            },
        ),
{
}

} // verus!
