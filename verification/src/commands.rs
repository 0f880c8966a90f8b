//! The decisions of the `compare` command: key and compare columns, the match type, and the
//! structural quick audit of two sheets.

use vstd::prelude::*;
use crate::config::FuzzyConfig;
use crate::types::{lookup, strings_view, types_view, MatchType, Ratio, SheetData, ValueType};

verus! {

/// Matching mode chosen on the command line.
#[derive(Debug, Clone, Copy, PartialEq, Eq, Structural)]
pub enum MatchMode {
    Exact,
    CaseInsensitive,
    Fuzzy,
}

/// The match type of a mode; fuzzy matching has a threshold of 0.8.
pub fn match_type_of(mode: MatchMode) -> (t: MatchType)
    ensures
        t == match mode {
            MatchMode::Exact => MatchType::Exact,
            MatchMode::CaseInsensitive => MatchType::CaseInsensitive,
            MatchMode::Fuzzy => MatchType::Fuzzy { threshold: Ratio { num: 4, den: 5 } },
        },
{
    match mode {
        MatchMode::Exact => MatchType::Exact,
        MatchMode::CaseInsensitive => MatchType::CaseInsensitive,
        MatchMode::Fuzzy => MatchType::Fuzzy { threshold: Ratio { num: 4, den: 5 } },
    }
}

/// The match type of a comparison: the mode's, with a fuzzy threshold from the command line,
/// or else from the configuration when it enables fuzzy matching.
pub fn resolve_match_type(mode: MatchMode, threshold: Option<Ratio>, fuzzy: &FuzzyConfig) -> (t:
    MatchType)
    ensures
        t == match mode {
            MatchMode::Exact => MatchType::Exact,
            MatchMode::CaseInsensitive => MatchType::CaseInsensitive,
            MatchMode::Fuzzy => match threshold {
                Some(x) => MatchType::Fuzzy { threshold: x },
                None => if fuzzy.enabled {
                    MatchType::Fuzzy { threshold: fuzzy.threshold }
                } else {
                    MatchType::Fuzzy { threshold: Ratio { num: 4, den: 5 } }
                },
            },
        },
{
    let mut t = match_type_of(mode);
    if let MatchMode::Fuzzy = mode {
        if let Some(x) = threshold {
            t = MatchType::Fuzzy { threshold: x };
        } else if fuzzy.enabled {
            t = MatchType::Fuzzy { threshold: fuzzy.threshold };
        }
    }
    t
}

/// Why the key columns of a comparison cannot be settled.
#[derive(Debug)]
pub enum KeyColumnError {
    /// None given, none configured, and the source has no columns
    NoKeyColumns,
    /// A key column that the source sheet lacks
    NotInSource(String),
    /// A key column that the compare sheet lacks
    NotInCompare(String),
}

fn copy_string(s: &String) -> (r: String)
    ensures
        r == s,
{
    s.clone()
}

fn copy_strings(v: &Vec<String>) -> (r: Vec<String>)
    ensures
        r@ == v@,
{
    let mut r: Vec<String> = Vec::new();
    let mut i: usize = 0;
    while i < v.len()
        invariant
            i <= v@.len(),
            r@ == v@.take(i as int),
        decreases v@.len() - i,
    {
        r.push(copy_string(&v[i]));
        i = i + 1;
        assert(r@ =~= v@.take(i as int));
    }
    assert(v@.take(v@.len() as int) =~= v@);
    r
}

/// `list` holds `s`.
pub fn contains_string(list: &Vec<String>, s: &String) -> (b: bool)
    ensures
        b == strings_view(list@).contains(s@),
{
    let mut i: usize = 0;
    while i < list.len()
        invariant
            i <= list@.len(),
            forall|j: int| 0 <= j < i ==> list@[j]@ != s@,
        decreases list@.len() - i,
    {
        if list[i] == *s {
            assert(strings_view(list@)[i as int] == s@);
            return true;
        }
        i = i + 1;
    }
    assert(!strings_view(list@).contains(s@)) by {
        if strings_view(list@).contains(s@) {
            let j = choose|j: int| 0 <= j < list@.len() && strings_view(list@)[j] == s@;
            assert(list@[j]@ == s@);
        }
    }
    false
}

/// The key columns chosen: those given, else those configured, else the source's first column.
pub open spec fn chosen_keys(
    given: Seq<Seq<char>>,
    configured: Seq<Seq<char>>,
    source_headers: Seq<Seq<char>>,
) -> Option<Seq<Seq<char>>> {
    if given.len() > 0 {
        Some(given)
    } else if configured.len() > 0 {
        Some(configured)
    } else if source_headers.len() > 0 {
        Some(seq![source_headers[0]])
    } else {
        None
    }
}

/// `r` reports key column `i` as the first that the source (or else the compare sheet) lacks.
pub open spec fn reports_missing_key(
    r: Result<Vec<String>, KeyColumnError>,
    keys: Seq<Seq<char>>,
    source_headers: Seq<Seq<char>>,
    compare_headers: Seq<Seq<char>>,
    i: int,
) -> bool {
    &&& 0 <= i < keys.len()
    &&& forall|j: int|
        0 <= j < i ==> source_headers.contains(keys[j]) && compare_headers.contains(keys[j])
    &&& if !source_headers.contains(keys[i]) {
        r matches Err(KeyColumnError::NotInSource(c)) && c@ == keys[i]
    } else {
        &&& !compare_headers.contains(keys[i])
        &&& r matches Err(KeyColumnError::NotInCompare(c)) && c@ == keys[i]
    }
}

/// Settle the key columns of a comparison: those given, else those configured, else the
/// source's first column; each must be a column of both sheets.
pub fn resolve_key_columns(
    given: &Vec<String>,
    configured: &Vec<String>,
    source_headers: &Vec<String>,
    compare_headers: &Vec<String>,
) -> (r: Result<Vec<String>, KeyColumnError>)
    ensures
        chosen_keys(strings_view(given@), strings_view(configured@), strings_view(source_headers@))
            is None ==> r matches Err(KeyColumnError::NoKeyColumns),
        chosen_keys(strings_view(given@), strings_view(configured@), strings_view(source_headers@))
            is Some ==> {
            let keys = chosen_keys(
                strings_view(given@),
                strings_view(configured@),
                strings_view(source_headers@),
            )->0;
            &&& (forall|i: int|
                0 <= i < keys.len() ==> strings_view(source_headers@).contains(keys[i])
                    && strings_view(compare_headers@).contains(keys[i])) ==> (r matches Ok(k)
                && strings_view(k@) == keys)
            &&& (exists|i: int|
                0 <= i < keys.len() && (!strings_view(source_headers@).contains(keys[i])
                    || !strings_view(compare_headers@).contains(keys[i]))) ==> exists|i: int|
                reports_missing_key(
                    r,
                    keys,
                    strings_view(source_headers@),
                    strings_view(compare_headers@),
                    i,
                )
        },
{
    let keys: Vec<String> = if given.len() > 0 {
        copy_strings(given)
    } else if configured.len() > 0 {
        copy_strings(configured)
    } else if source_headers.len() > 0 {
        let mut k = Vec::new();
        k.push(copy_string(&source_headers[0]));
        assert(strings_view(k@) =~= seq![strings_view(source_headers@)[0]]);
        k
    } else {
        return Err(KeyColumnError::NoKeyColumns);
    };
    let ghost kv = strings_view(keys@);
    assert(chosen_keys(strings_view(given@), strings_view(configured@), strings_view(source_headers@))
        == Some(kv));
    let mut i: usize = 0;
    while i < keys.len()
        invariant
            i <= keys@.len(),
            kv == strings_view(keys@),
            chosen_keys(strings_view(given@), strings_view(configured@), strings_view(source_headers@))
                == Some(kv),
            forall|j: int|
                0 <= j < i ==> strings_view(source_headers@).contains(kv[j]) && strings_view(
                    compare_headers@,
                ).contains(kv[j]),
        decreases keys@.len() - i,
    {
        if !contains_string(source_headers, &keys[i]) {
            let r = Err(KeyColumnError::NotInSource(copy_string(&keys[i])));
            assert(kv[i as int] == keys@[i as int]@);
            assert(reports_missing_key(
                r,
                kv,
                strings_view(source_headers@),
                strings_view(compare_headers@),
                i as int,
            ));
            assert(!(forall|k: int|
                0 <= k < kv.len() ==> strings_view(source_headers@).contains(kv[k])
                    && strings_view(compare_headers@).contains(kv[k])));
            let ghost keys2 = chosen_keys(
                strings_view(given@),
                strings_view(configured@),
                strings_view(source_headers@),
            )->0;
            assert(keys2 == kv);
            assert(exists|x: int|
                reports_missing_key(
                    r,
                    keys2,
                    strings_view(source_headers@),
                    strings_view(compare_headers@),
                    x,
                ));
            assert(!(forall|k: int|
                0 <= k < keys2.len() ==> strings_view(source_headers@).contains(keys2[k])
                    && strings_view(compare_headers@).contains(keys2[k])));
            return r;
        }
        if !contains_string(compare_headers, &keys[i]) {
            let r = Err(KeyColumnError::NotInCompare(copy_string(&keys[i])));
            assert(kv[i as int] == keys@[i as int]@);
            assert(reports_missing_key(
                r,
                kv,
                strings_view(source_headers@),
                strings_view(compare_headers@),
                i as int,
            ));
            assert(!(forall|k: int|
                0 <= k < kv.len() ==> strings_view(source_headers@).contains(kv[k])
                    && strings_view(compare_headers@).contains(kv[k])));
            let ghost keys2 = chosen_keys(
                strings_view(given@),
                strings_view(configured@),
                strings_view(source_headers@),
            )->0;
            assert(keys2 == kv);
            assert(exists|x: int|
                reports_missing_key(
                    r,
                    keys2,
                    strings_view(source_headers@),
                    strings_view(compare_headers@),
                    x,
                ));
            assert(!(forall|k: int|
                0 <= k < keys2.len() ==> strings_view(source_headers@).contains(keys2[k])
                    && strings_view(compare_headers@).contains(keys2[k])));
            return r;
        }
        i = i + 1;
    }
    Ok(keys)
}

/// The columns to compare: those given, else every source column that is not a key column.
pub fn resolve_compare_columns(
    given: &Vec<String>,
    key_columns: &Vec<String>,
    source_headers: &Vec<String>,
) -> (r: Vec<String>)
    ensures
        given@.len() > 0 ==> r@ == given@,
        given@.len() == 0 ==> strings_view(r@) == strings_view(source_headers@).filter(
            |h: Seq<char>| !strings_view(key_columns@).contains(h),
        ),
{
    if given.len() > 0 {
        return copy_strings(given);
    }
    let ghost pred = |h: Seq<char>| !strings_view(key_columns@).contains(h);
    let mut r: Vec<String> = Vec::new();
    let mut i: usize = 0;
    while i < source_headers.len()
        invariant
            i <= source_headers@.len(),
            pred == (|h: Seq<char>| !strings_view(key_columns@).contains(h)),
            strings_view(r@) == strings_view(source_headers@.take(i as int)).filter(pred),
        decreases source_headers@.len() - i,
    {
        proof {
            reveal(Seq::filter);
        }
        assert(strings_view(source_headers@.take(i + 1)).drop_last() =~= strings_view(
            source_headers@.take(i as int),
        ));
        if !contains_string(key_columns, &source_headers[i]) {
            let ghost before = strings_view(r@);
            r.push(copy_string(&source_headers[i]));
            assert(strings_view(r@) =~= before.push(source_headers@[i as int]@));
        }
        i = i + 1;
    }
    assert(source_headers@.take(source_headers@.len() as int) =~= source_headers@);
    r
}

/// How the row counts of two sheets compare.
#[derive(Debug, Clone, Copy, PartialEq, Eq, Structural)]
pub enum RowStatus {
    /// The source has this many more rows
    SourceHasMore(usize),
    /// The compare sheet has this many more rows
    CompareHasMore(usize),
    /// Row counts match
    Match,
}

/// The structural comparison of two sheets.
#[derive(Debug)]
pub struct AuditSummary {
    /// Source columns that the compare sheet also has, in source order
    pub common_columns: Vec<String>,
    /// Source columns that the compare sheet lacks
    pub source_only: Vec<String>,
    /// Compare columns that the source sheet lacks
    pub compare_only: Vec<String>,
    /// Common columns whose detected types differ: (column, source type, compare type)
    pub type_mismatches: Vec<(String, ValueType, ValueType)>,
    pub row_status: RowStatus,
}

/// The type of a column as the audit sees it: the sheet's detected type, or `Auto`.
pub open spec fn audit_type(types: Seq<(Seq<char>, ValueType)>, column: Seq<char>) -> ValueType {
    match lookup(types, column) {
        Some(t) => t,
        None => ValueType::Auto,
    }
}

/// The type mismatch entry of a common column, if its types differ.
pub open spec fn audit_mismatch(source: &SheetData, compare: &SheetData, column: Seq<char>) -> Option<
    (Seq<char>, ValueType, ValueType),
> {
    let s = audit_type(types_view(source.column_types@), column);
    let c = audit_type(types_view(compare.column_types@), column);
    if s != c && !(s == ValueType::String && c == ValueType::String) {
        Some((column, s, c))
    } else {
        None
    }
}

/// A common column is a type mismatch exactly when the two sheets give it different types,
/// and the entry names the column with the source type and then the compare type; comparing
/// the sheets the other way round gives the same columns with the two types swapped.
pub proof fn law_audit_reports_columns_whose_types_differ(
    source: &SheetData,
    compare: &SheetData,
    column: Seq<char>,
)
    ensures
        ({
            let s = audit_type(types_view(source.column_types@), column);
            let c = audit_type(types_view(compare.column_types@), column);
            &&& (audit_mismatch(source, compare, column) is Some <==> s != c)
            &&& s != c ==> audit_mismatch(source, compare, column) == Some((column, s, c))
        }),
        audit_mismatch(compare, source, column) == match audit_mismatch(source, compare, column) {
            Some((h, s, c)) => Some((h, c, s)),
            None => None,
        },
{
}

/// The views of type mismatch entries.
pub open spec fn audit_mismatches_view(v: Seq<(String, ValueType, ValueType)>) -> Seq<
    (Seq<char>, ValueType, ValueType),
> {
    v.map_values(|e: (String, ValueType, ValueType)| (e.0@, e.1, e.2))
}

fn filter_columns(list: &Vec<String>, other: &Vec<String>, keep_common: bool) -> (r: Vec<String>)
    ensures
        strings_view(r@) == strings_view(list@).filter(
            |h: Seq<char>| strings_view(other@).contains(h) == keep_common,
        ),
{
    let ghost pred = |h: Seq<char>| strings_view(other@).contains(h) == keep_common;
    let mut r: Vec<String> = Vec::new();
    let mut i: usize = 0;
    while i < list.len()
        invariant
            i <= list@.len(),
            pred == (|h: Seq<char>| strings_view(other@).contains(h) == keep_common),
            strings_view(r@) == strings_view(list@.take(i as int)).filter(pred),
        decreases list@.len() - i,
    {
        proof {
            reveal(Seq::filter);
        }
        assert(strings_view(list@.take(i + 1)).drop_last() =~= strings_view(
            list@.take(i as int),
        ));
        if contains_string(other, &list[i]) == keep_common {
            let ghost before = strings_view(r@);
            r.push(copy_string(&list[i]));
            assert(strings_view(r@) =~= before.push(list@[i as int]@));
        }
        i = i + 1;
    }
    assert(list@.take(list@.len() as int) =~= list@);
    r
}

/// Quick audit: the structural comparison of two sheets without a row-by-row check.
pub fn quick_audit(source: &SheetData, compare: &SheetData) -> (a: AuditSummary)
    ensures
        strings_view(a.common_columns@) == strings_view(source.headers@).filter(
            |h: Seq<char>| strings_view(compare.headers@).contains(h) == true,
        ),
        strings_view(a.source_only@) == strings_view(source.headers@).filter(
            |h: Seq<char>| strings_view(compare.headers@).contains(h) == false,
        ),
        strings_view(a.compare_only@) == strings_view(compare.headers@).filter(
            |h: Seq<char>| strings_view(source.headers@).contains(h) == false,
        ),
        audit_mismatches_view(a.type_mismatches@) == strings_view(a.common_columns@).filter_map(
            |h: Seq<char>| audit_mismatch(source, compare, h),
        ),
        a.row_status == (if source.rows@.len() > compare.rows@.len() {
            RowStatus::SourceHasMore((source.rows@.len() - compare.rows@.len()) as usize)
        } else if compare.rows@.len() > source.rows@.len() {
            RowStatus::CompareHasMore((compare.rows@.len() - source.rows@.len()) as usize)
        } else {
            RowStatus::Match
        }),
{
    let common_columns = filter_columns(&source.headers, &compare.headers, true);
    let source_only = filter_columns(&source.headers, &compare.headers, false);
    let compare_only = filter_columns(&compare.headers, &source.headers, false);
    let ghost f = |h: Seq<char>| audit_mismatch(source, compare, h);
    let mut type_mismatches: Vec<(String, ValueType, ValueType)> = Vec::new();
    let mut i: usize = 0;
    while i < common_columns.len()
        invariant
            i <= common_columns@.len(),
            f == (|h: Seq<char>| audit_mismatch(source, compare, h)),
            audit_mismatches_view(type_mismatches@) == strings_view(
                common_columns@.take(i as int),
            ).filter_map(f),
        decreases common_columns@.len() - i,
    {
        assert(strings_view(common_columns@.take(i + 1)).drop_last() =~= strings_view(
            common_columns@.take(i as int),
        ));
        let col = &common_columns[i];
        let s = match source.column_type(col.as_str()) {
            Some(t) => t,
            None => ValueType::Auto,
        };
        let c = match compare.column_type(col.as_str()) {
            Some(t) => t,
            None => ValueType::Auto,
        };
        if s != c && !(s == ValueType::String && c == ValueType::String) {
            let ghost before = audit_mismatches_view(type_mismatches@);
            type_mismatches.push((copy_string(col), s, c));
            assert(audit_mismatches_view(type_mismatches@) =~= before + seq![(col@, s, c)]);
        }
        i = i + 1;
    }
    assert(common_columns@.take(common_columns@.len() as int) =~= common_columns@);
    let sn = source.rows.len();
    let cn = compare.rows.len();
    let row_status = if sn > cn {
        RowStatus::SourceHasMore(sn - cn)
    } else if cn > sn {
        RowStatus::CompareHasMore(cn - sn)
    } else {
        RowStatus::Match
    };
    AuditSummary { common_columns, source_only, compare_only, type_mismatches, row_status }
}

} // verus!
