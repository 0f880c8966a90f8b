use edix::fuzzy::{distance, find_best_match, find_fuzzy_mismatches, is_fuzzy_match, similarity};
use edix::types::{Ratio, Similarity};

/// The score of a similarity as a number between 0 and 1.
fn score(s: Similarity) -> f64 {
    if s.length == 0 {
        1.0
    } else {
        1.0 - (s.distance as f64) / (s.length as f64)
    }
}

#[test]
fn test_exact_match() {
    assert_eq!(score(similarity("hello", "hello")), 1.0);
}

#[test]
fn test_similar_strings() {
    let sim = score(similarity("hello", "helo"));
    assert!(sim > 0.8, "similarity should be > 0.8 for 'hello' vs 'helo'");
}

#[test]
fn one_deletion_counts_once_over_both_lengths() {
    assert_eq!(similarity("hello", "helo"), Similarity { distance: 1, length: 9 });
}

#[test]
fn test_different_strings() {
    let sim = score(similarity("hello", "world"));
    assert!(sim < 0.5, "similarity should be low for 'hello' vs 'world'");
}

#[test]
fn test_case_insensitive() {
    assert_eq!(score(similarity("Hello", "hello")), 1.0);
}

#[test]
fn test_best_match() {
    let candidates = vec!["apple", "banana", "aple"];
    let result = find_best_match("apple", &candidates);
    assert!(result.is_some());
    let (_, matched, score_value) = result.unwrap();
    assert_eq!(matched, "apple");
    assert!(score(score_value) > 0.9);
}

#[test]
fn similarity_counts_insertions_and_deletions_over_both_lengths() {
    // A substitution counts as a deletion and an insertion.
    assert_eq!(similarity("kitten", "sitting"), Similarity { distance: 5, length: 13 });
    assert_eq!(similarity("  Abc ", "abd"), Similarity { distance: 2, length: 6 });
    assert_eq!(similarity("", " "), Similarity { distance: 0, length: 0 });
}

#[test]
fn distance_lowercases_without_trimming() {
    assert_eq!(distance("ABC", "abc"), 0);
    assert_eq!(distance(" abc", "abc"), 1);
    assert_eq!(distance("kitten", "sitting"), 3);
}

#[test]
fn fuzzy_match_uses_the_threshold_inclusively() {
    // 1 - 2/10 = 0.8
    assert!(is_fuzzy_match("hello", "hellp", Ratio { num: 4, den: 5 }));
    assert!(!is_fuzzy_match("hello", "hellp", Ratio { num: 81, den: 100 }));
    assert!(is_fuzzy_match("same", "same", Ratio { num: 1, den: 1 }));
}

#[test]
fn best_match_is_none_when_nothing_is_similar() {
    let candidates = vec!["xyz", "qqq"];
    assert!(find_best_match("abc", &candidates).is_none());
    let empty: Vec<&str> = vec![];
    assert!(find_best_match("abc", &empty).is_none());
}

#[test]
fn best_match_keeps_the_first_of_equal_scores() {
    let candidates = vec!["abd", "abe", "abc"];
    let (i, m, _) = find_best_match("abx", &candidates).unwrap();
    assert_eq!((i, m), (0, "abd"));
}

#[test]
fn fuzzy_mismatches_skip_exact_and_distant_pairs() {
    let a = vec!["apple", "pear"];
    let b = vec!["apple", "aple", "peach"];
    let r = find_fuzzy_mismatches(&a, &b, Ratio { num: 1, den: 2 });
    assert_eq!(
        r,
        vec![
            (0, 1, Similarity { distance: 1, length: 9 }),
            (1, 1, Similarity { distance: 4, length: 8 }),
            (1, 2, Similarity { distance: 3, length: 9 }),
        ]
    );
}

#[test]
fn similarity_is_symmetric() {
    assert_eq!(similarity("Apple ", "aple"), similarity("aple", "Apple "));
    assert_eq!(similarity("kitten", "sitting"), similarity("sitting", "kitten"));
}

#[test]
fn full_similarity_only_for_the_same_text() {
    assert_eq!(similarity("  Hello", "hello "), Similarity { distance: 0, length: 10 });
    assert_eq!(score(similarity("  Hello", "hello ")), 1.0);
    assert!(score(similarity("hello", "hellO!")) < 1.0);
}
