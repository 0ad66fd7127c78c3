use matchdiag::container_matcher::unordered_elements_are;
use matchdiag::count_elements::count_elements;
use matchdiag::decimal::render_u64;
use matchdiag::description::Description;
use matchdiag::edit_distance::edit_list;
use matchdiag::edit_distance::Edit;
use matchdiag::eq_matcher::eq;
use matchdiag::float_repr::Float64Bits;
use matchdiag::is_infinite_matcher::is_infinite;
use matchdiag::matcher::not;
use matchdiag::matcher::Matcher;
use matchdiag::match_matrix::MatchMatrix;
use matchdiag::match_matrix::Policy;
use matchdiag::matcher::MatcherResult;
use matchdiag::summarize_diff::summarize_edit_script;
use matchdiag::zipped_iterator::ZippedIterator;

fn script_cost(script: &[Edit]) -> usize {
    script.iter().filter(|e| !matches!(e, Edit::Copy { .. })).count()
}

#[test]
fn edit_distance_of_sequence_against_itself_is_zero() {
    let v: Vec<u64> = vec![4, 7, 7, 9];
    let script = edit_list(&v, &v);
    assert_eq!(script_cost(&script), 0);
    assert!(script.iter().all(|e| matches!(e, Edit::Copy { .. })));
}

#[test]
fn diff_of_identical_sequences_has_no_annotations() {
    let v: Vec<u64> = vec![1, 2, 3];
    let script = edit_list(&v, &v);
    let rendered = summarize_edit_script(&script).render();
    assert_eq!(rendered, "1\n2\n3");
    assert!(!rendered.contains("unexpected"));
    assert!(!rendered.contains("missing"));
    assert!(!rendered.contains("expected"));
}

#[test]
fn edit_distance_single_deletion() {
    let actual: Vec<u64> = vec![1, 2, 3];
    let expected: Vec<u64> = vec![1, 3];
    let script = edit_list(&actual, &expected);
    assert_eq!(script_cost(&script), 1);
    assert_eq!(
        script,
        vec![
            Edit::Copy { value: 1 },
            Edit::Delete { actual: 2 },
            Edit::Copy { value: 3 },
        ]
    );
}

#[test]
fn edit_distance_prefers_substitution_over_delete_insert() {
    let actual: Vec<u64> = vec![1, 2];
    let expected: Vec<u64> = vec![1, 5];
    let script = edit_list(&actual, &expected);
    assert_eq!(script_cost(&script), 1);
    assert_eq!(
        script,
        vec![Edit::Copy { value: 1 }, Edit::Substitute { actual: 2, expected: 5 }]
    );
}

#[test]
fn edit_distance_insertion_into_empty() {
    let actual: Vec<u64> = Vec::new();
    let expected: Vec<u64> = vec![8];
    let script = edit_list(&actual, &expected);
    assert_eq!(script, vec![Edit::Insert { expected: 8 }]);
    let rendered = summarize_edit_script(&script).render();
    assert_eq!(rendered, "missing: 8");
}

#[test]
fn edit_distance_is_symmetric_with_roles_exchanged() {
    let a: Vec<u64> = vec![1, 2, 3, 9];
    let b: Vec<u64> = vec![2, 3, 4];
    let forward = edit_list(&a, &b);
    let backward = edit_list(&b, &a);
    assert_eq!(script_cost(&forward), script_cost(&backward));
}

#[test]
fn summarize_substitution_shows_both_sides() {
    let actual: Vec<u64> = vec![7];
    let expected: Vec<u64> = vec![9];
    let script = edit_list(&actual, &expected);
    let rendered = summarize_edit_script(&script).render();
    assert_eq!(rendered, "actual 7, expected 9");
}

fn brute_force_from(grid: &[Vec<bool>], m: usize, i: usize, used: &mut Vec<bool>) -> usize {
    if i == grid.len() {
        return 0;
    }
    let mut best = brute_force_from(grid, m, i + 1, used);
    for j in 0..m {
        if grid[i][j] && !used[j] {
            used[j] = true;
            let with = 1 + brute_force_from(grid, m, i + 1, used);
            used[j] = false;
            if with > best {
                best = with;
            }
        }
    }
    best
}

fn brute_force_max_matching(grid: &[Vec<bool>], m: usize) -> usize {
    let mut used = vec![false; m];
    brute_force_from(grid, m, 0, &mut used)
}

#[test]
fn maximum_matching_size_equals_brute_force_on_all_small_grids() {
    for n in 0..=3usize {
        for m in 0..=3usize {
            let cells = n * m;
            for mask in 0..(1u32 << cells) {
                let mut grid: Vec<Vec<bool>> = Vec::new();
                for i in 0..n {
                    let mut row = Vec::new();
                    for j in 0..m {
                        row.push(mask & (1 << (i * m + j)) != 0);
                    }
                    grid.push(row);
                }
                let matrix = MatchMatrix { grid: grid.clone(), num_matchers: m };
                let owner = matrix.max_matching();
                let size = MatchMatrix::matched_count(&owner);
                let best = brute_force_max_matching(&grid, m);
                assert_eq!(size, best, "grid mask {mask} with {n} elements, {m} matchers");
            }
        }
    }
}

#[test]
fn maximum_matching_needs_augmenting_reassignment() {
    // Element 0 fits both matchers, element 1 only the first: a greedy
    // pass that never reassigns would stop at size one.
    let grid = vec![vec![true, true], vec![true, false]];
    let matrix = MatchMatrix { grid, num_matchers: 2 };
    let owner = matrix.max_matching();
    assert_eq!(MatchMatrix::matched_count(&owner), 2);
}

#[test]
fn empty_actual_and_no_matchers_always_match() {
    let expected: Vec<u64> = Vec::new();
    let matcher = matchdiag::container_matcher::container_eq(&expected);
    let actual: Vec<u64> = Vec::new();
    let mr: MatcherResult = matcher.matches(&actual);
    assert_eq!(mr, MatcherResult::Match);
}

#[test]
fn empty_actual_against_matchers_reports_all_unsatisfied() {
    let matcher = unordered_elements_are(vec![eq(3u64), eq(4u64)], Policy::Exact);
    let actual: Vec<u64> = Vec::new();
    assert_eq!(matcher.matches(&actual), MatcherResult::NoMatch);
    let explanation = matcher.explain_match(&actual).render();
    assert!(explanation.contains("unsatisfied expectations"));
    assert!(explanation.contains("is equal to 3"));
    assert!(explanation.contains("is equal to 4"));
}

#[test]
fn empty_actual_cannot_saturate_matchers() {
    let matcher = unordered_elements_are(vec![eq(3u64)], Policy::CoveringSubset);
    let actual: Vec<u64> = Vec::new();
    assert_eq!(matcher.matches(&actual), MatcherResult::NoMatch);
    let trivially = unordered_elements_are(vec![eq(3u64)], Policy::CoveringSuperset);
    assert_eq!(trivially.matches(&actual), MatcherResult::Match);
}

#[test]
fn exact_policy_single_mismatch_collapses_to_unexpected_element() {
    let matcher = unordered_elements_are(vec![eq(0u64)], Policy::Exact);
    let actual: Vec<u64> = vec![1];
    assert_eq!(matcher.matches(&actual), MatcherResult::NoMatch);
    let explanation = matcher.explain_match(&actual).render();
    assert!(explanation.contains("contains the unexpected element 1"));
}

#[test]
fn multiple_unexpected_elements_render_as_a_list() {
    let expected: Vec<u64> = Vec::new();
    let matcher = matchdiag::container_matcher::container_eq(&expected);
    let actual: Vec<u64> = vec![1, 2];
    assert_eq!(matcher.matches(&actual), MatcherResult::NoMatch);
    let explanation = matcher.explain_match(&actual).render();
    assert_eq!(explanation, "which contains the unexpected elements 1, 2");
}

#[test]
fn eq_matcher_quotes_string_expectations() {
    let matcher = eq("ab");
    let d = Matcher::<String>::describe(&matcher, MatcherResult::Match);
    assert_eq!(d.render(), "is equal to \"ab\"");
    let d = Matcher::<String>::describe(&matcher, MatcherResult::NoMatch);
    assert_eq!(d.render(), "isn't equal to \"ab\"");
}

#[test]
fn covering_subset_allows_extra_elements() {
    let matcher = unordered_elements_are(vec![eq(2u64)], Policy::CoveringSubset);
    assert_eq!(matcher.matches(&vec![1, 2, 3]), MatcherResult::Match);
    let exact = unordered_elements_are(vec![eq(2u64)], Policy::Exact);
    assert_eq!(exact.matches(&vec![1, 2, 3]), MatcherResult::NoMatch);
}

#[test]
fn covering_superset_allows_extra_matchers() {
    let matcher = unordered_elements_are(vec![eq(2u64), eq(9u64)], Policy::CoveringSuperset);
    assert_eq!(matcher.matches(&vec![2]), MatcherResult::Match);
    assert_eq!(matcher.matches(&vec![3]), MatcherResult::NoMatch);
}

#[test]
fn unsatisfied_expectations_listed_with_unmatched_elements() {
    let matcher = unordered_elements_are(vec![eq(1u64), eq(5u64)], Policy::Exact);
    let actual: Vec<u64> = vec![1, 7];
    assert_eq!(matcher.matches(&actual), MatcherResult::NoMatch);
    let explanation = matcher.explain_match(&actual).render();
    assert!(explanation.contains("which has unsatisfied expectations"));
    assert!(explanation.contains("  is equal to 5"));
    assert!(explanation.contains("and the unmatched elements 7"));
}

#[test]
fn rendering_is_deterministic() {
    let d1 = Description::new().text("alpha").nested(Description::new().text("beta"));
    let d2 = Description::new().text("alpha").nested(Description::new().text("beta"));
    assert_eq!(d1.render(), d2.render());
    assert_eq!(d1.render(), "alpha\n  beta");
}

#[test]
fn nested_descriptions_indent_two_spaces_per_level() {
    let inner = Description::new().text("deep");
    let middle = Description::new().text("middle").nested(inner);
    let outer = Description::new().text("outer").nested(middle);
    assert_eq!(outer.render(), "outer\n  middle\n    deep");
}

#[test]
fn decimal_rendering_exact_values() {
    assert_eq!(render_u64(0), "0");
    assert_eq!(render_u64(10), "10");
    assert_eq!(render_u64(123), "123");
    assert_eq!(render_u64(u64::MAX), "18446744073709551615");
}

#[test]
fn zipped_iterator_marks_the_exhausted_side() {
    let mut it = ZippedIterator::new(vec![1, 2], vec![1]);
    assert_eq!(it.next(), Some((Some(1), Some(1))));
    assert_eq!(it.next(), Some((Some(2), None)));
    assert_eq!(it.next(), None);
}

#[test]
fn zipped_iterator_of_empty_sides_is_empty() {
    let mut it = ZippedIterator::new(Vec::new(), Vec::new());
    assert_eq!(it.next(), None);
}

#[test]
fn count_elements_counts_duplicates_once() {
    let table = count_elements(&vec![1, 2, 1, 1, 2, 7]);
    assert_eq!(table, vec![(1, 3), (2, 2), (7, 1)]);
}

#[test]
fn count_elements_of_empty_sequence_is_empty() {
    let table = count_elements(&Vec::new());
    assert_eq!(table, Vec::new());
}

#[test]
fn double_negation_behaves_like_the_original() {
    let plain = is_infinite();
    let doubled = not(not(is_infinite()));
    for bits in [f64::INFINITY.to_bits(), f64::NEG_INFINITY.to_bits(), 0.0f64.to_bits()] {
        let actual = Float64Bits::from_bits(bits);
        assert_eq!(plain.matches(&actual), doubled.matches(&actual));
    }
    let d1 = Matcher::<Float64Bits>::describe(&plain, MatcherResult::Match).render();
    let d2 = Matcher::<Float64Bits>::describe(&doubled, MatcherResult::Match).render();
    assert_eq!(d1, d2);
}
