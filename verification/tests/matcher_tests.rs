use std::rc::Rc;

use matchdiag::container_matcher::container_eq;
use matchdiag::float_repr::Float32Bits;
use matchdiag::float_repr::Float64Bits;
use matchdiag::is_infinite_matcher::is_infinite;
use matchdiag::matcher::not;
use matchdiag::matcher::Matcher;
use matchdiag::matcher::MatcherResult;
use matchdiag::ok_matcher::ok;
use matchdiag::eq_matcher::eq;
use matchdiag::points_to_matcher::points_to;

#[test]
fn matches_f32_pos_infinity() {
    let actual = Float32Bits::from_bits(f32::INFINITY.to_bits());
    assert_eq!(is_infinite().matches(&actual), MatcherResult::Match);
}

#[test]
fn matches_f32_neg_infinity() {
    let actual = Float32Bits::from_bits(f32::NEG_INFINITY.to_bits());
    assert_eq!(is_infinite().matches(&actual), MatcherResult::Match);
}

#[test]
fn does_not_match_f32_number() {
    let actual = Float32Bits::from_bits(0.0f32.to_bits());
    assert_eq!(not(is_infinite()).matches(&actual), MatcherResult::Match);
}

#[test]
fn matches_f64_pos_infinity() {
    let actual = Float64Bits::from_bits(f64::INFINITY.to_bits());
    assert_eq!(is_infinite().matches(&actual), MatcherResult::Match);
}

#[test]
fn matches_f64_neg_infinity() {
    let actual = Float64Bits::from_bits(f64::NEG_INFINITY.to_bits());
    assert_eq!(is_infinite().matches(&actual), MatcherResult::Match);
}

#[test]
fn does_not_match_f64_number() {
    let actual = Float64Bits::from_bits(0.0f64.to_bits());
    assert_eq!(not(is_infinite()).matches(&actual), MatcherResult::Match);
}

#[test]
fn ok_matches_result_with_value() {
    let matcher = ok(eq(1u64));
    let value: Result<u64, u64> = Ok(1);

    let result = matcher.matches(&value);

    assert_eq!(result, MatcherResult::Match);
}

#[test]
fn ok_does_not_match_result_with_wrong_value() {
    let matcher = ok(eq(1u64));
    let value: Result<u64, u64> = Ok(0);

    let result = matcher.matches(&value);

    assert_eq!(result, MatcherResult::NoMatch);
}

#[test]
fn ok_does_not_match_result_with_err() {
    let matcher = ok(eq(1u64));
    let value: Result<u64, u64> = Err(1);

    let result = matcher.matches(&value);

    assert_eq!(result, MatcherResult::NoMatch);
}

#[test]
fn ok_matches_result_with_value_by_ref() {
    let result: Result<String, String> = Ok("123".into());
    assert_eq!(ok(eq("123")).matches(&result), MatcherResult::Match);
}

#[test]
fn ok_does_not_match_result_with_wrong_value_by_ref() {
    let result: Result<String, String> = Ok("321".into());
    assert_eq!(not(ok(eq("123"))).matches(&result), MatcherResult::Match);
}

#[test]
fn ok_does_not_match_result_with_err_by_ref() {
    let result: Result<String, String> = Err("123".into());
    assert_eq!(not(ok(eq("123"))).matches(&result), MatcherResult::Match);
}

#[test]
fn ok_describe_match() {
    let matcher = ok(eq(1u64));
    assert_eq!(
        Matcher::<Result<u64, u64>>::describe(&matcher, MatcherResult::Match).render(),
        "is a success containing a value, which is equal to 1"
    );
}

#[test]
fn ok_describe_no_match() {
    let matcher = ok(eq(1u64));
    assert_eq!(
        Matcher::<Result<u64, u64>>::describe(&matcher, MatcherResult::NoMatch).render(),
        "is an error or a success containing a value, which isn't equal to 1"
    );
}

#[test]
fn ok_describe_match_by_ref() {
    let matcher = ok(eq(1u64));
    assert_eq!(
        Matcher::<Result<u64, String>>::describe(&matcher, MatcherResult::Match).render(),
        "is a success containing a value, which is equal to 1"
    );
}

#[test]
fn ok_describe_no_match_by_ref() {
    let matcher = ok(eq(1u64));
    assert_eq!(
        Matcher::<Result<u64, String>>::describe(&matcher, MatcherResult::NoMatch).render(),
        "is an error or a success containing a value, which isn't equal to 1"
    );
}

#[test]
fn ok_explain_match_ok_success() {
    let actual: Result<u64, u64> = Ok(1);
    let matcher = ok(eq(1u64));

    assert_eq!(
        matcher.explain_match(&actual).render(),
        "which is a success\n  which is equal to 1"
    );
}

#[test]
fn ok_explain_match_ok_fail() {
    let actual: Result<u64, u64> = Ok(1);
    let matcher = ok(eq(2u64));

    assert_eq!(
        matcher.explain_match(&actual).render(),
        "which is a success\n  which isn't equal to 2"
    );
}

#[test]
fn ok_explain_match_ok_err() {
    let actual: Result<u64, u64> = Err(1);
    let matcher = ok(eq(2u64));

    assert_eq!(matcher.explain_match(&actual).render(), "which is an error");
}

#[test]
fn ok_explain_match_ok_success_by_ref() {
    let actual: Result<String, String> = Ok("123".to_string());
    let matcher = ok(eq("123"));

    assert_eq!(
        matcher.explain_match(&actual).render(),
        "which is a success\n  which is equal to \"123\""
    );
}

#[test]
fn ok_explain_match_ok_fail_by_ref() {
    let actual: Result<String, String> = Ok("321".to_string());
    let matcher = ok(eq("123"));

    assert_eq!(
        matcher.explain_match(&actual).render(),
        "which is a success\n  which isn't equal to \"123\""
    );
}

#[test]
fn ok_explain_match_ok_err_by_ref() {
    let actual: Result<String, String> = Err("123".to_string());
    let matcher = ok(eq("123"));

    assert_eq!(matcher.explain_match(&actual).render(), "which is an error");
}

#[test]
fn points_to_matches_box_of_int_with_int() {
    assert_eq!(points_to(eq(123u64)).matches(&Box::new(123u64)), MatcherResult::Match);
}

#[test]
fn points_to_matches_rc_of_int_with_int() {
    assert_eq!(points_to(eq(123u64)).matches(&Rc::new(123u64)), MatcherResult::Match);
}

#[test]
fn points_to_matches_box_of_owned_string_with_string_reference() {
    assert_eq!(
        points_to(eq("A string")).matches(&Rc::new("A string".to_string())),
        MatcherResult::Match
    );
}

#[test]
fn match_explanation_references_actual_value() {
    let expected: Vec<u64> = Vec::new();
    let matcher = container_eq(&expected);
    let actual: Vec<u64> = vec![1];

    assert_eq!(matcher.matches(&actual), MatcherResult::NoMatch);
    let explanation = matcher.explain_match(&actual).render();
    assert!(explanation.contains("contains the unexpected element 1"));
}
