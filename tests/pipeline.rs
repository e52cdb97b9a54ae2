use greed::config::Transformer;
use greed::transform::{
    apply_transformer, apply_transformers, extract_from_captures, replace_all, TransformError,
};

fn regex(p: &str) -> Transformer {
    Transformer::RegexExtract { regex: p.to_string() }
}

fn replace(from: &str, to: &str) -> Transformer {
    Transformer::Replace { from: from.to_string(), to: to.to_string() }
}

#[test]
fn regex_extract_concatenates_groups() {
    assert_eq!(apply_transformer("12-34".to_string(), &regex(r"(\d+)-(\d+)")), Ok("1234".to_string()));
}

#[test]
fn regex_extract_without_match_fails() {
    assert_eq!(apply_transformer("ab".to_string(), &regex(r"(\d+)-(\d+)")), Err(TransformError::NoMatch));
}

#[test]
fn regex_extract_with_invalid_pattern_fails() {
    assert_eq!(apply_transformer("ab".to_string(), &regex("(")), Err(TransformError::InvalidPattern));
}

#[test]
fn regex_extract_skips_groups_that_did_not_take_part() {
    assert_eq!(apply_transformer("a-c".to_string(), &regex("(a)(b)?-(c)")), Ok("ac".to_string()));
    assert_eq!(apply_transformer("price: 42".to_string(), &regex(r"\d+")), Ok(String::new()));
}

#[test]
fn groups_are_joined_after_the_whole_match() {
    let groups = vec![Some("12-34".to_string()), Some("12".to_string()), None, Some("34".to_string())];
    assert_eq!(extract_from_captures(Some(groups)), Ok("1234".to_string()));
    assert_eq!(extract_from_captures(None), Err(TransformError::NoMatch));
}

#[test]
fn replace_replaces_every_occurrence() {
    assert_eq!(apply_transformer("banana".to_string(), &replace("a", "b")), Ok("bbnbnb".to_string()));
    assert_eq!(replace_all("banana", "a", "b"), "bbnbnb");
}

#[test]
fn replace_does_not_overlap() {
    assert_eq!(replace_all("aaa", "aa", "x"), "xa");
    assert_eq!(replace_all("1,234,567", ",", ""), "1234567");
    assert_eq!(replace_all("abc", "abcd", "x"), "abc");
}

#[test]
fn replace_of_empty_text_leaves_value() {
    assert_eq!(replace_all("banana", "", "x"), "banana");
}

#[test]
fn empty_pipeline_is_identity() {
    assert_eq!(apply_transformers("  some value ".to_string(), &Vec::new()), Ok("  some value ".to_string()));
    assert_eq!(apply_transformers(String::new(), &Vec::new()), Ok(String::new()));
}

#[test]
fn pipeline_applies_in_order() {
    let ts = vec![regex(r"Price: ([\d,]+)\.(\d+)"), replace(",", "")];
    assert_eq!(apply_transformers("Price: 1,234.50 EUR".to_string(), &ts), Ok("123450".to_string()));
    let reversed = vec![replace("1", "x"), regex(r"(\d+)")];
    assert_eq!(apply_transformers("a1b".to_string(), &reversed), Err(TransformError::NoMatch));
}

#[test]
fn pipeline_stops_at_first_failure() {
    let ts = vec![regex("("), regex("x")];
    assert_eq!(apply_transformers("x".to_string(), &ts), Err(TransformError::InvalidPattern));
    let ts = vec![regex("y"), regex("(")];
    assert_eq!(apply_transformers("x".to_string(), &ts), Err(TransformError::NoMatch));
}
