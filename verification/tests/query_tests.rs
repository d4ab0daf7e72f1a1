use eden::{parse_url_query_string, ShaderStage};

#[test]
fn finds_a_key() {
    assert_eq!(parse_url_query_string("?a=1&b=2", "b"), Some("2"));
    assert_eq!(parse_url_query_string("?a=1&b=2", "a"), Some("1"));
}

#[test]
fn missing_key_is_none() {
    assert_eq!(parse_url_query_string("?a=1", "c"), None);
}

#[test]
fn requires_question_mark() {
    assert_eq!(parse_url_query_string("a=1", "a"), None);
    assert_eq!(parse_url_query_string("", "a"), None);
}

#[test]
fn pair_without_equals_aborts() {
    assert_eq!(parse_url_query_string("?a", "a"), None);
    // even when a later pair would match
    assert_eq!(parse_url_query_string("?x&y=2", "y"), None);
}

#[test]
fn value_stops_at_second_equals() {
    assert_eq!(parse_url_query_string("?a=b=c", "a"), Some("b"));
}

#[test]
fn later_pair_without_value_still_lets_earlier_match() {
    assert_eq!(parse_url_query_string("?x=1&y", "x"), Some("1"));
}

#[test]
fn empty_value() {
    assert_eq!(parse_url_query_string("?k=&b=2", "k"), Some(""));
}

#[test]
fn first_match_wins() {
    assert_eq!(parse_url_query_string("?k=1&k=2", "k"), Some("1"));
}

#[test]
fn shader_stage_variants() {
    let stages = [ShaderStage::Vertex, ShaderStage::Fragment, ShaderStage::Compute];
    assert_eq!(stages.len(), 3);
    assert!(matches!(stages[2], ShaderStage::Compute));
}
