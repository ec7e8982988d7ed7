use micronfig::conversion::{convert, parse_uint, parse_truth, ConversionStep, ConversionError, Value};

#[test]
fn chain_parse_then_custom() {
    let chain = vec![ConversionStep::ParseUint, ConversionStep::UintToCustom];
    assert_eq!(convert("42", &chain), Ok(Value::Custom(42)));
}

#[test]
fn chain_stops_at_first_failure() {
    let chain = vec![ConversionStep::ParseUint, ConversionStep::UintToCustom];
    assert_eq!(convert("abc", &chain), Err(ConversionError::ParseFailed { step_index: 0 }));
}

#[test]
fn chain_empty_keeps_text() {
    let chain: Vec<ConversionStep> = vec![];
    assert_eq!(convert("anything", &chain), Ok(Value::Text("anything".to_string())));
}

#[test]
fn chain_text_to_text() {
    let chain = vec![ConversionStep::TextToText];
    assert_eq!(convert("copy", &chain), Ok(Value::Text("copy".to_string())));
}

#[test]
fn chain_narrowing_within_bound() {
    let chain = vec![ConversionStep::ParseUint, ConversionStep::NarrowUint(255)];
    assert_eq!(convert("255", &chain), Ok(Value::Uint(255)));
}

#[test]
fn chain_narrowing_beyond_bound_fails_at_second_step() {
    let chain = vec![ConversionStep::ParseUint, ConversionStep::NarrowUint(255)];
    assert_eq!(convert("256", &chain), Err(ConversionError::ConversionFailed { step_index: 1 }));
}

#[test]
fn chain_parse_truth() {
    let chain = vec![ConversionStep::ParseTruth];
    assert_eq!(convert("true", &chain), Ok(Value::Truth(true)));
    assert_eq!(convert("false", &chain), Ok(Value::Truth(false)));
    assert_eq!(convert("True", &chain), Err(ConversionError::ParseFailed { step_index: 0 }));
}

#[test]
fn parse_uint_exact_values() {
    assert_eq!(parse_uint("0"), Some(0));
    assert_eq!(parse_uint("1"), Some(1));
    assert_eq!(parse_uint("007"), Some(7));
    assert_eq!(parse_uint("1234"), Some(1234));
    assert_eq!(parse_uint("18446744073709551615"), Some(u64::MAX));
}

#[test]
fn parse_uint_rejections() {
    assert_eq!(parse_uint(""), None);
    assert_eq!(parse_uint("XYZ"), None);
    assert_eq!(parse_uint("1x"), None);
    assert_eq!(parse_uint("+1"), None);
    assert_eq!(parse_uint("-1"), None);
    assert_eq!(parse_uint(" 1"), None);
    assert_eq!(parse_uint("18446744073709551616"), None);
}

#[test]
fn parse_truth_exact_values() {
    assert_eq!(parse_truth("true"), Some(true));
    assert_eq!(parse_truth("false"), Some(false));
    assert_eq!(parse_truth("yes"), None);
    assert_eq!(parse_truth(""), None);
}
