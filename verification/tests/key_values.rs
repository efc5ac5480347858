use azure_storage_cli::keyval::{parse_key_val, KeyValError};

#[test]
fn splits_at_the_equals_sign() {
    assert_eq!(
        parse_key_val("key=value"),
        Ok(("key".to_string(), "value".to_string()))
    );
}

#[test]
fn splits_at_the_first_equals_sign_only() {
    assert_eq!(
        parse_key_val("a=b=c"),
        Ok(("a".to_string(), "b=c".to_string()))
    );
}

#[test]
fn empty_key_or_value_is_allowed() {
    assert_eq!(parse_key_val("=v"), Ok(("".to_string(), "v".to_string())));
    assert_eq!(parse_key_val("k="), Ok(("k".to_string(), "".to_string())));
    assert_eq!(parse_key_val("="), Ok(("".to_string(), "".to_string())));
}

#[test]
fn missing_separator_is_an_error() {
    assert_eq!(parse_key_val("no separator"), Err(KeyValError::MissingSeparator));
    assert_eq!(parse_key_val(""), Err(KeyValError::MissingSeparator));
}

#[test]
fn handles_non_ascii_text() {
    assert_eq!(
        parse_key_val("schlüssel=wört"),
        Ok(("schlüssel".to_string(), "wört".to_string()))
    );
}
