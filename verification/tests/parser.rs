use letterman_email_body_parser::parser::keyval_from;
use letterman_email_body_parser::parser::list_from;
use letterman_email_body_parser::parser::parse_content_type;
use letterman_email_body_parser::parser::parse_keyval;
use letterman_email_body_parser::parser::parse_only_features;
use letterman_email_body_parser::parser::tag_from;
use letterman_email_body_parser::Config;

fn config() -> Config {
    Config::new().unwrap()
}

#[test]
fn config_accepts_its_patterns() {
    assert!(Config::new().is_ok());
}

#[test]
fn keyval_splits_at_the_first_colon() {
    let (key, value) = parse_keyval(&config(), "From: a@example.com").unwrap();
    assert_eq!(key, "From");
    assert_eq!(value, "a@example.com");
}

#[test]
fn keyval_trims_the_value() {
    let (key, value) = parse_keyval(&config(), "Subject :   hello world  ").unwrap();
    assert_eq!(key, "Subject");
    assert_eq!(value, "hello world");
}

#[test]
fn keyval_keeps_later_colons_in_the_value() {
    let (key, value) = parse_keyval(&config(), "Date: Mon, 1 Jan 2024 10:00:00 +0000").unwrap();
    assert_eq!(key, "Date");
    assert_eq!(value, "Mon, 1 Jan 2024 10:00:00 +0000");
}

#[test]
fn keyval_rejects_a_line_without_colon() {
    assert_eq!(parse_keyval(&config(), "no colon here").err(), Some("invalid-header"));
    assert_eq!(parse_keyval(&config(), "").err(), Some("invalid-header"));
    assert_eq!(parse_keyval(&config(), "key:").err(), Some("invalid-header"));
}

#[test]
fn features_keep_tags_flags_and_order() {
    let (tags, flags, order) =
        parse_only_features(&config(), "DKIM-Signature: v=1; a=rsa-sha256; flag; b=abc=").unwrap();
    assert_eq!(tags.get("v").map(|s| s.as_str()), Some("1"));
    assert_eq!(tags.get("a").map(|s| s.as_str()), Some("rsa-sha256"));
    assert_eq!(tags.get("b").map(|s| s.as_str()), Some("abc="));
    assert!(tags.get("flag").is_none());
    assert_eq!(flags, vec![" flag".to_string()]);
    assert_eq!(order, vec!["v".to_string(), "a".to_string(), "b".to_string()]);
}

#[test]
fn features_drop_one_closing_quote() {
    let (tags, flags, order) =
        parse_only_features(&config(), "X: name=\"quoted\"; other=plain\"\"").unwrap();
    assert_eq!(tags.get("name").map(|s| s.as_str()), Some("quoted"));
    assert_eq!(tags.get("other").map(|s| s.as_str()), Some("plain\""));
    assert!(flags.is_empty());
    assert_eq!(order, vec!["name".to_string(), "other".to_string()]);
}

#[test]
fn features_let_a_later_tag_replace_an_earlier() {
    let (tags, _, order) = parse_only_features(&config(), "X: a=1; a=2").unwrap();
    assert_eq!(tags.get("a").map(|s| s.as_str()), Some("2"));
    assert_eq!(order, vec!["a".to_string(), "a".to_string()]);
}

#[test]
fn features_reject_a_line_without_colon() {
    assert_eq!(parse_only_features(&config(), "v=1; a=2").err(), Some("invalid-header"));
}

#[test]
fn content_type_takes_the_first_token_as_value() {
    let found =
        parse_content_type(&config(), "Content-Type: multipart/mixed; boundary=\"XYZ\"; flag")
            .unwrap();
    assert_eq!(found.value, "multipart/mixed");
    assert_eq!(found.features.get("boundary").map(|s| s.as_str()), Some("XYZ"));
    assert_eq!(found.flags, vec![" flag".to_string()]);
}

#[test]
fn content_type_trims_the_end_of_a_parameter() {
    let found = parse_content_type(&config(), "Content-Type: text/plain; charset=utf-8  ").unwrap();
    assert_eq!(found.value, "text/plain");
    assert_eq!(found.features.get("charset").map(|s| s.as_str()), Some("utf-8"));
    assert!(found.flags.is_empty());
}

#[test]
fn content_type_accepts_a_parameter_of_white_space() {
    let found = parse_content_type(&config(), "Content-Type: text/plain; charset= ").unwrap();
    assert_eq!(found.value, "text/plain");
    assert_eq!(found.features.get("charset").map(|s| s.as_str()), Some(""));
}

#[test]
fn content_type_without_parameters() {
    let found = parse_content_type(&config(), "Content-Type: text/html").unwrap();
    assert_eq!(found.value, "text/html");
    assert!(found.features.get("boundary").is_none());
    assert!(found.flags.is_empty());
}

#[test]
fn content_type_rejects_a_line_without_colon() {
    assert_eq!(parse_content_type(&config(), "Content-Type").err(), Some("invalid-header"));
}

fn groups(first: Option<&str>, second: Option<&str>) -> Option<(Option<String>, Option<String>)> {
    Some((first.map(|s| s.to_string()), second.map(|s| s.to_string())))
}

#[test]
fn key_and_value_of_given_groups() {
    assert_eq!(
        keyval_from(groups(Some(" Key\t"), Some("  a value \r"))),
        Ok(("Key".to_string(), "a value".to_string()))
    );
    assert_eq!(keyval_from(groups(Some("k"), Some(" "))), Ok(("k".to_string(), String::new())));
    assert_eq!(keyval_from(None), Err("invalid-header"));
    assert_eq!(keyval_from(groups(None, Some("v"))), Err("failed-get-key"));
    assert_eq!(keyval_from(groups(None, None)), Err("failed-get-key"));
    assert_eq!(keyval_from(groups(Some("k"), None)), Err("failed-get-features_string"));
}

#[test]
fn feature_list_of_given_groups() {
    assert_eq!(list_from(groups(Some("k"), Some(" a=1; b "))), Ok(" a=1; b ".to_string()));
    assert_eq!(list_from(groups(None, Some("x"))), Ok("x".to_string()));
    assert_eq!(list_from(None), Err("invalid-header"));
    assert_eq!(list_from(groups(Some("k"), None)), Err("failed-get-features_string"));
}

#[test]
fn tag_of_given_groups() {
    let tag = |name: &str, value: &str| Some((name.to_string(), value.to_string()));
    assert_eq!(tag_from(groups(Some("a"), Some("v\" ")), false), tag("a", "v\" "));
    assert_eq!(tag_from(groups(Some("a"), Some("v\" ")), true), tag("a", "v"));
    assert_eq!(tag_from(groups(Some("a"), Some("v\"\"")), false), tag("a", "v\""));
    assert_eq!(tag_from(groups(Some("a"), Some("v  ")), false), tag("a", "v  "));
    assert_eq!(tag_from(groups(Some("a"), Some("v  ")), true), tag("a", "v"));
    assert_eq!(tag_from(groups(Some("a"), Some(" ")), true), tag("a", ""));
    assert_eq!(tag_from(groups(Some("a"), Some("\"")), false), tag("a", ""));
    assert_eq!(tag_from(groups(Some("a"), None), false), None);
    assert_eq!(tag_from(groups(None, Some("v")), true), None);
    assert_eq!(tag_from(None, false), None);
}
