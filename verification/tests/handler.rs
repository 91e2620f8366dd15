use letterman_email_body_parser::ContentDecoded;
use letterman_email_body_parser::ContentEncoding;
use letterman_email_body_parser::ContentType;
use letterman_email_body_parser::Dkim;
use letterman_email_body_parser::EmailBody;
use letterman_email_body_parser::Part;
use letterman_email_body_parser::PartHandler;
use letterman_email_body_parser::TextMap;

fn gathered(handler: PartHandler) -> EmailBody {
    let mut email = EmailBody::new();
    email.parts(handler).unwrap();
    email
}

fn text_of(part: &Part) -> String {
    match &part.decoded {
        ContentDecoded::String(text) => text.clone(),
        other => panic!("not plain text: {:?}", other),
    }
}

#[test]
fn text_map_keeps_the_last_value() {
    let mut map = TextMap::new();
    assert!(!map.contains_key("a"));
    assert!(map.get("a").is_none());
    map.insert("a".to_string(), "1".to_string());
    map.insert("b".to_string(), "2".to_string());
    map.insert("a".to_string(), "3".to_string());
    assert!(map.contains_key("a"));
    assert_eq!(map.get("a").map(|s| s.as_str()), Some("3"));
    assert_eq!(map.get("b").map(|s| s.as_str()), Some("2"));
    assert!(map.get("A").is_none());
}

#[test]
fn text_map_lists_each_key_once_in_order() {
    let mut map = TextMap::new();
    assert!(map.entries().is_empty());
    map.insert("b".to_string(), "1".to_string());
    map.insert("a".to_string(), "2".to_string());
    map.insert("b".to_string(), "3".to_string());
    assert_eq!(
        map.entries(),
        &vec![("b".to_string(), "3".to_string()), ("a".to_string(), "2".to_string())]
    );
}

#[test]
fn clones_hold_the_same_and_are_independent() {
    let mut map = TextMap::new();
    map.insert("k".to_string(), "v".to_string());
    let mut copy = map.clone();
    assert_eq!(copy.entries(), map.entries());
    copy.insert("k".to_string(), "w".to_string());
    assert_eq!(map.get("k").map(|s| s.as_str()), Some("v"));
    assert_eq!(copy.get("k").map(|s| s.as_str()), Some("w"));

    let mut handler = PartHandler::new();
    handler.data("one".to_string());
    let saved = handler.clone();
    handler.data("two".to_string());
    assert!(matches!(&gathered(saved).body[0].decoded, ContentDecoded::String(t) if t == "one"));
    let email = gathered(handler);
    assert!(matches!(&email.body[0].decoded, ContentDecoded::String(t) if t == "one\ntwo"));
    let copy = email.clone();
    assert_eq!(format!("{:?}", copy), format!("{:?}", email));
    assert_eq!(copy.body.len(), 1);
}

#[test]
fn new_part_is_empty() {
    let part = Part::new();
    assert_eq!(part.content_type.value, "");
    assert!(part.content_type.flags.is_empty());
    assert_eq!(part.data, "");
    assert!(matches!(part.decoded, ContentDecoded::Nothing));
}

#[test]
fn reset_forgets_everything() {
    let mut part = Part::new();
    part.data = "data".to_string();
    part.content_type.value = "text/plain".to_string();
    part.content_features.insert("k".to_string(), "v".to_string());
    part.decoded = ContentDecoded::String("x".to_string());
    part.reset();
    assert_eq!(part.data, "");
    assert_eq!(part.content_type.value, "");
    assert!(part.content_features.get("k").is_none());
    assert!(matches!(part.decoded, ContentDecoded::Nothing));
}

#[test]
fn data_lines_are_joined_by_line_feeds() {
    let mut handler = PartHandler::new();
    handler.data("one".to_string());
    handler.data("two".to_string());
    handler.data("three".to_string());
    let email = gathered(handler);
    assert_eq!(email.body.len(), 1);
    assert_eq!(text_of(&email.body[0]), "one\ntwo\nthree");
}

#[test]
fn a_single_line_has_no_separator() {
    let mut handler = PartHandler::new();
    handler.data("only".to_string());
    let email = gathered(handler);
    assert_eq!(text_of(&email.body[0]), "only");
}

#[test]
fn flush_drops_a_part_without_data() {
    let mut handler = PartHandler::new();
    handler.content_feature("Content-Disposition".to_string(), "attachment".to_string());
    handler.flush();
    handler.flush();
    let email = gathered(handler);
    assert!(email.body.is_empty());
    assert!(email.attachments.is_empty());
    assert!(email.parts.is_empty());
}

#[test]
fn flush_keeps_parts_in_order_and_starts_afresh() {
    let mut handler = PartHandler::new();
    handler.content_feature("X-Mark".to_string(), "first".to_string());
    handler.data("a".to_string());
    handler.flush();
    handler.data("b".to_string());
    handler.flush();
    let email = gathered(handler);
    assert_eq!(email.body.len(), 2);
    assert_eq!(text_of(&email.body[0]), "a");
    assert_eq!(text_of(&email.body[1]), "b");
    assert_eq!(email.body[0].content_features.get("X-Mark").map(|s| s.as_str()), Some("first"));
    assert!(email.body[1].content_features.get("X-Mark").is_none());
}

#[test]
fn parts_that_cannot_be_decoded_stay_as_gathered() {
    let mut handler = PartHandler::new();
    handler.data("fine".to_string());
    handler.flush();
    handler.content_feature("Content-Transfer-Encoding".to_string(), "binary".to_string());
    handler.data("raw".to_string());
    let mut email = EmailBody::new();
    assert_eq!(email.parts(handler), Err("failed-parse_parts"));
    assert!(email.body.is_empty());
    assert!(email.attachments.is_empty());
    assert_eq!(email.parts.len(), 2);
    assert_eq!(email.parts[0].data, "fine");
    assert_eq!(email.parts[1].data, "raw");
}

#[test]
fn handler_sets_the_content_type_of_the_active_part() {
    let mut handler = PartHandler::new();
    let mut kind = ContentType::new();
    kind.value = "text/html".to_string();
    handler.content_type(kind);
    handler.data("<p>x</p>".to_string());
    let email = gathered(handler);
    assert_eq!(email.body[0].content_type.value, "text/html");
    assert!(matches!(&email.body[0].decoded, ContentDecoded::Html(t) if t == "<p>x</p>"));
}

#[test]
fn new_message_is_empty() {
    let email = EmailBody::new();
    assert!(!email.dkim_found);
    assert!(email.dkim.order.is_empty());
    assert!(email.parts.is_empty());
    assert!(email.body.is_empty());
    assert!(email.attachments.is_empty());
    assert_eq!(email.content_type.value, "");
    assert!(email.headers.get("from").is_none());
}

#[test]
fn header_keys_are_stored_in_lower_case() {
    let mut email = EmailBody::new();
    email.header("FrOm".to_string(), "A@Example.com".to_string());
    assert_eq!(email.headers.get("from").map(|s| s.as_str()), Some("A@Example.com"));
    assert!(email.headers.get("FrOm").is_none());
}

#[test]
fn a_later_header_replaces_an_earlier() {
    let mut email = EmailBody::new();
    email.header("Subject".to_string(), "one".to_string());
    email.header("SUBJECT".to_string(), "two".to_string());
    assert_eq!(email.headers.get("subject").map(|s| s.as_str()), Some("two"));
}

#[test]
fn dkim_block_is_recorded() {
    let mut tags = TextMap::new();
    tags.insert("s".to_string(), "sel".to_string());
    let mut block = Dkim::init();
    assert!(block.order.is_empty());
    block.overtake(tags, vec!["s".to_string()]);
    assert_eq!(block.order, vec!["s".to_string()]);
    let mut email = EmailBody::new();
    email.dkim(block);
    assert!(email.dkim_found);
    assert_eq!(email.dkim.features.get("s").map(|s| s.as_str()), Some("sel"));
    assert_eq!(email.dkim.order, vec!["s".to_string()]);
}

#[test]
fn overtake_adds_the_order_behind_the_one_held() {
    let mut block = Dkim::init();
    let mut first = TextMap::new();
    first.insert("a".to_string(), "1".to_string());
    block.overtake(first, vec!["a".to_string()]);
    let mut second = TextMap::new();
    second.insert("b".to_string(), "2".to_string());
    block.overtake(second, vec!["b".to_string()]);
    assert_eq!(block.order, vec!["a".to_string(), "b".to_string()]);
    assert!(block.features.get("a").is_none());
    assert_eq!(block.features.get("b").map(|s| s.as_str()), Some("2"));
}

#[test]
fn encodings_are_distinct() {
    assert_ne!(ContentEncoding::Base64, ContentEncoding::Qp);
    assert_ne!(ContentEncoding::String, ContentEncoding::UnSupported);
}
