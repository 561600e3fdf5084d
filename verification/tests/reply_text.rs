use rtk_core::daemon::reply::{extract_text, ReplyValue};

fn text(s: &str) -> ReplyValue {
    ReplyValue::Text(s.to_string())
}

fn object(members: Vec<(&str, ReplyValue)>) -> ReplyValue {
    ReplyValue::Object(members.into_iter().map(|(k, v)| (k.to_string(), v)).collect())
}

#[test]
fn test_extract_text_from_string_and_array() {
    assert_eq!(extract_text(&text("final output")), Some("final output".to_string()));
    assert_eq!(
        extract_text(&ReplyValue::List(vec![text("one"), text("two")])),
        Some("one\ntwo".to_string())
    );
}

#[test]
fn test_extract_text_from_object_variants() {
    assert_eq!(extract_text(&object(vec![("text", text("done"))])), Some("done".to_string()));
    assert_eq!(
        extract_text(&object(vec![(
            "content",
            ReplyValue::List(vec![
                object(vec![("text", text("a"))]),
                object(vec![("text", text("b"))]),
            ])
        )])),
        Some("a\nb".to_string())
    );
    // Members in the map's (sorted) order.
    assert_eq!(
        extract_text(&object(vec![("other", text("ignored")), ("reasoning", text("chain"))])),
        Some("chain".to_string())
    );
}

#[test]
fn extract_text_trims_and_skips_empty_parts() {
    assert_eq!(extract_text(&text("  padded \n")), Some("padded".to_string()));
    assert_eq!(extract_text(&text("   ")), None);
    assert_eq!(
        extract_text(&ReplyValue::List(vec![text(" "), ReplyValue::Other, text("x")])),
        Some("x".to_string())
    );
    assert_eq!(extract_text(&ReplyValue::List(vec![])), None);
    assert_eq!(extract_text(&ReplyValue::Other), None);
}

#[test]
fn extract_text_prefers_known_keys_in_order() {
    let v = object(vec![
        ("a", text("first")),
        ("output", text("out")),
        ("content", text("   ")),
        ("text", ReplyValue::Other),
    ]);
    assert_eq!(extract_text(&v), Some("out".to_string()));
    let w = object(vec![("a", text("first")), ("b", ReplyValue::Other), ("c", text("third"))]);
    assert_eq!(extract_text(&w), Some("first\nthird".to_string()));
    assert_eq!(extract_text(&object(vec![])), None);
}
