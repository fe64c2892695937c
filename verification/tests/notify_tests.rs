use flash_code::notify::{discord_payload, json_escape, line_payload, notification_message};

fn serde_string_json(s: &str) -> String {
    serde_json::to_string(&serde_json::Value::String(s.to_string())).unwrap()
}

#[test]
fn plain_text_passes_through_escaping() {
    assert_eq!(json_escape("hello world"), "hello world");
    assert_eq!(json_escape(""), "");
    assert_eq!(json_escape("チャット"), "チャット");
}

#[test]
fn quotes_backslashes_and_controls_are_escaped() {
    assert_eq!(json_escape("a\"b"), "a\\\"b");
    assert_eq!(json_escape("a\\b"), "a\\\\b");
    assert_eq!(json_escape("a\nb\tc\rd"), "a\\nb\\tc\\rd");
    assert_eq!(json_escape("\u{8}\u{c}"), "\\b\\f");
    assert_eq!(json_escape("\u{1}\u{1f}"), "\\u0001\\u001f");
}

#[test]
fn escaping_agrees_with_the_standard_serializer() {
    for s in [
        "plain",
        "with \"quotes\" and \\slashes\\",
        "line\nbreaks\tand\rcontrols \u{1} \u{b} \u{1f}",
        "日本語のテキスト「かぎ括弧」",
    ] {
        let ours = format!("\"{}\"", json_escape(s));
        assert_eq!(ours, serde_string_json(s));
    }
}

#[test]
fn message_names_the_application() {
    let msg = notification_message("MyApp");
    assert_eq!(msg, "アプリケーション「MyApp」のアイコンに変化がありました。");
}

#[test]
fn discord_payload_is_the_serializer_object() {
    let msg = notification_message("App \"X\"");
    let payload = discord_payload(&msg);

    let mut map = serde_json::Map::new();
    map.insert(
        "content".to_string(),
        serde_json::Value::String(msg.clone()),
    );
    let expected = serde_json::to_string(&serde_json::Value::Object(map)).unwrap();
    assert_eq!(payload, expected);
}

#[test]
fn line_payload_is_the_serializer_object() {
    let msg = notification_message("App");
    let payload = line_payload("user-1", &msg);

    let mut inner = serde_json::Map::new();
    inner.insert(
        "type".to_string(),
        serde_json::Value::String("text".to_string()),
    );
    inner.insert("text".to_string(), serde_json::Value::String(msg.clone()));
    let mut outer = serde_json::Map::new();
    outer.insert(
        "to".to_string(),
        serde_json::Value::String("user-1".to_string()),
    );
    outer.insert(
        "messages".to_string(),
        serde_json::Value::Array(vec![serde_json::Value::Object(inner)]),
    );
    let expected = serde_json::to_string(&serde_json::Value::Object(outer)).unwrap();
    assert_eq!(payload, expected);
}
