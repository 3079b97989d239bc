use message_board::service::{list, post_at};
use message_board::store::Store;
use message_board::time::Timestamp;
use message_board::wire::MessageJson;

fn msg(id: i32, user: i32, title: &str, content: &str, pub_date: &str) -> MessageJson {
    MessageJson {
        id,
        user,
        title: String::from(title),
        content: String::from(content),
        pub_date: String::from(pub_date),
    }
}

fn platform_encoding(m: &MessageJson) -> String {
    // serde_json writes a string-keyed object in alphabetical key order,
    // which is the order the library's encoder promises.
    let mut object = serde_json::Map::new();
    object.insert(
        String::from("content"),
        serde_json::Value::String(m.content.clone()),
    );
    object.insert(String::from("id"), serde_json::Value::Number(m.id.into()));
    object.insert(
        String::from("pub_date"),
        serde_json::Value::String(m.pub_date.clone()),
    );
    object.insert(
        String::from("title"),
        serde_json::Value::String(m.title.clone()),
    );
    object.insert(
        String::from("user"),
        serde_json::Value::Number(m.user.into()),
    );
    serde_json::Value::Object(object).to_string()
}

#[test]
fn message_renders_as_json_text() {
    let m = msg(1, 2, "Hi", "Hello, world!", "1970-01-01 00:00:00");
    assert_eq!(
        m.to_json_string(),
        "{\"content\":\"Hello, world!\",\"id\":1,\"pub_date\":\"1970-01-01 00:00:00\",\"title\":\"Hi\",\"user\":2}"
    );
}

#[test]
fn json_text_escapes_like_the_platform() {
    let cases = [
        msg(0, 0, "", "", ""),
        msg(-7, i32::MAX, "quote \" backslash \\", "line\nbreak\ttab", "x"),
        msg(
            i32::MIN,
            42,
            "control \u{1} \u{1f} \u{8} del \u{7f}",
            "unicode é \u{1f389} ok",
            "1970-01-01 00:00:00",
        ),
        msg(1, 2, "slash / stays", "\r\u{c} mixed \u{0}", "p"),
    ];
    for m in cases {
        assert_eq!(m.to_json_string(), platform_encoding(&m));
    }
}

#[test]
fn json_text_round_trips_through_the_parser() {
    let mut s = Store::new();
    let tricky_title = "a \"quoted\" back\\slash";
    let tricky_content = "line\nbreak and \u{3} control";
    let mut object = serde_json::Map::new();
    object.insert(
        String::from("title"),
        serde_json::Value::String(String::from(tricky_title)),
    );
    object.insert(
        String::from("content"),
        serde_json::Value::String(String::from(tricky_content)),
    );
    let body = serde_json::Value::Object(object).to_string().into_bytes();
    let now = Timestamp { secs: 0, nanos: 0 };
    assert!(post_at(&mut s, Some("RoundTrip"), &body, now).is_ok());
    let listed = list(&s, None, None).unwrap();
    // the rendered object carries `title` and `content` members, so the
    // write path accepts it back unchanged
    let rendered = listed[0].to_json_string();
    assert!(post_at(&mut s, Some("RoundTrip"), rendered.as_bytes(), now).is_ok());
    assert_eq!(s.messages[0].title, s.messages[1].title);
    assert_eq!(s.messages[0].content, s.messages[1].content);
    assert_eq!(s.messages[1].title, tricky_title);
    assert_eq!(s.messages[1].content, tricky_content);
}
