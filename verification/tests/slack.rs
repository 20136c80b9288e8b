use slaxide::api::{
    check_status, decode_empty_ok, decode_ok, FrameAction, HttpMethod, PayloadValue, RequestBody,
    SlackClient, SlackEnvelope, SlackError, SlackOAuthConfig, SocketEventKind, SocketFrame,
};
use slaxide::json::Json;
use slaxide::slack::{SlackSocketEvent, SocketConnectionInfo, SocketModeEnvelope};

fn client() -> SlackClient {
    SlackClient::new(SlackOAuthConfig::new("abc", "def").unwrap())
}

/// A JSON value out of one that was read from text.
fn json(value: &serde_json::Value) -> Json {
    match value {
        serde_json::Value::Null => Json::Null,
        serde_json::Value::Bool(flag) => Json::Bool(*flag),
        serde_json::Value::Number(number) => match (number.as_u64(), number.as_i64()) {
            (Some(value), _) => Json::Unsigned(value),
            (None, Some(value)) => Json::Signed(value),
            (None, None) => Json::Decimal(number.to_string()),
        },
        serde_json::Value::String(text) => Json::string(text),
        serde_json::Value::Array(values) => Json::array(values.iter().map(json).collect()),
        serde_json::Value::Object(members) => Json::object(
            members.iter().map(|(name, value)| (name.clone(), json(value))).collect(),
        ),
    }
}

fn read(text: &str) -> Json {
    json(&serde_json::from_str(text).unwrap())
}

#[test]
fn authorize_url_contains_expected_query() {
    let raw = client()
        .authorize_url(
            &vec!["channels:read".into(), "groups:history".into(), "chat:write".into()],
            "opaque-state",
        )
        .unwrap();

    assert!(raw.contains("client_id=abc"));
    assert!(raw.contains("user_scope=channels%3Aread%2Cgroups%3Ahistory%2Cchat%3Awrite"));
    assert!(raw.contains("state=opaque-state"));
}

#[test]
fn socket_mode_ack_payload_is_minimal() {
    let envelope = SocketModeEnvelope {
        envelope_id: Some("abc".into()),
        kind: "events_api".into(),
        connection_info: None,
        payload: None,
    };

    assert_eq!(envelope.ack_payload(), Some(read(r#"{ "envelope_id": "abc" }"#)));
    assert_eq!(envelope.ack_message().as_deref(), Some(r#"{"envelope_id":"abc"}"#));
}

#[test]
fn socket_mode_hello_deserializes_without_ack() {
    let hello = read(
        r#"{
            "type": "hello",
            "connection_info": { "app_id": "A1" },
            "num_connections": 1
        }"#,
    );
    let envelope = SocketModeEnvelope {
        envelope_id: hello.get_str("envelope_id").map(str::to_string),
        kind: hello.get_str("type").unwrap().to_string(),
        connection_info: hello.get("connection_info").map(|info| SocketConnectionInfo {
            app_id: info.get_str("app_id").map(str::to_string),
        }),
        payload: None,
    };

    assert!(hello.get("payload").is_none());
    assert_eq!(envelope.connection_info.as_ref().unwrap().app_id.as_deref(), Some("A1"));
    assert_eq!(envelope.kind, "hello");
    assert_eq!(envelope.envelope_id, None);
    assert!(envelope.payload.is_none());
    assert_eq!(envelope.ack_payload(), None);
    assert!(envelope.ack_message().is_none());
}

#[test]
fn reaction_added_events_parse() {
    let event = read(
        r#"{
            "type": "reaction_added",
            "user": "U-reactor",
            "reaction": "thumbsup",
            "item_user": "U-author",
            "item": { "type": "message", "channel": "C1", "ts": "123.456" },
            "event_ts": "123.789"
        }"#,
    );

    assert_eq!(SlackSocketEvent::kind_of(&event).unwrap(), SocketEventKind::ReactionAdded);
    assert_eq!(event.get_str("reaction"), Some("thumbsup"));
    let item = event.get("item").unwrap();
    assert_eq!(item.get_str("channel"), Some("C1"));
    assert_eq!(item.get_str("ts"), Some("123.456"));
}

#[test]
fn message_changed_events_parse() {
    let event = read(
        r#"{
            "type": "message",
            "subtype": "message_changed",
            "channel": "C1",
            "message": {
                "type": "message",
                "user": "U1",
                "text": "updated",
                "ts": "123.456",
                "reactions": [{ "name": "thumbsup", "count": 1, "users": ["U2"] }]
            }
        }"#,
    );

    assert_eq!(SlackSocketEvent::kind_of(&event).unwrap(), SocketEventKind::MessageChanged);
    assert_eq!(event.get_str("channel"), Some("C1"));
    let message = event.get("message").unwrap();
    assert_eq!(message.get_str("ts"), Some("123.456"));
    assert_eq!(message.get("reactions").unwrap().as_array().unwrap().len(), 1);
}

#[test]
fn typing_events_parse() {
    let event = read(r#"{ "type": "user_typing", "channel": "C1", "user": "U1" }"#);

    assert_eq!(SlackSocketEvent::kind_of(&event).unwrap(), SocketEventKind::UserTyping);
    assert_eq!(event.get_str("channel"), Some("C1"));
    assert_eq!(event.get_str("user"), Some("U1"));
}

#[test]
fn other_events_are_told_apart() {
    let kind = |text: &str| SlackSocketEvent::kind_of(&read(text));

    assert_eq!(kind(r#"{ "type": "message" }"#).unwrap(), SocketEventKind::Message);
    assert_eq!(
        kind(r#"{ "type": "message", "subtype": "message_deleted" }"#).unwrap(),
        SocketEventKind::MessageDeleted
    );
    assert_eq!(
        kind(r#"{ "type": "reaction_removed" }"#).unwrap(),
        SocketEventKind::ReactionRemoved
    );
    assert!(matches!(
        kind(r#"{ "type": "team_join" }"#).unwrap(),
        SocketEventKind::Unsupported { .. }
    ));
    assert!(matches!(kind("{}"), Err(SlackError::MalformedResponse(_))));
}

#[test]
fn acknowledgements_escape_what_they_carry() {
    let envelope = SocketModeEnvelope {
        envelope_id: Some("a\"b\\c\n".into()),
        kind: "events_api".into(),
        connection_info: None,
        payload: None,
    };

    assert_eq!(envelope.ack_message().as_deref(), Some("{\"envelope_id\":\"a\\\"b\\\\c\\n\"}"));

    let envelope = SocketModeEnvelope {
        envelope_id: Some("\u{8}\t\u{c}\r\u{0}\u{1f}\u{7f}é/".into()),
        ..envelope
    };
    assert_eq!(
        envelope.ack_message().as_deref(),
        Some("{\"envelope_id\":\"\\b\\t\\f\\r\\u0000\\u001f\u{7f}é/\"}")
    );
}

#[test]
fn posts_carry_their_text_and_token() {
    let request = client().post_message("xoxp", "C1", "hello").unwrap();

    assert_eq!(request.method, HttpMethod::Post);
    assert_eq!(request.token.as_deref(), Some("xoxp"));
    assert!(request.url.ends_with("/api/chat.postMessage"));
    match request.body {
        RequestBody::Json(fields) => {
            assert!(fields.contains(&("channel".into(), PayloadValue::Text("C1".into()))));
            assert!(fields.contains(&("text".into(), PayloadValue::Text("hello".into()))));
        }
        _ => panic!("expected a JSON body"),
    }
}

#[test]
fn listings_carry_their_cursor_in_the_address() {
    let request = client().list_conversations("xoxp", Some("next page"), 200).unwrap();

    assert_eq!(request.method, HttpMethod::Get);
    assert!(request.url.contains("limit=200"));
    assert!(request.url.contains("cursor=next+page"));
}

#[test]
fn replies_are_taken_or_refused() {
    assert!(check_status(200).is_ok());
    assert!(matches!(check_status(429), Err(SlackError::HttpStatus(429))));

    let reply = SlackEnvelope { ok: true, error: None, data: Some(5u32) };
    assert_eq!(decode_ok(reply).unwrap(), 5);
    let empty: SlackEnvelope<u32> = SlackEnvelope { ok: true, error: None, data: None };
    assert!(matches!(decode_ok(empty), Err(SlackError::MalformedResponse(_))));
    let refused: SlackEnvelope<u32> =
        SlackEnvelope { ok: false, error: Some("missing_scope".into()), data: None };
    assert!(matches!(
        decode_empty_ok(refused),
        Err(SlackError::Api(error)) if error == "missing_scope"
    ));
}

#[test]
fn frames_are_handled_by_their_kind() {
    assert_eq!(SocketFrame::Text.action(), FrameAction::Deliver);
    assert_eq!(SocketFrame::Ping.action(), FrameAction::Pong);
    assert_eq!(SocketFrame::Close.action(), FrameAction::End);
    assert_eq!(SocketFrame::Other.action(), FrameAction::Skip);
}

#[test]
fn errors_have_messages() {
    assert!(SlackError::Api("channel_not_found".into()).message().contains("channel_not_found"));
    assert!(SlackError::HttpStatus(503).message().contains("503"));
}
