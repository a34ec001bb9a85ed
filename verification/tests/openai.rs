use api_proxy::json::Json;
use api_proxy::models::{parse_models, ModelSource};
use api_proxy::openai::{
    apply_alias, begin_list, error_json, extract_model, extract_stream_flag, model_name,
    models_response, no_accounts, on_list_account, on_list_answer, relay_status,
    replace_model_in_body, set_model, stream_flag, unreadable_answer, upstream_failed, ListStep,
};

fn value(bytes: &[u8]) -> serde_json::Value {
    serde_json::from_slice(bytes).unwrap()
}

fn text_value(text: &str) -> serde_json::Value {
    serde_json::from_str(text).unwrap()
}

#[test]
fn stream_flag_is_read() {
    assert!(extract_stream_flag(br#"{"stream": true}"#));
    assert!(!extract_stream_flag(br#"{"stream": false}"#));
    assert!(!extract_stream_flag(br#"{"stream": "true"}"#));
    assert!(!extract_stream_flag(br#"{"model": "m"}"#));
    assert!(!extract_stream_flag(b"[true]"));
    assert!(!extract_stream_flag(b"{\"stream\": true"));
    assert!(!extract_stream_flag(b""));
    assert!(stream_flag(&Json::from_text(r#"{"stream": true}"#).unwrap()));
}

#[test]
fn model_is_read() {
    assert_eq!(extract_model(br#"{"model": "gpt-4"}"#), Some("gpt-4".to_string()));
    assert_eq!(extract_model(br#"{"model": 4}"#), None);
    assert_eq!(extract_model(br#"{}"#), None);
    assert_eq!(extract_model(b"\"gpt-4\""), None);
    assert_eq!(extract_model(b"\xff"), None);
    assert_eq!(
        model_name(&Json::from_text(r#"{"model": "m"}"#).unwrap()),
        Some("m".to_string())
    );
}

#[test]
fn last_of_two_equal_members_counts() {
    assert_eq!(
        extract_model(br#"{"model": "a", "model": "b"}"#),
        Some("b".to_string())
    );
}

#[test]
fn replaced_model_reads_back() {
    let body = br#"{"temperature": 0.7, "stream": true, "model": "a", "top": 1.7976931348623157e308,
        "messages": [{"role": "user", "content": "h\u00e9 \"x\""}], "n": -3, "big": 18446744073709551615}"#;
    let new = replace_model_in_body(body, "b/é");
    assert_eq!(extract_model(&new), Some("b/é".to_string()));
    assert!(extract_stream_flag(&new));
    let mut expected = value(body);
    expected["model"] = serde_json::Value::String("b/é".to_string());
    assert_eq!(value(&new), expected);
}

#[test]
fn replaced_model_is_added_where_missing() {
    assert_eq!(replace_model_in_body(br#"{"z": 1, "a": 2}"#, "m"), br#"{"a":2,"model":"m","z":1}"#);
    assert_eq!(replace_model_in_body(b"{}", "m"), br#"{"model":"m"}"#);
}

#[test]
fn what_is_no_object_keeps_its_value() {
    assert_eq!(replace_model_in_body(b"[1, 2]", "m"), b"[1,2]");
    assert_eq!(replace_model_in_body(b"not json", "m"), b"not json");
    assert_eq!(replace_model_in_body(b"", "m"), b"");
}

#[test]
fn deep_bodies_are_handled_up_to_the_reader_limit() {
    let nested = |depth: usize| {
        let mut text = "[".repeat(depth);
        text.push_str(&"]".repeat(depth));
        text
    };
    let body = format!(r#"{{"model":"a","x":{}}}"#, nested(126));
    let new = replace_model_in_body(body.as_bytes(), "b");
    assert_eq!(extract_model(&new), Some("b".to_string()));
    let deeper = format!(r#"{{"model":"a","x":{}}}"#, nested(127));
    assert_eq!(extract_model(deeper.as_bytes()), None);
    assert_eq!(replace_model_in_body(deeper.as_bytes(), "b"), deeper.as_bytes());
}

#[test]
fn marked_text_inside_a_string_is_read() {
    let marked = br#"{"$serde_json::private::RawValue": "{\"model\": \"in\", \"stream\": true}"}"#;
    assert_eq!(extract_model(marked), Some("in".to_string()));
    assert!(extract_stream_flag(marked));
    let new = replace_model_in_body(marked, "b");
    assert_eq!(new, br#"{"model":"b","stream":true}"#);
    assert_eq!(extract_model(&new), Some("b".to_string()));
}

#[test]
fn a_body_that_is_marked_once_written_does_not_read_back() {
    let body = br#"{"model": "a", "$serde_json::private::RawValue": "x"}"#;
    assert_eq!(extract_model(body), Some("a".to_string()));
    let new = replace_model_in_body(body, "b");
    assert_eq!(new, br#"{"$serde_json::private::RawValue":"x","model":"b"}"#);
    assert_eq!(extract_model(&new), None);
    let kept = br#"{"!": 1, "model": "a", "$serde_json::private::RawValue": "x"}"#;
    assert_eq!(extract_model(&replace_model_in_body(kept, "b")), Some("b".to_string()));
}

#[test]
fn set_model_replaces_in_place() {
    let v = set_model(Json::from_text(r#"{"model": "a", "x": null}"#).unwrap(), "c");
    assert_eq!(v, Json::from_text(r#"{"x": null, "model": "c"}"#).unwrap());
    assert_eq!(set_model(Json::Bool(true), "c"), Json::Bool(true));
}

#[test]
fn the_last_replacement_counts() {
    let body = br#"{"b": 1, "z": 2}"#;
    let twice = replace_model_in_body(&replace_model_in_body(body, "first"), "last");
    assert_eq!(twice, replace_model_in_body(body, "last"));
}

#[test]
fn alias_is_applied_to_the_body() {
    let body = br#"{ "model": "fast" }"#.to_vec();
    assert_eq!(apply_alias(body.clone(), "fast", "fast"), body);
    let new = apply_alias(body, "fast", "gpt-4");
    assert_eq!(extract_model(&new), Some("gpt-4".to_string()));
}

#[test]
fn error_body_holds_its_message() {
    let text = error_json("No \"accounts\"\n");
    assert_eq!(
        text,
        "{\"error\":{\"code\":\"proxy_error\",\"message\":\"No \\\"accounts\\\"\\n\",\"type\":\"proxy_error\"}}"
    );
    assert_eq!(text_value(&text)["error"]["message"], "No \"accounts\"\n");
}

#[test]
fn refusals_have_status_and_body() {
    let r = no_accounts();
    assert_eq!(r.status, 503);
    assert_eq!(r.body(), error_json("No available accounts"));
    let r = upstream_failed("dns");
    assert_eq!((r.status, r.message.as_str()), (502, "Upstream error: dns"));
    let r = unreadable_answer("eof");
    assert_eq!((r.status, r.message.as_str()), (502, "Failed to read upstream body: eof"));
}

#[test]
fn relayed_status_is_a_status_code() {
    assert_eq!(relay_status(404), 404);
    assert_eq!(relay_status(100), 100);
    assert_eq!(relay_status(999), 999);
    assert_eq!(relay_status(99), 200);
    assert_eq!(relay_status(1000), 200);
    assert_eq!(relay_status(0), 200);
}

fn names(list: &[&str]) -> Vec<String> {
    list.iter().map(|s| s.to_string()).collect()
}

#[test]
fn models_are_listed_in_order() {
    let ids = names(&["b", "a", "b"]);
    let list = models_response(&ids);
    assert_eq!(parse_models(ModelSource::OpenAi, &list), ids);
    assert_eq!(
        list.into_value(),
        text_value(
            r#"{"object": "list", "data": [
                {"id": "b", "object": "model", "owned_by": "system"},
                {"id": "a", "object": "model", "owned_by": "system"},
                {"id": "b", "object": "model", "owned_by": "system"}]}"#
        )
    );
    assert_eq!(
        models_response(&Vec::new()).into_value(),
        text_value(r#"{"object": "list", "data": []}"#)
    );
}

#[test]
fn known_models_are_answered_at_once() {
    match begin_list(&names(&["m"])) {
        ListStep::Answer(v) => assert_eq!(v, models_response(&names(&["m"]))),
        _ => panic!("no answer"),
    }
}

#[test]
fn unknown_models_are_asked_of_one_upstream() {
    assert!(matches!(begin_list(&Vec::new()), ListStep::Select));
    match on_list_account(true) {
        ListStep::Ask { path } => assert_eq!(path, "/v1/models"),
        _ => panic!("not asked"),
    }
    match on_list_account(false) {
        ListStep::Refuse(r) => assert_eq!(r, no_accounts()),
        _ => panic!("not refused"),
    }
    assert!(matches!(on_list_answer(None), ListStep::Relay));
    match on_list_answer(Some("timeout".to_string())) {
        ListStep::Refuse(r) => assert_eq!(r, upstream_failed("timeout")),
        _ => panic!("not refused"),
    }
}
