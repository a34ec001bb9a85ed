use api_proxy::headers::{build_user_id_headers, retry_after, token_list_headers};
use api_proxy::json::Json;
use api_proxy::key_fetcher::{
    default_status, on_key_body, on_key_response, parse_token_entries, plan_key_fetch,
    select_first_usable_key, KeyPlan, KeyStep, TokenEntry,
};
use reqwest::header::{HeaderMap, HeaderValue};

fn json(text: &str) -> Json {
    Json::from_text(text).unwrap()
}

#[test]
fn parse_direct_array() {
    let json = json(
        r#"[
            { "key": "sk-aaa", "status": 1 },
            { "key": "sk-bbb", "status": 2 },
            { "key": "sk-ccc", "status": 1 }
        ]"#,
    );
    let entries = parse_token_entries(&json);
    assert_eq!(entries.len(), 3);
    assert_eq!(select_first_usable_key(&entries), Some("sk-aaa".to_string()));
}

#[test]
fn parse_newapi_paginated() {
    let json = json(
        r#"{
            "success": true,
            "data": {
                "items": [
                    { "key": "sk-disabled", "status": 2 },
                    { "key": "sk-good", "status": 1 }
                ]
            }
        }"#,
    );
    let entries = parse_token_entries(&json);
    assert_eq!(entries.len(), 2);
    assert_eq!(select_first_usable_key(&entries), Some("sk-good".to_string()));
}

#[test]
fn parse_onehub_data_array() {
    let json = json(
        r#"{
            "data": [
                { "key": "sk-hub1", "status": 1 },
                { "key": "sk-hub2", "status": 1 }
            ]
        }"#,
    );
    let entries = parse_token_entries(&json);
    assert_eq!(entries.len(), 2);
    assert_eq!(select_first_usable_key(&entries), Some("sk-hub1".to_string()));
}

#[test]
fn parse_empty_response() {
    let json = json(r#"{ "data": { "items": [] } }"#);
    let entries = parse_token_entries(&json);
    assert!(entries.is_empty());
    assert_eq!(select_first_usable_key(&entries), None);
}

#[test]
fn parse_all_disabled() {
    let json = json(
        r#"[
            { "key": "sk-off1", "status": 0 },
            { "key": "sk-off2", "status": 3 }
        ]"#,
    );
    let entries = parse_token_entries(&json);
    assert_eq!(entries.len(), 2);
    assert_eq!(select_first_usable_key(&entries), None);
}

#[test]
fn parse_empty_key_skipped() {
    let json = json(
        r#"[
            { "key": "", "status": 1 },
            { "key": "sk-real", "status": 1 }
        ]"#,
    );
    let entries = parse_token_entries(&json);
    assert_eq!(select_first_usable_key(&entries), Some("sk-real".to_string()));
}

#[test]
fn parse_newapi_fork_data_data() {
    // Some New-API forks use { "data": { "data": [...] } } instead of "items"
    let json = json(
        r#"{
            "success": true,
            "message": "",
            "data": {
                "data": [
                    { "id": 600, "key": "sk-fork1", "status": 1, "name": "KEY" },
                    { "id": 601, "key": "sk-fork2", "status": 2, "name": "KEY2" }
                ],
                "page": 1,
                "size": 100,
                "total_count": 2
            }
        }"#,
    );
    let entries = parse_token_entries(&json);
    assert_eq!(entries.len(), 2);
    assert_eq!(select_first_usable_key(&entries), Some("sk-fork1".to_string()));
}

#[test]
fn build_user_id_headers_contains_all() {
    let headers = build_user_id_headers(42);
    assert_eq!(headers.get("New-API-User").unwrap(), "42");
    assert_eq!(headers.get("Veloera-User").unwrap(), "42");
    assert_eq!(headers.get("voapi-user").unwrap(), "42");
    assert_eq!(headers.get("User-id").unwrap(), "42");
    assert_eq!(headers.get("Rix-Api-User").unwrap(), "42");
    assert_eq!(headers.get("neo-api-user").unwrap(), "42");
}

#[test]
fn negative_user_ids_are_sent() {
    let headers = build_user_id_headers(i64::MIN);
    assert_eq!(headers.len(), 6);
    assert_eq!(headers.get("user-id").unwrap(), "-9223372036854775808");
}

#[test]
fn token_list_headers_authorize() {
    let headers = token_list_headers(7, "secret token");
    assert_eq!(headers.len(), 8);
    assert_eq!(headers.get("authorization").unwrap(), "secret token");
    assert_eq!(headers.get("content-type").unwrap(), "application/json");
    assert_eq!(headers.get("voapi-user").unwrap(), "7");
}

#[test]
fn a_token_that_is_no_header_value_is_left_out() {
    let headers = token_list_headers(7, "two\nlines");
    assert_eq!(headers.len(), 7);
    assert!(headers.get("authorization").is_none());
    let headers = token_list_headers(7, "naïve");
    assert_eq!(headers.get("authorization").unwrap().as_bytes(), "naïve".as_bytes());
}

#[test]
fn missing_fields_take_their_defaults() {
    assert_eq!(default_status(), 1);
    let entries = parse_token_entries(&json(r#"[{ "key": "sk-a" }, { "status": 2 }, {}]"#));
    assert_eq!(
        entries,
        vec![
            TokenEntry { key: "sk-a".to_string(), status: 1 },
            TokenEntry { key: String::new(), status: 2 },
            TokenEntry { key: String::new(), status: 1 },
        ]
    );
}

#[test]
fn values_that_are_no_tokens_are_skipped() {
    let entries = parse_token_entries(&json(
        r#"[null, 5, "sk", { "key": 1 }, { "key": null }, { "key": "a", "status": "1" },
            { "key": "a", "status": 1.0 }, { "key": "a", "status": 9223372036854775808 },
            { "key": "sk-b", "status": -1 }]"#,
    ));
    assert_eq!(entries, vec![TokenEntry { key: "sk-b".to_string(), status: -1 }]);
}

#[test]
fn tokens_may_be_given_as_arrays() {
    let entries = parse_token_entries(&json(r#"[["sk-a", 2], ["sk-b"], [], ["sk-c", 1, 0]]"#));
    assert_eq!(
        entries,
        vec![
            TokenEntry { key: "sk-a".to_string(), status: 2 },
            TokenEntry { key: "sk-b".to_string(), status: 1 },
            TokenEntry { key: String::new(), status: 1 },
        ]
    );
}

#[test]
fn every_shape_gives_the_same_tokens() {
    let list = r#"[{ "key": "sk-x", "status": 1 }]"#;
    let expected = vec![TokenEntry { key: "sk-x".to_string(), status: 1 }];
    for text in [
        list.to_string(),
        format!(r#"{{ "data": {} }}"#, list),
        format!(r#"{{ "data": {{ "items": {} }} }}"#, list),
        format!(r#"{{ "data": {{ "data": {} }} }}"#, list),
        format!(r#"{{ "data": {{ "items": 3, "data": {} }} }}"#, list),
    ] {
        assert_eq!(parse_token_entries(&json(&text)), expected);
    }
    assert!(parse_token_entries(&json(r#"{ "items": [{ "key": "sk-x" }] }"#)).is_empty());
    assert!(parse_token_entries(&json("null")).is_empty());
}

#[test]
fn sub2api_needs_no_request() {
    match plan_key_fetch("https://s.example", "sub2api", "jwt", 1) {
        KeyPlan::Known(key) => assert_eq!(key, "jwt"),
        KeyPlan::Ask { .. } => panic!("asked"),
    }
}

#[test]
fn other_sites_are_asked_for_their_tokens() {
    for site in ["https://s.example", "https://s.example/", "https://s.example///"] {
        match plan_key_fetch(site, "new-api", "tok", 5) {
            KeyPlan::Known(_) => panic!("known"),
            KeyPlan::Ask { url, headers } => {
                assert_eq!(url, "https://s.example/api/token/?p=0&size=100");
                assert_eq!(headers.get("authorization").unwrap(), "tok");
                assert_eq!(headers.get("neo-api-user").unwrap(), "5");
            }
        }
    }
}

fn failure(response: Result<u16, String>) -> Option<String> {
    match on_key_response("https://s/", response) {
        KeyStep::Failed(e) => Some(e),
        KeyStep::ReadBody => None,
    }
}

#[test]
fn answers_without_success_fail() {
    assert_eq!(
        failure(Err("refused".to_string())),
        Some("Failed to fetch tokens from https://s/: refused".to_string())
    );
    assert_eq!(
        failure(Ok(401)),
        Some("Auth failed fetching tokens from https://s/ (HTTP 401)".to_string())
    );
    assert_eq!(
        failure(Ok(403)),
        Some("Auth failed fetching tokens from https://s/ (HTTP 403)".to_string())
    );
    assert_eq!(
        failure(Ok(500)),
        Some("Unexpected status 500 fetching tokens from https://s/".to_string())
    );
    assert_eq!(
        failure(Ok(199)),
        Some("Unexpected status 199 fetching tokens from https://s/".to_string())
    );
    assert_eq!(
        failure(Ok(300)),
        Some("Unexpected status 300 fetching tokens from https://s/".to_string())
    );
    assert_eq!(failure(Ok(200)), None);
    assert_eq!(failure(Ok(299)), None);
}

#[test]
fn bodies_without_a_usable_key_fail() {
    let key = |text: &str| on_key_body("https://s", Ok(json(text)));
    assert_eq!(
        on_key_body("https://s", Err("eof".to_string())),
        Err("Failed to parse token response from https://s: eof".to_string())
    );
    assert_eq!(
        key(r#"{ "success": false, "message": "expired" }"#),
        Err("https://s responded: expired".to_string())
    );
    assert_eq!(
        key(r#"{ "success": false, "data": [{ "key": "sk-a" }] }"#),
        Err("https://s responded: unknown error".to_string())
    );
    assert_eq!(key("{}"), Err("No tokens returned from https://s".to_string()));
    assert_eq!(
        key(r#"[{ "key": "sk-a", "status": 2 }]"#),
        Err("No enabled tokens found on https://s".to_string())
    );
    assert_eq!(
        key(r#"{ "success": "no", "data": [{ "key": "" }, { "key": "sk-a" }] }"#),
        Ok("sk-a".to_string())
    );
}

#[test]
fn retry_after_reads_seconds() {
    let with = |value: &[u8]| {
        let mut headers = HeaderMap::new();
        headers.insert("Retry-After", HeaderValue::from_bytes(value).unwrap());
        retry_after(&headers)
    };
    assert_eq!(retry_after(&HeaderMap::new()), None);
    assert_eq!(with(b"120"), Some(120));
    assert_eq!(with(b"+7"), Some(7));
    assert_eq!(with(b"18446744073709551615"), Some(u64::MAX));
    assert_eq!(with(b"18446744073709551616"), None);
    assert_eq!(with(b""), None);
    assert_eq!(with(b"+"), None);
    assert_eq!(with(b"-1"), None);
    assert_eq!(with(b"1.5"), None);
    assert_eq!(with(b" 5"), None);
    assert_eq!(with(b"Wed, 21 Oct 2015 07:28:00 GMT"), None);
    assert_eq!(with(&[0xff]), None);
    let mut twice = HeaderMap::new();
    twice.append("retry-after", HeaderValue::from_static("3"));
    twice.append("retry-after", HeaderValue::from_static("4"));
    assert_eq!(retry_after(&twice), Some(3));
}
