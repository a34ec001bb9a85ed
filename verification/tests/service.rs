use api_proxy::account::{AccountInfo, SiteAccount};
use api_proxy::json::Json;
use api_proxy::service::{
    check_start, check_stop, check_url, find_replay, on_check_body, on_check_failure,
    on_check_status, replay_client_error, replay_error, replay_url, report_extension, report_logs,
    report_replay, report_status, some_accounts, start_error, stats_error, stored_accounts, take_accounts,
    CheckFailure, CheckStep, ExtensionProfile, LoggedRequest, ProxyServiceState, Replay,
};

fn value(text: &str) -> serde_json::Value {
    serde_json::from_str(text).unwrap()
}

fn json(text: &str) -> Json {
    Json::from_text(text).unwrap()
}

#[test]
fn the_state_keeps_both_parts_or_none() {
    let mut state: ProxyServiceState<u8, &str> = ProxyServiceState::new();
    assert_eq!(state, ProxyServiceState { monitor: None, token_manager: None });
    state.started(7, "tm");
    assert_eq!(state, ProxyServiceState { monitor: Some(7), token_manager: Some("tm") });
    state.stopped();
    assert_eq!(state, ProxyServiceState::new());
}

#[test]
fn starting_and_stopping_exclude_each_other() {
    assert_eq!(check_start(false), Ok(()));
    assert_eq!(check_start(true), Err("Proxy is already running".to_string()));
    assert_eq!(check_stop(true), Ok(()));
    assert_eq!(check_stop(false), Err("Proxy is not running".to_string()));
    assert_eq!(start_error("port in use"), "Failed to start proxy: port in use");
    assert_eq!(stats_error("bad key"), "Failed to serialize stats: bad key");
}

#[test]
fn status_and_logs_are_reported() {
    assert_eq!(report_status(true).into_value(), value(r#"{"running": true}"#));
    assert_eq!(report_status(false).into_value(), value(r#"{"running": false}"#));
    assert_eq!(report_logs(None).into_value(), value(r#"{"total": 0, "logs": []}"#));
    assert_eq!(
        report_logs(Some((12, json(r#"[{"id": "x"}]"#)))).into_value(),
        value(r#"{"total": 12, "logs": [{"id": "x"}]}"#)
    );
    assert_eq!(
        report_logs(Some((u64::MAX, json("[]")))).into_value(),
        value(r#"{"total": 18446744073709551615, "logs": []}"#)
    );
}

fn logged(method: &str, body: Option<&str>) -> Option<Option<LoggedRequest>> {
    Some(Some(LoggedRequest {
        method: method.to_string(),
        url: "/v1/x?y=1".to_string(),
        request_body: body.map(|b| b.to_string()),
    }))
}

fn replay(method: &str) -> Replay {
    Replay {
        method: method.to_string(),
        url: "/v1/x?y=1".to_string(),
        body: "{}".to_string(),
    }
}

#[test]
fn logged_requests_are_found() {
    assert_eq!(find_replay("7", None), Err("Proxy not running".to_string()));
    assert_eq!(find_replay("7", Some(None)), Err("Log 7 not found".to_string()));
    assert_eq!(
        find_replay("7", logged("POST", None)),
        Err("No request body captured for this log".to_string())
    );
    assert_eq!(find_replay("7", logged("PUT", Some("{}"))), Ok(replay("PUT")));
    assert_eq!(find_replay("7", logged("x-own!", Some("{}"))), Ok(replay("x-own!")));
}

#[test]
fn what_is_no_method_is_posted() {
    assert_eq!(find_replay("7", logged("", Some("{}"))), Ok(replay("POST")));
    assert_eq!(find_replay("7", logged("GET ", Some("{}"))), Ok(replay("POST")));
    assert_eq!(find_replay("7", logged("GÉT", Some("{}"))), Ok(replay("POST")));
    assert_eq!(find_replay("7", logged("G(T", Some("{}"))), Ok(replay("POST")));
}

#[test]
fn replays_go_to_the_proxy() {
    assert_eq!(replay_url(8045, "/v1/x?y=1"), "http://127.0.0.1:8045/v1/x?y=1");
    assert_eq!(replay_url(0, ""), "http://127.0.0.1:0");
    assert_eq!(replay_client_error("tls"), "Failed to build HTTP client: tls");
    assert_eq!(replay_error("refused"), "Replay request failed: refused");
}

#[test]
fn replays_are_reported() {
    assert_eq!(
        report_replay(201, Ok("done".to_string())).into_value(),
        value(r#"{"status": 201, "body": "done"}"#)
    );
    assert_eq!(
        report_replay(200, Err("eof".to_string())).into_value(),
        value(r#"{"status": 200, "body": "Failed to read response: eof"}"#)
    );
}

#[test]
fn keys_are_checked_at_the_site() {
    for site_type in ["one-hub", "done-hub", "sub2api", "new-api", ""] {
        assert_eq!(check_url("https://s/", site_type), "https://s/v1/models");
        assert_eq!(check_url("https://s", site_type), "https://s/v1/models");
    }
}

fn status_report(status: u16) -> Option<serde_json::Value> {
    match on_check_status(status) {
        CheckStep::Report(v) => Some(v.into_value()),
        CheckStep::ReadBody => None,
    }
}

#[test]
fn refused_keys_are_not_valid() {
    assert_eq!(
        status_report(401),
        Some(value(
            r#"{"valid": false, "model_count": 0, "error": "Authentication failed (HTTP 401)"}"#
        ))
    );
    assert_eq!(
        status_report(403),
        Some(value(
            r#"{"valid": false, "model_count": 0, "error": "Authentication failed (HTTP 403)"}"#
        ))
    );
    assert_eq!(
        status_report(500),
        Some(value(
            r#"{"valid": false, "model_count": 0, "error": "Upstream returned HTTP 500"}"#
        ))
    );
    assert_eq!(status_report(200), None);
}

#[test]
fn accepted_keys_are_valid() {
    let of = |body: Option<Json>| on_check_body(body).into_value();
    let valid = |n: u32| {
        value(&format!(r#"{{"valid": true, "model_count": {}, "error": null}}"#, n))
    };
    assert_eq!(of(None), valid(0));
    assert_eq!(of(Some(json("[1]"))), valid(0));
    assert_eq!(of(Some(json(r#"{"data": 3}"#))), valid(0));
    assert_eq!(of(Some(json(r#"{"data": [1, {}, "x"]}"#))), valid(3));
    assert_eq!(of(Some(json(r#"{"data": {"a": 1, "b": 2}}"#))), valid(2));
}

#[test]
fn checks_that_were_not_sent_are_reported() {
    let error = |failure: CheckFailure| on_check_failure(failure).into_value();
    assert_eq!(
        error(CheckFailure::TimedOut),
        value(r#"{"valid": false, "model_count": 0, "error": "Connection timed out"}"#)
    );
    assert_eq!(
        error(CheckFailure::NotConnected),
        value(r#"{"valid": false, "model_count": 0, "error": "Failed to connect to upstream"}"#)
    );
    assert_eq!(
        error(CheckFailure::Other("bad url".to_string())),
        value(r#"{"valid": false, "model_count": 0, "error": "Request failed: bad url"}"#)
    );
}

#[test]
fn extension_profiles_are_reported() {
    assert_eq!(
        report_extension(&Vec::new()).into_value(),
        value(r#"{"found": false, "profiles": [], "extension_id": ""}"#)
    );
    let profile = |name: &str, id: &str| ExtensionProfile {
        profile_name: name.to_string(),
        extension_id: id.to_string(),
        path: format!("/p/{}", name),
    };
    assert_eq!(
        report_extension(&vec![profile("Default", "abc"), profile("Work", "def")]).into_value(),
        value(
            r#"{"found": true, "extension_id": "abc", "profiles": [
                {"profile_name": "Default", "extension_id": "abc", "path": "/p/Default"},
                {"profile_name": "Work", "extension_id": "def", "path": "/p/Work"}]}"#
        )
    );
}

#[test]
fn stored_accounts_are_read() {
    assert_eq!(
        stored_accounts(r#"{"configVersion": 2, "accounts": [{"id": 1}, 5]}"#),
        Ok(vec![json(r#"{"id": 1}"#), json("5")])
    );
    let missing = Err("Extension storage does not contain an 'accounts' array".to_string());
    assert_eq!(stored_accounts("{}"), missing);
    assert_eq!(stored_accounts(r#"{"accounts": {}}"#), missing);
    assert_eq!(stored_accounts(r#"["accounts"]"#), missing);
    assert_eq!(take_accounts(json(r#"{"a": 1, "accounts": [], "b": 2}"#)), Ok(Vec::new()));
    let broken = serde_json::from_str::<serde_json::Value>("{").unwrap_err().to_string();
    assert_eq!(
        stored_accounts("{"),
        Err(format!("Failed to parse extension storage JSON: {}", broken))
    );
}

#[test]
fn some_accounts_must_be_found() {
    assert_eq!(
        some_accounts(Vec::new()),
        Err("No accounts found in extension storage".to_string())
    );
    let account = || SiteAccount {
        id: "a".to_string(),
        site_name: String::new(),
        site_url: String::new(),
        site_type: String::new(),
        disabled: None,
        account_info: AccountInfo { id: 1, access_token: String::new(), api_key: None },
    };
    assert_eq!(some_accounts(vec![account()]), Ok(vec![account()]));
}
