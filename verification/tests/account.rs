use api_proxy::account::{
    apply_fetched_keys, can_preview, key_preview, plan_account_key, propagate_keys, report_refresh,
    AccountInfo, SiteAccount,
};
use api_proxy::key_fetcher::KeyPlan;

fn account(id: &str, site_type: &str, api_key: Option<&str>) -> SiteAccount {
    SiteAccount {
        id: id.to_string(),
        site_name: format!("site {}", id),
        site_url: format!("https://{}/", id),
        site_type: site_type.to_string(),
        disabled: None,
        account_info: AccountInfo {
            id: 9,
            access_token: format!("tok-{}", id),
            api_key: api_key.map(|k| k.to_string()),
        },
    }
}

#[test]
fn account_keys_are_planned() {
    match plan_account_key(&account("a", "one-api", None)) {
        KeyPlan::Ask { url, headers } => {
            assert_eq!(url, "https://a/api/token/?p=0&size=100");
            assert_eq!(headers.get("authorization").unwrap(), "tok-a");
            assert_eq!(headers.get("new-api-user").unwrap(), "9");
        }
        KeyPlan::Known(_) => panic!("known"),
    }
    match plan_account_key(&account("a", "sub2api", None)) {
        KeyPlan::Known(key) => assert_eq!(key, "tok-a"),
        KeyPlan::Ask { .. } => panic!("asked"),
    }
}

#[test]
fn fetched_keys_are_set_and_failures_keep_the_account() {
    let accounts = vec![
        account("a", "x", None),
        account("b", "x", Some("old")),
        account("c", "x", Some("old")),
        account("d", "x", None),
    ];
    let fetched = vec![
        Some(Ok("new-a".to_string())),
        Some(Ok("new-b".to_string())),
        Some(Err("down".to_string())),
        None,
    ];
    assert_eq!(
        apply_fetched_keys(accounts, fetched),
        vec![
            account("a", "x", Some("new-a")),
            account("b", "x", Some("new-b")),
            account("c", "x", Some("old")),
            account("d", "x", None),
        ]
    );
}

#[test]
fn keys_are_carried_over_by_id() {
    let accounts = vec![
        account("a", "x", Some("ka")),
        account("b", "x", None),
        account("d", "x", Some("first")),
        account("d", "x", Some("last")),
    ];
    let proxy = vec![
        account("b", "y", Some("stale")),
        account("z", "y", Some("own")),
        account("a", "y", None),
        account("d", "y", None),
    ];
    assert_eq!(
        propagate_keys(&accounts, proxy),
        vec![
            account("b", "y", None),
            account("z", "y", Some("own")),
            account("a", "y", Some("ka")),
            account("d", "y", Some("last")),
        ]
    );
}

#[test]
fn long_keys_are_shortened() {
    assert_eq!(key_preview("sk-0123456789"), "sk-01234...6789");
    assert_eq!(key_preview("sk-012345678"), "sk-012345678");
    assert_eq!(key_preview(""), "");
    assert_eq!(key_preview("ééééééé"), "éééé...éé");
    assert!(can_preview("ééééééé"));
    assert!(can_preview("ééé"));
    assert!(!can_preview("aéééééééé"));
    assert!(!can_preview("aaaaaaaaaéaaaé€"));
}

#[test]
fn a_refresh_is_reported() {
    let accounts = vec![
        account("a", "new-api", Some("sk-0123456789")),
        account("b", "new-api", None),
        account("c", "sub2api", Some("short")),
        account("d", "sub2api", None),
        account("e", "one-hub", Some("k")),
    ];
    let expected: serde_json::Value = serde_json::from_str(
        r#"{
            "success": 2, "failed": 1, "skipped": 2, "total": 5,
            "accounts": [
                { "id": "a", "site_name": "site a", "site_type": "new-api",
                  "has_api_key": true, "api_key_preview": "sk-01234...6789" },
                { "id": "b", "site_name": "site b", "site_type": "new-api",
                  "has_api_key": false, "api_key_preview": null },
                { "id": "c", "site_name": "site c", "site_type": "sub2api",
                  "has_api_key": true, "api_key_preview": "short" },
                { "id": "d", "site_name": "site d", "site_type": "sub2api",
                  "has_api_key": false, "api_key_preview": null },
                { "id": "e", "site_name": "site e", "site_type": "one-hub",
                  "has_api_key": true, "api_key_preview": "k" }
            ]
        }"#,
    )
    .unwrap();
    assert_eq!(report_refresh(&accounts).into_value(), expected);
}

#[test]
fn a_refresh_of_nothing_is_reported() {
    let expected: serde_json::Value = serde_json::from_str(
        r#"{ "success": 0, "failed": 0, "skipped": 0, "total": 0, "accounts": [] }"#,
    )
    .unwrap();
    assert_eq!(report_refresh(&Vec::new()).into_value(), expected);
}
