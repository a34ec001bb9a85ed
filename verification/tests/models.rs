use api_proxy::account::{AccountInfo, SiteAccount};
use api_proxy::json::Json;
use api_proxy::models::{
    bearer, client_error, collect_models, first_source, models_from_answer, next_source, on_guard,
    on_lookup, parse_models, plan_model_fetch, should_populate, source_url, AccountModels,
    GuardStep, Lookup, ModelSource, ModelTask, Place, Stage,
};

fn names(list: &[&str]) -> Vec<String> {
    list.iter().map(|s| s.to_string()).collect()
}

fn json(text: &str) -> Json {
    Json::from_text(text).unwrap()
}

#[test]
fn endpoints_depend_on_the_site() {
    assert_eq!(first_source("sub2api"), None);
    assert_eq!(first_source("one-hub"), Some(ModelSource::AvailableModel));
    assert_eq!(first_source("done-hub"), Some(ModelSource::AvailableModel));
    assert_eq!(first_source("new-api"), Some(ModelSource::UserModels));
    assert_eq!(first_source(""), Some(ModelSource::UserModels));
    assert_eq!(next_source(ModelSource::UserModels, &names(&[])), Some(ModelSource::OpenAi));
    assert_eq!(next_source(ModelSource::UserModels, &names(&["m"])), None);
    assert_eq!(next_source(ModelSource::AvailableModel, &names(&[])), None);
    assert_eq!(next_source(ModelSource::OpenAi, &names(&[])), None);
}

#[test]
fn endpoint_addresses() {
    assert_eq!(source_url(ModelSource::UserModels, "https://s//"), "https://s/api/user/models");
    assert_eq!(source_url(ModelSource::AvailableModel, "https://s"), "https://s/api/available_model");
    assert_eq!(source_url(ModelSource::OpenAi, "https://s/x"), "https://s/x/v1/models");
    assert_eq!(source_url(ModelSource::OpenAi, ""), "/v1/models");
    assert_eq!(bearer("tok"), "Bearer tok");
}

#[test]
fn user_models_are_strings() {
    let body = json(r#"{"success": true, "data": ["b", 3, "a", null, "b"]}"#);
    assert_eq!(parse_models(ModelSource::UserModels, &body), names(&["b", "a", "b"]));
    assert!(parse_models(ModelSource::UserModels, &json(r#"{"data": {"a": 1}}"#)).is_empty());
    assert!(parse_models(ModelSource::UserModels, &json(r#"["a"]"#)).is_empty());
}

#[test]
fn available_models_are_keys() {
    let body = json(r#"{"data": {"gpt-4": {}, "command-r": {"x": 1}, "a": null}}"#);
    assert_eq!(
        parse_models(ModelSource::AvailableModel, &body),
        names(&["a", "command-r", "gpt-4"])
    );
    assert!(parse_models(ModelSource::AvailableModel, &json(r#"{"data": ["a"]}"#)).is_empty());
}

#[test]
fn openai_models_have_an_id() {
    let body = json(r#"{"data": [{"id": "m1"}, {"name": "x"}, {"id": 2}, "m3", {"id": "m0"}]}"#);
    assert_eq!(parse_models(ModelSource::OpenAi, &body), names(&["m1", "m0"]));
}

#[test]
fn only_answers_of_success_list_models() {
    let body = || Some(json(r#"{"data": ["m"]}"#));
    let of = |status, body| models_from_answer(ModelSource::UserModels, status, body);
    assert_eq!(of(Some(200), body()), names(&["m"]));
    assert_eq!(of(Some(299), body()), names(&["m"]));
    assert!(of(Some(300), body()).is_empty());
    assert!(of(Some(401), body()).is_empty());
    assert!(of(None, body()).is_empty());
    assert!(of(Some(200), None).is_empty());
}

fn account(id: &str, disabled: Option<bool>, token: &str) -> SiteAccount {
    SiteAccount {
        id: id.to_string(),
        site_name: String::new(),
        site_url: format!("https://{}", id),
        site_type: "new-api".to_string(),
        disabled,
        account_info: AccountInfo { id: 1, access_token: token.to_string(), api_key: None },
    }
}

fn task(id: &str, token: &str) -> ModelTask {
    ModelTask {
        account_id: id.to_string(),
        site_url: format!("https://{}", id),
        site_type: "new-api".to_string(),
        access_token: token.to_string(),
    }
}

#[test]
fn enabled_accounts_with_a_token_are_asked() {
    let accounts = vec![
        account("a", None, "t1"),
        account("b", Some(true), "t2"),
        account("c", Some(false), "t3"),
        account("d", None, ""),
    ];
    assert_eq!(plan_model_fetch(&accounts), Some(vec![task("a", "t1"), task("c", "t3")]));
    assert_eq!(plan_model_fetch(&vec![account("b", Some(true), "t")]), None);
    assert_eq!(plan_model_fetch(&Vec::new()), None);
}

fn found(id: &str, models: &[&str]) -> AccountModels {
    AccountModels { account_id: id.to_string(), models: names(models) }
}

#[test]
fn results_are_merged_and_sorted() {
    let collected = collect_models(vec![
        Some(found("a", &["z", "m", "z"])),
        None,
        Some(found("b", &[])),
        Some(found("c", &["é", "a", "m", "Z"])),
    ]);
    assert_eq!(
        collected.cached,
        vec![found("a", &["m", "z"]), found("c", &["Z", "a", "m", "é"])]
    );
    assert_eq!(collected.models, names(&["Z", "a", "m", "z", "é"]));
    let mut sorted = collected.models.clone();
    sorted.sort();
    assert_eq!(collected.models, sorted);
    assert!(collect_models(Vec::new()).models.is_empty());
}

#[test]
fn places_are_asked_in_order() {
    let empty = Vec::new;
    assert_eq!(on_lookup(Stage::Registry, empty()), Lookup::Go(Place::Memory));
    assert_eq!(on_lookup(Stage::Memory, empty()), Lookup::Go(Place::Disk));
    assert_eq!(on_lookup(Stage::Disk, empty()), Lookup::Go(Place::Guard));
    assert_eq!(on_lookup(Stage::Rechecked, empty()), Lookup::Go(Place::Upstreams));
    assert_eq!(
        on_lookup(Stage::Contended, empty()),
        Lookup::Return { models: empty(), populate: false }
    );
    for (stage, populate) in [
        (Stage::Registry, false),
        (Stage::Memory, false),
        (Stage::Disk, true),
        (Stage::Contended, false),
        (Stage::Rechecked, false),
    ] {
        assert_eq!(
            on_lookup(stage, names(&["m"])),
            Lookup::Return { models: names(&["m"]), populate }
        );
    }
    assert_eq!(on_guard(true), GuardStep::Recheck);
    assert_eq!(on_guard(false), GuardStep::Pause { seconds: 2 });
}

#[test]
fn an_empty_registry_is_populated() {
    assert!(should_populate(Some(&Vec::new())));
    assert!(!should_populate(Some(&names(&["m"]))));
    assert!(!should_populate(None));
}

#[test]
fn client_failures_have_a_message() {
    assert_eq!(client_error("tls"), "Failed to create HTTP client: tls");
}
