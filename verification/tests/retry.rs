use api_proxy::openai::Refusal;
use api_proxy::retry::{Account, Answer, Attempt, Backoff, Effect, Ending, Next, Reply, Selection};

fn account(id: &str) -> Option<Account> {
    Some(Account { account_id: id.to_string(), site_url: format!("https://{}", id) })
}

fn answer(status: u16) -> Answer {
    Answer { status, rotate: false, auth_error: false, retry_after: None }
}

fn rotating(status: u16) -> Answer {
    Answer { rotate: true, ..answer(status) }
}

fn refused(status: u16) -> Answer {
    Answer { auth_error: true, ..rotating(status) }
}

fn begin(max_retries: usize) -> Selection {
    Selection::new(false, Some("gpt-4".to_string()), max_retries)
}

fn attempt(selection: Selection, id: &str) -> Attempt {
    match selection.proceed(account(id)) {
        Ok(a) => a,
        Err(_) => panic!("run is over"),
    }
}

fn ended(next: Next) -> Ending {
    match next {
        Next::Ended(e) => e,
        _ => panic!("run goes on"),
    }
}

fn waits(next: Next) -> Backoff {
    match next {
        Next::Wait(b) => b,
        _ => panic!("run does not wait"),
    }
}

fn again(next: Next) -> Selection {
    match next {
        Next::Again(s) => s,
        _ => panic!("no other account"),
    }
}

fn name(s: &str) -> String {
    s.to_string()
}

fn ending(reply: Reply, site: Option<&str>) -> Ending {
    Ending { reply, upstream_url: site.map(name) }
}

fn refuse(status: u16, message: &str) -> Reply {
    Reply::Refuse(Refusal { status, message: message.to_string() })
}

#[test]
fn a_run_begins_without_failures() {
    let s = begin(3);
    assert!(s.failed_accounts().is_empty());
    assert_eq!(s.model(), Some("gpt-4"));
    assert_eq!(Selection::new(true, None, 0).model(), None);
}

#[test]
fn without_accounts_the_client_is_refused() {
    match begin(3).proceed(None) {
        Err(e) => assert_eq!(e, ending(refuse(503, "No available accounts"), None)),
        Ok(_) => panic!("no account was chosen"),
    }
}

#[test]
fn success_is_relayed() {
    let out = attempt(begin(3), "a").on_answer(answer(200));
    assert_eq!(out.effects, vec![Effect::Success { account: name("a") }]);
    assert_eq!(ended(out.next), ending(Reply::Relay, Some("https://a")));
    let out = attempt(begin(3), "a").on_answer(refused(299));
    assert_eq!(out.effects, vec![Effect::Success { account: name("a") }]);
}

#[test]
fn streams_are_passed_on() {
    let s = Selection::new(true, None, 0);
    let out = attempt(s, "a").on_answer(answer(201));
    assert_eq!(ended(out.next), ending(Reply::Stream, Some("https://a")));
}

#[test]
fn errors_that_call_for_no_other_account_are_relayed() {
    let out = attempt(begin(3), "a").on_answer(answer(400));
    assert!(out.effects.is_empty());
    assert_eq!(ended(out.next), ending(Reply::Relay, Some("https://a")));
    let out = attempt(begin(3), "a").on_answer(answer(500));
    assert_eq!(out.effects, vec![Effect::ServerFailed { account: name("a") }]);
    assert_eq!(ended(out.next), ending(Reply::Relay, Some("https://a")));
    let out = attempt(begin(3), "a").on_answer(answer(199));
    assert!(out.effects.is_empty());
}

#[test]
fn rate_limits_rotate_the_account() {
    let a = attempt(begin(1), "a");
    assert_eq!(a.account_id(), "a");
    assert_eq!(a.number(), 0);
    let out = a.on_answer(Answer { retry_after: Some(30), ..rotating(429) });
    assert_eq!(
        out.effects,
        vec![Effect::RateLimited { account: name("a"), status: 429, retry_after: Some(30) }]
    );
    let backoff = waits(out.next);
    assert_eq!(backoff.number(), 0);
    let s = match backoff.resume(true) {
        Ok(s) => s,
        Err(_) => panic!("run is over"),
    };
    assert_eq!(s.failed_accounts(), &vec![name("a")]);
    let second = attempt(s, "b");
    assert_eq!(second.number(), 1);
    let out = second.on_answer(rotating(429));
    assert!(out.effects.is_empty());
    assert_eq!(ended(out.next), ending(Reply::Relay, Some("https://b")));
}

#[test]
fn without_leave_the_last_answer_is_relayed() {
    let out = attempt(begin(2), "a").on_answer(rotating(503));
    match waits(out.next).resume(false) {
        Err(e) => assert_eq!(e, ending(Reply::Relay, Some("https://a"))),
        Ok(_) => panic!("run goes on"),
    }
}

#[test]
fn no_account_left_names_the_last_site() {
    let out = attempt(begin(2), "a").on_answer(rotating(500));
    let s = match waits(out.next).resume(true) {
        Ok(s) => s,
        Err(_) => panic!("run is over"),
    };
    match s.proceed(None) {
        Err(e) => {
            assert_eq!(e, ending(refuse(503, "No available accounts"), Some("https://a")))
        }
        Ok(_) => panic!("no account was chosen"),
    }
}

#[test]
fn refused_credentials_are_recorded() {
    let out = attempt(begin(1), "a").on_answer(refused(401));
    assert_eq!(out.effects, vec![Effect::AuthFailed { account: name("a"), status: 401 }]);
    let s = match waits(out.next).resume(true) {
        Ok(s) => s,
        Err(_) => panic!("run is over"),
    };
    let out = attempt(s, "b").on_answer(refused(403));
    assert_eq!(out.effects, vec![Effect::AuthFailed { account: name("b"), status: 403 }]);
    assert_eq!(
        ended(out.next),
        ending(refuse(503, "All upstream accounts failed authentication"), Some("https://b"))
    );
}

#[test]
fn missing_models_are_forgotten() {
    let out = attempt(begin(1), "a").on_answer(rotating(404));
    assert_eq!(
        out.effects,
        vec![
            Effect::StaleModels { account: name("a") },
            Effect::ForgetModel { account: name("a"), model: name("gpt-4") },
            Effect::RateLimited { account: name("a"), status: 404, retry_after: None },
        ]
    );
    let out = attempt(Selection::new(false, None, 0), "a").on_answer(answer(404));
    assert_eq!(out.effects, vec![Effect::StaleModels { account: name("a") }]);
    assert_eq!(ended(out.next), ending(Reply::Relay, Some("https://a")));
}

#[test]
fn failed_connections_go_on_at_once() {
    let out = attempt(begin(1), "a").on_failure("refused");
    assert_eq!(out.effects, vec![Effect::ConnectionFailed { account: name("a") }]);
    let s = again(out.next);
    assert_eq!(s.failed_accounts(), &vec![name("a")]);
    let out = attempt(s, "b").on_failure("timeout");
    assert_eq!(out.effects, vec![Effect::ConnectionFailed { account: name("b") }]);
    assert_eq!(
        ended(out.next),
        ending(refuse(502, "Upstream error: timeout"), Some("https://b"))
    );
}

#[test]
fn a_run_sends_one_request_more_than_it_may_retry() {
    for max_retries in 0..5 {
        let mut selection = begin(max_retries);
        let mut sent = 0;
        loop {
            let tried: Vec<String> = (0..sent).map(|i| format!("acc{}", i)).collect();
            assert_eq!(selection.failed_accounts(), &tried);
            let a = attempt(selection, &format!("acc{}", sent));
            sent += 1;
            let out = if sent % 2 == 0 { a.on_failure("x") } else { a.on_answer(rotating(500)) };
            selection = match out.next {
                Next::Ended(_) => break,
                Next::Again(s) => s,
                Next::Wait(b) => match b.resume(true) {
                    Ok(s) => s,
                    Err(_) => panic!("run is over"),
                },
            };
        }
        assert_eq!(sent, max_retries + 1);
    }
}

#[test]
fn the_first_success_after_failures_is_relayed() {
    let s = again(attempt(begin(2), "a").on_failure("refused").next);
    let s = match waits(attempt(s, "b").on_answer(rotating(500)).next).resume(true) {
        Ok(s) => s,
        Err(_) => panic!("run is over"),
    };
    assert_eq!(s.failed_accounts(), &vec![name("a"), name("b")]);
    let out = attempt(s, "c").on_answer(answer(200));
    assert_eq!(out.effects, vec![Effect::Success { account: name("c") }]);
    assert_eq!(ended(out.next), ending(Reply::Relay, Some("https://c")));
}
