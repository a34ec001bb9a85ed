//! The commands of the application: starting and stopping the proxy, its status and logs,
//! replaying a logged request, checking an API key, and reading the accounts that a browser
//! extension has stored.

use vstd::prelude::*;

use crate::account::SiteAccount;
use crate::json::{member, record_of, Json, JsonView, Member};
use crate::models::{source_url, ModelSource};
use crate::text::{same_text, unsigned_text};

verus! {

/// What the application keeps of a proxy that is running: its monitor and its token manager.
#[derive(Debug, PartialEq)]
pub struct ProxyServiceState<M, T> {
    pub monitor: Option<M>,
    pub token_manager: Option<T>,
}

impl<M, T> ProxyServiceState<M, T> {
    /// Whether both parts are kept, or neither is.
    pub open spec fn consistent(self) -> bool {
        self.monitor is Some <==> self.token_manager is Some
    }

    /// The state before the proxy was started.
    pub fn new() -> (r: Self)
        ensures
            r.monitor is None,
            r.token_manager is None,
            r.consistent(),
    {
        ProxyServiceState { monitor: None, token_manager: None }
    }

    /// Keeps the parts of a proxy that was started.
    pub fn started(&mut self, monitor: M, token_manager: T)
        ensures
            final(self).monitor == Some(monitor),
            final(self).token_manager == Some(token_manager),
            final(self).consistent(),
    {
        self.monitor = Some(monitor);
        self.token_manager = Some(token_manager);
    }

    /// Forgets the parts of a proxy that was stopped.
    pub fn stopped(&mut self)
        ensures
            final(self).monitor is None,
            final(self).token_manager is None,
            final(self).consistent(),
    {
        self.monitor = None;
        self.token_manager = None;
    }
}

/// Whether the proxy may be started: it must not be running.
pub fn check_start(running: bool) -> (r: Result<(), String>)
    ensures
        r is Ok <==> !running,
        r matches Err(e) ==> e@ == "Proxy is already running"@,
{
    if running {
        Err("Proxy is already running".to_owned())
    } else {
        Ok(())
    }
}

/// The message of a failure to start the proxy.
pub fn start_error(error: &str) -> (r: String)
    ensures
        r@ == "Failed to start proxy: "@ + error@,
{
    "Failed to start proxy: ".to_owned().concat(error)
}

/// The message of a failure to serialize the statistics.
pub fn stats_error(error: &str) -> (r: String)
    ensures
        r@ == "Failed to serialize stats: "@ + error@,
{
    "Failed to serialize stats: ".to_owned().concat(error)
}

/// Whether the proxy may be stopped: it must be running.
pub fn check_stop(running: bool) -> (r: Result<(), String>)
    ensures
        r is Ok <==> running,
        r matches Err(e) ==> e@ == "Proxy is not running"@,
{
    if running {
        Ok(())
    } else {
        Err("Proxy is not running".to_owned())
    }
}

/// The status of the proxy.
pub open spec fn status_value(running: bool) -> JsonView {
    crate::json::object_of(seq![crate::json::field("running"@, JsonView::Bool(running))])
}

/// Reports whether the proxy is running.
pub fn report_status(running: bool) -> (r: Json)
    ensures
        r@ == status_value(running),
        crate::json::ordered(r@),
{
    let fields: Vec<Member> = vec![member("running", Json::Bool(running))];
    let ghost views = crate::json::member_views(fields@);
    assert(views =~= seq![crate::json::field("running"@, JsonView::Bool(running))]);
    proof {
        crate::json::lemma_record_ordered(views);
    }
    record_of(fields)
}

/// The logs of the proxy.
pub open spec fn logs_value(total: u64, logs: JsonView) -> JsonView {
    crate::json::object_of(
        seq![
            crate::json::field("total"@, JsonView::Number(crate::codec::number_of(total))),
            crate::json::field("logs"@, logs),
        ],
    )
}

/// Reports the logs of the proxy: their number and the list of the latest. Nothing is given
/// for a proxy that is not running, which has no logs.
pub fn report_logs(recorded: Option<(u64, Json)>) -> (r: Json)
    ensures
        recorded matches Some(p) ==> r@ == logs_value(p.0, p.1@),
        recorded is None ==> r@ == logs_value(0, JsonView::Array(Seq::empty())),
        (recorded matches Some(p) ==> crate::json::ordered(p.1@)) ==> crate::json::ordered(r@),
{
    let (total, logs): (u64, Json) = match recorded {
        Some(p) => p,
        None => {
            let none: Vec<Json> = Vec::new();
            assert(crate::json::views(none@) =~= Seq::empty());
            (0, Json::array(none))
        },
    };
    let fields: Vec<Member> = vec![member("total", Json::number(total)), member("logs", logs)];
    let ghost views = crate::json::member_views(fields@);
    assert(views =~= seq![
        crate::json::field("total"@, JsonView::Number(crate::codec::number_of(total))),
        crate::json::field("logs"@, logs@),
    ]);
    proof {
        if crate::json::ordered(logs@) {
            crate::json::lemma_record_ordered(views);
        }
    }
    record_of(fields)
}

/// A request as the monitor logged it.
#[derive(Debug, PartialEq)]
pub struct LoggedRequest {
    pub method: String,
    /// The path and query of the request.
    pub url: String,
    pub request_body: Option<String>,
}

/// A logged request that can be sent again.
#[derive(Debug, PartialEq)]
pub struct Replay {
    pub method: String,
    pub url: String,
    pub body: String,
}

/// Whether bytes form an HTTP method.
pub open spec fn is_method(s: Seq<u8>) -> bool {
    s.len() > 0 && forall|i: int|
        0 <= i < s.len() ==> crate::headers::is_token_byte(#[trigger] s[i])
}

/// `Method::from_bytes`. Claimed: it accepts one or more token characters and no other bytes.
#[verifier::external_body]
fn valid_method(src: &[u8]) -> (r: bool)
    ensures
        r == is_method(src@),
{
    reqwest::Method::from_bytes(src).is_ok()
}

/// The method with which a logged request is sent again: its own, or `POST` where that is
/// none.
pub open spec fn replay_method(method: Seq<char>) -> Seq<char> {
    if is_method(vstd::utf8::encode_utf8(method)) {
        method
    } else {
        "POST"@
    }
}

/// Finds the request to send again. `log` is missing where the proxy is not running, and holds
/// nothing where there is no such log.
pub fn find_replay(log_id: &str, log: Option<Option<LoggedRequest>>) -> (r: Result<Replay, String>)
    ensures
        log is None ==> (r matches Err(e) && e@ == "Proxy not running"@),
        log == Some(None::<LoggedRequest>) ==> (r matches Err(e) && e@ == "Log "@ + log_id@
            + " not found"@),
        log matches Some(Some(l)) ==> match l.request_body {
            None => r matches Err(e) && e@ == "No request body captured for this log"@,
            Some(body) => r matches Ok(p) && p.method@ == replay_method(l.method@) && p.url@
                == l.url@ && p.body@ == body@,
        },
{
    match log {
        None => Err("Proxy not running".to_owned()),
        Some(None) => Err("Log ".to_owned().concat(log_id).concat(" not found")),
        Some(Some(l)) => match l.request_body {
            None => Err("No request body captured for this log".to_owned()),
            Some(body) => {
                let method: String = if valid_method(l.method.as_str().as_bytes()) {
                    l.method
                } else {
                    "POST".to_owned()
                };
                Ok(Replay { method, url: l.url, body })
            },
        },
    }
}

/// The address at which the proxy takes a request that is sent again.
pub fn replay_url(port: u16, url: &str) -> (r: String)
    ensures
        r@ == "http://127.0.0.1:"@ + crate::text::digits(port as nat) + url@,
{
    let port: String = unsigned_text(port as u64);
    "http://127.0.0.1:".to_owned().concat(port.as_str()).concat(url)
}

/// The message of a failure to set up the client for a request that is sent again.
pub fn replay_client_error(error: &str) -> (r: String)
    ensures
        r@ == "Failed to build HTTP client: "@ + error@,
{
    "Failed to build HTTP client: ".to_owned().concat(error)
}

/// The message of a failure to send a request again.
pub fn replay_error(error: &str) -> (r: String)
    ensures
        r@ == "Replay request failed: "@ + error@,
{
    "Replay request failed: ".to_owned().concat(error)
}

/// What is shown as the body of an answer: its text, or why it could not be read.
pub open spec fn replayed_body(body: Result<Seq<char>, Seq<char>>) -> Seq<char> {
    match body {
        Ok(text) => text,
        Err(e) => "Failed to read response: "@ + e,
    }
}

/// The answer to a request that was sent again.
pub open spec fn replay_value(status: u16, body: Result<Seq<char>, Seq<char>>) -> JsonView {
    crate::json::object_of(
        seq![
            crate::json::field(
                "status"@,
                JsonView::Number(crate::codec::number_of(status as u64)),
            ),
            crate::json::field("body"@, JsonView::Str(replayed_body(body))),
        ],
    )
}

/// Reports the answer to a request that was sent again. An answer whose body could not be read
/// is no failure.
pub fn report_replay(status: u16, body: Result<String, String>) -> (r: Json)
    ensures
        r@ == replay_value(status, crate::text::result_text(body)),
        crate::json::ordered(r@),
{
    let ghost shown = crate::text::result_text(body);
    let text: String = match body {
        Ok(t) => t,
        Err(e) => "Failed to read response: ".to_owned().concat(e.as_str()),
    };
    let fields: Vec<Member> = vec![
        member("status", Json::number(status as u64)),
        member("body", Json::Str(text)),
    ];
    let ghost views = crate::json::member_views(fields@);
    assert(views =~= seq![
        crate::json::field("status"@, JsonView::Number(crate::codec::number_of(status as u64))),
        crate::json::field("body"@, JsonView::Str(replayed_body(shown))),
    ]);
    proof {
        crate::json::lemma_record_ordered(views);
    }
    record_of(fields)
}

/// The address at which an API key is checked: `/v1/models`, which takes API keys on sites of
/// every type.
pub fn check_url(site_url: &str, _site_type: &str) -> (r: String)
    ensures
        r@ == crate::models::source_address(ModelSource::OpenAi, site_url@),
{
    source_url(ModelSource::OpenAi, site_url)
}

/// Why the check of an API key could not be sent.
#[derive(Debug, PartialEq)]
pub enum CheckFailure {
    TimedOut,
    NotConnected,
    /// Any other reason, with its message.
    Other(String),
}

/// The message of a check that could not be sent.
pub open spec fn failure_message(failure: CheckFailure) -> Seq<char> {
    match failure {
        CheckFailure::TimedOut => "Connection timed out"@,
        CheckFailure::NotConnected => "Failed to connect to upstream"@,
        CheckFailure::Other(e) => "Request failed: "@ + e@,
    }
}

/// The message of an answer without success.
pub open spec fn status_message(status: u16) -> Seq<char> {
    if crate::key_fetcher::is_refusal(status) {
        "Authentication failed (HTTP "@ + crate::text::digits(status as nat) + ")"@
    } else {
        "Upstream returned HTTP "@ + crate::text::digits(status as nat)
    }
}

/// How many models the body of an answer lists: the items or the members of `data`.
pub open spec fn counted_models(body: Option<JsonView>) -> nat {
    match body {
        Some(v) => match v.get("data"@) {
            Some(JsonView::Array(items)) => items.len(),
            Some(JsonView::Object(members)) => members.len(),
            _ => 0,
        },
        None => 0,
    }
}

/// The report on an API key: a key is valid where there is no error.
pub open spec fn check_value(model_count: nat, error: Option<Seq<char>>) -> JsonView {
    crate::json::object_of(
        seq![
            crate::json::field("valid"@, JsonView::Bool(error is None)),
            crate::json::field(
                "model_count"@,
                JsonView::Number(crate::codec::number_of(model_count as u64)),
            ),
            crate::json::field("error"@, error_shown(error)),
        ],
    )
}

/// An error in a report.
pub open spec fn error_shown(error: Option<Seq<char>>) -> JsonView {
    match error {
        Some(e) => JsonView::Str(e),
        None => JsonView::Null,
    }
}

fn report_check(model_count: usize, error: Option<String>) -> (r: Json)
    ensures
        r@ == check_value(model_count as nat, crate::text::opt_text(error)),
        crate::json::ordered(r@),
{
    let ghost why = crate::text::opt_text(error);
    let valid: bool = error.is_none();
    let shown: Json = match error {
        Some(e) => Json::Str(e),
        None => Json::Null,
    };
    let fields: Vec<Member> = vec![
        member("valid", Json::Bool(valid)),
        member("model_count", Json::number(model_count as u64)),
        member("error", shown),
    ];
    let ghost views = crate::json::member_views(fields@);
    assert(views =~= seq![
        crate::json::field("valid"@, JsonView::Bool(why is None)),
        crate::json::field(
            "model_count"@,
            JsonView::Number(crate::codec::number_of(model_count as u64)),
        ),
        crate::json::field("error"@, error_shown(why)),
    ]);
    proof {
        crate::json::lemma_record_ordered(views);
    }
    record_of(fields)
}

/// What follows on the status of an answer to a check.
pub enum CheckStep {
    /// The key is reported on.
    Report(Json),
    /// The body of the answer is to be read.
    ReadBody,
}

/// Goes on with the status of the answer to a check. Only an answer of success is read.
pub fn on_check_status(status: u16) -> (r: CheckStep)
    ensures
        crate::key_fetcher::is_success(status) ==> r is ReadBody,
        !crate::key_fetcher::is_success(status) ==> (r matches CheckStep::Report(v) && v@
            == check_value(0, Some(status_message(status))) && crate::json::ordered(v@)),
{
    if 200 <= status && status < 300 {
        return CheckStep::ReadBody;
    }
    let code: String = unsigned_text(status as u64);
    let message: String = if status == 401 || status == 403 {
        "Authentication failed (HTTP ".to_owned().concat(code.as_str()).concat(")")
    } else {
        "Upstream returned HTTP ".to_owned().concat(code.as_str())
    };
    CheckStep::Report(report_check(0, Some(message)))
}

/// Reports on a key that the upstream accepted. A body that is no JSON, or lists no models, is
/// no failure.
pub fn on_check_body(body: Option<Json>) -> (r: Json)
    ensures
        r@ == check_value(counted_models(crate::codec::option_view(body)), None),
        crate::json::ordered(r@),
{
    let mut count: usize = 0;
    if let Some(v) = &body {
        if let Some(data) = v.get("data") {
            if let Some(items) = data.as_array() {
                count = items.len();
            } else if let Some(members) = data.as_object() {
                count = members.len();
            }
        }
    }
    report_check(count, None)
}

/// Reports on a key whose check could not be sent.
pub fn on_check_failure(failure: CheckFailure) -> (r: Json)
    ensures
        r@ == check_value(0, Some(failure_message(failure))),
        crate::json::ordered(r@),
{
    let message: String = match failure {
        CheckFailure::TimedOut => "Connection timed out".to_owned(),
        CheckFailure::NotConnected => "Failed to connect to upstream".to_owned(),
        CheckFailure::Other(e) => "Request failed: ".to_owned().concat(e.as_str()),
    };
    report_check(0, Some(message))
}

/// The report on an API key, from the answer to its check and the body of it.
pub open spec fn checked(
    response: Result<u16, CheckFailure>,
    body: Option<JsonView>,
) -> JsonView {
    match response {
        Err(failure) => check_value(0, Some(failure_message(failure))),
        Ok(status) => if crate::key_fetcher::is_success(status) {
            check_value(counted_models(body), None)
        } else {
            check_value(0, Some(status_message(status)))
        },
    }
}

/// A key is reported as valid exactly where the upstream answered with success, and an error
/// is reported exactly where it is not.
pub proof fn law_key_is_valid_on_success(
    response: Result<u16, CheckFailure>,
    body: Option<JsonView>,
)
    ensures
        checked(response, body).flag_at("valid"@) == Some(
            response matches Ok(status) && crate::key_fetcher::is_success(status),
        ),
        checked(response, body).get("error"@) == Some(JsonView::Null) <==> checked(
            response,
            body,
        ).flag_at("valid"@) == Some(true),
{
    let (n, error) = match response {
        Err(failure) => (0nat, Some(failure_message(failure))),
        Ok(status) => if crate::key_fetcher::is_success(status) {
            (counted_models(body), None)
        } else {
            (0nat, Some(status_message(status)))
        },
    };
    assert(checked(response, body) == check_value(n, error));
    let fields = seq![
        crate::json::field("valid"@, JsonView::Bool(error is None)),
        crate::json::field("model_count"@, JsonView::Number(crate::codec::number_of(n as u64))),
        crate::json::field("error"@, error_shown(error)),
    ];
    reveal_strlit("valid");
    reveal_strlit("model_count");
    reveal_strlit("error");
    assert("valid"@[0] != "error"@[0]);
    assert("model_count"@.len() == 11 && "valid"@.len() == 5);
    crate::json::lemma_record_find(fields, 0);
    crate::json::lemma_record_find(fields, 2);
}

/// A browser profile that has the extension.
#[derive(Debug, PartialEq)]
pub struct ExtensionProfile {
    pub profile_name: String,
    pub extension_id: String,
    pub path: String,
}

/// What an [`ExtensionProfile`] stands for.
pub struct ProfileView {
    pub profile_name: Seq<char>,
    pub extension_id: Seq<char>,
    pub path: Seq<char>,
}

impl View for ExtensionProfile {
    type V = ProfileView;

    open spec fn view(&self) -> ProfileView {
        ProfileView {
            profile_name: self.profile_name@,
            extension_id: self.extension_id@,
            path: self.path@,
        }
    }
}

/// What a list of profiles stands for.
pub open spec fn profile_views(profiles: Seq<ExtensionProfile>) -> Seq<ProfileView> {
    Seq::new(profiles.len(), |i: int| profiles[i]@)
}

/// A profile in a report.
pub open spec fn profile_value(p: ProfileView) -> JsonView {
    crate::json::object_of(
        seq![
            crate::json::field("profile_name"@, JsonView::Str(p.profile_name)),
            crate::json::field("extension_id"@, JsonView::Str(p.extension_id)),
            crate::json::field("path"@, JsonView::Str(p.path)),
        ],
    )
}

/// The identifier of the extension in the first profile that has it; empty where none has.
pub open spec fn first_extension(profiles: Seq<ProfileView>) -> Seq<char> {
    if profiles.len() > 0 {
        profiles[0].extension_id
    } else {
        ""@
    }
}

/// The report on the profiles that have the extension.
pub open spec fn extension_value(profiles: Seq<ProfileView>) -> JsonView {
    crate::json::object_of(
        seq![
            crate::json::field("found"@, JsonView::Bool(profiles.len() > 0)),
            crate::json::field("profiles"@, JsonView::Array(profile_values(profiles))),
            crate::json::field("extension_id"@, JsonView::Str(first_extension(profiles))),
        ],
    )
}

/// The profiles in a report.
pub open spec fn profile_values(profiles: Seq<ProfileView>) -> Seq<JsonView> {
    Seq::new(profiles.len(), |i: int| profile_value(profiles[i]))
}

fn report_profile(p: &ExtensionProfile) -> (r: Json)
    ensures
        r@ == profile_value(p@),
        crate::json::ordered(r@),
{
    let fields: Vec<Member> = vec![
        member("profile_name", Json::string(p.profile_name.as_str())),
        member("extension_id", Json::string(p.extension_id.as_str())),
        member("path", Json::string(p.path.as_str())),
    ];
    let ghost views = crate::json::member_views(fields@);
    assert(views =~= seq![
        crate::json::field("profile_name"@, JsonView::Str(p@.profile_name)),
        crate::json::field("extension_id"@, JsonView::Str(p@.extension_id)),
        crate::json::field("path"@, JsonView::Str(p@.path)),
    ]);
    proof {
        crate::json::lemma_record_ordered(views);
    }
    record_of(fields)
}

/// Reports which browser profiles have the extension.
pub fn report_extension(profiles: &Vec<ExtensionProfile>) -> (r: Json)
    ensures
        r@ == extension_value(profile_views(profiles@)),
        crate::json::ordered(r@),
{
    let ghost all = profile_views(profiles@);
    let mut lines: Vec<Json> = Vec::new();
    let n: usize = profiles.len();
    let mut i: usize = 0;
    while i < n
        invariant
            n == profiles@.len(),
            i <= n,
            all == profile_views(profiles@),
            lines@.len() == i,
            forall|k: int|
                0 <= k < i ==> (#[trigger] lines@[k])@ == profile_value(all[k])
                    && crate::json::ordered(lines@[k]@),
        decreases n - i,
    {
        lines.push(report_profile(&profiles[i]));
        i = i + 1;
    }
    let ghost shown = profile_values(all);
    assert(crate::json::views(lines@) =~= shown);
    let id: &str = if n > 0 {
        profiles[0].extension_id.as_str()
    } else {
        ""
    };
    assert(id@ == first_extension(all));
    let fields: Vec<Member> = vec![
        member("found", Json::Bool(n > 0)),
        member("profiles", Json::array(lines)),
        member("extension_id", Json::string(id)),
    ];
    let ghost views = crate::json::member_views(fields@);
    assert(views =~= seq![
        crate::json::field("found"@, JsonView::Bool(all.len() > 0)),
        crate::json::field("profiles"@, JsonView::Array(shown)),
        crate::json::field("extension_id"@, JsonView::Str(first_extension(all))),
    ]);
    proof {
        assert forall|k: int| 0 <= k < shown.len() implies crate::json::ordered(
            #[trigger] shown[k],
        ) by {
            assert(lines@[k]@ == shown[k]);
        }
        assert(crate::json::ordered(views[1].value));
        crate::json::lemma_record_ordered(views);
    }
    record_of(fields)
}

/// The accounts that the extension has stored, or why there are none.
pub open spec fn stored_in(
    storage: Result<JsonView, Seq<char>>,
) -> Result<Seq<JsonView>, Seq<char>> {
    match storage {
        Err(e) => Err("Failed to parse extension storage JSON: "@ + e),
        Ok(v) => match v.items_at("accounts"@) {
            Some(accounts) => Ok(accounts),
            None => Err("Extension storage does not contain an 'accounts' array"@),
        },
    }
}

/// A list of values, or the message in its place.
pub open spec fn stored_view(r: Result<Vec<Json>, String>) -> Result<Seq<JsonView>, Seq<char>> {
    match r {
        Ok(accounts) => Ok(crate::json::views(accounts@)),
        Err(e) => Err(e@),
    }
}

/// Takes the accounts out of what the extension has stored.
pub fn take_accounts(storage: Json) -> (r: Result<Vec<Json>, String>)
    ensures
        stored_view(r) == stored_in(Ok(storage@)),
        crate::json::ordered(storage@) ==> (r matches Ok(accounts) ==> forall|i: int|
            0 <= i < accounts@.len() ==> crate::json::ordered((#[trigger] accounts@[i])@)),
{
    let ghost whole = storage@;
    if let Json::Object(members) = storage {
        let ghost all = whole->Object_0;
        let ghost held = members@;
        assert(all.skip(0) =~= all);
        for m in iter: members
            invariant
                iter.seq() == held,
                whole == storage@,
                whole == JsonView::Object(all),
                all.len() == held.len(),
                forall|i: int| 0 <= i < held.len() ==> all[i] == (#[trigger] held[i])@,
                crate::json::find(all, "accounts"@) == crate::json::find(
                    all.skip(iter.index() as int),
                    "accounts"@,
                ),
        {
            let ghost k = iter.index() as int;
            assert(all[k] == m@);
            assert(all.skip(k)[0] == all[k]);
            assert(all.skip(k).drop_first() =~= all.skip(k + 1));
            if same_text(m.key.as_str(), "accounts") {
                match m.value {
                    Json::Array(accounts) => {
                        assert(m.value@->Array_0 =~= crate::json::views(accounts@));
                        assert forall|i: int|
                            0 <= i < accounts@.len() && crate::json::ordered(
                                whole,
                            ) implies crate::json::ordered((#[trigger] accounts@[i])@) by {
                            assert(crate::json::ordered(all[k].value));
                            assert(m.value@->Array_0[i] == accounts@[i]@);
                        }
                        return Ok(accounts);
                    },
                    _ => {
                        return Err(
                            "Extension storage does not contain an 'accounts' array".to_owned(),
                        );
                    },
                }
            }
        }
    }
    Err("Extension storage does not contain an 'accounts' array".to_owned())
}

/// Reads the accounts that the extension has stored.
pub fn stored_accounts(raw_json: &str) -> (r: Result<Vec<Json>, String>)
    ensures
        stored_view(r) == stored_in(crate::codec::parsed_text(raw_json@)),
        r matches Ok(accounts) ==> forall|i: int|
            0 <= i < accounts@.len() ==> crate::json::ordered((#[trigger] accounts@[i])@),
{
    match Json::from_text(raw_json) {
        Ok(storage) => take_accounts(storage),
        Err(e) => Err(
            "Failed to parse extension storage JSON: ".to_owned().concat(e.as_str()),
        ),
    }
}

/// The accounts that were read, of which there must be some.
pub fn some_accounts(accounts: Vec<SiteAccount>) -> (r: Result<Vec<SiteAccount>, String>)
    ensures
        accounts@.len() > 0 ==> r == Ok::<Vec<SiteAccount>, String>(accounts),
        accounts@.len() == 0 ==> (r matches Err(e) && e@
            == "No accounts found in extension storage"@),
{
    if accounts.len() == 0 {
        Err("No accounts found in extension storage".to_owned())
    } else {
        Ok(accounts)
    }
}

/// The status report says whether the proxy is running, and nothing else.
pub proof fn law_status_report(running: bool)
    ensures
        status_value(running).get("running"@) == Some(JsonView::Bool(running)),
        forall|key: Seq<char>|
            key != "running"@ ==> #[trigger] status_value(running).get(key) is None,
{
    let fields = seq![crate::json::field("running"@, JsonView::Bool(running))];
    assert(status_value(running) == crate::json::object_of(fields));
    crate::json::lemma_record_find(fields, 0);
    crate::json::lemma_record_missing(fields);
}

/// The report on the logs has their number and the logs as they are.
pub proof fn law_logs_report(total: u64, logs: JsonView)
    ensures
        logs_value(total, logs).get("total"@) == Some(
            JsonView::Number(crate::codec::number_of(total)),
        ),
        logs_value(total, logs).get("logs"@) == Some(logs),
        forall|key: Seq<char>|
            key != "total"@ && key != "logs"@ ==> #[trigger] logs_value(total, logs).get(
                key,
            ) is None,
{
    let fields = seq![
        crate::json::field("total"@, JsonView::Number(crate::codec::number_of(total))),
        crate::json::field("logs"@, logs),
    ];
    assert(logs_value(total, logs) == crate::json::object_of(fields));
    reveal_strlit("total");
    reveal_strlit("logs");
    assert("total"@.len() == 5 && "logs"@.len() == 4);
    crate::json::lemma_record_find(fields, 0);
    crate::json::lemma_record_find(fields, 1);
    crate::json::lemma_record_missing(fields);
}

/// A logged method of token characters is used as it is; every other one is replaced by `POST`.
pub proof fn law_replayed_method(method: Seq<char>)
    ensures
        vstd::utf8::encode_utf8(method).len() > 0 && (forall|i: int|
            0 <= i < vstd::utf8::encode_utf8(method).len() ==> crate::headers::is_token_byte(
                #[trigger] vstd::utf8::encode_utf8(method)[i],
            )) ==> replay_method(method) == method,
        !(vstd::utf8::encode_utf8(method).len() > 0 && (forall|i: int|
            0 <= i < vstd::utf8::encode_utf8(method).len() ==> crate::headers::is_token_byte(
                #[trigger] vstd::utf8::encode_utf8(method)[i],
            ))) ==> replay_method(method) == "POST"@,
{
}

/// The report on a replay has the status of the answer, whatever it is, and its text as it is, or
/// why that could not be read.
pub proof fn law_replay_report(status: u16, text: Seq<char>, error: Seq<char>)
    ensures
        replay_value(status, Ok(text)).get("status"@) == Some(
            JsonView::Number(crate::codec::number_of(status as u64)),
        ),
        replay_value(status, Ok(text)).get("body"@) == Some(JsonView::Str(text)),
        replay_value(status, Err(error)).get("status"@) == Some(
            JsonView::Number(crate::codec::number_of(status as u64)),
        ),
        replay_value(status, Err(error)).get("body"@) == Some(
            JsonView::Str("Failed to read response: "@ + error),
        ),
        forall|key: Seq<char>|
            key != "status"@ && key != "body"@ ==> #[trigger] replay_value(status, Ok(text)).get(
                key,
            ) is None,
{
    lemma_replay_fields(status, Ok(text));
    lemma_replay_fields(status, Err(error));
}

proof fn lemma_replay_fields(status: u16, body: Result<Seq<char>, Seq<char>>)
    ensures
        replay_value(status, body).get("status"@) == Some(
            JsonView::Number(crate::codec::number_of(status as u64)),
        ),
        replay_value(status, body).get("body"@) == Some(JsonView::Str(replayed_body(body))),
        forall|key: Seq<char>|
            key != "status"@ && key != "body"@ ==> #[trigger] replay_value(status, body).get(
                key,
            ) is None,
{
    let fields = seq![
        crate::json::field("status"@, JsonView::Number(crate::codec::number_of(status as u64))),
        crate::json::field("body"@, JsonView::Str(replayed_body(body))),
    ];
    assert(replay_value(status, body) == crate::json::object_of(fields));
    reveal_strlit("status");
    reveal_strlit("body");
    assert("status"@.len() == 6 && "body"@.len() == 4);
    crate::json::lemma_record_find(fields, 0);
    crate::json::lemma_record_find(fields, 1);
    crate::json::lemma_record_missing(fields);
}

/// The report on a key, for every way in which its check can end. A status from 200 to 299 makes
/// the key valid, with the number of items or members in `data`. Every other status, and every
/// failure to send the check, makes it invalid, with its own message and no models.
pub proof fn law_every_check_has_its_report(
    status: u16,
    body: Option<JsonView>,
    items: Seq<JsonView>,
    members: Seq<crate::json::MemberView>,
    v: JsonView,
    error: String,
)
    ensures
        200 <= status <= 299 ==> checked(Ok(status), body).get("valid"@) == Some(
            JsonView::Bool(true),
        ) && checked(Ok(status), body).get("error"@) == Some(JsonView::Null),
        200 <= status <= 299 && v.get("data"@) == Some(JsonView::Array(items)) ==> checked(
            Ok(status),
            Some(v),
        ).get("model_count"@) == Some(
            JsonView::Number(crate::codec::number_of(items.len() as u64)),
        ),
        200 <= status <= 299 && v.get("data"@) == Some(JsonView::Object(members)) ==> checked(
            Ok(status),
            Some(v),
        ).get("model_count"@) == Some(
            JsonView::Number(crate::codec::number_of(members.len() as u64)),
        ),
        200 <= status <= 299 && !(v.get("data"@) matches Some(JsonView::Array(_))) && !(v.get(
            "data"@,
        ) matches Some(JsonView::Object(_))) ==> checked(Ok(status), Some(v)).get("model_count"@)
            == Some(JsonView::Number(crate::codec::number_of(0))),
        200 <= status <= 299 ==> checked(Ok(status), None).get("model_count"@) == Some(
            JsonView::Number(crate::codec::number_of(0)),
        ),
        status == 401 || status == 403 ==> reports_error(
            checked(Ok(status), body),
            "Authentication failed (HTTP "@ + crate::text::decimal(status as int) + ")"@,
        ),
        (status < 200 || status > 299) && status != 401 && status != 403 ==> reports_error(
            checked(Ok(status), body),
            "Upstream returned HTTP "@ + crate::text::decimal(status as int),
        ),
        reports_error(checked(Err(CheckFailure::TimedOut), body), "Connection timed out"@),
        reports_error(
            checked(Err(CheckFailure::NotConnected), body),
            "Failed to connect to upstream"@,
        ),
        reports_error(
            checked(Err(CheckFailure::Other(error)), body),
            "Request failed: "@ + error@,
        ),
{
    lemma_check_fields(counted_models(body), None);
    lemma_check_fields(counted_models(Some(v)), None);
    lemma_check_fields(0, None);
    lemma_check_fields(0, Some(status_message(status)));
    lemma_check_fields(0, Some("Connection timed out"@));
    lemma_check_fields(0, Some("Failed to connect to upstream"@));
    lemma_check_fields(0, Some("Request failed: "@ + error@));
}

/// Whether a report says that a key is not valid, has no models, and why.
pub open spec fn reports_error(report: JsonView, message: Seq<char>) -> bool {
    &&& report.get("valid"@) == Some(JsonView::Bool(false))
    &&& report.get("model_count"@) == Some(JsonView::Number(crate::codec::number_of(0)))
    &&& report.get("error"@) == Some(JsonView::Str(message))
}

proof fn lemma_check_fields(n: nat, error: Option<Seq<char>>)
    ensures
        check_value(n, error).get("valid"@) == Some(JsonView::Bool(error is None)),
        check_value(n, error).get("model_count"@) == Some(
            JsonView::Number(crate::codec::number_of(n as u64)),
        ),
        check_value(n, error).get("error"@) == Some(error_shown(error)),
{
    let fields = seq![
        crate::json::field("valid"@, JsonView::Bool(error is None)),
        crate::json::field("model_count"@, JsonView::Number(crate::codec::number_of(n as u64))),
        crate::json::field("error"@, error_shown(error)),
    ];
    assert(check_value(n, error) == crate::json::object_of(fields));
    reveal_strlit("valid");
    reveal_strlit("model_count");
    reveal_strlit("error");
    assert("valid"@[0] != "error"@[0]);
    assert("model_count"@.len() == 11 && "valid"@.len() == 5 && "error"@.len() == 5);
    crate::json::lemma_record_find(fields, 0);
    crate::json::lemma_record_find(fields, 1);
    crate::json::lemma_record_find(fields, 2);
}

/// The report on the extension: it is found exactly where a profile has it, each profile is listed
/// with its own name, identifier and path, in their order, and the identifier is that of the first
/// profile, or empty.
pub proof fn law_extension_report(profiles: Seq<ProfileView>)
    ensures
        extension_value(profiles).get("found"@) == Some(JsonView::Bool(profiles.len() > 0)),
        profiles.len() > 0 ==> extension_value(profiles).get("extension_id"@) == Some(
            JsonView::Str(profiles[0].extension_id),
        ),
        profiles.len() == 0 ==> extension_value(profiles).get("extension_id"@) == Some(
            JsonView::Str(""@),
        ),
        extension_value(profiles).get("profiles"@) matches Some(JsonView::Array(lines))
            && lines.len() == profiles.len() && forall|i: int|
            #![trigger lines[i]]
            0 <= i < lines.len() ==> lines[i].get("profile_name"@) == Some(
                JsonView::Str(profiles[i].profile_name),
            ) && lines[i].get("extension_id"@) == Some(JsonView::Str(profiles[i].extension_id))
                && lines[i].get("path"@) == Some(JsonView::Str(profiles[i].path)),
        forall|key: Seq<char>|
            key != "found"@ && key != "profiles"@ && key != "extension_id"@
                ==> #[trigger] extension_value(profiles).get(key) is None,
{
    let lines = profile_values(profiles);
    let fields = seq![
        crate::json::field("found"@, JsonView::Bool(profiles.len() > 0)),
        crate::json::field("profiles"@, JsonView::Array(lines)),
        crate::json::field("extension_id"@, JsonView::Str(first_extension(profiles))),
    ];
    assert(extension_value(profiles) == crate::json::object_of(fields));
    reveal_strlit("found");
    reveal_strlit("profiles");
    reveal_strlit("extension_id");
    assert("found"@.len() == 5 && "profiles"@.len() == 8 && "extension_id"@.len() == 12);
    crate::json::lemma_record_find(fields, 0);
    crate::json::lemma_record_find(fields, 1);
    crate::json::lemma_record_find(fields, 2);
    crate::json::lemma_record_missing(fields);
    assert forall|i: int|
        #![trigger lines[i]]
        0 <= i < lines.len() implies lines[i].get("profile_name"@) == Some(
        JsonView::Str(profiles[i].profile_name),
    ) && lines[i].get("extension_id"@) == Some(JsonView::Str(profiles[i].extension_id))
        && lines[i].get("path"@) == Some(JsonView::Str(profiles[i].path)) by {
        lemma_profile(profiles[i]);
    }
}

proof fn lemma_profile(p: ProfileView)
    ensures
        profile_value(p).get("profile_name"@) == Some(JsonView::Str(p.profile_name)),
        profile_value(p).get("extension_id"@) == Some(JsonView::Str(p.extension_id)),
        profile_value(p).get("path"@) == Some(JsonView::Str(p.path)),
{
    let fields = seq![
        crate::json::field("profile_name"@, JsonView::Str(p.profile_name)),
        crate::json::field("extension_id"@, JsonView::Str(p.extension_id)),
        crate::json::field("path"@, JsonView::Str(p.path)),
    ];
    assert(profile_value(p) == crate::json::object_of(fields));
    reveal_strlit("profile_name");
    reveal_strlit("extension_id");
    reveal_strlit("path");
    assert("profile_name"@[0] != "extension_id"@[0]);
    assert("profile_name"@.len() == 12 && "extension_id"@.len() == 12 && "path"@.len() == 4);
    crate::json::lemma_record_find(fields, 0);
    crate::json::lemma_record_find(fields, 1);
    crate::json::lemma_record_find(fields, 2);
}

/// The stored accounts are the items of the member `accounts`, all of them and as they are. Storage
/// without such an array, or that is no JSON, is reported.
pub proof fn law_stored_accounts(v: JsonView, list: Seq<JsonView>, error: Seq<char>)
    ensures
        v.get("accounts"@) == Some(JsonView::Array(list)) ==> stored_in(Ok(v)) == Ok::<
            Seq<JsonView>,
            Seq<char>,
        >(list),
        !(v.get("accounts"@) matches Some(JsonView::Array(_))) ==> stored_in(Ok(v)) == Err::<
            Seq<JsonView>,
            Seq<char>,
        >("Extension storage does not contain an 'accounts' array"@),
        stored_in(Err(error)) == Err::<Seq<JsonView>, Seq<char>>(
            "Failed to parse extension storage JSON: "@ + error,
        ),
{
}

} // verus!
