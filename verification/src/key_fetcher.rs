//! Fetching the API key of an account from its upstream site.
//!
//! The access token of an account is a management credential: it lists the tokens of the
//! account. The API key is what calls the AI endpoints. This module says what to ask an
//! upstream for and which key its answer holds.

use reqwest::header::{HeaderMap, HeaderValue};
use vstd::prelude::*;

use crate::headers::token_list_headers;
use crate::json::{Json, JsonView};
use crate::text::{same_text, trim_end_slashes, unsigned_text};

verus! {

/// One token of an account, as an upstream lists it.
#[derive(Debug, PartialEq)]
pub struct TokenEntry {
    pub key: String,
    /// 1 for an enabled token; other values for one that is disabled or has expired.
    pub status: i64,
}

/// What a [`TokenEntry`] stands for.
pub struct TokenEntryView {
    pub key: Seq<char>,
    pub status: i64,
}

impl View for TokenEntry {
    type V = TokenEntryView;

    open spec fn view(&self) -> TokenEntryView {
        TokenEntryView { key: self.key@, status: self.status }
    }
}

/// What a list of tokens stands for.
pub open spec fn entry_views(entries: Seq<TokenEntry>) -> Seq<TokenEntryView> {
    Seq::new(entries.len(), |i: int| entries[i]@)
}

/// The key of a token: empty where it is not given; nothing where it is no string.
pub open spec fn entry_key(v: Option<JsonView>) -> Option<Seq<char>> {
    match v {
        Some(k) => k.text(),
        None => Some(Seq::empty()),
    }
}

/// The status of a token: enabled where it is not given; nothing where it is no integer.
pub open spec fn entry_status(v: Option<JsonView>) -> Option<i64> {
    match v {
        Some(s) => crate::codec::int_value(s),
        None => Some(1),
    }
}

/// The token that a JSON value describes: an object with the members `key` and `status`, or
/// an array of these two in this order. Either may be missing; other members are ignored,
/// further items are not allowed.
pub open spec fn entry_of(v: JsonView) -> Option<TokenEntryView> {
    let (key, status) = match v {
        JsonView::Object(_) => (entry_key(v.get("key"@)), entry_status(v.get("status"@))),
        JsonView::Array(a) => if a.len() <= 2 {
            (
                entry_key(if a.len() > 0 { Some(a[0]) } else { None }),
                entry_status(if a.len() > 1 { Some(a[1]) } else { None }),
            )
        } else {
            (None, None)
        },
        _ => (None, None),
    };
    match (key, status) {
        (Some(key), Some(status)) => Some(TokenEntryView { key, status }),
        _ => None,
    }
}

/// The tokens that a list of JSON values describes; values that describe none are skipped.
pub open spec fn entries_of(items: Seq<JsonView>) -> Seq<TokenEntryView>
    decreases items.len(),
{
    if items.len() == 0 {
        Seq::empty()
    } else {
        match entry_of(items.last()) {
            Some(e) => entries_of(items.drop_last()).push(e),
            None => entries_of(items.drop_last()),
        }
    }
}

/// The list of tokens in an answer: the answer itself, its member `data`, or the member
/// `items` or else `data` of that.
pub open spec fn token_items(body: JsonView) -> Seq<JsonView> {
    match body.items() {
        Some(a) => a,
        None => match body.get("data"@) {
            Some(data) => match data.items() {
                Some(a) => a,
                None => match data.items_at("items"@) {
                    Some(a) => a,
                    None => match data.items_at("data"@) {
                        Some(a) => a,
                        None => Seq::empty(),
                    },
                },
            },
            None => Seq::empty(),
        },
    }
}

/// Whether a token can be used: it is enabled and has a key.
pub open spec fn usable(e: TokenEntryView) -> bool {
    e.status == 1 && e.key.len() > 0
}

/// The key of the first token that can be used.
pub open spec fn first_usable(entries: Seq<TokenEntryView>) -> Option<Seq<char>>
    decreases entries.len(),
{
    if entries.len() == 0 {
        None
    } else if usable(entries[0]) {
        Some(entries[0].key)
    } else {
        first_usable(entries.drop_first())
    }
}

/// The status of a token that gives none: enabled.
pub fn default_status() -> (r: i64)
    ensures
        r == 1,
{
    1
}

fn key_from(v: Option<&Json>) -> (r: Option<String>)
    ensures
        crate::text::opt_text(r) == entry_key(crate::json::opt_view(v)),
{
    match v {
        Some(k) => match k.as_str() {
            Some(s) => Some(s.to_owned()),
            None => None,
        },
        None => Some(String::new()),
    }
}

fn status_from(v: Option<&Json>) -> (r: Option<i64>)
    ensures
        r == entry_status(crate::json::opt_view(v)),
{
    match v {
        Some(s) => s.as_i64(),
        None => Some(default_status()),
    }
}

impl TokenEntry {
    /// The token that a JSON value describes.
    pub fn from_json(v: &Json) -> (r: Option<TokenEntry>)
        ensures
            r is Some <==> entry_of(v@) is Some,
            r matches Some(e) ==> entry_of(v@) == Some(e@),
            r matches Some(e) ==> entry_of(v@) == Some(
                TokenEntryView { key: e.key@, status: e.status },
            ),
    {
        let (key, status) = match v {
            Json::Object(_) => (key_from(v.get("key")), status_from(v.get("status"))),
            Json::Array(items) => {
                assert(v@->Array_0 =~= crate::json::views(items@));
                if items.len() <= 2 {
                    let first: Option<&Json> = if items.len() > 0 {
                        Some(&items[0])
                    } else {
                        None
                    };
                    let second: Option<&Json> = if items.len() > 1 {
                        Some(&items[1])
                    } else {
                        None
                    };
                    (key_from(first), status_from(second))
                } else {
                    (None, None)
                }
            },
            _ => (None, None),
        };
        match key {
            Some(key) => match status {
                Some(status) => Some(TokenEntry { key, status }),
                None => None,
            },
            None => None,
        }
    }
}

fn collect_entries(items: &Vec<Json>) -> (r: Vec<TokenEntry>)
    ensures
        entry_views(r@) == entries_of(crate::json::views(items@)),
        r@.len() == entries_of(crate::json::views(items@)).len(),
        forall|i: int|
            0 <= i < r@.len() ==> entries_of(crate::json::views(items@))[i].key == (
            #[trigger] r@[i]).key@ && entries_of(crate::json::views(items@))[i].status
                == r@[i].status,
{
    let ghost all = crate::json::views(items@);
    let mut out: Vec<TokenEntry> = Vec::new();
    let n: usize = items.len();
    let mut i: usize = 0;
    assert(entry_views(out@) =~= entries_of(all.take(0)));
    while i < n
        invariant
            n == items@.len(),
            all == crate::json::views(items@),
            i <= n,
            entry_views(out@) == entries_of(all.take(i as int)),
        decreases n - i,
    {
        let ghost before = out@;
        assert(all.take(i + 1).drop_last() =~= all.take(i as int));
        assert(all.take(i + 1).last() == items@[i as int]@);
        if let Some(e) = TokenEntry::from_json(&items[i]) {
            out.push(e);
            assert(entry_views(out@) =~= entry_views(before).push(e@));
        }
        i = i + 1;
    }
    assert(all.take(n as int) =~= all);
    assert forall|i: int| 0 <= i < out@.len() implies entries_of(all)[i].key == (
    #[trigger] out@[i]).key@ && entries_of(all)[i].status == out@[i].status by {
        assert(entry_views(out@)[i] == out@[i]@);
    }
    out
}

/// Extracts the tokens from an answer, in any of its shapes.
pub fn parse_token_entries(body: &Json) -> (r: Vec<TokenEntry>)
    ensures
        entry_views(r@) == entries_of(token_items(body@)),
        r@.len() == entries_of(token_items(body@)).len(),
        forall|i: int|
            0 <= i < r@.len() ==> entries_of(token_items(body@))[i].key == (#[trigger] r@[i]).key@
                && entries_of(token_items(body@))[i].status == r@[i].status,
{
    if let Some(items) = body.as_array() {
        return collect_entries(items);
    }
    if let Some(data) = body.get("data") {
        if let Some(items) = data.as_array() {
            return collect_entries(items);
        }
        if let Some(inner) = data.get("items") {
            if let Some(items) = inner.as_array() {
                return collect_entries(items);
            }
        }
        if let Some(inner) = data.get("data") {
            if let Some(items) = inner.as_array() {
                return collect_entries(items);
            }
        }
    }
    let none: Vec<TokenEntry> = Vec::new();
    assert(entry_views(none@) =~= Seq::empty());
    none
}

/// Selects the key of the first token that is enabled and has a key.
pub fn select_first_usable_key(entries: &[TokenEntry]) -> (r: Option<String>)
    ensures
        crate::text::opt_text(r) == first_usable(entry_views(entries@)),
        r matches Some(key) ==> exists|i: int|
            0 <= i < entries@.len() && (#[trigger] entries@[i]).status == 1 && entries@[i].key@
                == key@ && key@.len() > 0 && forall|j: int|
                0 <= j < i ==> (#[trigger] entries@[j]).status != 1 || entries@[j].key@.len() == 0,
        r is None ==> forall|i: int|
            0 <= i < entries@.len() ==> (#[trigger] entries@[i]).status != 1
                || entries@[i].key@.len() == 0,
{
    let ghost all = entry_views(entries@);
    let n: usize = entries.len();
    let mut i: usize = 0;
    assert(all.skip(0) =~= all);
    while i < n
        invariant
            n == entries@.len(),
            all == entry_views(entries@),
            i <= n,
            first_usable(all) == first_usable(all.skip(i as int)),
            forall|j: int|
                0 <= j < i ==> (#[trigger] entries@[j]).status != 1 || entries@[j].key@.len() == 0,
        decreases n - i,
    {
        let e: &TokenEntry = &entries[i];
        assert(all.skip(i as int)[0] == e@);
        if e.status == 1 && !e.key.as_str().is_empty() {
            return Some(e.key.clone());
        }
        assert(all.skip(i as int).drop_first() =~= all.skip(i + 1));
        i = i + 1;
    }
    None
}

/// Where the tokens of an account are listed.
pub open spec fn token_list_url(site_url: Seq<char>) -> Seq<char> {
    crate::text::without_trailing_slashes(site_url) + "/api/token/?p=0&size=100"@
}

/// How to come by the API key of an account.
pub enum KeyPlan {
    /// The key is known without asking.
    Known(String),
    /// The upstream is to be asked for its tokens.
    Ask { url: String, headers: HeaderMap<HeaderValue> },
}

/// Whether a plan is the right one for an account.
pub open spec fn is_key_plan(
    plan: KeyPlan,
    site_url: Seq<char>,
    site_type: Seq<char>,
    access_token: Seq<char>,
    user_id: int,
) -> bool {
    match plan {
        KeyPlan::Known(key) => site_type == "sub2api"@ && key@ == access_token,
        KeyPlan::Ask { url, headers } => {
            &&& site_type != "sub2api"@
            &&& url@ == token_list_url(site_url)
            &&& crate::headers::header_entries(headers) == crate::headers::token_list_entries(
                user_id,
                access_token,
            )
        },
    }
}

/// Says how to come by the API key of an account. On a `sub2api` site the access token is the
/// key; every other site is asked for its tokens.
pub fn plan_key_fetch(
    site_url: &str,
    site_type: &str,
    access_token: &str,
    user_id: i64,
) -> (r: KeyPlan)
    ensures
        is_key_plan(r, site_url@, site_type@, access_token@, user_id as int),
{
    if same_text(site_type, "sub2api") {
        return KeyPlan::Known(access_token.to_owned());
    }
    let url: String = trim_end_slashes(site_url).concat("/api/token/?p=0&size=100");
    KeyPlan::Ask { url, headers: token_list_headers(user_id, access_token) }
}

/// Whether an HTTP status says that a request succeeded.
pub open spec fn is_success(status: u16) -> bool {
    200 <= status < 300
}

/// Whether an HTTP status says that the credential was refused.
pub open spec fn is_refusal(status: u16) -> bool {
    status == 401 || status == 403
}

/// What follows on the answer to a request for tokens.
pub enum KeyStep {
    /// The request failed, with this message.
    Failed(String),
    /// The body of the answer is to be read.
    ReadBody,
}

/// The failure that the answer to a request for tokens amounts to, if any: the request was
/// not sent, the credential was refused, or the status is none of success.
pub open spec fn response_failure(
    site_url: Seq<char>,
    response: Result<u16, Seq<char>>,
) -> Option<Seq<char>> {
    match response {
        Err(e) => Some("Failed to fetch tokens from "@ + site_url + ": "@ + e),
        Ok(status) => if is_refusal(status) {
            Some(
                "Auth failed fetching tokens from "@ + site_url + " (HTTP "@
                    + crate::text::digits(status as nat) + ")"@,
            )
        } else if !is_success(status) {
            Some(
                "Unexpected status "@ + crate::text::digits(status as nat)
                    + " fetching tokens from "@ + site_url,
            )
        } else {
            None
        },
    }
}

/// A status, or the message in its place.
pub open spec fn status_view(response: Result<u16, String>) -> Result<u16, Seq<char>> {
    match response {
        Ok(status) => Ok(status),
        Err(e) => Err(e@),
    }
}

/// Decides what follows on the answer to a request for tokens: its status, or the message of
/// the error with which it could not be sent.
pub fn on_key_response(site_url: &str, response: Result<u16, String>) -> (r: KeyStep)
    ensures
        r matches KeyStep::Failed(e) ==> response_failure(site_url@, status_view(response)) == Some(
            e@,
        ),
        r is ReadBody ==> response_failure(site_url@, status_view(response)) is None,
        response matches Ok(status) ==> (r is ReadBody <==> 200 <= status <= 299),
        response is Err ==> r is Failed,
{
    match response {
        Err(e) => KeyStep::Failed(
            "Failed to fetch tokens from ".to_owned().concat(site_url).concat(": ").concat(
                e.as_str(),
            ),
        ),
        Ok(status) => {
            let code: String = unsigned_text(status as u64);
            if status == 401 || status == 403 {
                KeyStep::Failed(
                    "Auth failed fetching tokens from ".to_owned().concat(site_url).concat(
                        " (HTTP ",
                    ).concat(code.as_str()).concat(")"),
                )
            } else if !(200 <= status && status < 300) {
                KeyStep::Failed(
                    "Unexpected status ".to_owned().concat(code.as_str()).concat(
                        " fetching tokens from ",
                    ).concat(site_url),
                )
            } else {
                KeyStep::ReadBody
            }
        },
    }
}

/// The key that the body of an answer gives, or why it gives none. An answer that says
/// `"success": false` is reported with its own message.
pub open spec fn key_in_body(
    site_url: Seq<char>,
    body: Result<JsonView, Seq<char>>,
) -> Result<Seq<char>, Seq<char>> {
    match body {
        Err(e) => Err("Failed to parse token response from "@ + site_url + ": "@ + e),
        Ok(v) => if v.flag_at("success"@) == Some(false) {
            Err(
                site_url + " responded: "@ + match v.text_at("message"@) {
                    Some(m) => m,
                    None => "unknown error"@,
                },
            )
        } else if entries_of(token_items(v)).len() == 0 {
            Err("No tokens returned from "@ + site_url)
        } else {
            match first_usable(entries_of(token_items(v))) {
                Some(key) => Ok(key),
                None => Err("No enabled tokens found on "@ + site_url),
            }
        },
    }
}

/// Finds the key in the body of an answer, given as JSON or as the message of the error with
/// which it could not be read.
pub fn on_key_body(site_url: &str, body: Result<Json, String>) -> (r: Result<String, String>)
    ensures
        crate::text::result_text(r) == key_in_body(site_url@, crate::codec::result_view(body)),
{
    match body {
        Err(e) => Err(
            "Failed to parse token response from ".to_owned().concat(site_url).concat(": ").concat(
                e.as_str(),
            ),
        ),
        Ok(v) => {
            let refused: bool = match v.get("success") {
                Some(s) => match s.as_bool() {
                    Some(b) => !b,
                    None => false,
                },
                None => false,
            };
            if refused {
                let message: String = match v.get("message") {
                    Some(m) => match m.as_str() {
                        Some(s) => s.to_owned(),
                        None => "unknown error".to_owned(),
                    },
                    None => "unknown error".to_owned(),
                };
                return Err(site_url.to_owned().concat(" responded: ").concat(message.as_str()));
            }
            let entries: Vec<TokenEntry> = parse_token_entries(&v);
            if entries.len() == 0 {
                return Err("No tokens returned from ".to_owned().concat(site_url));
            }
            match select_first_usable_key(entries.as_slice()) {
                Some(key) => Ok(key),
                None => Err("No enabled tokens found on ".to_owned().concat(site_url)),
            }
        },
    }
}

/// The outcome of asking an upstream for a key: what its answer and the body of it amount to.
pub open spec fn asked_key(
    site_url: Seq<char>,
    response: Result<u16, Seq<char>>,
    body: Result<JsonView, Seq<char>>,
) -> Result<Seq<char>, Seq<char>> {
    match response_failure(site_url, response) {
        Some(e) => Err(e),
        None => key_in_body(site_url, body),
    }
}

/// The selected key is that of the first token with the status 1 and a key: it is not empty, no
/// token before it has both, and none is selected only where no token has both. What the key
/// looks like does not matter.
pub proof fn law_selected_key_is_first_usable(entries: Seq<TokenEntryView>)
    ensures
        first_usable(entries) matches Some(key) ==> key.len() > 0 && exists|i: int|
            0 <= i < entries.len() && (#[trigger] entries[i]).status == 1 && entries[i].key == key
                && forall|j: int|
                0 <= j < i ==> (#[trigger] entries[j]).status != 1 || entries[j].key.len() == 0,
        first_usable(entries) is None <==> forall|i: int|
            0 <= i < entries.len() ==> (#[trigger] entries[i]).status != 1 || entries[i].key.len()
                == 0,
    decreases entries.len(),
{
    if entries.len() > 0 {
        let rest = entries.drop_first();
        law_selected_key_is_first_usable(rest);
        if entries[0].status == 1 && entries[0].key.len() > 0 {
            assert(first_usable(entries) == Some(entries[0].key));
        } else {
            if let Some(key) = first_usable(rest) {
                let i = choose|i: int|
                    0 <= i < rest.len() && (#[trigger] rest[i]).status == 1 && rest[i].key == key
                        && forall|j: int|
                        0 <= j < i ==> (#[trigger] rest[j]).status != 1 || rest[j].key.len() == 0;
                assert(entries[i + 1] == rest[i]);
                assert forall|j: int| 0 <= j < i + 1 implies (#[trigger] entries[j]).status != 1
                    || entries[j].key.len() == 0 by {
                    if j > 0 {
                        assert(entries[j] == rest[j - 1]);
                    }
                }
            } else {
                assert forall|i: int| 0 <= i < entries.len() implies (
                #[trigger] entries[i]).status != 1 || entries[i].key.len() == 0 by {
                    if i > 0 {
                        assert(entries[i] == rest[i - 1]);
                    }
                }
            }
            if forall|i: int|
                0 <= i < entries.len() ==> (#[trigger] entries[i]).status != 1
                    || entries[i].key.len() == 0 {
                assert forall|i: int| 0 <= i < rest.len() implies (#[trigger] rest[i]).status != 1
                    || rest[i].key.len() == 0 by {
                    assert(rest[i] == entries[i + 1]);
                }
            }
        }
    }
}

/// A key comes exactly of an answer with a status of success whose body does not say that it
/// failed and lists a token that can be used. It is the key of the first such token, and never
/// empty.
pub proof fn law_key_comes_of_success(
    site_url: Seq<char>,
    response: Result<u16, Seq<char>>,
    body: Result<JsonView, Seq<char>>,
)
    ensures
        asked_key(site_url, response, body) is Ok <==> {
            &&& response matches Ok(status) && 200 <= status <= 299
            &&& body matches Ok(v) && v.get("success"@) != Some(JsonView::Bool(false))
                && exists|i: int|
                0 <= i < entries_of(token_items(v)).len() && (#[trigger] entries_of(
                    token_items(v),
                )[i]).status == 1 && entries_of(token_items(v))[i].key.len() > 0
        },
        asked_key(site_url, response, body) matches Ok(key) ==> key.len() > 0 && (body matches Ok(v)
            && first_usable(entries_of(token_items(v))) == Some(key)),
{
    if let Ok(v) = body {
        law_selected_key_is_first_usable(entries_of(token_items(v)));
    }
}

/// The shapes of an answer are read alike: a list of tokens on its own, as `data`, as
/// `data.items` and as `data.data` gives the same tokens.
pub proof fn law_answer_shapes_agree(list: Seq<JsonView>)
    ensures
        token_items(JsonView::Array(list)) == list,
        token_items(under("data"@, JsonView::Array(list))) == list,
        token_items(under("data"@, under("items"@, JsonView::Array(list)))) == list,
        token_items(under("data"@, under("data"@, JsonView::Array(list)))) == list,
{
    reveal_strlit("data");
    reveal_strlit("items");
    assert("data"@ != "items"@) by {
        assert("data"@.len() != "items"@.len());
    }
    lemma_under("data"@, JsonView::Array(list));
    lemma_under("items"@, JsonView::Array(list));
    lemma_under("data"@, under("items"@, JsonView::Array(list)));
    lemma_under("data"@, under("data"@, JsonView::Array(list)));
    assert(under("data"@, JsonView::Array(list)).get("items"@) is None) by {
        reveal_with_fuel(crate::json::find, 2);
    }
}

/// An object with one member.
pub open spec fn under(key: Seq<char>, value: JsonView) -> JsonView {
    JsonView::Object(seq![crate::json::field(key, value)])
}

proof fn lemma_under(key: Seq<char>, value: JsonView)
    ensures
        under(key, value).get(key) == Some(value),
{
    assert(under(key, value)->Object_0[0].key == key);
}

/// The address of a token list does not depend on slashes at the end of the site's address.
pub proof fn law_trailing_slash_is_ignored(site_url: Seq<char>)
    ensures
        token_list_url(site_url.push('/')) == token_list_url(site_url),
{
    assert(site_url.push('/').drop_last() =~= site_url);
}

/// A token is read from the two members that describe it, and from nothing else: a missing key is
/// empty, a missing status is 1, and a key that is no string or a status that is no integer makes
/// the value no token.
pub proof fn law_token_of_an_object(v: JsonView)
    requires
        v is Object,
    ensures
        entry_of(v) is Some <==> (v.get("key"@) matches Some(k) ==> k is Str) && (v.get("status"@)
            matches Some(s) ==> crate::codec::int_value(s) is Some),
        entry_of(v) matches Some(e) ==> (v.get("key"@) matches Some(k) ==> k == JsonView::Str(
            e.key,
        )),
        entry_of(v) matches Some(e) ==> (v.get("key"@) is None ==> e.key.len() == 0),
        entry_of(v) matches Some(e) ==> (v.get("status"@) matches Some(s)
            ==> crate::codec::int_value(s) == Some(e.status)),
        entry_of(v) matches Some(e) ==> (v.get("status"@) is None ==> e.status == 1),
{
}

/// A token may be given as an array: of its key and its status, of its key, or of nothing. What is
/// neither an object nor such an array is no token.
pub proof fn law_token_of_another_value(v: JsonView)
    requires
        !(v is Object),
    ensures
        !(v is Array) ==> entry_of(v) is None,
        v matches JsonView::Array(a) ==> (entry_of(v) is Some <==> a.len() <= 2 && (a.len() > 0
            ==> a[0] is Str) && (a.len() > 1 ==> crate::codec::int_value(a[1]) is Some)),
        v matches JsonView::Array(a) ==> (entry_of(v) matches Some(e) ==> (if a.len() > 0 {
            a[0] == JsonView::Str(e.key)
        } else {
            e.key.len() == 0
        }) && (if a.len() > 1 {
            crate::codec::int_value(a[1]) == Some(e.status)
        } else {
            e.status == 1
        })),
{
}

/// Tokens are read one by one, in their order: those of two lists together are those of the first
/// and then those of the second, and a value gives its token or nothing.
pub proof fn law_tokens_keep_their_order(a: Seq<JsonView>, b: Seq<JsonView>, v: JsonView)
    ensures
        entries_of(a + b) == entries_of(a) + entries_of(b),
        entry_of(v) matches Some(e) ==> entries_of(seq![v]) == seq![e],
        entry_of(v) is None ==> entries_of(seq![v]) == Seq::<TokenEntryView>::empty(),
    decreases b.len(),
{
    reveal_with_fuel(entries_of, 2);
    assert(seq![v].drop_last() =~= Seq::empty());
    assert(entries_of(Seq::empty()) =~= Seq::empty());
    if let Some(e) = entry_of(v) {
        assert(entries_of(seq![v]) =~= seq![e]);
    }
    if b.len() == 0 {
        assert(a + b =~= a);
        assert(entries_of(a) + entries_of(b) =~= entries_of(a));
    } else {
        law_tokens_keep_their_order(a, b.drop_last(), v);
        assert((a + b).drop_last() =~= a + b.drop_last());
        assert((a + b).last() == b.last());
        assert(entries_of(a + b) =~= entries_of(a) + entries_of(b));
    }
}

/// The list of tokens is the answer itself where that is an array, else its member `data` where
/// that is one, else the member `items` of that, else the member `data` of that, and else empty.
/// Other members of the answer do not matter.
pub proof fn law_place_of_the_token_list(body: JsonView, data: JsonView, list: Seq<JsonView>)
    ensures
        body == JsonView::Array(list) ==> token_items(body) == list,
        body.get("data"@) == Some(JsonView::Array(list)) ==> token_items(body) == list,
        body.get("data"@) == Some(data) && data.get("items"@) == Some(JsonView::Array(list))
            ==> token_items(body) == list,
        body.get("data"@) == Some(data) && !(data.get("items"@) matches Some(JsonView::Array(_)))
            && data.get("data"@) == Some(JsonView::Array(list)) ==> token_items(body) == list,
        !(body is Array) && body.get("data"@) is None ==> token_items(body).len() == 0,
        body.get("data"@) == Some(data) && !(data is Array) && !(data.get("items"@) matches Some(
            JsonView::Array(_),
        )) && !(data.get("data"@) matches Some(JsonView::Array(_))) ==> token_items(body).len()
            == 0,
{
}

/// A key is known without asking exactly on `sub2api` sites, where it is the access token. Every
/// other site is asked at its own address, whatever slashes that ends with.
pub proof fn law_key_plans(
    plan: KeyPlan,
    base: Seq<char>,
    slashes: nat,
    site_type: Seq<char>,
    access_token: Seq<char>,
    user_id: int,
)
    requires
        base.len() == 0 || base.last() != '/',
        is_key_plan(
            plan,
            base + Seq::new(slashes, |i: int| '/'),
            site_type,
            access_token,
            user_id,
        ),
    ensures
        plan is Known <==> site_type == "sub2api"@,
        plan matches KeyPlan::Known(key) ==> key@ == access_token,
        plan matches KeyPlan::Ask { url, .. } ==> url@ == base + "/api/token/?p=0&size=100"@,
        plan matches KeyPlan::Ask { headers, .. } ==> crate::headers::header_entries(headers)
            == crate::headers::token_list_entries(user_id, access_token),
{
    crate::text::law_only_trailing_slashes_go(base, slashes);
}

/// The answer to a request for tokens is read exactly where its status is from 200 to 299. The
/// statuses 401 and 403 are reported as a refused credential, all others with their number, and a
/// request that was not sent with its error; each report names the site.
pub proof fn law_answers_that_are_not_read(site_url: Seq<char>, status: u16, error: Seq<char>)
    ensures
        response_failure(site_url, Ok(status)) is None <==> 200 <= status <= 299,
        status == 401 || status == 403 ==> response_failure(site_url, Ok(status)) == Some(
            "Auth failed fetching tokens from "@ + site_url + " (HTTP "@ + crate::text::decimal(
                status as int,
            ) + ")"@,
        ),
        (status < 200 || status > 299) && status != 401 && status != 403 ==> response_failure(
            site_url,
            Ok(status),
        ) == Some(
            "Unexpected status "@ + crate::text::decimal(status as int) + " fetching tokens from "@
                + site_url,
        ),
        response_failure(site_url, Err(error)) == Some(
            "Failed to fetch tokens from "@ + site_url + ": "@ + error,
        ),
{
}

/// A body without a key is explained: it could not be read, it says itself that it failed, it
/// lists no tokens, or none of them has both the status 1 and a key.
pub proof fn law_bodies_without_a_key(site_url: Seq<char>, v: JsonView, error: Seq<char>)
    ensures
        key_in_body(site_url, Err(error)) == Err::<Seq<char>, Seq<char>>(
            "Failed to parse token response from "@ + site_url + ": "@ + error,
        ),
        v.get("success"@) == Some(JsonView::Bool(false)) ==> (v.get("message"@) matches Some(
            JsonView::Str(m),
        ) ==> key_in_body(site_url, Ok(v)) == Err::<Seq<char>, Seq<char>>(
            site_url + " responded: "@ + m,
        )),
        v.get("success"@) == Some(JsonView::Bool(false)) && !(v.get("message"@) matches Some(
            JsonView::Str(_),
        )) ==> key_in_body(site_url, Ok(v)) == Err::<Seq<char>, Seq<char>>(
            site_url + " responded: "@ + "unknown error"@,
        ),
        v.get("success"@) != Some(JsonView::Bool(false)) && entries_of(token_items(v)).len() == 0
            ==> key_in_body(site_url, Ok(v)) == Err::<Seq<char>, Seq<char>>(
            "No tokens returned from "@ + site_url,
        ),
        v.get("success"@) != Some(JsonView::Bool(false)) && entries_of(token_items(v)).len() > 0
            && (forall|i: int|
            0 <= i < entries_of(token_items(v)).len() ==> (#[trigger] entries_of(
                token_items(v),
            )[i]).status != 1 || entries_of(token_items(v))[i].key.len() == 0) ==> key_in_body(
            site_url,
            Ok(v),
        ) == Err::<Seq<char>, Seq<char>>("No enabled tokens found on "@ + site_url),
{
    law_selected_key_is_first_usable(entries_of(token_items(v)));
}

} // verus!
