//! Request headers for the management endpoints of upstream sites.
//!
//! The functions marked `external_body` here call the header types that `reqwest` re-exports
//! from `http`; what they claim is not proved.

use reqwest::header::{HeaderMap, HeaderName, HeaderValue};
use vstd::prelude::*;

use crate::text::{parse_unsigned, signed_text};

verus! {

/// A header map.
#[verifier::external_type_specification]
#[verifier::external_body]
#[verifier::reject_recursive_types(T)]
pub struct ExHeaderMap<T>(reqwest::header::HeaderMap<T>);

/// A header name.
#[verifier::external_type_specification]
#[verifier::external_body]
pub struct ExHeaderName(reqwest::header::HeaderName);

/// A header value.
#[verifier::external_type_specification]
#[verifier::external_body]
pub struct ExHeaderValue(reqwest::header::HeaderValue);

/// Headers: the values of each name, in their order. Names are in lower case.
pub type Entries = Map<Seq<u8>, Seq<Seq<u8>>>;

/// The headers that a map holds.
pub uninterp spec fn header_entries(m: HeaderMap<HeaderValue>) -> Entries;

/// The bytes of a header name, in lower case.
pub uninterp spec fn name_bytes(n: HeaderName) -> Seq<u8>;

/// The bytes of a header value.
pub uninterp spec fn value_bytes(v: HeaderValue) -> Seq<u8>;

/// Whether a byte may stand in a header name.
pub open spec fn is_token_byte(b: u8) -> bool {
    ||| 48 <= b <= 57
    ||| 65 <= b <= 90
    ||| 94 <= b <= 122
    ||| b == 33
    ||| 35 <= b <= 39
    ||| b == 42
    ||| b == 43
    ||| b == 45
    ||| b == 46
    ||| b == 124
    ||| b == 126
}

/// A byte with ASCII capitals turned to lower case.
pub open spec fn lower_byte(b: u8) -> u8 {
    if 65 <= b <= 90 {
        (b + 32) as u8
    } else {
        b
    }
}

/// Whether bytes form a header name.
pub open spec fn is_header_name(s: Seq<u8>) -> bool {
    1 <= s.len() <= 65535 && forall|i: int| 0 <= i < s.len() ==> is_token_byte(#[trigger] s[i])
}

/// The bytes of a header name in lower case.
pub open spec fn lower_bytes(s: Seq<u8>) -> Seq<u8> {
    Seq::new(s.len(), |i: int| lower_byte(s[i]))
}

/// Whether bytes form a header value: no control characters but the tab.
pub open spec fn is_header_value(s: Seq<u8>) -> bool {
    forall|i: int| 0 <= i < s.len() ==> ((#[trigger] s[i]) >= 32 && s[i] != 127) || s[i] == 9
}

/// `HeaderMap::new`. Claimed: the map holds no header.
#[verifier::external_body]
fn no_headers() -> (r: HeaderMap<HeaderValue>)
    ensures
        header_entries(r) == Entries::empty(),
{
    HeaderMap::new()
}

/// `HeaderName::from_bytes`. Claimed: it accepts one to 65535 token characters and no other
/// bytes, and the name holds them in lower case.
#[verifier::external_body]
fn header_name(src: &[u8]) -> (r: Option<HeaderName>)
    ensures
        r is Some <==> is_header_name(src@),
        r is Some ==> name_bytes(r->Some_0) == lower_bytes(src@),
{
    HeaderName::from_bytes(src).ok()
}

/// `HeaderValue::from_str`. Claimed: it accepts a text without control characters other than
/// the tab and no other text, and the value holds its bytes.
#[verifier::external_body]
fn header_value(src: &str) -> (r: Option<HeaderValue>)
    ensures
        r is Some <==> is_header_value(vstd::utf8::encode_utf8(src@)),
        r is Some ==> value_bytes(r->Some_0) == vstd::utf8::encode_utf8(src@),
{
    HeaderValue::from_str(src).ok()
}

/// `HeaderMap::insert`. Claimed: the name then has this one value, and the other headers stay
/// as they are. The map panics beyond its capacity, which a map of a few thousand names is
/// far from.
#[verifier::external_body]
fn set_header(m: &mut HeaderMap<HeaderValue>, name: HeaderName, value: HeaderValue)
    requires
        header_entries(*old(m)).dom().finite(),
        header_entries(*old(m)).dom().len() < 4096,
    ensures
        header_entries(*final(m)) == header_entries(*old(m)).insert(
            name_bytes(name),
            seq![value_bytes(value)],
        ),
{
    m.insert(name, value);
}

fn put_header(m: &mut HeaderMap<HeaderValue>, name: &str, value: &str)
    requires
        header_entries(*old(m)).dom().finite(),
        header_entries(*old(m)).dom().len() < 4096,
    ensures
        header_entries(*final(m)) == with_header(header_entries(*old(m)), name@, value@),
{
    if let Some(n) = header_name(name.as_bytes()) {
        if let Some(v) = header_value(value) {
            set_header(m, n, v);
        }
    }
}

/// The headers with one more, which is left out where its name or its value cannot be sent.
pub open spec fn with_header(
    entries: Entries,
    name: Seq<char>,
    value: Seq<char>,
) -> Entries {
    let n = vstd::utf8::encode_utf8(name);
    let v = vstd::utf8::encode_utf8(value);
    if is_header_name(n) && is_header_value(v) {
        entries.insert(lower_bytes(n), seq![v])
    } else {
        entries
    }
}

/// The names under which the forks of the management interface expect the user's number.
pub open spec fn user_id_names() -> Seq<Seq<char>> {
    seq![
        "New-API-User"@,
        "Veloera-User"@,
        "voapi-user"@,
        "User-id"@,
        "Rix-Api-User"@,
        "neo-api-user"@,
    ]
}

/// The key of a header name: its bytes in lower case.
pub open spec fn header_key(name: Seq<char>) -> Seq<u8> {
    lower_bytes(vstd::utf8::encode_utf8(name))
}

/// The headers that give the user's number, once each under the first `n` of the names.
pub open spec fn user_id_entries(user_id: int, n: int) -> Entries {
    Map::new(
        |key: Seq<u8>|
            exists|i: int| 0 <= i < n && key == header_key(#[trigger] user_id_names()[i]),
        |key: Seq<u8>| seq![vstd::utf8::encode_utf8(crate::text::decimal(user_id))],
    )
}

/// The headers of a request for the tokens of an account: the user's number, the access token
/// where it can be sent as a header value, and the content type.
pub open spec fn token_list_entries(user_id: int, access_token: Seq<char>) -> Entries {
    with_header(
        with_header(user_id_entries(user_id, 6), "authorization"@, access_token),
        "content-type"@,
        "application/json"@,
    )
}

/// ASCII text is encoded as one byte for each character.
proof fn lemma_ascii_bytes(s: Seq<char>)
    requires
        vstd::utf8::is_ascii_chars(s),
    ensures
        vstd::utf8::encode_utf8(s) =~= Seq::new(s.len(), |i: int| s[i] as u8),
{
    vstd::utf8::is_ascii_chars_encode_utf8(s);
}

/// The names under which the user's number is sent are header names.
proof fn lemma_user_id_names(k: int)
    requires
        0 <= k < 6,
    ensures
        is_header_name(vstd::utf8::encode_utf8(user_id_names()[k])),
{
    reveal_strlit("New-API-User");
    reveal_strlit("Veloera-User");
    reveal_strlit("voapi-user");
    reveal_strlit("User-id");
    reveal_strlit("Rix-Api-User");
    reveal_strlit("neo-api-user");
    let s = user_id_names()[k];
    assert(vstd::utf8::is_ascii_chars(s));
    lemma_ascii_bytes(s);
}

/// The names under which the user's number is sent are different headers.
proof fn lemma_user_id_keys_differ(j: int, k: int)
    requires
        0 <= j < k < 6,
    ensures
        header_key(user_id_names()[j]) != header_key(user_id_names()[k]),
{
    reveal_strlit("New-API-User");
    reveal_strlit("Veloera-User");
    reveal_strlit("voapi-user");
    reveal_strlit("User-id");
    reveal_strlit("Rix-Api-User");
    reveal_strlit("neo-api-user");
    let s = user_id_names()[j];
    let t = user_id_names()[k];
    assert(vstd::utf8::is_ascii_chars(s) && vstd::utf8::is_ascii_chars(t));
    lemma_ascii_bytes(s);
    lemma_ascii_bytes(t);
    let a = header_key(s);
    let b = header_key(t);
    assert(a.len() == s.len() && b.len() == t.len());
    assert(a[0] == lower_byte(s[0] as u8) && a[2] == lower_byte(s[2] as u8));
    assert(b[0] == lower_byte(t[0] as u8) && b[2] == lower_byte(t[2] as u8));
    assert(a.len() != b.len() || a[0] != b[0] || a[2] != b[2]);
}

/// A number in decimal notation is a header value.
proof fn lemma_decimal_value(n: int)
    ensures
        is_header_value(vstd::utf8::encode_utf8(crate::text::decimal(n))),
{
    let s = crate::text::decimal(n);
    if n < 0 {
        crate::text::lemma_digits_read_back((-n) as nat);
    } else {
        crate::text::lemma_digits_read_back(n as nat);
    }
    assert forall|i: int| 0 <= i < s.len() implies 32 <= (#[trigger] s[i]) as int <= 57 by {
        if n < 0 && i > 0 {
            assert(s[i] == crate::text::digits((-n) as nat)[i - 1]);
        }
    }
    assert(vstd::utf8::is_ascii_chars(s));
    lemma_ascii_bytes(s);
}

/// Builds the user-number headers that the forks of the management interface expect.
pub fn build_user_id_headers(user_id: i64) -> (r: HeaderMap<HeaderValue>)
    ensures
        header_entries(r) == user_id_entries(user_id as int, 6),
        header_entries(r).dom().finite(),
        header_entries(r).dom().len() == 6,
{
    let id: String = signed_text(user_id);
    let mut headers = no_headers();
    let names: [&str; 6] = [
        "New-API-User",
        "Veloera-User",
        "voapi-user",
        "User-id",
        "Rix-Api-User",
        "neo-api-user",
    ];
    let mut i: usize = 0;
    assert(header_entries(headers) =~= user_id_entries(user_id as int, 0));
    while i < 6
        invariant
            i <= 6,
            id@ == crate::text::decimal(user_id as int),
            forall|k: int| 0 <= k < 6 ==> (#[trigger] names@[k])@ == user_id_names()[k],
            header_entries(headers) == user_id_entries(user_id as int, i as int),
            header_entries(headers).dom().finite(),
            header_entries(headers).dom().len() == i,
        decreases 6 - i,
    {
        let ghost before = header_entries(headers);
        put_header(&mut headers, names[i], id.as_str());
        proof {
            lemma_user_id_names(i as int);
            lemma_decimal_value(user_id as int);
            let name = user_id_names()[i as int];
            assert(!before.contains_key(header_key(name))) by {
                if before.contains_key(header_key(name)) {
                    let k = choose|k: int|
                        0 <= k < i && header_key(name) == header_key(#[trigger] user_id_names()[k]);
                    lemma_user_id_keys_differ(k, i as int);
                }
            }
            assert(names@[i as int]@ == name);
            let after = user_id_entries(user_id as int, i + 1);
            assert forall|key: Seq<u8>| #[trigger]
                header_entries(headers).contains_key(key) == after.contains_key(key) by {
                if after.contains_key(key) {
                    let k = choose|k: int|
                        0 <= k < i + 1 && key == header_key(#[trigger] user_id_names()[k]);
                    if k < i {
                        assert(before.contains_key(key));
                    }
                }
                if before.contains_key(key) {
                    let k = choose|k: int|
                        0 <= k < i && key == header_key(#[trigger] user_id_names()[k]);
                    assert(key == header_key(user_id_names()[k]) && k < i + 1);
                }
            }
            assert(header_entries(headers) =~= after);
        }
        i = i + 1;
    }
    headers
}

/// Builds the headers of a request for the tokens of an account.
pub fn token_list_headers(user_id: i64, access_token: &str) -> (r: HeaderMap<HeaderValue>)
    ensures
        header_entries(r) == token_list_entries(user_id as int, access_token@),
{
    let mut headers = build_user_id_headers(user_id);
    put_header(&mut headers, "authorization", access_token);
    put_header(&mut headers, "content-type", "application/json");
    headers
}

/// `HeaderMap::get`. Claimed: it finds the first value of the name, and nothing where the map
/// has no such header.
#[verifier::external_body]
fn get_header<'a>(m: &'a HeaderMap<HeaderValue>, name: &HeaderName) -> (r: Option<&'a HeaderValue>)
    ensures
        r is Some <==> header_entries(*m).contains_key(name_bytes(*name)),
        r is Some ==> header_entries(*m)[name_bytes(*name)].len() > 0,
        r is Some ==> value_bytes(*r->Some_0) == header_entries(*m)[name_bytes(*name)][0],
{
    m.get(name)
}

/// Whether bytes are visible ASCII characters, spaces and tabs.
pub open spec fn is_visible_ascii(s: Seq<u8>) -> bool {
    forall|i: int| 0 <= i < s.len() ==> 32 <= (#[trigger] s[i]) < 127 || s[i] == 9
}

/// `HeaderValue::to_str`. Claimed: it gives the bytes as a text where they are visible ASCII
/// characters, spaces and tabs, and fails on every other value.
#[verifier::external_body]
fn header_text(v: &HeaderValue) -> (r: Option<String>)
    ensures
        r is Some <==> is_visible_ascii(value_bytes(*v)),
        r is Some ==> vstd::utf8::encode_utf8(r->Some_0@) == value_bytes(*v),
{
    v.to_str().ok().map(String::from)
}

/// The seconds that the header `retry-after` asks to wait: its first value, where that is an
/// unsigned number.
pub open spec fn retry_after_value(entries: Entries) -> Option<u64> {
    let key = header_key("retry-after"@);
    if entries.contains_key(key) && is_visible_ascii(entries[key][0]) {
        crate::text::unsigned_value(vstd::utf8::decode_utf8(entries[key][0]))
    } else {
        None
    }
}

/// Reads the seconds that the header `retry-after` asks to wait.
pub fn retry_after(headers: &HeaderMap<HeaderValue>) -> (r: Option<u64>)
    ensures
        r == retry_after_value(header_entries(*headers)),
{
    proof {
        reveal_strlit("retry-after");
        assert(vstd::utf8::is_ascii_chars("retry-after"@));
        lemma_ascii_bytes("retry-after"@);
    }
    match header_name("retry-after".as_bytes()) {
        Some(name) => match get_header(headers, &name) {
            Some(value) => match header_text(value) {
                Some(text) => {
                    proof {
                        vstd::utf8::encode_utf8_decode_utf8(text@);
                    }
                    parse_unsigned(text.as_str())
                },
                None => None,
            },
            None => None,
        },
        None => None,
    }
}

/// The user's number is sent under each of the names, and under each once.
pub proof fn law_user_id_under_every_name(user_id: int, i: int)
    requires
        0 <= i < user_id_names().len(),
    ensures
        user_id_entries(user_id, 6).contains_key(header_key(user_id_names()[i])),
        user_id_entries(user_id, 6)[header_key(user_id_names()[i])] == seq![
            vstd::utf8::encode_utf8(crate::text::decimal(user_id)),
        ],
{
    assert(header_key(user_id_names()[i]) == header_key(user_id_names()[i]));
}

/// The headers of a request for tokens, all of them: the user's number under each of six names,
/// the access token as it is under `authorization` where it can be sent, and the content type.
/// No other header is sent.
pub proof fn law_token_list_headers(user_id: int, access_token: Seq<char>)
    ensures
        forall|name: Seq<char>|
            #![trigger header_key(name)]
            name == "New-API-User"@ || name == "Veloera-User"@ || name == "voapi-user"@ || name
                == "User-id"@ || name == "Rix-Api-User"@ || name == "neo-api-user"@
                ==> token_list_entries(user_id, access_token).contains_key(header_key(name))
                && token_list_entries(user_id, access_token)[header_key(name)] == seq![
                vstd::utf8::encode_utf8(crate::text::decimal(user_id)),
            ],
        is_header_value(vstd::utf8::encode_utf8(access_token)) ==> token_list_entries(
            user_id,
            access_token,
        ).contains_key(header_key("authorization"@)) && token_list_entries(
            user_id,
            access_token,
        )[header_key("authorization"@)] == seq![vstd::utf8::encode_utf8(access_token)],
        !is_header_value(vstd::utf8::encode_utf8(access_token)) ==> !token_list_entries(
            user_id,
            access_token,
        ).contains_key(header_key("authorization"@)),
        token_list_entries(user_id, access_token).contains_key(header_key("content-type"@)),
        token_list_entries(user_id, access_token)[header_key("content-type"@)] == seq![
            vstd::utf8::encode_utf8("application/json"@),
        ],
        forall|key: Seq<u8>| #[trigger]
            token_list_entries(user_id, access_token).contains_key(key) ==> {
                ||| key == header_key("New-API-User"@)
                ||| key == header_key("Veloera-User"@)
                ||| key == header_key("voapi-user"@)
                ||| key == header_key("User-id"@)
                ||| key == header_key("Rix-Api-User"@)
                ||| key == header_key("neo-api-user"@)
                ||| key == header_key("authorization"@)
                ||| key == header_key("content-type"@)
            },
{
    reveal_strlit("authorization");
    reveal_strlit("content-type");
    reveal_strlit("application/json");
    let auth = "authorization"@;
    let kind = "content-type"@;
    let mime = "application/json"@;
    assert(vstd::utf8::is_ascii_chars(auth) && vstd::utf8::is_ascii_chars(kind)
        && vstd::utf8::is_ascii_chars(mime));
    lemma_ascii_bytes(auth);
    lemma_ascii_bytes(kind);
    lemma_ascii_bytes(mime);
    assert(is_header_name(vstd::utf8::encode_utf8(auth)));
    assert(is_header_name(vstd::utf8::encode_utf8(kind)));
    assert(is_header_value(vstd::utf8::encode_utf8(mime)));
    assert(header_key(auth).len() == 13 && header_key(kind).len() == 12);
    assert(header_key(kind)[0] == 99u8);
    assert forall|i: int| 0 <= i < 6 implies header_key(#[trigger] user_id_names()[i])
        != header_key(auth) && header_key(user_id_names()[i]) != header_key(kind)
        && user_id_entries(user_id, 6).contains_key(header_key(user_id_names()[i])) by {
        lemma_user_id_key_shape(i);
        law_user_id_under_every_name(user_id, i);
    }
    assert(user_id_names()[0] == "New-API-User"@);
    assert(user_id_names()[1] == "Veloera-User"@);
    assert(user_id_names()[2] == "voapi-user"@);
    assert(user_id_names()[3] == "User-id"@);
    assert(user_id_names()[4] == "Rix-Api-User"@);
    assert(user_id_names()[5] == "neo-api-user"@);
    assert forall|key: Seq<u8>| #[trigger]
        user_id_entries(user_id, 6).contains_key(key) implies exists|i: int|
        0 <= i < 6 && key == header_key(#[trigger] user_id_names()[i]) by {}
}

/// The keys under which the user's number is sent are no longer than twelve bytes, and do not
/// begin as the content type does.
proof fn lemma_user_id_key_shape(k: int)
    requires
        0 <= k < 6,
    ensures
        header_key(user_id_names()[k]).len() <= 12,
        header_key(user_id_names()[k])[0] != 99u8,
{
    reveal_strlit("New-API-User");
    reveal_strlit("Veloera-User");
    reveal_strlit("voapi-user");
    reveal_strlit("User-id");
    reveal_strlit("Rix-Api-User");
    reveal_strlit("neo-api-user");
    let s = user_id_names()[k];
    assert(vstd::utf8::is_ascii_chars(s));
    lemma_ascii_bytes(s);
}

/// The seconds to wait are the number that the first `retry-after` value of visible characters
/// spells, and there are none without one.
pub proof fn law_retry_after(entries: Entries, n: u64)
    ensures
        retry_after_value(entries) == Some(n) <==> entries.contains_key(header_key("retry-after"@))
            && is_visible_ascii(entries[header_key("retry-after"@)][0])
            && crate::text::unsigned_value(
            vstd::utf8::decode_utf8(entries[header_key("retry-after"@)][0]),
        ) == Some(n),
{
}

/// A header of plain number text gives that number of seconds.
pub proof fn law_retry_after_reads_decimal_numbers(entries: Entries, n: u64)
    requires
        entries.contains_key(header_key("retry-after"@)),
        entries[header_key("retry-after"@)].len() > 0,
        entries[header_key("retry-after"@)][0] == vstd::utf8::encode_utf8(
            crate::text::decimal(n as int),
        ),
    ensures
        retry_after_value(entries) == Some(n),
{
    let s = crate::text::decimal(n as int);
    crate::text::lemma_digits_read_back(n as nat);
    crate::text::law_unsigned_read_back(n);
    assert(vstd::utf8::is_ascii_chars(s)) by {
        assert forall|i: int| 0 <= i < s.len() implies 48 <= (#[trigger] s[i]) as int <= 57 by {
            assert(crate::text::is_digit(s[i]));
        }
    }
    lemma_ascii_bytes(s);
    vstd::utf8::encode_utf8_decode_utf8(s);
    let b = vstd::utf8::encode_utf8(s);
    assert forall|i: int| 0 <= i < b.len() implies 32 <= (#[trigger] b[i]) < 127 by {
        assert(crate::text::is_digit(s[i]));
    }
}

} // verus!
