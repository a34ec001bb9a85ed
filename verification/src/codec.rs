//! Reading and writing JSON text with `serde_json`.
//!
//! The functions marked `external_body` here call `serde_json`; what they claim of it is not
//! proved. Everything else is verified against those claims.

use crate::json::{Json, JsonView, Member};
use vstd::prelude::*;

verus! {

/// A value of `serde_json`, taken apart and put together by this module only.
#[verifier::external_type_specification]
#[verifier::external_body]
pub struct ExValue(serde_json::Value);

/// A number of `serde_json`, carried inside [`Json::Number`].
#[verifier::external_type_specification]
#[verifier::external_body]
pub struct ExNumber(serde_json::Number);

/// How deep arrays and objects may be nested in a value that is to be read again after it was
/// written: `serde_json` reads no text that is nested deeper.
pub const MAX_NESTING: usize = 127;

/// What a value of `serde_json` holds, its object members in ascending order of their keys.
pub uninterp spec fn content(v: serde_json::Value) -> JsonView;

/// What `serde_json::from_slice` reads from bytes; `None` where it fails.
pub uninterp spec fn parsed(body: Seq<u8>) -> Option<JsonView>;

/// What `serde_json::from_str` reads from a text, or the message of its error.
pub uninterp spec fn parsed_text(text: Seq<char>) -> Result<JsonView, Seq<char>>;

/// The bytes that `serde_json::to_vec` writes.
pub uninterp spec fn written(v: JsonView) -> Seq<u8>;

/// The compact text of a value, as `serde_json::Value` displays itself.
pub uninterp spec fn written_text(v: JsonView) -> Seq<char>;

/// What `serde_json::Number::as_i64` returns.
pub uninterp spec fn number_as_i64(n: serde_json::Number) -> Option<i64>;

/// The number that `serde_json::Number::from` makes of an unsigned integer.
pub uninterp spec fn number_of(n: u64) -> serde_json::Number;

/// Whether two values are the same but for numbers, which agree in their `i64` value or both
/// have none. Floating-point numbers may differ in their last digit after they were written
/// and read again.
pub open spec fn reads_as(v: JsonView, w: JsonView) -> bool
    decreases v,
{
    match v {
        JsonView::Number(m) => match w {
            JsonView::Number(n) => number_as_i64(m) == number_as_i64(n),
            _ => false,
        },
        JsonView::Array(a) => match w {
            JsonView::Array(b) => a.len() == b.len() && forall|i: int|
                0 <= i < a.len() ==> reads_as(#[trigger] a[i], b[i]),
            _ => false,
        },
        JsonView::Object(a) => match w {
            JsonView::Object(b) => a.len() == b.len() && forall|i: int|
                0 <= i < a.len() ==> (#[trigger] a[i]).key == b[i].key && reads_as(
                    a[i].value,
                    b[i].value,
                ),
            _ => false,
        },
        _ => v == w,
    }
}

/// Whether bytes are read as a value, up to [`reads_as`].
pub open spec fn reads_back(body: Seq<u8>, v: JsonView) -> bool {
    match parsed(body) {
        Some(w) => reads_as(v, w),
        None => false,
    }
}

/// Whether a text is read as a value, up to [`reads_as`].
pub open spec fn text_reads_back(text: Seq<char>, v: JsonView) -> bool {
    match parsed_text(text) {
        Ok(w) => reads_as(v, w),
        Err(_) => false,
    }
}

/// The key by which `serde_json` marks JSON text inside a string. An object that begins with it
/// is not read as an object: the text in the string is read in its place.
pub open spec fn raw_key() -> Seq<char> {
    "$serde_json::private::RawValue"@
}

/// Whether no object inside a value begins with the key that marks JSON text.
pub open spec fn no_raw_key(v: JsonView) -> bool
    decreases v,
{
    match v {
        JsonView::Array(a) => forall|i: int| 0 <= i < a.len() ==> no_raw_key(#[trigger] a[i]),
        JsonView::Object(o) => {
            &&& o.len() > 0 ==> o[0].key != raw_key()
            &&& forall|i: int| 0 <= i < o.len() ==> no_raw_key((#[trigger] o[i]).value)
        },
        _ => true,
    }
}

/// Whether a value can be read again after it was written.
pub open spec fn rereadable(v: JsonView) -> bool {
    crate::json::fits(v, MAX_NESTING as nat) && no_raw_key(v)
}

/// What an optional value stands for.
pub open spec fn option_view(r: Option<Json>) -> Option<JsonView> {
    match r {
        Some(j) => Some(j@),
        None => None,
    }
}

/// What a value, or the message in its place, stands for.
pub open spec fn result_view(r: Result<Json, String>) -> Result<JsonView, Seq<char>> {
    match r {
        Ok(j) => Ok(j@),
        Err(e) => Err(e@),
    }
}

/// What an optional value of `serde_json` holds.
spec fn option_content(r: Option<serde_json::Value>) -> Option<JsonView> {
    match r {
        Some(v) => Some(content(v)),
        None => None,
    }
}

/// What a value of `serde_json` holds, or the message in its place.
spec fn result_content(r: Result<serde_json::Value, String>) -> Result<JsonView, Seq<char>> {
    match r {
        Ok(v) => Ok(content(v)),
        Err(e) => Err(e@),
    }
}

/// One level of a value: its own kind, over values of `serde_json`.
enum Level {
    Null,
    Bool(bool),
    Number(serde_json::Number),
    Str(String),
    Array(Vec<serde_json::Value>),
    Object(Vec<(String, serde_json::Value)>),
}

/// What the items of one level hold.
spec fn contents(items: Seq<serde_json::Value>) -> Seq<JsonView> {
    Seq::new(items.len(), |i: int| content(items[i]))
}

/// What the members of one level hold.
spec fn member_contents(members: Seq<(String, serde_json::Value)>) -> Seq<crate::json::MemberView> {
    Seq::new(
        members.len(),
        |i: int| crate::json::field(members[i].0@, content(members[i].1)),
    )
}

/// What one level holds.
spec fn level_content(level: Level) -> JsonView {
    match level {
        Level::Null => JsonView::Null,
        Level::Bool(b) => JsonView::Bool(b),
        Level::Number(n) => JsonView::Number(n),
        Level::Str(s) => JsonView::Str(s@),
        Level::Array(a) => JsonView::Array(contents(a@)),
        Level::Object(o) => JsonView::Object(member_contents(o@)),
    }
}

/// The variants of `serde_json::Value`, told apart. Claimed: the level holds what the value
/// holds, and the members of an object come in ascending order of their keys, each key once
/// (`serde_json::Map` is a `BTreeMap`).
#[verifier::external_body]
fn take_apart(v: serde_json::Value) -> (r: Level)
    ensures
        level_content(r) == content(v),
        r matches Level::Object(o) ==> crate::text::ascending(
            crate::json::keys(member_contents(o@)),
        ),
{
    match v {
        serde_json::Value::Null => Level::Null,
        serde_json::Value::Bool(b) => Level::Bool(b),
        serde_json::Value::Number(n) => Level::Number(n),
        serde_json::Value::String(s) => Level::Str(s),
        serde_json::Value::Array(a) => Level::Array(a),
        serde_json::Value::Object(o) => Level::Object(o.into_iter().collect()),
    }
}

/// The variants of `serde_json::Value`, made. Claimed: the value holds what the level holds,
/// provided that the keys of an object come in ascending order, each key once.
#[verifier::external_body]
fn put_together(level: Level) -> (r: serde_json::Value)
    requires
        level matches Level::Object(o) ==> crate::text::ascending(
            crate::json::keys(member_contents(o@)),
        ),
    ensures
        content(r) == level_content(level),
{
    match level {
        Level::Null => serde_json::Value::Null,
        Level::Bool(b) => serde_json::Value::Bool(b),
        Level::Number(n) => serde_json::Value::Number(n),
        Level::Str(s) => serde_json::Value::String(s),
        Level::Array(a) => serde_json::Value::Array(a),
        Level::Object(o) => serde_json::Value::Object(o.into_iter().collect()),
    }
}

/// `serde_json::from_slice`, to a value of any kind. Claimed: the result is a function of the
/// bytes. How deep the value is nested is left unsaid: text inside a string that an object marks
/// with [`raw_key`] is read on its own, with a limit of its own.
#[verifier::external_body]
fn read_slice(body: &[u8]) -> (r: Option<serde_json::Value>)
    ensures
        parsed(body@) == option_content(r),
{
    serde_json::from_slice::<serde_json::Value>(body).ok()
}

/// `serde_json::from_str`, to a value of any kind. Claimed: the result, or the message of the
/// error, is a function of the text. How deep the value is nested is left unsaid, as for
/// [`read_slice`].
#[verifier::external_body]
fn read_str(text: &str) -> (r: Result<serde_json::Value, String>)
    ensures
        parsed_text(text@) == result_content(r),
{
    serde_json::from_str::<serde_json::Value>(text).map_err(|e| e.to_string())
}

/// `serde_json::to_vec` of a value. Claimed: it succeeds, and the bytes are a function of what
/// the value holds. Where the value is not nested deeper than the reader's limit and no object
/// in it begins with [`raw_key`], `serde_json::from_slice` reads the bytes back as the same value
/// but for the last digits of floating-point numbers. What it reads of other values is left
/// unsaid.
#[verifier::external_body]
fn write_vec(v: &serde_json::Value) -> (r: Option<Vec<u8>>)
    ensures
        r is Some,
        r->Some_0@ == written(content(*v)),
        rereadable(content(*v)) ==> reads_back(r->Some_0@, content(*v)),
{
    serde_json::to_vec(v).ok()
}

/// The `Display` of `serde_json::Value`, in its compact form. Claimed: the text is a function
/// of what the value holds. Where the value is not nested deeper than the reader's limit and no
/// object in it begins with [`raw_key`], `serde_json::from_str` reads the text back as the same
/// value but for the last digits of floating-point numbers. What it reads of other values is
/// left unsaid.
#[verifier::external_body]
fn write_text(v: &serde_json::Value) -> (r: String)
    ensures
        r@ == written_text(content(*v)),
        rereadable(content(*v)) ==> text_reads_back(r@, content(*v)),
{
    v.to_string()
}

/// `serde_json::Number::as_i64`. Claimed: the result is a function of the number.
#[verifier::external_body]
fn as_i64(n: &serde_json::Number) -> (r: Option<i64>)
    ensures
        r == number_as_i64(*n),
{
    n.as_i64()
}

/// `serde_json::Number::from` of an unsigned integer. Claimed: the number is a function of the
/// integer, and its `i64` value is that integer where it fits.
#[verifier::external_body]
fn from_u64(n: u64) -> (r: serde_json::Number)
    ensures
        r == number_of(n),
        number_as_i64(r) == (if n <= i64::MAX {
            Some(n as i64)
        } else {
            None
        }),
{
    serde_json::Number::from(n)
}

impl Json {
    /// A value of `serde_json` as plain data.
    pub fn from_value(v: serde_json::Value) -> (r: Json)
        ensures
            r@ == content(v),
            crate::json::ordered(r@),
        decreases content(v),
    {
        let ghost c = content(v);
        match take_apart(v) {
            Level::Null => Json::Null,
            Level::Bool(b) => Json::Bool(b),
            Level::Number(n) => Json::Number(n),
            Level::Str(s) => Json::Str(s),
            Level::Array(items) => {
                let ghost held = items@;
                let mut out: Vec<Json> = Vec::new();
                for item in iter: items
                    invariant
                        iter.seq() == held,
                        c == content(v),
                        c == JsonView::Array(contents(held)),
                        out@.len() == iter.index(),
                        forall|i: int|
                            0 <= i < out@.len() ==> (#[trigger] out@[i])@ == content(held[i])
                                && crate::json::ordered(out@[i]@),
                {
                    proof {
                        let k = iter.index() as int;
                        assert(c->Array_0[k] == content(item));
                        assert(decreases_to!(c => c->Array_0));
                        assert(decreases_to!(c->Array_0 => c->Array_0[k]));
                    }
                    out.push(Json::from_value(item));
                }
                let ghost made = out@;
                let r: Json = Json::array(out);
                proof {
                    assert(r@->Array_0 =~= c->Array_0);
                    assert forall|i: int| 0 <= i < r@->Array_0.len() implies crate::json::ordered(
                        #[trigger] r@->Array_0[i],
                    ) by {
                        assert(made[i]@ == r@->Array_0[i]);
                    }
                }
                r
            },
            Level::Object(members) => {
                let ghost held = members@;
                let mut out: Vec<Member> = Vec::new();
                for member in iter: members
                    invariant
                        iter.seq() == held,
                        c == content(v),
                        c == JsonView::Object(member_contents(held)),
                        out@.len() == iter.index(),
                        forall|i: int|
                            0 <= i < out@.len() ==> (#[trigger] out@[i]).key@ == held[i].0@
                                && out@[i].value@ == content(held[i].1) && crate::json::ordered(
                                out@[i].value@,
                            ),
                {
                    let (key, value) = member;
                    proof {
                        let k = iter.index() as int;
                        assert(c->Object_0[k].value == content(value));
                        assert(decreases_to!(c => c->Object_0));
                        assert(decreases_to!(c->Object_0 => c->Object_0[k]));
                        assert(decreases_to!(c->Object_0[k] => c->Object_0[k].value));
                    }
                    out.push(Member { key, value: Json::from_value(value) });
                }
                let ghost made = out@;
                let r: Json = Json::object(out);
                proof {
                    assert(r@->Object_0 =~= c->Object_0);
                    assert forall|i: int| 0 <= i < r@->Object_0.len() implies crate::json::ordered(
                        (#[trigger] r@->Object_0[i]).value,
                    ) by {
                        assert(made[i].value@ == r@->Object_0[i].value);
                    }
                }
                r
            },
        }
    }

    /// Plain data as a value of `serde_json`.
    pub fn into_value(self) -> (r: serde_json::Value)
        requires
            crate::json::ordered(self@),
        ensures
            content(r) == self@,
        decreases self,
    {
        let ghost whole = self;
        match self {
            Json::Null => put_together(Level::Null),
            Json::Bool(b) => put_together(Level::Bool(b)),
            Json::Number(n) => put_together(Level::Number(n)),
            Json::Str(s) => put_together(Level::Str(s)),
            Json::Array(items) => {
                let ghost held = items@;
                let mut out: Vec<serde_json::Value> = Vec::new();
                for item in iter: items
                    invariant
                        iter.seq() == held,
                        whole == Json::Array(items),
                        whole == self,
                        held == items@,
                        crate::json::ordered(whole@),
                        out@.len() == iter.index(),
                        forall|i: int|
                            0 <= i < out@.len() ==> content(#[trigger] out@[i]) == held[i]@,
                {
                    proof {
                        let k = iter.index() as int;
                        assert(whole@->Array_0[k] == item@);
                        assert(decreases_to!(whole => items));
                        assert(decreases_to!(items => items@));
                        assert(decreases_to!(items@ => items@[k]));
                    }
                    out.push(item.into_value());
                }
                assert(contents(out@) =~= whole@->Array_0);
                put_together(Level::Array(out))
            },
            Json::Object(members) => {
                let ghost held = members@;
                let mut out: Vec<(String, serde_json::Value)> = Vec::new();
                for member in iter: members
                    invariant
                        iter.seq() == held,
                        whole == Json::Object(members),
                        whole == self,
                        held == members@,
                        crate::json::ordered(whole@),
                        out@.len() == iter.index(),
                        forall|i: int|
                            0 <= i < out@.len() ==> (#[trigger] out@[i]).0@ == held[i].key@
                                && content(out@[i].1) == held[i].value@,
                {
                    proof {
                        let k = iter.index() as int;
                        assert(whole@->Object_0[k].value == member.value@);
                        assert(decreases_to!(whole => members));
                        assert(decreases_to!(members => members@));
                        assert(decreases_to!(members@ => members@[k]));
                        assert(decreases_to!(members@[k] => members@[k].value));
                    }
                    let Member { key, value } = member;
                    out.push((key, value.into_value()));
                }
                assert(member_contents(out@) =~= whole@->Object_0);
                put_together(Level::Object(out))
            },
        }
    }

    /// Reads JSON text from bytes.
    pub fn from_slice(body: &[u8]) -> (r: Option<Json>)
        ensures
            parsed(body@) == option_view(r),
            r matches Some(j) ==> crate::json::ordered(j@),
    {
        match read_slice(body) {
            Some(v) => Some(Json::from_value(v)),
            None => None,
        }
    }

    /// Reads JSON text, or says why it is none.
    pub fn from_text(text: &str) -> (r: Result<Json, String>)
        ensures
            parsed_text(text@) == result_view(r),
            r matches Ok(j) ==> crate::json::ordered(j@),
    {
        match read_str(text) {
            Ok(v) => Ok(Json::from_value(v)),
            Err(e) => Err(e),
        }
    }

    /// Writes the value as bytes of JSON text, which read back where the value is
    /// [`rereadable`].
    pub fn into_bytes(self) -> (r: Vec<u8>)
        requires
            crate::json::ordered(self@),
        ensures
            r@ == written(self@),
            rereadable(self@) ==> reads_back(r@, self@),
    {
        let v: serde_json::Value = self.into_value();
        match write_vec(&v) {
            Some(b) => b,
            None => Vec::new(),
        }
    }

    /// Writes the value as JSON text, which reads back where the value is [`rereadable`].
    pub fn into_text(self) -> (r: String)
        requires
            crate::json::ordered(self@),
        ensures
            r@ == written_text(self@),
            rereadable(self@) ==> text_reads_back(r@, self@),
    {
        let v: serde_json::Value = self.into_value();
        write_text(&v)
    }

    /// The value of a number that is a signed 64-bit integer.
    pub fn as_i64(&self) -> (r: Option<i64>)
        ensures
            r == int_value(self@),
    {
        match self {
            Json::Number(n) => as_i64(n),
            _ => None,
        }
    }

    /// An unsigned integer as a JSON number.
    pub fn number(n: u64) -> (r: Json)
        ensures
            r@ == JsonView::Number(number_of(n)),
            n <= i64::MAX ==> int_value(r@) == Some(n as i64),
            n > i64::MAX ==> int_value(r@) is None,
    {
        Json::Number(from_u64(n))
    }
}

/// The value of a number that is a signed 64-bit integer.
pub open spec fn int_value(v: JsonView) -> Option<i64> {
    match v {
        JsonView::Number(n) => number_as_i64(n),
        _ => None,
    }
}

/// Whether two optional values are both missing, or the same up to [`reads_as`].
pub open spec fn option_reads_as(v: Option<JsonView>, w: Option<JsonView>) -> bool {
    match v {
        Some(x) => match w {
            Some(y) => reads_as(x, y),
            None => false,
        },
        None => w is None,
    }
}

/// A put under an ordinary key keeps an object readable again.
pub proof fn lemma_put_rereadable(
    members: Seq<crate::json::MemberView>,
    key: Seq<char>,
    value: JsonView,
)
    requires
        rereadable(JsonView::Object(members)),
        crate::json::fits(value, (MAX_NESTING - 1) as nat),
        no_raw_key(value),
        key != raw_key(),
    ensures
        rereadable(JsonView::Object(crate::json::put(members, key, value))),
{
    crate::json::lemma_put_fits(members, key, value, MAX_NESTING as nat);
    lemma_put_no_raw_key(members, key, value);
}

proof fn lemma_put_no_raw_key(
    members: Seq<crate::json::MemberView>,
    key: Seq<char>,
    value: JsonView,
)
    requires
        no_raw_key(JsonView::Object(members)),
        no_raw_key(value),
        key != raw_key(),
    ensures
        no_raw_key(JsonView::Object(crate::json::put(members, key, value))),
{
    let after = crate::json::put(members, key, value);
    assert forall|i: int| 0 <= i < after.len() implies no_raw_key((#[trigger] after[i]).value) by {
        crate::json::lemma_put_members(members, key, value, i);
    }
}

/// A record of values under ordinary keys has no object that begins with the key that marks JSON
/// text, if they have none.
pub proof fn lemma_record_no_raw_key(members: Seq<crate::json::MemberView>)
    requires
        forall|i: int|
            0 <= i < members.len() ==> (#[trigger] members[i]).key != raw_key() && no_raw_key(
                members[i].value,
            ),
    ensures
        no_raw_key(crate::json::object_of(members)),
    decreases members.len(),
{
    if members.len() > 0 {
        let rest = members.drop_last();
        assert forall|i: int| 0 <= i < rest.len() implies (#[trigger] rest[i]).key != raw_key()
            && no_raw_key(rest[i].value) by {
            assert(rest[i] == members[i]);
        }
        lemma_record_no_raw_key(rest);
        lemma_put_no_raw_key(
            crate::json::record(rest),
            members.last().key,
            members.last().value,
        );
    }
}

/// Values that are the same up to [`reads_as`] have the same members, up to it.
pub proof fn lemma_reads_as_get(v: JsonView, w: JsonView, key: Seq<char>)
    requires
        reads_as(v, w),
    ensures
        option_reads_as(v.get(key), w.get(key)),
{
    if let JsonView::Object(a) = v {
        if let JsonView::Object(b) = w {
            lemma_reads_as_find(a, b, key);
        }
    }
}

proof fn lemma_reads_as_find(
    a: Seq<crate::json::MemberView>,
    b: Seq<crate::json::MemberView>,
    key: Seq<char>,
)
    requires
        reads_as(JsonView::Object(a), JsonView::Object(b)),
    ensures
        option_reads_as(crate::json::find(a, key), crate::json::find(b, key)),
    decreases a.len(),
{
    if a.len() > 0 {
        assert(a[0].key == b[0].key && reads_as(a[0].value, b[0].value));
        if a[0].key != key {
            let c = a.drop_first();
            let d = b.drop_first();
            assert forall|i: int| 0 <= i < c.len() implies (#[trigger] c[i]).key == d[i].key
                && reads_as(c[i].value, d[i].value) by {
                assert(c[i] == a[i + 1]);
            }
            lemma_reads_as_find(c, d, key);
        }
    }
}

/// Only numbers have an integer value, which is the one that `serde_json` gives them.
pub proof fn law_only_numbers_are_integers(v: JsonView, n: serde_json::Number)
    ensures
        int_value(JsonView::Number(n)) == number_as_i64(n),
        !(v is Number) ==> int_value(v) is None,
{
}

} // verus!
