//! JSON values as plain data.
//!
//! [`Json`] holds a JSON value in ordinary vectors and strings; [`JsonView`] is its
//! mathematical counterpart, over which the contracts of the library speak. Objects keep
//! their members in a list. The objects that this library reads or writes have their keys in
//! ascending order, see [`ordered`].

use crate::text::{same_text, text_before};
use vstd::prelude::*;

verus! {

/// A JSON value.
#[derive(Debug, PartialEq)]
pub enum Json {
    Null,
    Bool(bool),
    Number(serde_json::Number),
    Str(String),
    Array(Vec<Json>),
    Object(Vec<Member>),
}

/// A member of a JSON object.
#[derive(Debug, PartialEq)]
pub struct Member {
    pub key: String,
    pub value: Json,
}

/// What a [`Json`] value stands for.
pub enum JsonView {
    Null,
    Bool(bool),
    Number(serde_json::Number),
    Str(Seq<char>),
    Array(Seq<JsonView>),
    Object(Seq<MemberView>),
}

/// What a [`Member`] stands for.
pub struct MemberView {
    pub key: Seq<char>,
    pub value: JsonView,
}

impl View for Member {
    type V = MemberView;

    open spec fn view(&self) -> MemberView {
        MemberView { key: self.key@, value: self.value@ }
    }
}

impl View for Json {
    type V = JsonView;

    open spec fn view(&self) -> JsonView
        decreases self,
    {
        match self {
            Json::Null => JsonView::Null,
            Json::Bool(b) => JsonView::Bool(*b),
            Json::Number(n) => JsonView::Number(*n),
            Json::Str(s) => JsonView::Str(s@),
            Json::Array(a) => JsonView::Array(
                Seq::new(
                    a@.len(),
                    |i: int|
                        if 0 <= i < a@.len() {
                            a@[i].view()
                        } else {
                            JsonView::Null
                        },
                ),
            ),
            Json::Object(o) => JsonView::Object(
                Seq::new(
                    o@.len(),
                    |i: int|
                        if 0 <= i < o@.len() {
                            MemberView { key: o@[i].key@, value: o@[i].value.view() }
                        } else {
                            MemberView { key: Seq::empty(), value: JsonView::Null }
                        },
                ),
            ),
        }
    }
}

/// What a list of JSON values stands for.
pub open spec fn views(items: Seq<Json>) -> Seq<JsonView> {
    Seq::new(items.len(), |i: int| items[i]@)
}

/// What a list of object members stands for.
pub open spec fn member_views(members: Seq<Member>) -> Seq<MemberView> {
    Seq::new(members.len(), |i: int| members[i]@)
}

/// What an optional reference to a JSON value stands for.
pub open spec fn opt_view(j: Option<&Json>) -> Option<JsonView> {
    match j {
        Some(v) => Some(v@),
        None => None,
    }
}

/// The keys of an object's members, in their order.
pub open spec fn keys(members: Seq<MemberView>) -> Seq<Seq<char>> {
    Seq::new(members.len(), |i: int| members[i].key)
}

/// The value of the first member with a key.
pub open spec fn find(members: Seq<MemberView>, key: Seq<char>) -> Option<JsonView>
    decreases members.len(),
{
    if members.len() == 0 {
        None
    } else if members[0].key == key {
        Some(members[0].value)
    } else {
        find(members.drop_first(), key)
    }
}

/// The members with `key` set to `value`: in the place of the member with that key, or else
/// before the first member whose key comes after it.
pub open spec fn put(members: Seq<MemberView>, key: Seq<char>, value: JsonView) -> Seq<MemberView>
    decreases members.len(),
{
    if members.len() == 0 {
        seq![MemberView { key, value }]
    } else if members[0].key == key {
        members.update(0, MemberView { key, value })
    } else if crate::text::text_less(members[0].key, key) {
        seq![members[0]] + put(members.drop_first(), key, value)
    } else {
        seq![MemberView { key, value }] + members
    }
}

/// The members of an object that is made of a list of members, set one after another.
pub open spec fn record(members: Seq<MemberView>) -> Seq<MemberView>
    decreases members.len(),
{
    if members.len() == 0 {
        Seq::empty()
    } else {
        put(record(members.drop_last()), members.last().key, members.last().value)
    }
}

/// An object that is made of a list of members, set one after another.
pub open spec fn object_of(members: Seq<MemberView>) -> JsonView {
    JsonView::Object(record(members))
}

/// A member with a key and a value.
pub open spec fn field(key: Seq<char>, value: JsonView) -> MemberView {
    MemberView { key, value }
}

/// Whether every object inside a value has its keys in ascending order, each once.
pub open spec fn ordered(v: JsonView) -> bool
    decreases v,
{
    match v {
        JsonView::Array(a) => forall|i: int| 0 <= i < a.len() ==> ordered(#[trigger] a[i]),
        JsonView::Object(o) => {
            &&& crate::text::ascending(keys(o))
            &&& forall|i: int| 0 <= i < o.len() ==> ordered((#[trigger] o[i]).value)
        },
        _ => true,
    }
}

/// Whether arrays and objects are nested in a value at most `levels` deep.
pub open spec fn fits(v: JsonView, levels: nat) -> bool
    decreases v,
{
    match v {
        JsonView::Array(a) => levels > 0 && forall|i: int|
            0 <= i < a.len() ==> fits(#[trigger] a[i], (levels - 1) as nat),
        JsonView::Object(o) => levels > 0 && forall|i: int|
            0 <= i < o.len() ==> fits((#[trigger] o[i]).value, (levels - 1) as nat),
        _ => true,
    }
}

impl JsonView {
    /// The member of an object with a key; nothing for a value that is no object.
    pub open spec fn get(self, key: Seq<char>) -> Option<JsonView> {
        match self {
            JsonView::Object(o) => find(o, key),
            _ => None,
        }
    }

    /// The text of a string value.
    pub open spec fn text(self) -> Option<Seq<char>> {
        match self {
            JsonView::Str(s) => Some(s),
            _ => None,
        }
    }

    /// The value of a boolean.
    pub open spec fn flag(self) -> Option<bool> {
        match self {
            JsonView::Bool(b) => Some(b),
            _ => None,
        }
    }

    /// The items of an array.
    pub open spec fn items(self) -> Option<Seq<JsonView>> {
        match self {
            JsonView::Array(a) => Some(a),
            _ => None,
        }
    }

    /// The text of a member that is a string.
    pub open spec fn text_at(self, key: Seq<char>) -> Option<Seq<char>> {
        match self.get(key) {
            Some(v) => v.text(),
            None => None,
        }
    }

    /// The value of a member that is a boolean.
    pub open spec fn flag_at(self, key: Seq<char>) -> Option<bool> {
        match self.get(key) {
            Some(v) => v.flag(),
            None => None,
        }
    }

    /// The items of a member that is an array.
    pub open spec fn items_at(self, key: Seq<char>) -> Option<Seq<JsonView>> {
        match self.get(key) {
            Some(v) => v.items(),
            None => None,
        }
    }
}

impl Json {
    /// The member of an object with a key; nothing for a value that is no object.
    pub fn get(&self, key: &str) -> (r: Option<&Json>)
        ensures
            opt_view(r) == self@.get(key@),
            r matches Some(j) ==> decreases_to!(self => j),
    {
        match self {
            Json::Object(o) => {
                let ghost all = self@->Object_0;
                let n: usize = o.len();
                let mut i: usize = 0;
                assert(all.skip(0) =~= all);
                while i < n
                    invariant
                        n == o@.len(),
                        i <= n,
                        *self == Json::Object(*o),
                        all == self@->Object_0,
                        all.len() == n,
                        find(all, key@) == find(all.skip(i as int), key@),
                    decreases n - i,
                {
                    let member: &Member = &o[i];
                    assert(all[i as int] == member@);
                    assert(all.skip(i as int)[0] == all[i as int]);
                    if same_text(member.key.as_str(), key) {
                        return Some(&member.value);
                    }
                    assert(all.skip(i as int).drop_first() =~= all.skip(i + 1));
                    i = i + 1;
                }
                None
            },
            _ => None,
        }
    }

    /// The text of a string value.
    pub fn as_str(&self) -> (r: Option<&str>)
        ensures
            r is Some <==> self@.text() is Some,
            r matches Some(s) ==> self@.text() == Some(s@),
    {
        match self {
            Json::Str(s) => Some(s.as_str()),
            _ => None,
        }
    }

    /// The value of a boolean.
    pub fn as_bool(&self) -> (r: Option<bool>)
        ensures
            r == self@.flag(),
    {
        match self {
            Json::Bool(b) => Some(*b),
            _ => None,
        }
    }

    /// The items of an array.
    pub fn as_array(&self) -> (r: Option<&Vec<Json>>)
        ensures
            r is Some <==> self@.items() is Some,
            r matches Some(a) ==> self@.items() == Some(views(a@)),
    {
        match self {
            Json::Array(a) => {
                assert(self@->Array_0 =~= views(a@));
                Some(a)
            },
            _ => None,
        }
    }

    /// The members of an object.
    pub fn as_object(&self) -> (r: Option<&Vec<Member>>)
        ensures
            r is Some <==> self@ is Object,
            r matches Some(o) ==> self@ == JsonView::Object(member_views(o@)),
    {
        match self {
            Json::Object(o) => {
                assert(self@->Object_0 =~= member_views(o@));
                Some(o)
            },
            _ => None,
        }
    }

    /// An array of values.
    pub fn array(items: Vec<Json>) -> (r: Json)
        ensures
            r@ == JsonView::Array(views(items@)),
    {
        let r: Json = Json::Array(items);
        assert(r@->Array_0 =~= views(items@));
        r
    }

    /// An object with the given members.
    pub fn object(members: Vec<Member>) -> (r: Json)
        ensures
            r@ == JsonView::Object(member_views(members@)),
    {
        let r: Json = Json::Object(members);
        assert(r@->Object_0 =~= member_views(members@));
        r
    }

    /// A string value.
    pub fn string(s: &str) -> (r: Json)
        ensures
            r@ == JsonView::Str(s@),
    {
        Json::Str(s.to_owned())
    }
}

/// Sets a member: in the place of the member with that key, or else before the first member
/// whose key comes after it.
pub fn set_member(members: Vec<Member>, key: &str, value: Json) -> (r: Vec<Member>)
    ensures
        member_views(r@) == put(member_views(members@), key@, value@),
{
    let ghost all = member_views(members@);
    let ghost v = value@;
    let mut members: Vec<Member> = members;
    let n: usize = members.len();
    let mut at: usize = 0;
    assert(all.skip(0) =~= all);
    assert(all.take(0) + put(all, key@, v) =~= put(all, key@, v));
    while at < n && text_before(members[at].key.as_str(), key)
        invariant
            n == members@.len(),
            at <= n,
            all == member_views(members@),
            put(all, key@, v) == all.take(at as int) + put(all.skip(at as int), key@, v),
        decreases n - at,
    {
        proof {
            let rest = all.skip(at as int);
            crate::text::lemma_text_less_irreflexive(key@);
            assert(rest[0] == all[at as int]);
            assert(rest.drop_first() =~= all.skip(at + 1));
            assert(all.take(at as int) + (seq![rest[0]] + put(rest.drop_first(), key@, v))
                =~= all.take(at + 1) + put(all.skip(at + 1), key@, v));
        }
        at = at + 1;
    }
    let ghost rest = all.skip(at as int);
    if at < n && same_text(members[at].key.as_str(), key) {
        members.remove(at);
        members.insert(at, Member { key: key.to_owned(), value });
        proof {
            assert(rest[0] == all[at as int]);
            assert(put(rest, key@, v) == rest.update(0, MemberView { key: key@, value: v }));
            assert(member_views(members@) =~= all.take(at as int) + rest.update(
                0,
                MemberView { key: key@, value: v },
            ));
        }
    } else {
        members.insert(at, Member { key: key.to_owned(), value });
        proof {
            if at < n {
                assert(rest[0] == all[at as int]);
                assert(put(rest, key@, v) == seq![MemberView { key: key@, value: v }] + rest);
            } else {
                assert(rest =~= Seq::empty());
                assert(put(rest, key@, v) =~= seq![MemberView { key: key@, value: v }] + rest);
            }
            assert(member_views(members@) =~= all.take(at as int) + (seq![
                MemberView { key: key@, value: v },
            ] + rest));
        }
    }
    members
}

/// A member of an object.
pub fn member(key: &str, value: Json) -> (r: Member)
    ensures
        r@ == field(key@, value@),
{
    Member { key: key.to_owned(), value }
}

/// The object that a list of members makes, set one after another.
pub fn record_of(members: Vec<Member>) -> (r: Json)
    ensures
        r@ == object_of(member_views(members@)),
{
    let ghost all = member_views(members@);
    let ghost held = members@;
    let mut out: Vec<Member> = Vec::new();
    assert(member_views(out@) =~= record(all.take(0)));
    for m in iter: members
        invariant
            iter.seq() == held,
            all == member_views(held),
            member_views(out@) == record(all.take(iter.index() as int)),
    {
        proof {
            let k = iter.index() as int;
            assert(all.take(k + 1).drop_last() =~= all.take(k));
            assert(all.take(k + 1).last() == m@);
        }
        let Member { key, value } = m;
        out = set_member(out, key.as_str(), value);
    }
    assert(all.take(all.len() as int) =~= all);
    Json::object(out)
}

/// What was put under a key is found under it.
pub proof fn lemma_put_find(members: Seq<MemberView>, key: Seq<char>, value: JsonView)
    ensures
        find(put(members, key, value), key) == Some(value),
    decreases members.len(),
{
    if members.len() > 0 {
        let rest = members.drop_first();
        let after = put(members, key, value);
        if members[0].key == key {
            assert(after[0].key == key);
        } else if crate::text::text_less(members[0].key, key) {
            lemma_put_find(rest, key, value);
            assert(after.drop_first() =~= put(rest, key, value));
        }
    }
}

/// What is found under another key does not change.
pub proof fn lemma_put_keeps(
    members: Seq<MemberView>,
    key: Seq<char>,
    value: JsonView,
    other: Seq<char>,
)
    requires
        key != other,
    ensures
        find(put(members, key, value), other) == find(members, other),
    decreases members.len(),
{
    let after = put(members, key, value);
    if members.len() == 0 {
        assert(after.drop_first() =~= members);
    } else {
        let rest = members.drop_first();
        if members[0].key == key {
            assert(after.drop_first() =~= rest);
        } else if crate::text::text_less(members[0].key, key) {
            lemma_put_keeps(rest, key, value, other);
            assert(after.drop_first() =~= put(rest, key, value));
        } else {
            assert(after.drop_first() =~= members);
        }
    }
}

/// Of two values that are put under a key the last one stays.
pub proof fn lemma_put_twice(
    members: Seq<MemberView>,
    key: Seq<char>,
    first: JsonView,
    last: JsonView,
)
    ensures
        put(put(members, key, first), key, last) == put(members, key, last),
    decreases members.len(),
{
    let once = put(members, key, first);
    if members.len() == 0 {
        assert(once.update(0, MemberView { key, value: last }) =~= put(members, key, last));
    } else if members[0].key == key {
        assert(once.update(0, MemberView { key, value: last }) =~= put(members, key, last));
    } else if crate::text::text_less(members[0].key, key) {
        lemma_put_twice(members.drop_first(), key, first, last);
        assert(once.drop_first() =~= put(members.drop_first(), key, first));
    } else {
        assert(once.update(0, MemberView { key, value: last }) =~= put(members, key, last));
    }
}

/// Every member after a put is one from before or the one that was put.
pub proof fn lemma_put_members(members: Seq<MemberView>, key: Seq<char>, value: JsonView, i: int)
    requires
        0 <= i < put(members, key, value).len(),
    ensures
        put(members, key, value)[i] == (MemberView { key, value }) || exists|j: int|
            0 <= j < members.len() && members[j] == put(members, key, value)[i],
    decreases members.len(),
{
    let after = put(members, key, value);
    if members.len() > 0 {
        let rest = members.drop_first();
        if members[0].key == key {
            if i > 0 {
                assert(members[i] == after[i]);
            }
        } else if crate::text::text_less(members[0].key, key) {
            if i > 0 {
                lemma_put_members(rest, key, value, i - 1);
                if after[i] != (MemberView { key, value }) {
                    let j = choose|j: int|
                        0 <= j < rest.len() && rest[j] == put(rest, key, value)[i - 1];
                    assert(members[j + 1] == after[i]);
                }
            } else {
                assert(members[0] == after[0]);
            }
        } else if i > 0 {
            assert(members[i - 1] == after[i]);
        }
    }
}

/// A put keeps the keys in ascending order.
pub proof fn lemma_put_ascending(members: Seq<MemberView>, key: Seq<char>, value: JsonView)
    requires
        crate::text::ascending(keys(members)),
    ensures
        crate::text::ascending(keys(put(members, key, value))),
    decreases members.len(),
{
    let after = put(members, key, value);
    if members.len() > 0 {
        let rest = members.drop_first();
        assert forall|i: int, j: int| 0 <= i < j < rest.len() implies crate::text::text_less(
            #[trigger] keys(rest)[i],
            #[trigger] keys(rest)[j],
        ) by {
            assert(keys(rest)[i] == keys(members)[i + 1]);
            assert(keys(rest)[j] == keys(members)[j + 1]);
        }
        if members[0].key == key {
            assert(keys(after) =~= keys(members));
        } else if crate::text::text_less(members[0].key, key) {
            lemma_put_ascending(rest, key, value);
            let inner = put(rest, key, value);
            assert forall|i: int, j: int| 0 <= i < j < after.len() implies crate::text::text_less(
                #[trigger] keys(after)[i],
                #[trigger] keys(after)[j],
            ) by {
                assert(keys(after)[j] == keys(inner)[j - 1]);
                if i > 0 {
                    assert(keys(after)[i] == keys(inner)[i - 1]);
                } else {
                    lemma_put_members(rest, key, value, j - 1);
                    if inner[j - 1].key != key {
                        let k = choose|k: int| 0 <= k < rest.len() && rest[k] == inner[j - 1];
                        assert(keys(members)[0] == members[0].key);
                        assert(keys(members)[k + 1] == rest[k].key);
                    }
                }
            }
        } else {
            crate::text::lemma_text_less_total(members[0].key, key);
            assert forall|i: int, j: int| 0 <= i < j < after.len() implies crate::text::text_less(
                #[trigger] keys(after)[i],
                #[trigger] keys(after)[j],
            ) by {
                assert(keys(after)[j] == keys(members)[j - 1]);
                assert(keys(members)[0] == members[0].key);
                if i > 0 {
                    assert(keys(after)[i] == keys(members)[i - 1]);
                } else if j > 1 {
                    crate::text::lemma_text_less_transitive(
                        key,
                        members[0].key,
                        keys(members)[j - 1],
                    );
                }
            }
        }
    }
}

/// A put of an ordered value keeps an object ordered.
pub proof fn lemma_put_ordered(members: Seq<MemberView>, key: Seq<char>, value: JsonView)
    requires
        ordered(JsonView::Object(members)),
        ordered(value),
    ensures
        ordered(JsonView::Object(put(members, key, value))),
{
    lemma_put_ascending(members, key, value);
    let after = put(members, key, value);
    assert forall|i: int| 0 <= i < after.len() implies ordered((#[trigger] after[i]).value) by {
        lemma_put_members(members, key, value, i);
    }
}

/// A put of a value that is nested less deep keeps the depth of an object.
pub proof fn lemma_put_fits(members: Seq<MemberView>, key: Seq<char>, value: JsonView, levels: nat)
    requires
        levels > 0,
        fits(JsonView::Object(members), levels),
        fits(value, (levels - 1) as nat),
    ensures
        fits(JsonView::Object(put(members, key, value)), levels),
{
    let after = put(members, key, value);
    assert forall|i: int| 0 <= i < after.len() implies fits(
        (#[trigger] after[i]).value,
        (levels - 1) as nat,
    ) by {
        lemma_put_members(members, key, value, i);
    }
}

/// What is nested within some depth is nested within every larger one.
pub proof fn lemma_fits_more(v: JsonView, levels: nat, more: nat)
    requires
        fits(v, levels),
        levels <= more,
    ensures
        fits(v, more),
    decreases v,
{
    match v {
        JsonView::Array(a) => {
            assert forall|i: int| 0 <= i < a.len() implies fits(
                #[trigger] a[i],
                (more - 1) as nat,
            ) by {
                lemma_fits_more(a[i], (levels - 1) as nat, (more - 1) as nat);
            }
        },
        JsonView::Object(o) => {
            assert forall|i: int| 0 <= i < o.len() implies fits(
                (#[trigger] o[i]).value,
                (more - 1) as nat,
            ) by {
                assert(decreases_to!(v => o));
                assert(decreases_to!(o => o[i]));
                assert(decreases_to!(o[i] => o[i].value));
                lemma_fits_more(o[i].value, (levels - 1) as nat, (more - 1) as nat);
            }
        },
        _ => {},
    }
}

/// A record of ordered values is ordered.
pub proof fn lemma_record_ordered(members: Seq<MemberView>)
    requires
        forall|i: int| 0 <= i < members.len() ==> ordered((#[trigger] members[i]).value),
    ensures
        ordered(object_of(members)),
    decreases members.len(),
{
    if members.len() > 0 {
        let rest = members.drop_last();
        assert forall|i: int| 0 <= i < rest.len() implies ordered((#[trigger] rest[i]).value) by {
            assert(rest[i] == members[i]);
        }
        lemma_record_ordered(rest);
        lemma_put_ordered(record(rest), members.last().key, members.last().value);
    }
}

/// A record is one level deeper than its values.
pub proof fn lemma_record_fits(members: Seq<MemberView>, levels: nat)
    requires
        forall|i: int| 0 <= i < members.len() ==> fits((#[trigger] members[i]).value, levels),
    ensures
        fits(object_of(members), levels + 1),
    decreases members.len(),
{
    if members.len() > 0 {
        let rest = members.drop_last();
        assert forall|i: int| 0 <= i < rest.len() implies fits(
            (#[trigger] rest[i]).value,
            levels,
        ) by {
            assert(rest[i] == members[i]);
        }
        lemma_record_fits(rest, levels);
        lemma_put_fits(record(rest), members.last().key, members.last().value, levels + 1);
    }
}

/// A record has under a key what was set last under it.
pub proof fn lemma_record_find(members: Seq<MemberView>, k: int)
    requires
        0 <= k < members.len(),
        forall|i: int| k < i < members.len() ==> (#[trigger] members[i]).key != members[k].key,
    ensures
        object_of(members).get(members[k].key) == Some(members[k].value),
    decreases members.len(),
{
    let rest = members.drop_last();
    if k == members.len() - 1 {
        lemma_put_find(record(rest), members.last().key, members.last().value);
    } else {
        assert(rest[k] == members[k]);
        assert forall|i: int| k < i < rest.len() implies (#[trigger] rest[i]).key
            != rest[k].key by {
            assert(rest[i] == members[i]);
        }
        lemma_record_find(rest, k);
        lemma_put_keeps(
            record(rest),
            members.last().key,
            members.last().value,
            members[k].key,
        );
    }
}

/// A record has nothing under a key that none of its members has.
pub proof fn lemma_record_missing(members: Seq<MemberView>)
    ensures
        forall|key: Seq<char>|
            (forall|i: int| 0 <= i < members.len() ==> (#[trigger] members[i]).key != key)
                ==> #[trigger] object_of(members).get(key) is None,
    decreases members.len(),
{
    if members.len() > 0 {
        let rest = members.drop_last();
        lemma_record_missing(rest);
        assert forall|key: Seq<char>|
            (forall|i: int|
                0 <= i < members.len() ==> (
                #[trigger] members[i]).key != key) implies #[trigger] object_of(members).get(
            key,
        ) is None by {
            assert(members[members.len() - 1] == members.last());
            assert forall|i: int| 0 <= i < rest.len() implies (#[trigger] rest[i]).key != key by {
                assert(rest[i] == members[i]);
            }
            assert(object_of(rest).get(key) is None);
            lemma_put_keeps(record(rest), members.last().key, members.last().value, key);
        }
    }
}

/// A member is found under its key where no member before it has that key, and nothing is found
/// under a key that no member has.
pub proof fn law_find_the_first_member(members: Seq<MemberView>, k: int, key: Seq<char>)
    ensures
        0 <= k < members.len() && members[k].key == key && (forall|i: int|
            0 <= i < k ==> (#[trigger] members[i]).key != key) ==> JsonView::Object(members).get(
            key,
        ) == Some(members[k].value),
        (forall|i: int| 0 <= i < members.len() ==> (#[trigger] members[i]).key != key)
            ==> JsonView::Object(members).get(key) is None,
    decreases members.len(),
{
    if members.len() > 0 {
        let rest = members.drop_first();
        law_find_the_first_member(rest, k - 1, key);
        assert forall|i: int| 0 <= i < rest.len() implies #[trigger] rest[i] == members[i + 1] by {}
        if 0 < k < members.len() && members[k].key == key && (forall|i: int|
            0 <= i < k ==> (#[trigger] members[i]).key != key) {
            assert(members[0].key != key);
            assert(rest[k - 1] == members[k]);
            assert forall|i: int| 0 <= i < k - 1 implies (#[trigger] rest[i]).key != key by {
                assert(rest[i] == members[i + 1]);
            }
        }
        if forall|i: int| 0 <= i < members.len() ==> (#[trigger] members[i]).key != key {
            assert(members[0].key != key);
            assert forall|i: int| 0 <= i < rest.len() implies (#[trigger] rest[i]).key != key by {
                assert(rest[i] == members[i + 1]);
            }
        }
    }
}

/// Each kind of value is read as that kind and as no other, and only objects have members.
pub proof fn law_values_are_read_by_their_kind(
    v: JsonView,
    text: Seq<char>,
    flag: bool,
    items: Seq<JsonView>,
    key: Seq<char>,
)
    ensures
        v.text() == Some(text) <==> v == JsonView::Str(text),
        v.flag() == Some(flag) <==> v == JsonView::Bool(flag),
        v.items() == Some(items) <==> v == JsonView::Array(items),
        !(v is Object) ==> v.get(key) is None,
        v.text_at(key) == Some(text) <==> v.get(key) == Some(JsonView::Str(text)),
        v.flag_at(key) == Some(flag) <==> v.get(key) == Some(JsonView::Bool(flag)),
        v.items_at(key) == Some(items) <==> v.get(key) == Some(JsonView::Array(items)),
{
}

} // verus!
