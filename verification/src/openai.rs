//! The OpenAI-compatible endpoints: what a request body asks for, the model it names, and the
//! bodies of the answers that the proxy writes itself.

use vstd::prelude::*;

use crate::json::{member, record_of, set_member, Json, JsonView, Member};
use crate::text::same_text;

verus! {

/// Whether a request body asks for a streamed answer. What is no JSON object does not.
pub open spec fn stream_in(v: Option<JsonView>) -> bool {
    match v {
        Some(v) => v.flag_at("stream"@) == Some(true),
        None => false,
    }
}

/// The model that a request body names.
pub open spec fn model_in(v: Option<JsonView>) -> Option<Seq<char>> {
    match v {
        Some(v) => v.text_at("model"@),
        None => None,
    }
}

/// A request body with its model replaced. What is no object stays as it is.
pub open spec fn with_model(
    v: JsonView,
    model: Seq<char>,
) -> JsonView {
    match v {
        JsonView::Object(o) => JsonView::Object(
            crate::json::put(o, "model"@, JsonView::Str(model)),
        ),
        _ => v,
    }
}

/// Whether a value asks for a streamed answer.
pub fn stream_flag(v: &Json) -> (r: bool)
    ensures
        r == stream_in(Some(v@)),
{
    match v.get("stream") {
        Some(s) => match s.as_bool() {
            Some(b) => b,
            None => false,
        },
        None => false,
    }
}

/// The model that a value names.
pub fn model_name(v: &Json) -> (r: Option<String>)
    ensures
        crate::text::opt_text(r) == model_in(Some(v@)),
{
    match v.get("model") {
        Some(m) => match m.as_str() {
            Some(s) => Some(s.to_owned()),
            None => None,
        },
        None => None,
    }
}

/// Replaces the model that a value names. A value that is ordered stays so, and one that can be
/// read again after it was written stays so.
pub fn set_model(v: Json, new_model: &str) -> (r: Json)
    ensures
        r@ == with_model(v@, new_model@),
        crate::json::ordered(v@) ==> crate::json::ordered(r@),
        crate::codec::rereadable(v@) ==> crate::codec::rereadable(r@),
{
    match v {
        Json::Object(members) => {
            assert(v@->Object_0 =~= crate::json::member_views(members@));
            proof {
                let o = v@->Object_0;
                let m = JsonView::Str(new_model@);
                if crate::json::ordered(v@) {
                    crate::json::lemma_put_ordered(o, "model"@, m);
                }
                if crate::codec::rereadable(v@) {
                    reveal_strlit("model");
                    reveal_strlit("$serde_json::private::RawValue");
                    assert("model"@.len() != crate::codec::raw_key().len());
                    crate::codec::lemma_put_rereadable(o, "model"@, m);
                }
            }
            Json::object(set_member(members, "model", Json::string(new_model)))
        },
        other => other,
    }
}

/// Whether a request body asks for a streamed answer.
pub fn extract_stream_flag(body: &[u8]) -> (r: bool)
    ensures
        r == stream_in(crate::codec::parsed(body@)),
{
    match Json::from_slice(body) {
        Some(v) => stream_flag(&v),
        None => false,
    }
}

/// The model that a request body names.
pub fn extract_model(body: &[u8]) -> (r: Option<String>)
    ensures
        crate::text::opt_text(r) == model_in(crate::codec::parsed(body@)),
{
    match Json::from_slice(body) {
        Some(v) => model_name(&v),
        None => None,
    }
}

/// What is read as a value with its model replaced names the new model, asks for a stream as the
/// value does, and has its other members.
proof fn lemma_replaced_reads_back(v: JsonView, model: Seq<char>, read: JsonView)
    requires
        crate::codec::reads_as(with_model(v, model), read),
    ensures
        v is Object ==> model_in(Some(read)) == Some(model),
        stream_in(Some(read)) == stream_in(Some(v)),
        forall|key: Seq<char>|
            key != "model"@ ==> crate::codec::option_reads_as(
                v.get(key),
                (#[trigger] read.get(key)),
            ),
{
    let after = with_model(v, model);
    crate::codec::lemma_reads_as_get(after, read, "model"@);
    if let JsonView::Object(o) = v {
        crate::json::lemma_put_find(o, "model"@, JsonView::Str(model));
    }
    assert forall|key: Seq<char>| key != "model"@ implies crate::codec::option_reads_as(
        v.get(key),
        (#[trigger] read.get(key)),
    ) by {
        crate::codec::lemma_reads_as_get(after, read, key);
        if let JsonView::Object(o) = v {
            crate::json::lemma_put_keeps(o, "model"@, JsonView::Str(model), key);
        }
    }
    reveal_strlit("model");
    reveal_strlit("stream");
    assert("model"@.len() != "stream"@.len());
    assert(crate::codec::option_reads_as(v.get("stream"@), read.get("stream"@)));
}

/// Replaces the model that a request body names. A body that is no JSON stays as it is; any
/// other is written anew. Where what was read can be read again, the new body of an object names
/// the new model; it asks for a stream as before, and its other members read as before.
pub fn replace_model_in_body(body: &[u8], new_model: &str) -> (r: Vec<u8>)
    ensures
        crate::codec::parsed(body@) is None ==> r@ == body@,
        crate::codec::parsed(body@) matches Some(v) ==> {
            &&& r@ == crate::codec::written(with_model(v, new_model@))
            &&& crate::codec::rereadable(v) ==> {
                &&& crate::codec::reads_back(r@, with_model(v, new_model@))
                &&& v is Object ==> model_in(crate::codec::parsed(r@)) == Some(new_model@)
                &&& stream_in(crate::codec::parsed(r@)) == stream_in(Some(v))
                &&& forall|key: Seq<char>|
                    key != "model"@ ==> crate::codec::option_reads_as(
                        v.get(key),
                        (#[trigger] crate::codec::parsed(r@)->Some_0.get(key)),
                    )
            }
        },
{
    match Json::from_slice(body) {
        Some(v) => {
            let ghost before = v@;
            let r: Vec<u8> = set_model(v, new_model).into_bytes();
            proof {
                if crate::codec::rereadable(before) {
                    lemma_replaced_reads_back(
                        before,
                        new_model@,
                        crate::codec::parsed(r@)->Some_0,
                    );
                }
            }
            r
        },
        None => {
            let mut r: Vec<u8> = Vec::new();
            r.extend_from_slice(body);
            assert(r@ =~= body@);
            r
        },
    }
}

/// The body to forward once the alias of its model was resolved: as it is where the model is
/// its own alias, and else with the model replaced. A body that names a model, and can be read
/// again after it was written, is forwarded naming the resolved one.
pub fn apply_alias(body: Vec<u8>, model: &str, resolved: &str) -> (r: Vec<u8>)
    ensures
        model@ == resolved@ ==> r@ == body@,
        model@ != resolved@ && crate::codec::parsed(body@) is None ==> r@ == body@,
        model@ != resolved@ ==> (crate::codec::parsed(body@) matches Some(v) ==> r@
            == crate::codec::written(with_model(v, resolved@))),
        crate::codec::parsed(body@) matches Some(v) ==> (crate::codec::rereadable(v) ==> {
            &&& model_in(Some(v)) == Some(model@) ==> model_in(crate::codec::parsed(r@)) == Some(
                resolved@,
            )
            &&& stream_in(crate::codec::parsed(r@)) == stream_in(Some(v))
        }),
{
    if same_text(model, resolved) {
        body
    } else {
        replace_model_in_body(body.as_slice(), resolved)
    }
}

/// Of two replacements of the model only the last counts.
pub proof fn law_last_model_counts(v: JsonView, first: Seq<char>, last: Seq<char>)
    ensures
        with_model(with_model(v, first), last) == with_model(v, last),
{
    if let JsonView::Object(o) = v {
        crate::json::lemma_put_twice(o, "model"@, JsonView::Str(first), JsonView::Str(last));
    }
}

/// The JSON of an error that the proxy reports itself.
pub open spec fn error_value(message: Seq<char>) -> JsonView {
    crate::json::object_of(seq![crate::json::field("error"@, error_fields(message))])
}

/// The member `error` of such an error.
pub open spec fn error_fields(message: Seq<char>) -> JsonView {
    crate::json::object_of(
        seq![
            crate::json::field("message"@, JsonView::Str(message)),
            crate::json::field("type"@, JsonView::Str("proxy_error"@)),
            crate::json::field("code"@, JsonView::Str("proxy_error"@)),
        ],
    )
}

/// The message in the body of an error.
pub open spec fn error_message_in(
    body: Result<JsonView, Seq<char>>,
) -> Option<Seq<char>> {
    match body {
        Ok(v) => match v.get("error"@) {
            Some(e) => e.text_at("message"@),
            None => None,
        },
        Err(_) => None,
    }
}

/// The body of an error that the proxy reports itself. The message reads back from it.
pub fn error_json(message: &str) -> (r: String)
    ensures
        r@ == crate::codec::written_text(error_value(message@)),
        error_message_in(crate::codec::parsed_text(r@)) == Some(message@),
{
    let fields: Vec<Member> = vec![
        member("message", Json::string(message)),
        member("type", Json::string("proxy_error")),
        member("code", Json::string("proxy_error")),
    ];
    let ghost inner = crate::json::member_views(fields@);
    assert(inner =~= seq![
        crate::json::field("message"@, JsonView::Str(message@)),
        crate::json::field("type"@, JsonView::Str("proxy_error"@)),
        crate::json::field("code"@, JsonView::Str("proxy_error"@)),
    ]);
    let whole: Vec<Member> = vec![member("error", record_of(fields))];
    let ghost outer = crate::json::member_views(whole@);
    assert(outer =~= seq![crate::json::field("error"@, error_fields(message@))]);
    proof {
        crate::json::lemma_record_ordered(inner);
        crate::json::lemma_record_fits(inner, 0);
        crate::json::lemma_record_ordered(outer);
        crate::json::lemma_record_fits(outer, 1);
        crate::json::lemma_fits_more(error_value(message@), 2, crate::codec::MAX_NESTING as nat);
        reveal_strlit("error");
        reveal_strlit("message");
        reveal_strlit("type");
        reveal_strlit("code");
        reveal_strlit("$serde_json::private::RawValue");
        assert("error"@.len() == 5 && "message"@.len() == 7);
        assert("type"@.len() == 4 && "code"@.len() == 4);
        assert(crate::codec::raw_key().len() == 30);
        crate::codec::lemma_record_no_raw_key(inner);
        crate::codec::lemma_record_no_raw_key(outer);
    }
    let r: String = record_of(whole).into_text();
    proof {
        crate::json::lemma_record_find(inner, 0);
        crate::json::lemma_record_find(outer, 0);
        let read = crate::codec::parsed_text(r@)->Ok_0;
        crate::codec::lemma_reads_as_get(error_value(message@), read, "error"@);
        crate::codec::lemma_reads_as_get(
            error_fields(message@),
            read.get("error"@)->Some_0,
            "message"@,
        );
    }
    r
}

/// An answer that the proxy gives itself, as an error.
#[derive(Debug, PartialEq)]
pub struct Refusal {
    pub status: u16,
    pub message: String,
}

impl Refusal {
    /// The body of the answer. The message reads back from it.
    pub fn body(&self) -> (r: String)
        ensures
            r@ == crate::codec::written_text(crate::openai::error_value(self.message@)),
            crate::openai::error_message_in(crate::codec::parsed_text(r@)) == Some(self.message@),
    {
        error_json(self.message.as_str())
    }
}

/// The refusal where no account can be used.
pub fn no_accounts() -> (r: Refusal)
    ensures
        r.status == 503,
        r.message@ == "No available accounts"@,
{
    Refusal { status: 503, message: "No available accounts".to_owned() }
}

/// The refusal where a request could not be sent to the upstream.
pub fn upstream_failed(error: &str) -> (r: Refusal)
    ensures
        r.status == 502,
        r.message@ == "Upstream error: "@ + error@,
{
    Refusal { status: 502, message: "Upstream error: ".to_owned().concat(error) }
}

/// The refusal where the answer of the upstream could not be read.
pub fn unreadable_answer(error: &str) -> (r: Refusal)
    ensures
        r.status == 502,
        r.message@ == "Failed to read upstream body: "@ + error@,
{
    Refusal { status: 502, message: "Failed to read upstream body: ".to_owned().concat(error) }
}

/// `StatusCode::from_u16`. Claimed: it accepts the numbers from 100 to 999 and no other.
#[verifier::external_body]
fn valid_status(code: u16) -> (r: bool)
    ensures
        r == (100 <= code <= 999),
{
    reqwest::StatusCode::from_u16(code).is_ok()
}

/// The status with which an answer of the upstream is passed on: its own, or 200 where that is
/// no status code.
pub fn relay_status(code: u16) -> (r: u16)
    ensures
        r == (if 100 <= code <= 999 {
            code
        } else {
            200
        }),
{
    if valid_status(code) {
        code
    } else {
        200
    }
}

/// The entry of a model in a list of models.
pub open spec fn model_card(id: Seq<char>) -> JsonView {
    crate::json::object_of(
        seq![
            crate::json::field("id"@, JsonView::Str(id)),
            crate::json::field("object"@, JsonView::Str("model"@)),
            crate::json::field("owned_by"@, JsonView::Str("system"@)),
        ],
    )
}

/// The entries of a list of models.
pub open spec fn model_cards(ids: Seq<Seq<char>>) -> Seq<JsonView> {
    Seq::new(ids.len(), |i: int| model_card(ids[i]))
}

/// The answer that lists models.
pub open spec fn models_list(ids: Seq<Seq<char>>) -> JsonView {
    crate::json::object_of(
        seq![
            crate::json::field("object"@, JsonView::Str("list"@)),
            crate::json::field("data"@, JsonView::Array(model_cards(ids))),
        ],
    )
}

fn card(id: &str) -> (r: Json)
    ensures
        r@ == model_card(id@),
        crate::json::ordered(r@),
{
    let fields: Vec<Member> = vec![
        member("id", Json::string(id)),
        member("object", Json::string("model")),
        member("owned_by", Json::string("system")),
    ];
    let ghost views = crate::json::member_views(fields@);
    assert(views =~= seq![
        crate::json::field("id"@, JsonView::Str(id@)),
        crate::json::field("object"@, JsonView::Str("model"@)),
        crate::json::field("owned_by"@, JsonView::Str("system"@)),
    ]);
    proof {
        crate::json::lemma_record_ordered(views);
    }
    record_of(fields)
}

/// Makes the answer that lists models, in their order.
pub fn models_response(ids: &Vec<String>) -> (r: Json)
    ensures
        r@ == models_list(crate::text::texts(ids@)),
        crate::json::ordered(r@),
{
    let ghost all = crate::text::texts(ids@);
    let mut cards: Vec<Json> = Vec::new();
    let n: usize = ids.len();
    let mut i: usize = 0;
    while i < n
        invariant
            n == ids@.len(),
            i <= n,
            all == crate::text::texts(ids@),
            cards@.len() == i,
            forall|k: int|
                0 <= k < i ==> (#[trigger] cards@[k])@ == model_card(all[k])
                    && crate::json::ordered(cards@[k]@),
        decreases n - i,
    {
        cards.push(card(ids[i].as_str()));
        i = i + 1;
    }
    assert(crate::json::views(cards@) =~= model_cards(all));
    let fields: Vec<Member> = vec![
        member("object", Json::string("list")),
        member("data", Json::array(cards)),
    ];
    let ghost views = crate::json::member_views(fields@);
    assert(views =~= seq![
        crate::json::field("object"@, JsonView::Str("list"@)),
        crate::json::field("data"@, JsonView::Array(model_cards(all))),
    ]);
    proof {
        let data = model_cards(all);
        assert forall|k: int| 0 <= k < data.len() implies crate::json::ordered(
            #[trigger] data[k],
        ) by {
            assert(cards@[k]@ == data[k]);
        }
        assert(crate::json::ordered(views[1].value));
        crate::json::lemma_record_ordered(views);
    }
    record_of(fields)
}

/// What follows on a request for the list of models.
pub enum ListStep {
    /// The models of all accounts are listed.
    Answer(Json),
    /// An account is to be chosen, and its upstream asked.
    Select,
    /// The upstream of the account is to be asked, at this path.
    Ask { path: String },
    /// The answer of the upstream is passed on.
    Relay,
    Refuse(Refusal),
}

/// Begins to answer a request for the list of models: with the models of all accounts, or
/// else with what one upstream lists.
pub fn begin_list(models: &Vec<String>) -> (r: ListStep)
    ensures
        models@.len() > 0 ==> (r matches ListStep::Answer(v) && v@ == models_list(
            crate::text::texts(models@),
        ) && crate::json::ordered(v@)),
        models@.len() == 0 ==> r is Select,
{
    if models.len() == 0 {
        ListStep::Select
    } else {
        ListStep::Answer(models_response(models))
    }
}

/// Goes on once an account was chosen or none was left.
pub fn on_list_account(chosen: bool) -> (r: ListStep)
    ensures
        chosen ==> (r matches ListStep::Ask { path } && path@ == "/v1/models"@),
        !chosen ==> (r matches ListStep::Refuse(e) && e.status == 503 && e.message@
            == "No available accounts"@),
{
    if chosen {
        ListStep::Ask { path: "/v1/models".to_owned() }
    } else {
        ListStep::Refuse(no_accounts())
    }
}

/// Goes on once the upstream answered or could not be asked, which the message says.
pub fn on_list_answer(failure: Option<String>) -> (r: ListStep)
    ensures
        failure is None ==> r is Relay,
        failure matches Some(error) ==> (r matches ListStep::Refuse(e) && e.status == 502
            && e.message@ == "Upstream error: "@ + error@),
{
    match failure {
        None => ListStep::Relay,
        Some(error) => ListStep::Refuse(upstream_failed(error.as_str())),
    }
}

/// The list that the proxy gives is read as the list of an upstream is: every model, in its
/// order.
pub proof fn law_own_list_reads_back(ids: Seq<Seq<char>>)
    ensures
        crate::models::listed_models(crate::models::ModelSource::OpenAi, models_list(ids)) == ids,
{
    let fields = seq![
        crate::json::field("object"@, JsonView::Str("list"@)),
        crate::json::field("data"@, JsonView::Array(model_cards(ids))),
    ];
    crate::json::lemma_record_find(fields, 1);
    lemma_cards_read_back(ids);
}

proof fn lemma_cards_read_back(ids: Seq<Seq<char>>)
    ensures
        crate::models::item_models(true, model_cards(ids)) == ids,
    decreases ids.len(),
{
    let cards = model_cards(ids);
    if ids.len() > 0 {
        let rest = ids.drop_last();
        lemma_cards_read_back(rest);
        assert(cards.drop_last() =~= model_cards(rest));
        let fields = seq![
            crate::json::field("id"@, JsonView::Str(ids.last())),
            crate::json::field("object"@, JsonView::Str("model"@)),
            crate::json::field("owned_by"@, JsonView::Str("system"@)),
        ];
        reveal_strlit("id");
        reveal_strlit("object");
        reveal_strlit("owned_by");
        assert("id"@.len() == 2 && "object"@.len() == 6 && "owned_by"@.len() == 8);
        crate::json::lemma_record_find(fields, 0);
        assert(rest.push(ids.last()) =~= ids);
    } else {
        assert(crate::models::item_models(true, cards) =~= ids);
    }
}

/// A stream is asked for exactly where the member `stream` is `true`, and a model is named exactly
/// where the member `model` is a string, which is the name.
pub proof fn law_what_a_body_asks_for(v: JsonView, model: Seq<char>)
    ensures
        stream_in(Some(v)) <==> v.get("stream"@) == Some(JsonView::Bool(true)),
        model_in(Some(v)) == Some(model) <==> v.get("model"@) == Some(JsonView::Str(model)),
        !stream_in(None),
        model_in(None) is None,
{
}

/// Replacing the model of an object sets the member `model` to exactly that name, and leaves every
/// other member as it is, the stream flag among them. What is no object is left alone.
pub proof fn law_replacement_sets_only_the_model(v: JsonView, model: Seq<char>, key: Seq<char>)
    ensures
        v is Object ==> with_model(v, model).get("model"@) == Some(JsonView::Str(model)),
        key != "model"@ ==> with_model(v, model).get(key) == v.get(key),
        v is Object ==> with_model(v, model) is Object,
        !(v is Object) ==> with_model(v, model) == v,
        stream_in(Some(with_model(v, model))) == stream_in(Some(v)),
{
    if let JsonView::Object(o) = v {
        crate::json::lemma_put_find(o, "model"@, JsonView::Str(model));
        if key != "model"@ {
            crate::json::lemma_put_keeps(o, "model"@, JsonView::Str(model), key);
        }
        reveal_strlit("model");
        reveal_strlit("stream");
        assert("model"@.len() != "stream"@.len());
        crate::json::lemma_put_keeps(o, "model"@, JsonView::Str(model), "stream"@);
    }
}

/// What an error of the proxy's own says: its message as it is, and that it is the proxy's.
pub proof fn law_error_says_its_message(message: Seq<char>)
    ensures
        error_value(message).get("error"@) matches Some(e) && e.get("message"@) == Some(
            JsonView::Str(message),
        ) && e.get("type"@) == Some(JsonView::Str("proxy_error"@)) && e.get("code"@) == Some(
            JsonView::Str("proxy_error"@),
        ) && forall|key: Seq<char>|
            key != "message"@ && key != "type"@ && key != "code"@ ==> #[trigger] e.get(key) is None,
        forall|key: Seq<char>|
            key != "error"@ ==> #[trigger] error_value(message).get(key) is None,
        error_message_in(Ok(error_value(message))) == Some(message),
{
    let inner = seq![
        crate::json::field("message"@, JsonView::Str(message)),
        crate::json::field("type"@, JsonView::Str("proxy_error"@)),
        crate::json::field("code"@, JsonView::Str("proxy_error"@)),
    ];
    let outer = seq![crate::json::field("error"@, error_fields(message))];
    assert(error_fields(message) == crate::json::object_of(inner));
    assert(error_value(message) == crate::json::object_of(outer));
    reveal_strlit("message");
    reveal_strlit("type");
    reveal_strlit("code");
    assert("message"@.len() == 7 && "type"@.len() == 4 && "code"@.len() == 4);
    assert("type"@[0] != "code"@[0]);
    crate::json::lemma_record_find(inner, 0);
    crate::json::lemma_record_find(inner, 1);
    crate::json::lemma_record_find(inner, 2);
    crate::json::lemma_record_missing(inner);
    crate::json::lemma_record_find(outer, 0);
    crate::json::lemma_record_missing(outer);
}

/// The list of models that the proxy gives: one entry for each model, in their order, with its
/// name as it is.
pub proof fn law_list_has_every_model(ids: Seq<Seq<char>>)
    ensures
        models_list(ids).get("object"@) == Some(JsonView::Str("list"@)),
        models_list(ids).get("data"@) matches Some(JsonView::Array(cards)) && cards.len()
            == ids.len() && forall|i: int|
            #![trigger cards[i]]
            0 <= i < cards.len() ==> cards[i].get("id"@) == Some(JsonView::Str(ids[i]))
                && cards[i].get("object"@) == Some(JsonView::Str("model"@)) && cards[i].get(
                "owned_by"@,
            ) == Some(JsonView::Str("system"@)),
        forall|key: Seq<char>|
            key != "object"@ && key != "data"@ ==> #[trigger] models_list(ids).get(key) is None,
{
    let fields = seq![
        crate::json::field("object"@, JsonView::Str("list"@)),
        crate::json::field("data"@, JsonView::Array(model_cards(ids))),
    ];
    assert(models_list(ids) == crate::json::object_of(fields));
    reveal_strlit("object");
    reveal_strlit("data");
    assert("object"@.len() == 6 && "data"@.len() == 4);
    crate::json::lemma_record_find(fields, 0);
    crate::json::lemma_record_find(fields, 1);
    crate::json::lemma_record_missing(fields);
    let cards = model_cards(ids);
    assert forall|i: int|
        #![trigger cards[i]]
        0 <= i < cards.len() implies cards[i].get("id"@) == Some(JsonView::Str(ids[i]))
        && cards[i].get("object"@) == Some(JsonView::Str("model"@)) && cards[i].get("owned_by"@)
        == Some(JsonView::Str("system"@)) by {
        lemma_card(ids[i]);
    }
}

proof fn lemma_card(id: Seq<char>)
    ensures
        model_card(id).get("id"@) == Some(JsonView::Str(id)),
        model_card(id).get("object"@) == Some(JsonView::Str("model"@)),
        model_card(id).get("owned_by"@) == Some(JsonView::Str("system"@)),
{
    let fields = seq![
        crate::json::field("id"@, JsonView::Str(id)),
        crate::json::field("object"@, JsonView::Str("model"@)),
        crate::json::field("owned_by"@, JsonView::Str("system"@)),
    ];
    assert(model_card(id) == crate::json::object_of(fields));
    reveal_strlit("id");
    reveal_strlit("object");
    reveal_strlit("owned_by");
    assert("id"@.len() == 2 && "object"@.len() == 6 && "owned_by"@.len() == 8);
    crate::json::lemma_record_find(fields, 0);
    crate::json::lemma_record_find(fields, 1);
    crate::json::lemma_record_find(fields, 2);
}

} // verus!
