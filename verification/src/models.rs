//! The models that upstream sites offer: where they are listed, how the lists are read and
//! merged, and in which order the places that may know them are asked.

use vstd::prelude::*;

use crate::account::SiteAccount;
use crate::json::{Json, JsonView, Member};
use crate::text::{insert_ascending, same_text, trim_end_slashes};

verus! {

/// An endpoint that lists models.
#[derive(Clone, Copy, Debug, PartialEq)]
pub enum ModelSource {
    /// `/api/user/models` of the New-API family: strings in `data`.
    UserModels,
    /// `/api/available_model` of OneHub and DoneHub: an object in `data`, keyed by model.
    AvailableModel,
    /// `/v1/models` of the OpenAI interface: objects with an `id` in `data`.
    OpenAi,
}

/// The path of an endpoint.
pub open spec fn source_path(source: ModelSource) -> Seq<char> {
    match source {
        ModelSource::UserModels => "/api/user/models"@,
        ModelSource::AvailableModel => "/api/available_model"@,
        ModelSource::OpenAi => "/v1/models"@,
    }
}

/// The address of an endpoint on a site.
pub open spec fn source_address(source: ModelSource, site_url: Seq<char>) -> Seq<char> {
    crate::text::without_trailing_slashes(site_url) + source_path(source)
}

/// The endpoint that is asked first on a site; nothing for a site that has none.
pub open spec fn first_choice(site_type: Seq<char>) -> Option<ModelSource> {
    if site_type == "sub2api"@ {
        None
    } else if site_type == "one-hub"@ || site_type == "done-hub"@ {
        Some(ModelSource::AvailableModel)
    } else {
        Some(ModelSource::UserModels)
    }
}

/// The endpoint that is asked after one that listed `found`.
pub open spec fn next_choice(source: ModelSource, found: Seq<Seq<char>>) -> Option<ModelSource> {
    if source == ModelSource::UserModels && found.len() == 0 {
        Some(ModelSource::OpenAi)
    } else {
        None
    }
}

/// The address of an endpoint on a site.
pub fn source_url(source: ModelSource, site_url: &str) -> (r: String)
    ensures
        r@ == source_address(source, site_url@),
{
    let path: &str = match source {
        ModelSource::UserModels => "/api/user/models",
        ModelSource::AvailableModel => "/api/available_model",
        ModelSource::OpenAi => "/v1/models",
    };
    trim_end_slashes(site_url).concat(path)
}

/// The endpoint that is asked first on a site.
pub fn first_source(site_type: &str) -> (r: Option<ModelSource>)
    ensures
        r == first_choice(site_type@),
{
    if same_text(site_type, "sub2api") {
        None
    } else if same_text(site_type, "one-hub") || same_text(site_type, "done-hub") {
        Some(ModelSource::AvailableModel)
    } else {
        Some(ModelSource::UserModels)
    }
}

/// The endpoint that is asked after one that listed `found`.
pub fn next_source(source: ModelSource, found: &Vec<String>) -> (r: Option<ModelSource>)
    ensures
        r == next_choice(source, crate::text::texts(found@)),
{
    match source {
        ModelSource::UserModels => if found.len() == 0 {
            Some(ModelSource::OpenAi)
        } else {
            None
        },
        _ => None,
    }
}

/// The value of an `Authorization` header for a token.
pub fn bearer(token: &str) -> (r: String)
    ensures
        r@ == "Bearer "@ + token@,
{
    "Bearer ".to_owned().concat(token)
}

/// The model that an item of a list names: the item itself, or its member `id`.
pub open spec fn item_model(by_id: bool, item: JsonView) -> Option<Seq<char>> {
    if by_id {
        item.text_at("id"@)
    } else {
        item.text()
    }
}

/// The models that the items of a list name; items that name none are skipped.
pub open spec fn item_models(by_id: bool, items: Seq<JsonView>) -> Seq<Seq<char>>
    decreases items.len(),
{
    if items.len() == 0 {
        Seq::empty()
    } else {
        match item_model(by_id, items.last()) {
            Some(m) => item_models(by_id, items.drop_last()).push(m),
            None => item_models(by_id, items.drop_last()),
        }
    }
}

/// The models that the body of an endpoint's answer lists, in its order.
pub open spec fn listed_models(source: ModelSource, body: JsonView) -> Seq<Seq<char>> {
    match body.get("data"@) {
        Some(data) => match source {
            ModelSource::AvailableModel => match data {
                JsonView::Object(members) => crate::json::keys(members),
                _ => Seq::empty(),
            },
            _ => match data.items() {
                Some(items) => item_models(source == ModelSource::OpenAi, items),
                None => Seq::empty(),
            },
        },
        None => Seq::empty(),
    }
}

fn model_of_item(by_id: bool, item: &Json) -> (r: Option<String>)
    ensures
        crate::text::opt_text(r) == item_model(by_id, item@),
{
    let named: Option<&Json> = if by_id {
        item.get("id")
    } else {
        Some(item)
    };
    match named {
        Some(v) => match v.as_str() {
            Some(s) => Some(s.to_owned()),
            None => None,
        },
        None => None,
    }
}

fn models_of_items(by_id: bool, items: &Vec<Json>) -> (r: Vec<String>)
    ensures
        crate::text::texts(r@) == item_models(by_id, crate::json::views(items@)),
{
    let ghost all = crate::json::views(items@);
    let mut out: Vec<String> = Vec::new();
    let n: usize = items.len();
    let mut i: usize = 0;
    assert(crate::text::texts(out@) =~= item_models(by_id, all.take(0)));
    while i < n
        invariant
            n == items@.len(),
            i <= n,
            all == crate::json::views(items@),
            crate::text::texts(out@) == item_models(by_id, all.take(i as int)),
        decreases n - i,
    {
        let ghost before = out@;
        assert(all.take(i + 1).drop_last() =~= all.take(i as int));
        assert(all.take(i + 1).last() == items@[i as int]@);
        if let Some(m) = model_of_item(by_id, &items[i]) {
            out.push(m);
            assert(crate::text::texts(out@) =~= crate::text::texts(before).push(m@));
        }
        i = i + 1;
    }
    assert(all.take(n as int) =~= all);
    out
}

fn keys_of(members: &Vec<Member>) -> (r: Vec<String>)
    ensures
        crate::text::texts(r@) == crate::json::keys(crate::json::member_views(members@)),
{
    let mut out: Vec<String> = Vec::new();
    let n: usize = members.len();
    let mut i: usize = 0;
    while i < n
        invariant
            n == members@.len(),
            i <= n,
            out@.len() == i,
            forall|k: int| 0 <= k < i ==> (#[trigger] out@[k])@ == members@[k].key@,
        decreases n - i,
    {
        out.push(members[i].key.clone());
        i = i + 1;
    }
    assert(crate::text::texts(out@) =~= crate::json::keys(crate::json::member_views(members@)));
    out
}

/// Reads the models that the body of an endpoint's answer lists.
pub fn parse_models(source: ModelSource, body: &Json) -> (r: Vec<String>)
    ensures
        crate::text::texts(r@) == listed_models(source, body@),
{
    if let Some(data) = body.get("data") {
        match source {
            ModelSource::AvailableModel => {
                if let Some(members) = data.as_object() {
                    return keys_of(members);
                }
            },
            ModelSource::UserModels => {
                if let Some(items) = data.as_array() {
                    return models_of_items(false, items);
                }
            },
            ModelSource::OpenAi => {
                if let Some(items) = data.as_array() {
                    return models_of_items(true, items);
                }
            },
        }
    }
    let none: Vec<String> = Vec::new();
    assert(crate::text::texts(none@) =~= Seq::empty());
    none
}

/// The models that an endpoint's answer lists. `status` is missing where there was no answer,
/// `body` where it was not read or is no JSON.
pub open spec fn answered_models(
    source: ModelSource,
    status: Option<u16>,
    body: Option<JsonView>,
) -> Seq<Seq<char>> {
    match (status, body) {
        (Some(status), Some(body)) => if crate::key_fetcher::is_success(status) {
            listed_models(source, body)
        } else {
            Seq::empty()
        },
        _ => Seq::empty(),
    }
}

/// Reads the models from an endpoint's answer. Without an answer of success there are none.
pub fn models_from_answer(source: ModelSource, status: Option<u16>, body: Option<Json>) -> (r: Vec<
    String,
>)
    ensures
        crate::text::texts(r@) == answered_models(
            source,
            status,
            crate::codec::option_view(body),
        ),
{
    if let Some(status) = status {
        if 200 <= status && status < 300 {
            if let Some(body) = body {
                return parse_models(source, &body);
            }
        }
    }
    let none: Vec<String> = Vec::new();
    assert(crate::text::texts(none@) =~= Seq::empty());
    none
}

/// The models of an account, when each endpoint lists what `listed` says.
pub open spec fn account_models(
    site_type: Seq<char>,
    listed: spec_fn(ModelSource) -> Seq<Seq<char>>,
) -> Seq<Seq<char>> {
    match first_choice(site_type) {
        None => Seq::empty(),
        Some(first) => match next_choice(first, listed(first)) {
            None => listed(first),
            Some(second) => listed(second),
        },
    }
}

/// A request for the models of an account.
#[derive(Debug, PartialEq)]
pub struct ModelTask {
    pub account_id: String,
    pub site_url: String,
    pub site_type: String,
    pub access_token: String,
}

/// What a [`ModelTask`] stands for.
pub struct TaskView {
    pub account_id: Seq<char>,
    pub site_url: Seq<char>,
    pub site_type: Seq<char>,
    pub access_token: Seq<char>,
}

impl View for ModelTask {
    type V = TaskView;

    open spec fn view(&self) -> TaskView {
        TaskView {
            account_id: self.account_id@,
            site_url: self.site_url@,
            site_type: self.site_type@,
            access_token: self.access_token@,
        }
    }
}

/// What a list of requests stands for.
pub open spec fn task_views(tasks: Seq<ModelTask>) -> Seq<TaskView> {
    Seq::new(tasks.len(), |i: int| tasks[i]@)
}

/// Whether the models of an account are to be fetched: it is not disabled and has an access
/// token.
pub open spec fn is_asked(a: crate::account::AccountView) -> bool {
    a.disabled != Some(true) && a.access_token.len() > 0
}

/// The request for the models of an account.
pub open spec fn task_of(a: crate::account::AccountView) -> TaskView {
    TaskView {
        account_id: a.id,
        site_url: a.site_url,
        site_type: a.site_type,
        access_token: a.access_token,
    }
}

/// The requests for the models of a list of accounts.
pub open spec fn tasks_of(accounts: Seq<crate::account::AccountView>) -> Seq<TaskView>
    decreases accounts.len(),
{
    if accounts.len() == 0 {
        Seq::empty()
    } else if is_asked(accounts.last()) {
        tasks_of(accounts.drop_last()).push(task_of(accounts.last()))
    } else {
        tasks_of(accounts.drop_last())
    }
}

fn model_tasks(accounts: &Vec<SiteAccount>) -> (r: Vec<ModelTask>)
    ensures
        task_views(r@) == tasks_of(crate::account::account_views(accounts@)),
{
    let ghost all = crate::account::account_views(accounts@);
    let mut out: Vec<ModelTask> = Vec::new();
    let n: usize = accounts.len();
    let mut i: usize = 0;
    assert(task_views(out@) =~= tasks_of(all.take(0)));
    while i < n
        invariant
            n == accounts@.len(),
            i <= n,
            all == crate::account::account_views(accounts@),
            task_views(out@) == tasks_of(all.take(i as int)),
        decreases n - i,
    {
        let ghost before = out@;
        let a: &SiteAccount = &accounts[i];
        assert(all.take(i + 1).drop_last() =~= all.take(i as int));
        assert(all.take(i + 1).last() == a@);
        let disabled: bool = match a.disabled {
            Some(d) => d,
            None => false,
        };
        if !disabled && !a.account_info.access_token.as_str().is_empty() {
            let task: ModelTask = ModelTask {
                account_id: a.id.clone(),
                site_url: a.site_url.clone(),
                site_type: a.site_type.clone(),
                access_token: a.account_info.access_token.clone(),
            };
            assert(task@ == task_of(a@));
            out.push(task);
            assert(task_views(out@) =~= task_views(before).push(task_of(a@)));
        }
        i = i + 1;
    }
    assert(all.take(n as int) =~= all);
    out
}

/// Whether a request carries the id, the address, the type and the access token of one of the
/// accounts, which is not disabled and has such a token.
pub open spec fn carries_an_account(task: ModelTask, accounts: Seq<SiteAccount>) -> bool {
    exists|i: int|
        0 <= i < accounts.len() && task.account_id@ == (#[trigger] accounts[i]).id@
            && task.site_url@ == accounts[i].site_url@ && task.site_type@ == accounts[i].site_type@
            && task.access_token@ == accounts[i].account_info.access_token@
            && accounts[i].disabled != Some(true) && accounts[i].account_info.access_token@.len()
            > 0
}

/// Plans a fetch of the models of a list of accounts. Where none of them is to be asked there
/// is nothing to fetch.
pub fn plan_model_fetch(accounts: &Vec<SiteAccount>) -> (r: Option<Vec<ModelTask>>)
    ensures
        r is None <==> tasks_of(crate::account::account_views(accounts@)).len() == 0,
        r matches Some(tasks) ==> task_views(tasks@) == tasks_of(
            crate::account::account_views(accounts@),
        ),
        r is None <==> forall|i: int|
            0 <= i < accounts@.len() ==> (#[trigger] accounts@[i]).disabled == Some(true)
                || accounts@[i].account_info.access_token@.len() == 0,
        r matches Some(tasks) ==> forall|k: int|
            0 <= k < tasks@.len() ==> carries_an_account(#[trigger] tasks@[k], accounts@),
{
    let tasks: Vec<ModelTask> = model_tasks(accounts);
    assert(task_views(tasks@).len() == tasks@.len());
    proof {
        let all = crate::account::account_views(accounts@);
        assert forall|k: int| 0 <= k < tasks@.len() implies carries_an_account(
            #[trigger] tasks@[k],
            accounts@,
        ) by {
            let t = tasks_of(all)[k];
            assert(task_views(tasks@)[k] == tasks@[k]@);
            law_task_is_of_an_account(all, k);
            let i = choose|i: int|
                0 <= i < all.len() && t.account_id == (#[trigger] all[i]).id && t.site_url
                    == all[i].site_url && t.site_type == all[i].site_type && t.access_token
                    == all[i].access_token && all[i].disabled != Some(true)
                    && all[i].access_token.len() > 0;
            assert(all[i] == accounts@[i]@);
        }
        if tasks@.len() == 0 {
            assert forall|i: int| 0 <= i < accounts@.len() implies (
            #[trigger] accounts@[i]).disabled == Some(true)
                || accounts@[i].account_info.access_token@.len() == 0 by {
                assert(all[i] == accounts@[i]@);
                if all[i].disabled != Some(true) && all[i].access_token.len() > 0 {
                    law_enabled_account_is_asked(all, i);
                }
            }
        } else {
            assert(carries_an_account(tasks@[0], accounts@));
        }
    }
    if tasks.len() == 0 {
        None
    } else {
        Some(tasks)
    }
}

/// The models that were found for an account.
#[derive(Debug, PartialEq)]
pub struct AccountModels {
    pub account_id: String,
    pub models: Vec<String>,
}

/// What [`AccountModels`] stands for.
pub struct AccountModelsView {
    pub account_id: Seq<char>,
    pub models: Seq<Seq<char>>,
}

impl View for AccountModels {
    type V = AccountModelsView;

    open spec fn view(&self) -> AccountModelsView {
        AccountModelsView { account_id: self.account_id@, models: crate::text::texts(self.models@) }
    }
}

/// Whether a list holds the same texts as another, each once and in ascending order.
pub open spec fn is_sorted_set(list: Seq<Seq<char>>, of: Seq<Seq<char>>) -> bool {
    &&& crate::text::ascending(list)
    &&& forall|t: Seq<char>| #[trigger] list.contains(t) <==> of.contains(t)
}

/// The accounts for which models were found. The result of an account whose fetch broke off is
/// missing.
pub open spec fn found_models(results: Seq<Option<AccountModels>>) -> Seq<AccountModelsView>
    decreases results.len(),
{
    if results.len() == 0 {
        Seq::empty()
    } else {
        match results.last() {
            Some(a) => if a.models@.len() > 0 {
                found_models(results.drop_last()).push(a@)
            } else {
                found_models(results.drop_last())
            },
            None => found_models(results.drop_last()),
        }
    }
}

/// Whether some account has a model.
pub open spec fn offered(found: Seq<AccountModelsView>, model: Seq<char>) -> bool {
    exists|i: int| 0 <= i < found.len() && (#[trigger] found[i]).models.contains(model)
}

/// Whether the result of an account has a model among its models.
pub open spec fn names_model(result: Option<AccountModels>, model: Seq<char>) -> bool {
    match result {
        Some(found) => exists|k: int|
            0 <= k < found.models@.len() && (#[trigger] found.models@[k])@ == model,
        None => false,
    }
}

/// What a fetch of models came to.
#[derive(Debug, PartialEq)]
pub struct Collected {
    /// What is to be cached for each account, each model once and in ascending order.
    pub cached: Vec<AccountModels>,
    /// The models of all accounts, each once and in ascending order.
    pub models: Vec<String>,
}

fn insert_all(list: &mut Vec<String>, items: &Vec<String>)
    requires
        crate::text::ascending(crate::text::texts(old(list)@)),
    ensures
        crate::text::ascending(crate::text::texts(final(list)@)),
        forall|t: Seq<char>| #[trigger]
            crate::text::texts(final(list)@).contains(t) <==> crate::text::texts(
                old(list)@,
            ).contains(t) || crate::text::texts(items@).contains(t),
{
    let ghost before = crate::text::texts(list@);
    let ghost wanted = crate::text::texts(items@);
    let n: usize = items.len();
    let mut i: usize = 0;
    assert(wanted.take(0) =~= Seq::empty());
    while i < n
        invariant
            n == items@.len(),
            i <= n,
            wanted == crate::text::texts(items@),
            crate::text::ascending(crate::text::texts(list@)),
            forall|t: Seq<char>| #[trigger]
                crate::text::texts(list@).contains(t) <==> before.contains(t) || wanted.take(
                    i as int,
                ).contains(t),
        decreases n - i,
    {
        insert_ascending(list, items[i].clone());
        proof {
            let done = wanted.take(i as int);
            let more = wanted.take(i + 1);
            assert(more =~= done.push(wanted[i as int]));
            assert forall|t: Seq<char>| more.contains(t) <==> done.contains(t) || t
                == wanted[i as int] by {
                assert(more[i as int] == wanted[i as int]);
                if done.contains(t) {
                    let k = choose|k: int| 0 <= k < done.len() && done[k] == t;
                    assert(more[k] == t);
                }
            }
        }
        i = i + 1;
    }
    assert(wanted.take(n as int) =~= wanted);
}

/// Collects what was fetched for a list of accounts. An account for which nothing was found is
/// left out of the cache.
pub fn collect_models(results: Vec<Option<AccountModels>>) -> (r: Collected)
    ensures
        r.cached@.len() == found_models(results@).len(),
        forall|i: int|
            0 <= i < r.cached@.len() ==> (#[trigger] r.cached@[i]).account_id@ == found_models(
                results@,
            )[i].account_id && is_sorted_set(
                crate::text::texts(r.cached@[i].models@),
                found_models(results@)[i].models,
            ),
        crate::text::ascending(crate::text::texts(r.models@)),
        forall|t: Seq<char>| #[trigger]
            crate::text::texts(r.models@).contains(t) <==> offered(found_models(results@), t),
        forall|t: Seq<char>| #[trigger]
            crate::text::texts(r.models@).contains(t) <==> exists|i: int|
                0 <= i < results@.len() && names_model(#[trigger] results@[i], t),
{
    let ghost all = results@;
    let mut cached: Vec<AccountModels> = Vec::new();
    let mut models: Vec<String> = Vec::new();
    assert(found_models(all.take(0)) =~= Seq::empty());
    for result in iter: results
        invariant
            iter.seq() == all,
            cached@.len() == found_models(all.take(iter.index() as int)).len(),
            forall|i: int|
                0 <= i < cached@.len() ==> (#[trigger] cached@[i]).account_id@ == found_models(
                    all.take(iter.index() as int),
                )[i].account_id && is_sorted_set(
                    crate::text::texts(cached@[i].models@),
                    found_models(all.take(iter.index() as int))[i].models,
                ),
            crate::text::ascending(crate::text::texts(models@)),
            forall|t: Seq<char>| #[trigger]
                crate::text::texts(models@).contains(t) <==> offered(
                    found_models(all.take(iter.index() as int)),
                    t,
                ),
    {
        let ghost k = iter.index() as int;
        let ghost before = found_models(all.take(k));
        let ghost after = found_models(all.take(k + 1));
        let ghost shown = crate::text::texts(models@);
        assert(all.take(k + 1).drop_last() =~= all.take(k));
        assert(all.take(k + 1).last() == result);
        if let Some(found) = result {
            if found.models.len() > 0 {
                let AccountModels { account_id, models: names } = found;
                insert_all(&mut models, &names);
                let mut set: Vec<String> = Vec::new();
                assert(crate::text::texts(set@) =~= Seq::empty());
                insert_all(&mut set, &names);
                cached.push(AccountModels { account_id, models: set });
                proof {
                    assert(after == before.push(found@));
                    assert forall|t: Seq<char>| #[trigger]
                        crate::text::texts(models@).contains(t) <==> offered(after, t) by {
                        assert(after[before.len() as int] == found@);
                        if offered(before, t) {
                            let i = choose|i: int|
                                0 <= i < before.len() && (#[trigger] before[i]).models.contains(t);
                            assert(after[i] == before[i]);
                        }
                        if offered(after, t) {
                            let i = choose|i: int|
                                0 <= i < after.len() && (#[trigger] after[i]).models.contains(t);
                            if i < before.len() {
                                assert(after[i] == before[i]);
                            }
                        }
                        assert(shown.contains(t) <==> offered(before, t));
                    }
                }
            }
        }
    }
    assert(all.take(all.len() as int) =~= all);
    proof {
        assert forall|t: Seq<char>| #[trigger]
            crate::text::texts(models@).contains(t) <==> exists|i: int|
                0 <= i < all.len() && names_model(#[trigger] all[i], t) by {
            law_every_found_model_is_offered(all, t);
        }
    }
    Collected { cached, models }
}

/// The places that may know the models, in the order in which they are asked.
#[derive(Clone, Copy, Debug, PartialEq)]
pub enum Stage {
    /// The registry of a proxy that is running.
    Registry,
    /// The cache in memory.
    Memory,
    /// The cache, after it was loaded from disk.
    Disk,
    /// The cache, after a pause in which another call was fetching.
    Contended,
    /// The cache, once this call is the one to fetch.
    Rechecked,
}

/// Where to go on after a place that knows no models.
#[derive(Clone, Copy, Debug, PartialEq)]
pub enum Place {
    Memory,
    Disk,
    /// The guard that lets one call fetch at a time.
    Guard,
    Upstreams,
}

/// What follows on asking a place.
#[derive(Debug, PartialEq)]
pub enum Lookup {
    /// The models are known. `populate` says whether they are also fed into the registry.
    Return { models: Vec<String>, populate: bool },
    Go(Place),
}

/// What a [`Lookup`] stands for.
pub enum LookupView {
    Return { models: Seq<Seq<char>>, populate: bool },
    Go(Place),
}

impl View for Lookup {
    type V = LookupView;

    open spec fn view(&self) -> LookupView {
        match self {
            Lookup::Return { models, populate } => LookupView::Return {
                models: crate::text::texts(models@),
                populate: *populate,
            },
            Lookup::Go(place) => LookupView::Go(*place),
        }
    }
}

/// What follows on asking a place: models that it knows are returned; after a pause whatever
/// is there is.
pub open spec fn lookup(stage: Stage, found: Seq<Seq<char>>) -> LookupView {
    if found.len() > 0 || stage == Stage::Contended {
        LookupView::Return { models: found, populate: stage == Stage::Disk }
    } else {
        LookupView::Go(
            match stage {
                Stage::Registry => Place::Memory,
                Stage::Memory => Place::Disk,
                Stage::Disk => Place::Guard,
                _ => Place::Upstreams,
            },
        )
    }
}

/// Decides what follows on asking a place.
pub fn on_lookup(stage: Stage, found: Vec<String>) -> (r: Lookup)
    ensures
        r@ == lookup(stage, crate::text::texts(found@)),
        found@.len() > 0 || stage == Stage::Contended ==> r == (Lookup::Return {
            models: found,
            populate: stage == Stage::Disk,
        }),
        found@.len() == 0 && stage != Stage::Contended ==> r is Go,
{
    assert(crate::text::texts(found@).len() == found@.len());
    match stage {
        Stage::Contended => {
            return Lookup::Return { models: found, populate: false };
        },
        _ => {},
    }
    if found.len() > 0 {
        let populate: bool = matches!(stage, Stage::Disk);
        return Lookup::Return { models: found, populate };
    }
    Lookup::Go(
        match stage {
            Stage::Registry => Place::Memory,
            Stage::Memory => Place::Disk,
            Stage::Disk => Place::Guard,
            _ => Place::Upstreams,
        },
    )
}

/// What follows on trying to become the call that fetches.
#[derive(Clone, Copy, Debug, PartialEq)]
pub enum GuardStep {
    /// The cache is asked again, at [`Stage::Rechecked`].
    Recheck,
    /// After a pause the cache is asked again, at [`Stage::Contended`].
    Pause { seconds: u64 },
}

/// Decides what follows on trying to become the call that fetches.
pub fn on_guard(acquired: bool) -> (r: GuardStep)
    ensures
        r == (if acquired {
            GuardStep::Recheck
        } else {
            GuardStep::Pause { seconds: 2 }
        }),
{
    if acquired {
        GuardStep::Recheck
    } else {
        GuardStep::Pause { seconds: 2 }
    }
}

/// Whether the registry is to be fed from the cache: the proxy is running and its registry is
/// empty. Nothing is given for a proxy that is not running.
pub fn should_populate(registry: Option<&Vec<String>>) -> (r: bool)
    ensures
        r == (registry matches Some(models) && models@.len() == 0),
{
    match registry {
        Some(models) => models.len() == 0,
        None => false,
    }
}

/// The message of a failure to set up an HTTP client.
pub fn client_error(error: &str) -> (r: String)
    ensures
        r@ == "Failed to create HTTP client: "@ + error@,
{
    "Failed to create HTTP client: ".to_owned().concat(error)
}

/// What the places that may know the models hold while a call asks them.
pub struct KnownModels {
    /// Empty where the proxy is not running.
    pub registry: Seq<Seq<char>>,
    pub memory: Seq<Seq<char>>,
    pub disk: Seq<Seq<char>>,
    /// Whether this call becomes the one that fetches.
    pub acquired: bool,
    /// The cache after a pause, where another call is fetching.
    pub later: Seq<Seq<char>>,
    /// The cache once this call is the one to fetch.
    pub rechecked: Seq<Seq<char>>,
}

/// What a call answers without asking the upstreams; nothing where it asks them. The steps are
/// those of [`on_lookup`] and [`on_guard`].
pub open spec fn known_answer(k: KnownModels) -> Option<LookupView> {
    match lookup(Stage::Registry, k.registry) {
        LookupView::Go(Place::Memory) => match lookup(Stage::Memory, k.memory) {
            LookupView::Go(Place::Disk) => match lookup(Stage::Disk, k.disk) {
                LookupView::Go(Place::Guard) => match lookup(
                    if k.acquired {
                        Stage::Rechecked
                    } else {
                        Stage::Contended
                    },
                    if k.acquired {
                        k.rechecked
                    } else {
                        k.later
                    },
                ) {
                    LookupView::Go(_) => None,
                    answer => Some(answer),
                },
                answer => Some(answer),
            },
            answer => Some(answer),
        },
        answer => Some(answer),
    }
}

/// The first place that knows models gives the answer, and only what was read from disk is fed
/// into the registry. The upstreams are asked only where no place knows any and no other call
/// is asking them.
pub proof fn law_first_known_models_are_returned(k: KnownModels)
    ensures
        k.registry.len() > 0 ==> known_answer(k) == Some(
            LookupView::Return { models: k.registry, populate: false },
        ),
        k.registry.len() == 0 && k.memory.len() > 0 ==> known_answer(k) == Some(
            LookupView::Return { models: k.memory, populate: false },
        ),
        k.registry.len() == 0 && k.memory.len() == 0 && k.disk.len() > 0 ==> known_answer(k)
            == Some(LookupView::Return { models: k.disk, populate: true }),
        k.registry.len() == 0 && k.memory.len() == 0 && k.disk.len() == 0 && !k.acquired
            ==> known_answer(k) == Some(LookupView::Return { models: k.later, populate: false }),
        known_answer(k) is None <==> k.registry.len() == 0 && k.memory.len() == 0 && k.disk.len()
            == 0 && k.acquired && k.rechecked.len() == 0,
{
}

/// At most two endpoints are asked for the models of an account.
pub proof fn law_no_third_endpoint(
    source: ModelSource,
    found: Seq<Seq<char>>,
    more: Seq<Seq<char>>,
)
    ensures
        next_choice(source, found) matches Some(second) ==> next_choice(second, more) is None,
{
}

/// Models that the first endpoint lists are the models of the account; a site without an
/// endpoint has none.
pub proof fn law_first_endpoint_suffices(
    site_type: Seq<char>,
    listed: spec_fn(ModelSource) -> Seq<Seq<char>>,
)
    ensures
        site_type == "sub2api"@ ==> account_models(site_type, listed).len() == 0,
        first_choice(site_type) matches Some(first) ==> (listed(first).len() > 0 ==> account_models(
            site_type,
            listed,
        ) == listed(first)),
{
}

/// There is only one list with the texts of another in ascending order.
pub proof fn law_sorted_set_is_unique(a: Seq<Seq<char>>, b: Seq<Seq<char>>, of: Seq<Seq<char>>)
    requires
        is_sorted_set(a, of),
        is_sorted_set(b, of),
    ensures
        a == b,
{
    assert forall|t: Seq<char>| #[trigger] a.contains(t) <==> b.contains(t) by {
        assert(a.contains(t) <==> of.contains(t));
        assert(b.contains(t) <==> of.contains(t));
    }
    lemma_same_members(a, b);
}

proof fn lemma_same_members(a: Seq<Seq<char>>, b: Seq<Seq<char>>)
    requires
        crate::text::ascending(a),
        crate::text::ascending(b),
        forall|t: Seq<char>| #[trigger] a.contains(t) <==> b.contains(t),
    ensures
        a == b,
    decreases a.len(),
{
    if a.len() == 0 {
        if b.len() > 0 {
            assert(a.contains(b[0]));
        }
        assert(a =~= b);
    } else {
        assert(b.contains(a[0])) by {
            assert(a.contains(a[0]));
        }
        let j = choose|j: int| 0 <= j < b.len() && b[j] == a[0];
        assert(a.contains(b[0])) by {
            assert(b.contains(b[0]));
        }
        let i = choose|i: int| 0 <= i < a.len() && a[i] == b[0];
        crate::text::lemma_text_less_irreflexive(a[0]);
        if j > 0 && i > 0 {
            crate::text::lemma_text_less_transitive(a[0], b[0], a[0]);
        }
        assert(a[0] == b[0]);
        let c = a.drop_first();
        let d = b.drop_first();
        assert forall|t: Seq<char>| #[trigger] c.contains(t) <==> d.contains(t) by {
            if c.contains(t) {
                let k = choose|k: int| 0 <= k < c.len() && c[k] == t;
                assert(a[k + 1] == t);
                assert(a.contains(t));
                let m = choose|m: int| 0 <= m < b.len() && b[m] == t;
                assert(crate::text::text_less(a[0], a[k + 1]));
                assert(m > 0);
                assert(d[m - 1] == t);
            }
            if d.contains(t) {
                let k = choose|k: int| 0 <= k < d.len() && d[k] == t;
                assert(b[k + 1] == t);
                assert(b.contains(t));
                assert(a.contains(t));
                let m = choose|m: int| 0 <= m < a.len() && a[m] == t;
                assert(crate::text::text_less(b[0], b[k + 1]));
                assert(m > 0);
                assert(c[m - 1] == t);
            }
        }
        assert forall|x: int, y: int| 0 <= x < y < c.len() implies crate::text::text_less(
            #[trigger] c[x],
            #[trigger] c[y],
        ) by {
            assert(c[x] == a[x + 1] && c[y] == a[y + 1]);
        }
        assert forall|x: int, y: int| 0 <= x < y < d.len() implies crate::text::text_less(
            #[trigger] d[x],
            #[trigger] d[y],
        ) by {
            assert(d[x] == b[x + 1] && d[y] == b[y + 1]);
        }
        lemma_same_members(c, d);
        assert(a =~= seq![a[0]] + c);
        assert(b =~= seq![b[0]] + d);
    }
}

/// The address of each endpoint, on a site whose address may end with slashes.
pub proof fn law_endpoint_addresses(base: Seq<char>, slashes: nat)
    requires
        base.len() == 0 || base.last() != '/',
    ensures
        source_address(ModelSource::UserModels, base + Seq::new(slashes, |i: int| '/')) == base
            + "/api/user/models"@,
        source_address(ModelSource::AvailableModel, base + Seq::new(slashes, |i: int| '/')) == base
            + "/api/available_model"@,
        source_address(ModelSource::OpenAi, base + Seq::new(slashes, |i: int| '/')) == base
            + "/v1/models"@,
{
    crate::text::law_only_trailing_slashes_go(base, slashes);
}

/// The endpoint that is asked first depends on three site types only: `sub2api` has none,
/// `one-hub` and `done-hub` list available models, and every other type lists the user's models.
/// A second endpoint, that of the OpenAI interface, is asked exactly where the user's models are
/// none.
pub proof fn law_endpoints_of_sites(site_type: Seq<char>, found: Seq<Seq<char>>)
    ensures
        first_choice(site_type) is None <==> site_type == "sub2api"@,
        first_choice(site_type) == Some(ModelSource::AvailableModel) <==> site_type == "one-hub"@
            || site_type == "done-hub"@,
        first_choice(site_type) == Some(ModelSource::UserModels) <==> site_type != "sub2api"@
            && site_type != "one-hub"@ && site_type != "done-hub"@,
        found.len() == 0 ==> next_choice(ModelSource::UserModels, found) == Some(
            ModelSource::OpenAi,
        ),
        found.len() > 0 ==> next_choice(ModelSource::UserModels, found) is None,
        next_choice(ModelSource::AvailableModel, found) is None,
        next_choice(ModelSource::OpenAi, found) is None,
{
    reveal_strlit("sub2api");
    reveal_strlit("one-hub");
    reveal_strlit("done-hub");
    assert("sub2api"@[0] != "one-hub"@[0] && "sub2api"@[0] != "done-hub"@[0]);
}

/// The models of an account, by the type of its site: none on `sub2api`, those that are available
/// on `one-hub` and `done-hub`, and on every other site the user's models where there are any and
/// else those of the OpenAI interface.
pub proof fn law_models_of_an_account(
    site_type: Seq<char>,
    listed: spec_fn(ModelSource) -> Seq<Seq<char>>,
)
    ensures
        site_type == "sub2api"@ ==> account_models(site_type, listed).len() == 0,
        site_type == "one-hub"@ || site_type == "done-hub"@ ==> account_models(site_type, listed)
            == listed(ModelSource::AvailableModel),
        site_type != "sub2api"@ && site_type != "one-hub"@ && site_type != "done-hub"@ && listed(
            ModelSource::UserModels,
        ).len() > 0 ==> account_models(site_type, listed) == listed(ModelSource::UserModels),
        site_type != "sub2api"@ && site_type != "one-hub"@ && site_type != "done-hub"@ && listed(
            ModelSource::UserModels,
        ).len() == 0 ==> account_models(site_type, listed) == listed(ModelSource::OpenAi),
{
    law_endpoints_of_sites(site_type, listed(ModelSource::UserModels));
    law_endpoints_of_sites(site_type, listed(ModelSource::AvailableModel));
}

/// The models of a list are read one by one, in their order: those of two lists together are those
/// of the first and then those of the second. A string names the model that it spells, an object
/// the one that its `id` spells, and every other item none.
pub proof fn law_models_keep_their_order(a: Seq<JsonView>, b: Seq<JsonView>, item: JsonView)
    ensures
        item_models(true, a + b) == item_models(true, a) + item_models(true, b),
        item_models(false, a + b) == item_models(false, a) + item_models(false, b),
        item matches JsonView::Str(m) ==> item_models(false, seq![item]) == seq![m],
        !(item is Str) ==> item_models(false, seq![item]) == Seq::<Seq<char>>::empty(),
        item.get("id"@) matches Some(JsonView::Str(m)) ==> item_models(true, seq![item]) == seq![m],
        !(item.get("id"@) matches Some(JsonView::Str(_))) ==> item_models(true, seq![item])
            == Seq::<Seq<char>>::empty(),
    decreases b.len(),
{
    reveal_with_fuel(item_models, 2);
    assert(seq![item].drop_last() =~= Seq::empty());
    assert(Seq::<Seq<char>>::empty().push(item->Str_0) =~= seq![item->Str_0]);
    if let Some(JsonView::Str(m)) = item.get("id"@) {
        assert(Seq::<Seq<char>>::empty().push(m) =~= seq![m]);
    }
    if b.len() == 0 {
        assert(a + b =~= a);
        assert(item_models(true, a) + item_models(true, b) =~= item_models(true, a));
        assert(item_models(false, a) + item_models(false, b) =~= item_models(false, a));
    } else {
        law_models_keep_their_order(a, b.drop_last(), item);
        assert((a + b).drop_last() =~= a + b.drop_last());
        assert((a + b).last() == b.last());
        assert(item_models(true, a + b) =~= item_models(true, a) + item_models(true, b));
        assert(item_models(false, a + b) =~= item_models(false, a) + item_models(false, b));
    }
}

/// Where each endpoint lists its models: in the array `data`, or as the keys of the object `data`.
/// What is elsewhere in the body does not matter, and without such a member there are none.
pub proof fn law_place_of_the_models(
    body: JsonView,
    items: Seq<JsonView>,
    members: Seq<crate::json::MemberView>,
)
    ensures
        body.get("data"@) == Some(JsonView::Array(items)) ==> listed_models(
            ModelSource::UserModels,
            body,
        ) == item_models(false, items) && listed_models(ModelSource::OpenAi, body) == item_models(
            true,
            items,
        ),
        !(body.get("data"@) matches Some(JsonView::Array(_))) ==> listed_models(
            ModelSource::UserModels,
            body,
        ).len() == 0 && listed_models(ModelSource::OpenAi, body).len() == 0,
        body.get("data"@) == Some(JsonView::Object(members)) ==> listed_models(
            ModelSource::AvailableModel,
            body,
        ) == Seq::new(members.len(), |i: int| members[i].key),
        !(body.get("data"@) matches Some(JsonView::Object(_))) ==> listed_models(
            ModelSource::AvailableModel,
            body,
        ).len() == 0,
{
    if body.get("data"@) == Some(JsonView::Object(members)) {
        assert(crate::json::keys(members) =~= Seq::new(members.len(), |i: int| members[i].key));
    }
}

/// An answer lists models exactly where its status is from 200 to 299 and its body was read.
pub proof fn law_models_of_an_answer(source: ModelSource, status: u16, body: JsonView)
    ensures
        200 <= status <= 299 ==> answered_models(source, Some(status), Some(body))
            == listed_models(source, body),
        status < 200 || status > 299 ==> answered_models(source, Some(status), Some(body)).len()
            == 0,
        answered_models(source, None, Some(body)).len() == 0,
        answered_models(source, Some(status), None).len() == 0,
        answered_models(source, None, None).len() == 0,
{
}

/// Requests are planned account by account, in their order: an account that is not disabled and
/// has an access token is asked, with its id, its address, its type and that token; every other
/// one is not.
pub proof fn law_plan_goes_account_by_account(
    a: Seq<crate::account::AccountView>,
    b: Seq<crate::account::AccountView>,
    one: crate::account::AccountView,
)
    ensures
        tasks_of(a + b) == tasks_of(a) + tasks_of(b),
        one.disabled != Some(true) && one.access_token.len() > 0 ==> tasks_of(seq![one]) == seq![
            TaskView {
                account_id: one.id,
                site_url: one.site_url,
                site_type: one.site_type,
                access_token: one.access_token,
            },
        ],
        one.disabled == Some(true) || one.access_token.len() == 0 ==> tasks_of(seq![one])
            == Seq::<TaskView>::empty(),
    decreases b.len(),
{
    reveal_with_fuel(tasks_of, 2);
    assert(seq![one].drop_last() =~= Seq::empty());
    assert(Seq::<TaskView>::empty().push(task_of(one)) =~= seq![task_of(one)]);
    if b.len() == 0 {
        assert(a + b =~= a);
        assert(tasks_of(a) + tasks_of(b) =~= tasks_of(a));
    } else {
        law_plan_goes_account_by_account(a, b.drop_last(), one);
        assert((a + b).drop_last() =~= a + b.drop_last());
        assert((a + b).last() == b.last());
        assert(tasks_of(a + b) =~= tasks_of(a) + tasks_of(b));
    }
}

/// Every request is of an account that is not disabled, and carries that account's own id,
/// address, type and access token.
pub proof fn law_task_is_of_an_account(accounts: Seq<crate::account::AccountView>, k: int)
    requires
        0 <= k < tasks_of(accounts).len(),
    ensures
        exists|i: int|
            0 <= i < accounts.len() && tasks_of(accounts)[k].account_id == (
            #[trigger] accounts[i]).id && tasks_of(accounts)[k].site_url == accounts[i].site_url
                && tasks_of(accounts)[k].site_type == accounts[i].site_type && tasks_of(
                accounts,
            )[k].access_token == accounts[i].access_token && accounts[i].disabled != Some(true)
                && accounts[i].access_token.len() > 0,
    decreases accounts.len(),
{
    let t = tasks_of(accounts)[k];
    let rest = accounts.drop_last();
    let before = tasks_of(rest);
    if k < before.len() {
        law_task_is_of_an_account(rest, k);
        assert(t == before[k]);
        let i = choose|i: int|
            0 <= i < rest.len() && before[k].account_id == (#[trigger] rest[i]).id
                && before[k].site_url == rest[i].site_url && before[k].site_type
                == rest[i].site_type && before[k].access_token == rest[i].access_token
                && rest[i].disabled != Some(true) && rest[i].access_token.len() > 0;
        assert(accounts[i] == rest[i]);
    } else {
        assert(accounts[accounts.len() - 1] == accounts.last());
    }
}

/// Every account that is not disabled and has an access token is asked, with its own id, address,
/// type and access token.
pub proof fn law_enabled_account_is_asked(accounts: Seq<crate::account::AccountView>, i: int)
    requires
        0 <= i < accounts.len(),
        accounts[i].disabled != Some(true),
        accounts[i].access_token.len() > 0,
    ensures
        tasks_of(accounts).contains(
            TaskView {
                account_id: accounts[i].id,
                site_url: accounts[i].site_url,
                site_type: accounts[i].site_type,
                access_token: accounts[i].access_token,
            },
        ),
    decreases accounts.len(),
{
    let t = TaskView {
        account_id: accounts[i].id,
        site_url: accounts[i].site_url,
        site_type: accounts[i].site_type,
        access_token: accounts[i].access_token,
    };
    let all = tasks_of(accounts);
    let rest = accounts.drop_last();
    let before = tasks_of(rest);
    if i < rest.len() {
        assert(rest[i] == accounts[i]);
        law_enabled_account_is_asked(rest, i);
        let k = choose|k: int| 0 <= k < before.len() && before[k] == t;
        assert(all[k] == t);
    } else {
        assert(all[before.len() as int] == t);
    }
}

/// The plan does not depend on the API keys, nor on anything else but the id, the address, the
/// type, the access token and whether an account is disabled.
pub proof fn law_plan_ignores_api_keys(
    a: Seq<crate::account::AccountView>,
    b: Seq<crate::account::AccountView>,
)
    requires
        a.len() == b.len(),
        forall|i: int|
            0 <= i < a.len() ==> (#[trigger] a[i]).id == b[i].id && a[i].site_url == b[i].site_url
                && a[i].site_type == b[i].site_type && a[i].disabled == b[i].disabled
                && a[i].access_token == b[i].access_token,
    ensures
        tasks_of(a) == tasks_of(b),
    decreases a.len(),
{
    if a.len() > 0 {
        assert(a[a.len() - 1] == a.last());
        let c = a.drop_last();
        let d = b.drop_last();
        assert forall|i: int| 0 <= i < c.len() implies (#[trigger] c[i]).id == d[i].id
            && c[i].site_url == d[i].site_url && c[i].site_type == d[i].site_type && c[i].disabled
            == d[i].disabled && c[i].access_token == d[i].access_token by {
            assert(c[i] == a[i]);
        }
        law_plan_ignores_api_keys(c, d);
    }
}

/// The merged list offers exactly the models that some account's result names.
pub proof fn law_every_found_model_is_offered(
    results: Seq<Option<AccountModels>>,
    model: Seq<char>,
)
    ensures
        offered(found_models(results), model) <==> exists|i: int|
            0 <= i < results.len() && names_model(#[trigger] results[i], model),
    decreases results.len(),
{
    let all = found_models(results);
    if results.len() > 0 {
        let rest = results.drop_last();
        let before = found_models(rest);
        law_every_found_model_is_offered(rest, model);
        if offered(all, model) {
            let i = choose|i: int| 0 <= i < all.len() && (#[trigger] all[i]).models.contains(model);
            if i < before.len() {
                assert(all[i] == before[i]);
                assert(offered(before, model));
                let k = choose|k: int|
                    0 <= k < rest.len() && names_model(#[trigger] rest[k], model);
                assert(results[k] == rest[k]);
            } else {
                let found = results.last()->Some_0;
                let texts = crate::text::texts(found.models@);
                assert(all[i] == found@);
                let k = choose|k: int| 0 <= k < texts.len() && texts[k] == model;
                assert(found.models@[k]@ == model);
                assert(names_model(results[results.len() - 1], model));
            }
        }
        if exists|i: int| 0 <= i < results.len() && names_model(#[trigger] results[i], model) {
            let i = choose|i: int|
                0 <= i < results.len() && names_model(#[trigger] results[i], model);
            if i < rest.len() {
                assert(rest[i] == results[i]);
                let k = choose|k: int|
                    0 <= k < before.len() && (#[trigger] before[k]).models.contains(model);
                assert(all[k] == before[k]);
            } else {
                let found = results.last()->Some_0;
                let k = choose|k: int|
                    0 <= k < found.models@.len() && (#[trigger] found.models@[k])@ == model;
                assert(crate::text::texts(found.models@)[k] == model);
                assert(all[before.len() as int] == found@);
                assert(all[before.len() as int].models.contains(model));
            }
        }
    }
}

/// What is cached goes result by result, in their order: a result with models is cached with its
/// account, and one without models or without an outcome is not.
pub proof fn law_cache_goes_result_by_result(
    a: Seq<Option<AccountModels>>,
    b: Seq<Option<AccountModels>>,
    one: AccountModels,
)
    ensures
        found_models(a + b) == found_models(a) + found_models(b),
        one.models@.len() > 0 ==> found_models(seq![Some(one)]) == seq![
            AccountModelsView {
                account_id: one.account_id@,
                models: Seq::new(one.models@.len(), |k: int| one.models@[k]@),
            },
        ],
        one.models@.len() == 0 ==> found_models(seq![Some(one)])
            == Seq::<AccountModelsView>::empty(),
        found_models(seq![None]) == Seq::<AccountModelsView>::empty(),
    decreases b.len(),
{
    reveal_with_fuel(found_models, 2);
    assert(seq![Some(one)].drop_last() =~= Seq::empty());
    assert(seq![None::<AccountModels>].drop_last() =~= Seq::empty());
    assert(one@.models =~= Seq::new(one.models@.len(), |k: int| one.models@[k]@));
    assert(Seq::<AccountModelsView>::empty().push(one@) =~= seq![one@]);
    if b.len() == 0 {
        assert(a + b =~= a);
        assert(found_models(a) + found_models(b) =~= found_models(a));
    } else {
        law_cache_goes_result_by_result(a, b.drop_last(), one);
        assert((a + b).drop_last() =~= a + b.drop_last());
        assert((a + b).last() == b.last());
        assert(found_models(a + b) =~= found_models(a) + found_models(b));
    }
}

/// What follows on each place that is asked: models that are there are returned, fed into the
/// registry only where they came from disk; where there are none the next place is asked, and
/// after a pause nothing more.
pub proof fn law_every_place_has_its_next(found: Seq<Seq<char>>)
    ensures
        found.len() > 0 ==> {
            &&& lookup(Stage::Registry, found) == (LookupView::Return {
                models: found,
                populate: false,
            })
            &&& lookup(Stage::Memory, found) == (LookupView::Return {
                models: found,
                populate: false,
            })
            &&& lookup(Stage::Disk, found) == (LookupView::Return { models: found, populate: true })
            &&& lookup(Stage::Rechecked, found) == (LookupView::Return {
                models: found,
                populate: false,
            })
        },
        found.len() == 0 ==> {
            &&& lookup(Stage::Registry, found) == LookupView::Go(Place::Memory)
            &&& lookup(Stage::Memory, found) == LookupView::Go(Place::Disk)
            &&& lookup(Stage::Disk, found) == LookupView::Go(Place::Guard)
            &&& lookup(Stage::Rechecked, found) == LookupView::Go(Place::Upstreams)
        },
        lookup(Stage::Contended, found) == (LookupView::Return { models: found, populate: false }),
{
}

} // verus!
