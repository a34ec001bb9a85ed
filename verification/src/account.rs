//! Accounts on upstream sites, and the refresh of their API keys.

use vstd::prelude::*;

use crate::json::{member, record_of, Json, JsonView, Member};
use crate::key_fetcher::{plan_key_fetch, KeyPlan};
use crate::text::same_text;

verus! {

/// What an upstream knows of the user of an account.
#[derive(Debug, PartialEq)]
pub struct AccountInfo {
    /// The user's number on the site.
    pub id: i64,
    /// The credential of the management endpoints.
    pub access_token: String,
    /// The credential of the AI endpoints, once it is known.
    pub api_key: Option<String>,
}

/// An account on an upstream site.
#[derive(Debug, PartialEq)]
pub struct SiteAccount {
    pub id: String,
    pub site_name: String,
    pub site_url: String,
    pub site_type: String,
    pub disabled: Option<bool>,
    pub account_info: AccountInfo,
}

/// What a [`SiteAccount`] stands for.
pub struct AccountView {
    pub id: Seq<char>,
    pub site_name: Seq<char>,
    pub site_url: Seq<char>,
    pub site_type: Seq<char>,
    pub disabled: Option<bool>,
    pub user_id: i64,
    pub access_token: Seq<char>,
    pub api_key: Option<Seq<char>>,
}

impl View for SiteAccount {
    type V = AccountView;

    open spec fn view(&self) -> AccountView {
        AccountView {
            id: self.id@,
            site_name: self.site_name@,
            site_url: self.site_url@,
            site_type: self.site_type@,
            disabled: self.disabled,
            user_id: self.account_info.id,
            access_token: self.account_info.access_token@,
            api_key: crate::text::opt_text(self.account_info.api_key),
        }
    }
}

/// What a list of accounts stands for.
pub open spec fn account_views(accounts: Seq<SiteAccount>) -> Seq<AccountView> {
    Seq::new(accounts.len(), |i: int| accounts[i]@)
}

/// An account with another API key.
pub open spec fn with_api_key(a: AccountView, api_key: Option<Seq<char>>) -> AccountView {
    AccountView { api_key, ..a }
}

/// Says how to come by the API key of an account.
pub fn plan_account_key(account: &SiteAccount) -> (r: KeyPlan)
    ensures
        crate::key_fetcher::is_key_plan(
            r,
            account@.site_url,
            account@.site_type,
            account@.access_token,
            account@.user_id as int,
        ),
{
    plan_key_fetch(
        account.site_url.as_str(),
        account.site_type.as_str(),
        account.account_info.access_token.as_str(),
        account.account_info.id,
    )
}

/// The outcomes of fetching the keys of a list of accounts; nothing for one whose fetch broke
/// off.
pub type Fetched = Option<Result<String, String>>;

/// An account after its key was fetched: with the new key where there is one, and else as it
/// was.
pub open spec fn after_fetch(a: AccountView, fetched: Fetched) -> AccountView {
    match fetched {
        Some(Ok(key)) => with_api_key(a, Some(key@)),
        _ => a,
    }
}

/// Whether two accounts are the same in everything but their API key.
pub open spec fn same_but_for_key(a: SiteAccount, b: SiteAccount) -> bool {
    &&& a.id@ == b.id@
    &&& a.site_name@ == b.site_name@
    &&& a.site_url@ == b.site_url@
    &&& a.site_type@ == b.site_type@
    &&& a.disabled == b.disabled
    &&& a.account_info.id == b.account_info.id
    &&& a.account_info.access_token@ == b.account_info.access_token@
}

/// Sets the API keys that were fetched. An account without a new key stays as it was.
pub fn apply_fetched_keys(accounts: Vec<SiteAccount>, fetched: Vec<Fetched>) -> (r: Vec<
    SiteAccount,
>)
    requires
        fetched@.len() == accounts@.len(),
    ensures
        r@.len() == accounts@.len(),
        forall|i: int|
            0 <= i < r@.len() ==> (#[trigger] r@[i])@ == after_fetch(accounts@[i]@, fetched@[i]),
        forall|i: int|
            #![trigger r@[i]]
            0 <= i < r@.len() ==> (fetched@[i] matches Some(Ok(key))
                ==> r@[i].account_info.api_key matches Some(set) && set@ == key@),
        forall|i: int|
            #![trigger r@[i]]
            0 <= i < r@.len() && !(fetched@[i] matches Some(Ok(_))) ==> r@[i] == accounts@[i],
        forall|i: int|
            0 <= i < r@.len() ==> same_but_for_key(#[trigger] r@[i], accounts@[i]),
{
    let ghost before = accounts@;
    let ghost results = fetched@;
    let mut fetched: Vec<Fetched> = fetched;
    let mut out: Vec<SiteAccount> = Vec::new();
    for account in iter: accounts
        invariant
            iter.seq() == before,
            results.len() == before.len(),
            fetched@ == results.skip(iter.index() as int),
            out@.len() == iter.index(),
            forall|i: int|
                0 <= i < out@.len() ==> (#[trigger] out@[i])@ == after_fetch(
                    before[i]@,
                    results[i],
                ),
            forall|i: int|
                #![trigger out@[i]]
                0 <= i < out@.len() ==> (results[i] matches Some(Ok(key))
                    ==> out@[i].account_info.api_key matches Some(set) && set@ == key@),
            forall|i: int|
                #![trigger out@[i]]
                0 <= i < out@.len() && !(results[i] matches Some(Ok(_))) ==> out@[i] == before[i],
            forall|i: int|
                0 <= i < out@.len() ==> same_but_for_key(#[trigger] out@[i], before[i]),
    {
        let ghost k = iter.index() as int;
        let outcome: Fetched = fetched.remove(0);
        assert(outcome == results[k]);
        assert(fetched@ =~= results.skip(k + 1));
        let account: SiteAccount = match outcome {
            Some(Ok(key)) => set_api_key(account, Some(key)),
            _ => account,
        };
        out.push(account);
    }
    out
}

fn set_api_key(account: SiteAccount, api_key: Option<String>) -> (r: SiteAccount)
    ensures
        r@ == with_api_key(account@, crate::text::opt_text(api_key)),
        r.account_info.api_key == api_key,
        same_but_for_key(r, account),
{
    let SiteAccount { id, site_name, site_url, site_type, disabled, account_info } = account;
    let AccountInfo { id: user_id, access_token, api_key: _ } = account_info;
    SiteAccount {
        id,
        site_name,
        site_url,
        site_type,
        disabled,
        account_info: AccountInfo { id: user_id, access_token, api_key },
    }
}

/// The API key of the last account with an id, which may have none; nothing where there is no
/// such account.
pub open spec fn key_of(accounts: Seq<AccountView>, id: Seq<char>) -> Option<Option<Seq<char>>>
    decreases accounts.len(),
{
    if accounts.len() == 0 {
        None
    } else if accounts.last().id == id {
        Some(accounts.last().api_key)
    } else {
        key_of(accounts.drop_last(), id)
    }
}

/// An account with the key of its namesake in a list.
pub open spec fn with_key_from(accounts: Seq<AccountView>, a: AccountView) -> AccountView {
    match key_of(accounts, a.id) {
        Some(key) => with_api_key(a, key),
        None => a,
    }
}

fn find_key(accounts: &Vec<SiteAccount>, id: &str) -> (r: Option<Option<String>>)
    ensures
        r is Some <==> key_of(account_views(accounts@), id@) is Some,
        r matches Some(k) ==> key_of(account_views(accounts@), id@) == Some(
            crate::text::opt_text(k),
        ),
{
    let ghost all = account_views(accounts@);
    let mut n: usize = accounts.len();
    assert(all.take(n as int) =~= all);
    while n > 0
        invariant
            n <= accounts@.len(),
            all == account_views(accounts@),
            key_of(all, id@) == key_of(all.take(n as int), id@),
        decreases n,
    {
        let a: &SiteAccount = &accounts[n - 1];
        assert(all.take(n as int).last() == a@);
        if same_text(a.id.as_str(), id) {
            return Some(
                match &a.account_info.api_key {
                    Some(k) => Some(k.clone()),
                    None => None,
                },
            );
        }
        assert(all.take(n as int).drop_last() =~= all.take(n - 1));
        n = n - 1;
    }
    None
}

/// Carries the API keys of a list of accounts over to the accounts of the proxy, which have the
/// same ids. An account of the proxy that is not in the list stays as it is.
pub fn propagate_keys(accounts: &Vec<SiteAccount>, proxy_accounts: Vec<SiteAccount>) -> (r: Vec<
    SiteAccount,
>)
    ensures
        r@.len() == proxy_accounts@.len(),
        forall|i: int|
            0 <= i < r@.len() ==> (#[trigger] r@[i])@ == with_key_from(
                account_views(accounts@),
                proxy_accounts@[i]@,
            ),
        forall|i: int|
            0 <= i < r@.len() ==> same_but_for_key(#[trigger] r@[i], proxy_accounts@[i]),
{
    let ghost before = proxy_accounts@;
    let mut out: Vec<SiteAccount> = Vec::new();
    for account in iter: proxy_accounts
        invariant
            iter.seq() == before,
            out@.len() == iter.index(),
            forall|i: int|
                0 <= i < out@.len() ==> (#[trigger] out@[i])@ == with_key_from(
                    account_views(accounts@),
                    before[i]@,
                ),
            forall|i: int|
                0 <= i < out@.len() ==> same_but_for_key(#[trigger] out@[i], before[i]),
    {
        let account: SiteAccount = match find_key(accounts, account.id.as_str()) {
            Some(key) => set_api_key(account, key),
            None => account,
        };
        out.push(account);
    }
    out
}

/// Whether a key can be shortened for display: it is cut after its eighth byte and before its
/// fourth byte from the end, which must not be inside a character.
pub open spec fn previewable(key: Seq<char>) -> bool {
    let bytes = vstd::utf8::encode_utf8(key);
    bytes.len() > 12 ==> vstd::utf8::is_char_boundary(bytes, 8) && vstd::utf8::is_char_boundary(
        bytes,
        bytes.len() - 4,
    )
}

/// A key as it is displayed: shortened to its first eight and its last four bytes where it has
/// more than twelve.
pub open spec fn preview(key: Seq<char>) -> Seq<char> {
    let bytes = vstd::utf8::encode_utf8(key);
    if bytes.len() > 12 {
        vstd::utf8::decode_utf8(bytes.subrange(0, 8)) + "..."@ + vstd::utf8::decode_utf8(
            bytes.subrange(bytes.len() - 4, bytes.len() as int),
        )
    } else {
        key
    }
}

/// Whether a key can be shortened for display.
pub fn can_preview(key: &str) -> (r: bool)
    ensures
        r == previewable(key@),
{
    let n: usize = key.as_bytes().len();
    n <= 12 || (key.is_char_boundary(8) && key.is_char_boundary(n - 4))
}

/// Shortens a key for display.
pub fn key_preview(key: &str) -> (r: String)
    requires
        previewable(key@),
    ensures
        r@ == preview(key@),
{
    let n: usize = key.as_bytes().len();
    if n > 12 {
        let (head, _) = key.split_at(8);
        let (_, tail) = key.split_at(n - 4);
        proof {
            vstd::utf8::encode_utf8_decode_utf8(head@);
            vstd::utf8::encode_utf8_decode_utf8(tail@);
        }
        head.to_owned().concat("...").concat(tail)
    } else {
        key.to_owned()
    }
}

/// How an account fared in a refresh.
pub enum Fate {
    /// The site has no key of its own to fetch.
    Skipped,
    /// The account has a key.
    Succeeded,
    /// The account has no key.
    Failed,
}

/// How an account fared in a refresh.
pub open spec fn fate(a: AccountView) -> Fate {
    if a.site_type == "sub2api"@ {
        Fate::Skipped
    } else if a.api_key is Some {
        Fate::Succeeded
    } else {
        Fate::Failed
    }
}

/// How many accounts fared in some way.
pub open spec fn tally(accounts: Seq<AccountView>, f: Fate) -> nat
    decreases accounts.len(),
{
    if accounts.len() == 0 {
        0
    } else {
        tally(accounts.drop_last(), f) + if fate(accounts.last()) == f {
            1nat
        } else {
            0nat
        }
    }
}

/// The key of an account as it is displayed.
pub open spec fn shown_key(a: AccountView) -> JsonView {
    match a.api_key {
        Some(key) => JsonView::Str(preview(key)),
        None => JsonView::Null,
    }
}

/// What a refresh reports of one account.
pub open spec fn account_report(a: AccountView) -> JsonView {
    crate::json::object_of(
        seq![
            crate::json::field("id"@, JsonView::Str(a.id)),
            crate::json::field("site_name"@, JsonView::Str(a.site_name)),
            crate::json::field("site_type"@, JsonView::Str(a.site_type)),
            crate::json::field("has_api_key"@, JsonView::Bool(a.api_key is Some)),
            crate::json::field("api_key_preview"@, shown_key(a)),
        ],
    )
}

/// What a refresh reports.
pub open spec fn refresh_report(accounts: Seq<AccountView>) -> JsonView {
    crate::json::object_of(
        seq![
            crate::json::field("success"@, count(tally(accounts, Fate::Succeeded))),
            crate::json::field("failed"@, count(tally(accounts, Fate::Failed))),
            crate::json::field("skipped"@, count(tally(accounts, Fate::Skipped))),
            crate::json::field("total"@, count(accounts.len())),
            crate::json::field(
                "accounts"@,
                JsonView::Array(Seq::new(accounts.len(), |i: int| account_report(accounts[i]))),
            ),
        ],
    )
}

/// A count as a JSON number.
pub open spec fn count(n: nat) -> JsonView {
    JsonView::Number(crate::codec::number_of(n as u64))
}

fn report_account(a: &SiteAccount) -> (r: Json)
    requires
        a@.api_key matches Some(key) ==> previewable(key),
    ensures
        r@ == account_report(a@),
        crate::json::ordered(r@),
{
    let shown: Json = match &a.account_info.api_key {
        Some(key) => Json::Str(key_preview(key.as_str())),
        None => Json::Null,
    };
    let has_key: bool = a.account_info.api_key.is_some();
    let fields: Vec<Member> = vec![
        member("id", Json::string(a.id.as_str())),
        member("site_name", Json::string(a.site_name.as_str())),
        member("site_type", Json::string(a.site_type.as_str())),
        member("has_api_key", Json::Bool(has_key)),
        member("api_key_preview", shown),
    ];
    let ghost views = crate::json::member_views(fields@);
    assert(views =~= seq![
        crate::json::field("id"@, JsonView::Str(a@.id)),
        crate::json::field("site_name"@, JsonView::Str(a@.site_name)),
        crate::json::field("site_type"@, JsonView::Str(a@.site_type)),
        crate::json::field("has_api_key"@, JsonView::Bool(a@.api_key is Some)),
        crate::json::field("api_key_preview"@, shown_key(a@)),
    ]);
    proof {
        crate::json::lemma_record_ordered(views);
    }
    record_of(fields)
}

/// Reports a refresh: how many accounts have a key, have none or need none, and a line for each
/// account.
pub fn report_refresh(accounts: &Vec<SiteAccount>) -> (r: Json)
    requires
        accounts@.len() <= u32::MAX,
        forall|i: int|
            0 <= i < accounts@.len() ==> ((#[trigger] accounts@[i])@.api_key matches Some(key)
                ==> previewable(key)),
    ensures
        r@ == refresh_report(account_views(accounts@)),
        crate::json::ordered(r@),
{
    let ghost all = account_views(accounts@);
    let mut success: u32 = 0;
    let mut failed: u32 = 0;
    let mut skipped: u32 = 0;
    let mut details: Vec<Json> = Vec::new();
    let n: usize = accounts.len();
    let mut i: usize = 0;
    while i < n
        invariant
            n == accounts@.len(),
            n <= u32::MAX,
            i <= n,
            all == account_views(accounts@),
            forall|i: int|
                0 <= i < accounts@.len() ==> ((#[trigger] accounts@[i])@.api_key matches Some(key)
                    ==> previewable(key)),
            success == tally(all.take(i as int), Fate::Succeeded),
            failed == tally(all.take(i as int), Fate::Failed),
            skipped == tally(all.take(i as int), Fate::Skipped),
            success + failed + skipped == i,
            details@.len() == i,
            forall|k: int|
                0 <= k < i ==> (#[trigger] details@[k])@ == account_report(all[k])
                    && crate::json::ordered(details@[k]@),
        decreases n - i,
    {
        let a: &SiteAccount = &accounts[i];
        assert(all.take(i + 1).last() == a@);
        assert(all.take(i + 1).drop_last() =~= all.take(i as int));
        if same_text(a.site_type.as_str(), "sub2api") {
            skipped = skipped + 1;
        } else if a.account_info.api_key.is_some() {
            success = success + 1;
        } else {
            failed = failed + 1;
        }
        details.push(report_account(a));
        i = i + 1;
    }
    assert(all.take(n as int) =~= all);
    let ghost lines = Seq::new(all.len(), |k: int| account_report(all[k]));
    assert(crate::json::views(details@) =~= lines);
    let fields: Vec<Member> = vec![
        member("success", Json::number(success as u64)),
        member("failed", Json::number(failed as u64)),
        member("skipped", Json::number(skipped as u64)),
        member("total", Json::number(n as u64)),
        member("accounts", Json::array(details)),
    ];
    let ghost views = crate::json::member_views(fields@);
    assert(views =~= seq![
        crate::json::field("success"@, count(tally(all, Fate::Succeeded))),
        crate::json::field("failed"@, count(tally(all, Fate::Failed))),
        crate::json::field("skipped"@, count(tally(all, Fate::Skipped))),
        crate::json::field("total"@, count(all.len())),
        crate::json::field("accounts"@, JsonView::Array(lines)),
    ]);
    proof {
        assert forall|k: int| 0 <= k < lines.len() implies crate::json::ordered(
            #[trigger] lines[k],
        ) by {
            assert(details@[k]@ == lines[k]);
        }
        assert(crate::json::ordered(views[4].value));
        crate::json::lemma_record_ordered(views);
    }
    record_of(fields)
}

/// A fetch changes nothing of an account but its key, and that only where it found one.
pub proof fn law_fetch_changes_only_the_key(a: AccountView, fetched: Fetched)
    ensures
        after_fetch(a, fetched) == with_api_key(a, after_fetch(a, fetched).api_key),
        !(fetched matches Some(Ok(_))) ==> after_fetch(a, fetched) == a,
{
}

/// After a refresh the proxy's account has the key of the account with the same id.
pub proof fn law_proxy_account_has_the_same_key(
    accounts: Seq<AccountView>,
    k: int,
    proxy_account: AccountView,
)
    requires
        0 <= k < accounts.len(),
        accounts[k].id == proxy_account.id,
        forall|i: int| k < i < accounts.len() ==> (#[trigger] accounts[i]).id != proxy_account.id,
    ensures
        with_key_from(accounts, proxy_account) == with_api_key(proxy_account, accounts[k].api_key),
    decreases accounts.len(),
{
    if k < accounts.len() - 1 {
        let rest = accounts.drop_last();
        assert(rest[k] == accounts[k]);
        assert forall|i: int| k < i < rest.len() implies (#[trigger] rest[i]).id
            != proxy_account.id by {
            assert(rest[i] == accounts[i]);
        }
        law_proxy_account_has_the_same_key(rest, k, proxy_account);
    }
}

/// Every account is counted once in a refresh.
pub proof fn law_refresh_counts_add_up(accounts: Seq<AccountView>)
    ensures
        tally(accounts, Fate::Succeeded) + tally(accounts, Fate::Failed) + tally(
            accounts,
            Fate::Skipped,
        ) == accounts.len(),
    decreases accounts.len(),
{
    if accounts.len() > 0 {
        law_refresh_counts_add_up(accounts.drop_last());
    }
}

/// A key of ASCII characters can always be displayed. A long one shows its first eight and its
/// last four characters.
pub proof fn law_ascii_key_preview(key: Seq<char>)
    requires
        vstd::utf8::is_ascii_chars(key),
    ensures
        previewable(key),
        preview(key) == (if key.len() > 12 {
            key.subrange(0, 8) + "..."@ + key.subrange(key.len() - 4, key.len() as int)
        } else {
            key
        }),
{
    let bytes = vstd::utf8::encode_utf8(key);
    vstd::utf8::is_ascii_chars_encode_utf8(key);
    if key.len() > 12 {
        let head = key.subrange(0, 8);
        let tail = key.subrange(key.len() - 4, key.len() as int);
        vstd::utf8::is_ascii_chars_encode_utf8(head);
        vstd::utf8::is_ascii_chars_encode_utf8(tail);
        assert(bytes.subrange(0, 8) =~= vstd::utf8::encode_utf8(head));
        assert(bytes.subrange(bytes.len() - 4, bytes.len() as int) =~= vstd::utf8::encode_utf8(
            tail,
        ));
        vstd::utf8::encode_utf8_decode_utf8(head);
        vstd::utf8::encode_utf8_decode_utf8(tail);
        vstd::utf8::encode_utf8_valid_utf8(key);
        vstd::utf8::is_char_boundary_iff_not_is_continuation_byte(bytes, 8);
        vstd::utf8::is_char_boundary_iff_not_is_continuation_byte(bytes, bytes.len() - 4);
    }
}

/// A key that was fetched is the account's key afterwards, whatever the type of its site, its old
/// key or anything else about it; an account for which none was found keeps the one it had.
pub proof fn law_fetched_key_is_set(a: AccountView, key: String, error: String)
    ensures
        after_fetch(a, Some(Ok(key))).api_key == Some(key@),
        after_fetch(a, Some(Err(error))).api_key == a.api_key,
        after_fetch(a, None).api_key == a.api_key,
        forall|f: Fetched|
            #![trigger after_fetch(a, f)]
            after_fetch(a, f).id == a.id && after_fetch(a, f).site_name == a.site_name
                && after_fetch(a, f).site_url == a.site_url && after_fetch(a, f).site_type
                == a.site_type && after_fetch(a, f).disabled == a.disabled && after_fetch(
                a,
                f,
            ).user_id == a.user_id && after_fetch(a, f).access_token == a.access_token,
{
}

/// An account stands for what it holds.
pub proof fn law_account_shows_what_it_holds(a: SiteAccount)
    ensures
        a@.id == a.id@,
        a@.site_name == a.site_name@,
        a@.site_url == a.site_url@,
        a@.site_type == a.site_type@,
        a@.disabled == a.disabled,
        a@.user_id == a.account_info.id,
        a@.access_token == a.account_info.access_token@,
        a.account_info.api_key matches Some(key) ==> a@.api_key == Some(key@),
        a.account_info.api_key is None ==> a@.api_key is None,
{
}

/// The proxy's accounts take over the key of the last account with the same id, also where that
/// has none, and change in nothing else. Without such an account they stay as they are.
pub proof fn law_keys_are_carried_over(
    accounts: Seq<AccountView>,
    k: int,
    proxy_account: AccountView,
)
    ensures
        0 <= k < accounts.len() && accounts[k].id == proxy_account.id && (forall|i: int|
            k < i < accounts.len() ==> (#[trigger] accounts[i]).id != proxy_account.id)
            ==> with_key_from(accounts, proxy_account).api_key == accounts[k].api_key,
        (forall|i: int|
            0 <= i < accounts.len() ==> (#[trigger] accounts[i]).id != proxy_account.id)
            ==> with_key_from(accounts, proxy_account).api_key == proxy_account.api_key,
        with_key_from(accounts, proxy_account).id == proxy_account.id,
        with_key_from(accounts, proxy_account).site_name == proxy_account.site_name,
        with_key_from(accounts, proxy_account).site_url == proxy_account.site_url,
        with_key_from(accounts, proxy_account).site_type == proxy_account.site_type,
        with_key_from(accounts, proxy_account).disabled == proxy_account.disabled,
        with_key_from(accounts, proxy_account).user_id == proxy_account.user_id,
        with_key_from(accounts, proxy_account).access_token == proxy_account.access_token,
{
    if 0 <= k < accounts.len() && accounts[k].id == proxy_account.id && (forall|i: int|
        k < i < accounts.len() ==> (#[trigger] accounts[i]).id != proxy_account.id) {
        law_proxy_account_has_the_same_key(accounts, k, proxy_account);
    }
    if forall|i: int| 0 <= i < accounts.len() ==> (#[trigger] accounts[i]).id != proxy_account.id {
        lemma_no_namesake(accounts, proxy_account.id);
    }
}

proof fn lemma_no_namesake(accounts: Seq<AccountView>, id: Seq<char>)
    requires
        forall|i: int| 0 <= i < accounts.len() ==> (#[trigger] accounts[i]).id != id,
    ensures
        key_of(accounts, id) is None,
    decreases accounts.len(),
{
    if accounts.len() > 0 {
        let rest = accounts.drop_last();
        assert(accounts[accounts.len() - 1] == accounts.last());
        assert forall|i: int| 0 <= i < rest.len() implies (#[trigger] rest[i]).id != id by {
            assert(rest[i] == accounts[i]);
        }
        lemma_no_namesake(rest, id);
    }
}

/// Accounts are counted one by one. Those of `sub2api` sites are skipped, whether they have a key
/// or not; of all others those with a key succeeded and those without failed.
pub proof fn law_accounts_are_counted_one_by_one(
    a: Seq<AccountView>,
    b: Seq<AccountView>,
    one: AccountView,
)
    ensures
        forall|f: Fate| #[trigger] tally(a + b, f) == tally(a, f) + tally(b, f),
        tally(seq![one], Fate::Skipped) == (if one.site_type == "sub2api"@ {
            1nat
        } else {
            0
        }),
        tally(seq![one], Fate::Succeeded) == (if one.site_type != "sub2api"@
            && one.api_key is Some {
            1nat
        } else {
            0
        }),
        tally(seq![one], Fate::Failed) == (if one.site_type != "sub2api"@ && one.api_key is None {
            1nat
        } else {
            0
        }),
    decreases b.len(),
{
    reveal_with_fuel(tally, 2);
    assert(seq![one].drop_last() =~= Seq::empty());
    if b.len() == 0 {
        assert(a + b =~= a);
    } else {
        law_accounts_are_counted_one_by_one(a, b.drop_last(), one);
        assert((a + b).drop_last() =~= a + b.drop_last());
        assert((a + b).last() == b.last());
        assert forall|f: Fate| #[trigger] tally(a + b, f) == tally(a, f) + tally(b, f) by {
            assert(tally(a + b.drop_last(), f) == tally(a, f) + tally(b.drop_last(), f));
        }
    }
}

/// A displayed key: one of at most twelve bytes is shown as it is, and of a longer one the first
/// eight bytes, three dots and the last four bytes, and nothing else.
pub proof fn law_displayed_key(key: Seq<char>)
    requires
        previewable(key),
    ensures
        vstd::utf8::encode_utf8(key).len() <= 12 ==> preview(key) == key,
        vstd::utf8::encode_utf8(key).len() > 12 ==> exists|head: Seq<char>, tail: Seq<char>|
            preview(key) == head + "..."@ + tail && #[trigger] vstd::utf8::encode_utf8(head)
                == vstd::utf8::encode_utf8(key).subrange(0, 8) && #[trigger]
            vstd::utf8::encode_utf8(tail) == vstd::utf8::encode_utf8(key).subrange(
                vstd::utf8::encode_utf8(key).len() - 4,
                vstd::utf8::encode_utf8(key).len() as int,
            ),
{
    let bytes = vstd::utf8::encode_utf8(key);
    if bytes.len() > 12 {
        vstd::utf8::encode_utf8_valid_utf8(key);
        let first = bytes.subrange(0, 8);
        let last = bytes.subrange(bytes.len() - 4, bytes.len() as int);
        vstd::utf8::valid_utf8_split(bytes, 8);
        vstd::utf8::valid_utf8_split(bytes, bytes.len() - 4);
        let head = vstd::utf8::decode_utf8(first);
        let tail = vstd::utf8::decode_utf8(last);
        vstd::utf8::decode_utf8_encode_utf8(first);
        vstd::utf8::decode_utf8_encode_utf8(last);
        assert(vstd::utf8::encode_utf8(head) == first && vstd::utf8::encode_utf8(tail) == last);
    }
}

/// What a refresh says of an account: its id, its site's name and type, whether it has a key, and
/// the key as it is displayed, or nothing in its place.
pub proof fn law_account_report(a: AccountView)
    ensures
        account_report(a).get("id"@) == Some(JsonView::Str(a.id)),
        account_report(a).get("site_name"@) == Some(JsonView::Str(a.site_name)),
        account_report(a).get("site_type"@) == Some(JsonView::Str(a.site_type)),
        account_report(a).get("has_api_key"@) == Some(JsonView::Bool(a.api_key is Some)),
        a.api_key is None ==> account_report(a).get("api_key_preview"@) == Some(JsonView::Null),
        a.api_key matches Some(key) ==> account_report(a).get("api_key_preview"@) == Some(
            JsonView::Str(preview(key)),
        ),
        forall|key: Seq<char>|
            key != "id"@ && key != "site_name"@ && key != "site_type"@ && key != "has_api_key"@
                && key != "api_key_preview"@ ==> #[trigger] account_report(a).get(key) is None,
{
    let fields = seq![
        crate::json::field("id"@, JsonView::Str(a.id)),
        crate::json::field("site_name"@, JsonView::Str(a.site_name)),
        crate::json::field("site_type"@, JsonView::Str(a.site_type)),
        crate::json::field("has_api_key"@, JsonView::Bool(a.api_key is Some)),
        crate::json::field("api_key_preview"@, shown_key(a)),
    ];
    assert(account_report(a) == crate::json::object_of(fields));
    reveal_strlit("id");
    reveal_strlit("site_name");
    reveal_strlit("site_type");
    reveal_strlit("has_api_key");
    reveal_strlit("api_key_preview");
    assert("id"@.len() == 2 && "has_api_key"@.len() == 11 && "api_key_preview"@.len() == 15);
    assert("site_name"@.len() == 9 && "site_type"@.len() == 9);
    assert("site_name"@[5] != "site_type"@[5]);
    crate::json::lemma_record_find(fields, 0);
    crate::json::lemma_record_find(fields, 1);
    crate::json::lemma_record_find(fields, 2);
    crate::json::lemma_record_find(fields, 3);
    crate::json::lemma_record_find(fields, 4);
    crate::json::lemma_record_missing(fields);
}

/// What a refresh says as a whole: the three counts, the number of accounts, and one entry for each
/// account, in their order.
pub proof fn law_refresh_report(accounts: Seq<AccountView>)
    requires
        accounts.len() <= u64::MAX,
    ensures
        refresh_report(accounts).get("success"@) == Some(
            JsonView::Number(crate::codec::number_of(tally(accounts, Fate::Succeeded) as u64)),
        ),
        refresh_report(accounts).get("failed"@) == Some(
            JsonView::Number(crate::codec::number_of(tally(accounts, Fate::Failed) as u64)),
        ),
        refresh_report(accounts).get("skipped"@) == Some(
            JsonView::Number(crate::codec::number_of(tally(accounts, Fate::Skipped) as u64)),
        ),
        refresh_report(accounts).get("total"@) == Some(
            JsonView::Number(crate::codec::number_of(accounts.len() as u64)),
        ),
        refresh_report(accounts).get("accounts"@) matches Some(JsonView::Array(lines))
            && lines.len() == accounts.len() && forall|i: int|
            0 <= i < lines.len() ==> #[trigger] lines[i] == account_report(accounts[i]),
        forall|key: Seq<char>|
            key != "success"@ && key != "failed"@ && key != "skipped"@ && key != "total"@ && key
                != "accounts"@ ==> #[trigger] refresh_report(accounts).get(key) is None,
{
    let lines = Seq::new(accounts.len(), |i: int| account_report(accounts[i]));
    let fields = seq![
        crate::json::field("success"@, count(tally(accounts, Fate::Succeeded))),
        crate::json::field("failed"@, count(tally(accounts, Fate::Failed))),
        crate::json::field("skipped"@, count(tally(accounts, Fate::Skipped))),
        crate::json::field("total"@, count(accounts.len())),
        crate::json::field("accounts"@, JsonView::Array(lines)),
    ];
    assert(refresh_report(accounts) == crate::json::object_of(fields));
    reveal_strlit("success");
    reveal_strlit("failed");
    reveal_strlit("skipped");
    reveal_strlit("total");
    reveal_strlit("accounts");
    assert("success"@.len() == 7 && "skipped"@.len() == 7 && "success"@[1] != "skipped"@[1]);
    assert("failed"@.len() == 6 && "total"@.len() == 5 && "accounts"@.len() == 8);
    crate::json::lemma_record_find(fields, 0);
    crate::json::lemma_record_find(fields, 1);
    crate::json::lemma_record_find(fields, 2);
    crate::json::lemma_record_find(fields, 3);
    crate::json::lemma_record_find(fields, 4);
    crate::json::lemma_record_missing(fields);
}

/// A key can be displayed exactly where it is not cut, or both cuts are between characters.
pub proof fn law_what_can_be_displayed(key: Seq<char>)
    ensures
        vstd::utf8::encode_utf8(key).len() <= 12 ==> previewable(key),
        vstd::utf8::encode_utf8(key).len() > 12 ==> (previewable(key)
            <==> vstd::utf8::is_char_boundary(vstd::utf8::encode_utf8(key), 8)
            && vstd::utf8::is_char_boundary(
            vstd::utf8::encode_utf8(key),
            vstd::utf8::encode_utf8(key).len() - 4,
        )),
{
}

} // verus!
