//! Forwarding a request, with retries on other accounts.
//!
//! A run of attempts is a state machine. [`Selection`] waits for an account, [`Attempt`] for
//! the outcome of a request that was sent with it, and [`Backoff`] for leave to go on after a
//! failure. Each step says what is to be recorded of the account, and what comes next.

use vstd::prelude::*;

use crate::openai::{no_accounts, upstream_failed, Refusal};

verus! {

/// The state of a run of attempts.
pub struct RunView {
    /// Whether the client asked for a streamed answer.
    pub is_stream: bool,
    /// The model that the request names.
    pub model: Option<Seq<char>>,
    /// How many retries may follow the first attempt.
    pub max_retries: nat,
    /// How many attempts were made before.
    pub attempt: nat,
    /// The accounts that failed, in the order in which they were tried.
    pub failed: Seq<Seq<char>>,
    /// The site to which the last request was sent.
    pub site: Option<Seq<char>>,
}

/// Whether a run is ready for an account: each attempt so far has failed on one account.
pub open spec fn selecting(v: RunView) -> bool {
    &&& v.attempt <= v.max_retries
    &&& v.failed.len() == v.attempt
    &&& v.site is Some <==> v.attempt > 0
}

/// Whether a run has a request under way.
pub open spec fn sending(v: RunView) -> bool {
    &&& v.attempt <= v.max_retries
    &&& v.failed.len() == v.attempt
    &&& v.site is Some
}

/// Whether a run waits for leave to go on after a failure.
pub open spec fn waiting(v: RunView) -> bool {
    &&& v.attempt < v.max_retries
    &&& v.failed.len() == v.attempt + 1
    &&& v.site is Some
}

/// The beginning of a run.
pub open spec fn first_attempt(
    is_stream: bool,
    model: Option<Seq<char>>,
    max_retries: nat,
) -> RunView {
    RunView { is_stream, model, max_retries, attempt: 0, failed: Seq::empty(), site: None }
}

/// A run with a request under way to a site.
pub open spec fn sent_to(v: RunView, site: Seq<char>) -> RunView {
    RunView { site: Some(site), ..v }
}

/// A run after an account failed.
pub open spec fn with_failed(v: RunView, account: Seq<char>) -> RunView {
    RunView { failed: v.failed.push(account), ..v }
}

/// A run at its next attempt.
pub open spec fn next_attempt(v: RunView) -> RunView {
    RunView { attempt: v.attempt + 1, ..v }
}

/// What an upstream answered, and how its status is classed.
#[derive(Clone, Copy, Debug, PartialEq)]
pub struct Answer {
    pub status: u16,
    /// Whether the status calls for another account.
    pub rotate: bool,
    /// Whether the status says that the credential was refused.
    pub auth_error: bool,
    /// The seconds after which the upstream asks to be called again.
    pub retry_after: Option<u64>,
}

/// Something to record of an account.
#[derive(Debug, PartialEq)]
pub enum Effect {
    Success { account: String },
    /// The list of the account's models is out of date.
    StaleModels { account: String },
    /// The account does not have a model.
    ForgetModel { account: String, model: String },
    AuthFailed { account: String, status: u16 },
    RateLimited { account: String, status: u16, retry_after: Option<u64> },
    ServerFailed { account: String },
    ConnectionFailed { account: String },
}

/// What an [`Effect`] stands for.
pub enum EffectView {
    Success { account: Seq<char> },
    StaleModels { account: Seq<char> },
    ForgetModel { account: Seq<char>, model: Seq<char> },
    AuthFailed { account: Seq<char>, status: u16 },
    RateLimited { account: Seq<char>, status: u16, retry_after: Option<u64> },
    ServerFailed { account: Seq<char> },
    ConnectionFailed { account: Seq<char> },
}

impl View for Effect {
    type V = EffectView;

    open spec fn view(&self) -> EffectView {
        match self {
            Effect::Success { account } => EffectView::Success { account: account@ },
            Effect::StaleModels { account } => EffectView::StaleModels { account: account@ },
            Effect::ForgetModel { account, model } => EffectView::ForgetModel {
                account: account@,
                model: model@,
            },
            Effect::AuthFailed { account, status } => EffectView::AuthFailed {
                account: account@,
                status: *status,
            },
            Effect::RateLimited { account, status, retry_after } => EffectView::RateLimited {
                account: account@,
                status: *status,
                retry_after: *retry_after,
            },
            Effect::ServerFailed { account } => EffectView::ServerFailed { account: account@ },
            Effect::ConnectionFailed { account } => EffectView::ConnectionFailed {
                account: account@,
            },
        }
    }
}

/// What a list of effects stands for.
pub open spec fn effect_views(effects: Seq<Effect>) -> Seq<EffectView> {
    Seq::new(effects.len(), |i: int| effects[i]@)
}

/// What the client is answered.
#[derive(Debug, PartialEq)]
pub enum Reply {
    /// The answer of the upstream, as it comes in.
    Stream,
    /// The answer of the upstream, as a whole.
    Relay,
    /// An error of the proxy's own.
    Refuse(Refusal),
}

/// What a [`Reply`] stands for.
pub enum ReplyView {
    Stream,
    Relay,
    Refuse { status: u16, message: Seq<char> },
}

impl View for Reply {
    type V = ReplyView;

    open spec fn view(&self) -> ReplyView {
        match self {
            Reply::Stream => ReplyView::Stream,
            Reply::Relay => ReplyView::Relay,
            Reply::Refuse(r) => ReplyView::Refuse { status: r.status, message: r.message@ },
        }
    }
}

/// The end of a run: the reply, and the site to which the last request was sent.
#[derive(Debug, PartialEq)]
pub struct Ending {
    pub reply: Reply,
    pub upstream_url: Option<String>,
}

/// What an [`Ending`] stands for.
pub struct EndingView {
    pub reply: ReplyView,
    pub upstream_url: Option<Seq<char>>,
}

impl View for Ending {
    type V = EndingView;

    open spec fn view(&self) -> EndingView {
        EndingView {
            reply: self.reply@,
            upstream_url: crate::text::opt_text(self.upstream_url),
        }
    }
}

/// The end of a run in a state.
pub open spec fn ending(v: RunView, reply: ReplyView) -> EndingView {
    EndingView { reply, upstream_url: v.site }
}

/// What follows on an attempt.
pub enum NextView {
    /// The run is over.
    Ended(EndingView),
    /// Another account is to be tried at once.
    Again(RunView),
    /// Another account is to be tried if there is leave to go on.
    Wait(RunView),
}

/// Whether an answer sends the run to another account.
pub open spec fn rotates(v: RunView, a: Answer) -> bool {
    !crate::key_fetcher::is_success(a.status) && a.rotate && v.attempt < v.max_retries
}

/// What an answer with the status 404 says of an account: its models are out of date, and the
/// one that was asked for is not among them.
pub open spec fn missing_model_effects(v: RunView, account: Seq<char>) -> Seq<EffectView> {
    match v.model {
        Some(model) => seq![
            EffectView::StaleModels { account },
            EffectView::ForgetModel { account, model },
        ],
        None => seq![EffectView::StaleModels { account }],
    }
}

/// What an answer without success says of the health of an account.
pub open spec fn health_effects(v: RunView, account: Seq<char>, a: Answer) -> Seq<EffectView> {
    if a.auth_error {
        seq![EffectView::AuthFailed { account, status: a.status }]
    } else if rotates(v, a) {
        seq![
            EffectView::RateLimited { account, status: a.status, retry_after: a.retry_after },
        ]
    } else if a.status >= 500 {
        seq![EffectView::ServerFailed { account }]
    } else {
        Seq::empty()
    }
}

/// What is to be recorded of an account after an answer.
pub open spec fn answer_effects(v: RunView, account: Seq<char>, a: Answer) -> Seq<EffectView> {
    if crate::key_fetcher::is_success(a.status) {
        seq![EffectView::Success { account }]
    } else if a.status == 404 {
        missing_model_effects(v, account) + health_effects(v, account, a)
    } else {
        health_effects(v, account, a)
    }
}

/// What follows on an answer.
pub open spec fn answer_next(v: RunView, account: Seq<char>, a: Answer) -> NextView {
    if crate::key_fetcher::is_success(a.status) {
        NextView::Ended(
            ending(
                v,
                if v.is_stream {
                    ReplyView::Stream
                } else {
                    ReplyView::Relay
                },
            ),
        )
    } else if rotates(v, a) {
        NextView::Wait(with_failed(v, account))
    } else if a.auth_error {
        NextView::Ended(
            ending(
                v,
                ReplyView::Refuse {
                    status: 503,
                    message: "All upstream accounts failed authentication"@,
                },
            ),
        )
    } else {
        NextView::Ended(ending(v, ReplyView::Relay))
    }
}

/// What follows when a request could not be sent.
pub open spec fn failure_next(v: RunView, account: Seq<char>, error: Seq<char>) -> NextView {
    if v.attempt < v.max_retries {
        NextView::Again(next_attempt(with_failed(v, account)))
    } else {
        NextView::Ended(
            ending(v, ReplyView::Refuse { status: 502, message: "Upstream error: "@ + error }),
        )
    }
}

/// The fields of a run.
struct Run {
    is_stream: bool,
    model: Option<String>,
    max_retries: usize,
    attempt: usize,
    failed: Vec<String>,
    site: Option<String>,
}

impl Run {
    spec fn seen(self) -> RunView {
        RunView {
            is_stream: self.is_stream,
            model: crate::text::opt_text(self.model),
            max_retries: self.max_retries as nat,
            attempt: self.attempt as nat,
            failed: crate::text::texts(self.failed@),
            site: crate::text::opt_text(self.site),
        }
    }
}

/// A run that waits for an account.
pub struct Selection {
    run: Run,
}

/// A run with a request under way.
pub struct Attempt {
    run: Run,
    account: String,
}

/// A run that waits for leave to go on after a failure.
pub struct Backoff {
    run: Run,
}

impl View for Selection {
    type V = RunView;

    closed spec fn view(&self) -> RunView {
        self.run.seen()
    }
}

impl View for Attempt {
    type V = RunView;

    closed spec fn view(&self) -> RunView {
        self.run.seen()
    }
}

impl View for Backoff {
    type V = RunView;

    closed spec fn view(&self) -> RunView {
        self.run.seen()
    }
}

/// An account to send a request with.
#[derive(Debug, PartialEq)]
pub struct Account {
    pub account_id: String,
    pub site_url: String,
}

/// What follows on an attempt.
pub enum Next {
    /// The run is over.
    Ended(Ending),
    /// Another account is to be tried at once.
    Again(Selection),
    /// Another account is to be tried if there is leave to go on.
    Wait(Backoff),
}

impl View for Next {
    type V = NextView;

    open spec fn view(&self) -> NextView {
        match self {
            Next::Ended(e) => NextView::Ended(e@),
            Next::Again(s) => NextView::Again(s@),
            Next::Wait(b) => NextView::Wait(b@),
        }
    }
}

/// What an attempt came to: what is to be recorded, in this order, and what follows.
pub struct Outcome {
    pub effects: Vec<Effect>,
    pub next: Next,
}

impl Selection {
    #[verifier::type_invariant]
    spec fn inv(self) -> bool {
        selecting(self.run.seen())
    }

    /// Begins a run.
    pub fn new(is_stream: bool, model: Option<String>, max_retries: usize) -> (r: Selection)
        ensures
            r@ == first_attempt(is_stream, crate::text::opt_text(model), max_retries as nat),
            selecting(r@),
    {
        let run: Run = Run {
            is_stream,
            model,
            max_retries,
            attempt: 0,
            failed: Vec::new(),
            site: None,
        };
        assert(crate::text::texts(run.failed@) =~= Seq::empty());
        Selection { run }
    }

    /// The accounts that are not to be chosen again.
    pub fn failed_accounts(&self) -> (r: &Vec<String>)
        ensures
            crate::text::texts(r@) == self@.failed,
    {
        &self.run.failed
    }

    /// The model that the account is to have.
    pub fn model(&self) -> (r: Option<&str>)
        ensures
            r is Some <==> self@.model is Some,
            r matches Some(m) ==> self@.model == Some(m@),
    {
        match &self.run.model {
            Some(m) => Some(m.as_str()),
            None => None,
        }
    }

    /// Goes on with the account that was chosen. Where none is left, the run is over.
    pub fn proceed(self, account: Option<Account>) -> (r: Result<Attempt, Ending>)
        ensures
            account matches Some(a) ==> (r matches Ok(t) && t@ == sent_to(self@, a.site_url@)
                && t.account() == a.account_id@ && sending(t@)),
            account is None ==> (r matches Err(e) && e@ == ending(
                self@,
                ReplyView::Refuse { status: 503, message: "No available accounts"@ },
            )),
    {
        proof {
            use_type_invariant(&self);
        }
        let Selection { run } = self;
        match account {
            Some(a) => {
                let Account { account_id, site_url } = a;
                Ok(Attempt { run: Run { site: Some(site_url), ..run }, account: account_id })
            },
            None => Err(
                Ending { reply: Reply::Refuse(no_accounts()), upstream_url: run.site },
            ),
        }
    }
}

impl Attempt {
    #[verifier::type_invariant]
    spec fn inv(self) -> bool {
        sending(self.run.seen())
    }

    /// The account that the request is sent with.
    pub closed spec fn account(self) -> Seq<char> {
        self.account@
    }

    /// The account that the request is sent with.
    pub fn account_id(&self) -> (r: &str)
        ensures
            r@ == self.account(),
    {
        self.account.as_str()
    }

    /// How many attempts were made before.
    pub fn number(&self) -> (r: usize)
        ensures
            r == self@.attempt,
    {
        self.run.attempt
    }

    /// Goes on with what the upstream answered.
    pub fn on_answer(self, answer: Answer) -> (r: Outcome)
        ensures
            effect_views(r.effects@) == answer_effects(self@, self.account(), answer),
            r.next@ == answer_next(self@, self.account(), answer),
            r.next matches Next::Wait(b) ==> waiting(b@),
    {
        proof {
            use_type_invariant(&self);
        }
        let ghost v = self@;
        let ghost who = self.account();
        let Attempt { run, account } = self;
        let status: u16 = answer.status;
        let mut effects: Vec<Effect> = Vec::new();
        if 200 <= status && status < 300 {
            effects.push(Effect::Success { account });
            assert(effect_views(effects@) =~= answer_effects(v, who, answer));
            let reply: Reply = if run.is_stream {
                Reply::Stream
            } else {
                Reply::Relay
            };
            return Outcome {
                effects,
                next: Next::Ended(Ending { reply, upstream_url: run.site }),
            };
        }
        if status == 404 {
            effects.push(Effect::StaleModels { account: account.clone() });
            if let Some(model) = &run.model {
                effects.push(
                    Effect::ForgetModel { account: account.clone(), model: model.clone() },
                );
            }
            assert(effect_views(effects@) =~= missing_model_effects(v, who));
        } else {
            assert(effect_views(effects@) =~= Seq::empty());
        }
        let ghost before = effect_views(effects@);
        if answer.rotate && run.attempt < run.max_retries {
            if answer.auth_error {
                effects.push(Effect::AuthFailed { account: account.clone(), status });
            } else {
                effects.push(
                    Effect::RateLimited {
                        account: account.clone(),
                        status,
                        retry_after: answer.retry_after,
                    },
                );
            }
            assert(effect_views(effects@) =~= before + health_effects(v, who, answer));
            assert(effect_views(effects@) =~= answer_effects(v, who, answer));
            return Outcome { effects, next: Next::Wait(Backoff { run: add_failed(run, account) }) };
        }
        if answer.auth_error {
            effects.push(Effect::AuthFailed { account, status });
            assert(effect_views(effects@) =~= before + health_effects(v, who, answer));
            assert(effect_views(effects@) =~= answer_effects(v, who, answer));
            let message: String = "All upstream accounts failed authentication".to_owned();
            return Outcome {
                effects,
                next: Next::Ended(
                    Ending {
                        reply: Reply::Refuse(Refusal { status: 503, message }),
                        upstream_url: run.site,
                    },
                ),
            };
        }
        if status >= 500 {
            effects.push(Effect::ServerFailed { account });
        }
        assert(effect_views(effects@) =~= before + health_effects(v, who, answer));
        assert(effect_views(effects@) =~= answer_effects(v, who, answer));
        Outcome {
            effects,
            next: Next::Ended(Ending { reply: Reply::Relay, upstream_url: run.site }),
        }
    }

    /// Goes on when the request could not be sent.
    pub fn on_failure(self, error: &str) -> (r: Outcome)
        ensures
            effect_views(r.effects@) == seq![
                EffectView::ConnectionFailed { account: self.account() },
            ],
            r.next@ == failure_next(self@, self.account(), error@),
            r.next matches Next::Again(s) ==> selecting(s@),
    {
        proof {
            use_type_invariant(&self);
        }
        let ghost who = self.account();
        let Attempt { run, account } = self;
        let effects: Vec<Effect> = vec![Effect::ConnectionFailed { account: account.clone() }];
        assert(effect_views(effects@) =~= seq![EffectView::ConnectionFailed { account: who }]);
        if run.attempt < run.max_retries {
            let run: Run = add_failed(run, account);
            let run: Run = Run { attempt: run.attempt + 1, ..run };
            return Outcome { effects, next: Next::Again(Selection { run }) };
        }
        let reply: Reply = Reply::Refuse(upstream_failed(error));
        Outcome { effects, next: Next::Ended(Ending { reply, upstream_url: run.site }) }
    }
}

fn add_failed(run: Run, account: String) -> (r: Run)
    ensures
        r.seen() == with_failed(run.seen(), account@),
        r.attempt == run.attempt,
        r.max_retries == run.max_retries,
{
    let ghost before = run;
    let mut failed: Vec<String> = run.failed;
    failed.push(account);
    assert(crate::text::texts(failed@) =~= before.seen().failed.push(account@));
    Run { failed, ..run }
}

impl Backoff {
    #[verifier::type_invariant]
    spec fn inv(self) -> bool {
        waiting(self.run.seen())
    }

    /// How many attempts were made before the one that failed.
    pub fn number(&self) -> (r: usize)
        ensures
            r == self@.attempt,
    {
        self.run.attempt
    }

    /// Tries another account where there is leave to go on; else the answer that the upstream
    /// gave last is relayed.
    pub fn resume(self, go_on: bool) -> (r: Result<Selection, Ending>)
        ensures
            go_on ==> (r matches Ok(s) && s@ == next_attempt(self@) && selecting(s@)),
            !go_on ==> (r matches Err(e) && e@ == ending(self@, ReplyView::Relay)),
    {
        proof {
            use_type_invariant(&self);
        }
        let Backoff { run } = self;
        if go_on {
            Ok(Selection { run: Run { attempt: run.attempt + 1, ..run } })
        } else {
            Err(Ending { reply: Reply::Relay, upstream_url: run.site })
        }
    }
}

/// What came of a request.
pub enum ExchangeView {
    /// The upstream answered; `go_on` says whether there was leave to go on afterwards.
    Answered { answer: Answer, go_on: bool },
    /// The request could not be sent.
    Failed { error: Seq<char> },
}

/// One turn of a run: an account, and what came of the request that was sent with it.
pub struct TurnView {
    pub account: Seq<char>,
    pub site: Seq<char>,
    pub exchange: ExchangeView,
}

/// The state after one turn, in which no account may have been left. It is the end of the run
/// or a state that is ready for an account.
pub open spec fn turn(v: RunView, t: Option<TurnView>) -> NextView {
    match t {
        None => NextView::Ended(
            ending(v, ReplyView::Refuse { status: 503, message: "No available accounts"@ }),
        ),
        Some(t) => match t.exchange {
            ExchangeView::Failed { error } => failure_next(sent_to(v, t.site), t.account, error),
            ExchangeView::Answered { answer, go_on } => match answer_next(
                sent_to(v, t.site),
                t.account,
                answer,
            ) {
                NextView::Wait(w) => if go_on {
                    NextView::Again(next_attempt(w))
                } else {
                    NextView::Ended(ending(w, ReplyView::Relay))
                },
                next => next,
            },
        },
    }
}

/// The end of a run, if it is over after some turns.
pub open spec fn run_end(v: RunView, turns: Seq<Option<TurnView>>) -> Option<EndingView>
    decreases turns.len(),
{
    if turns.len() == 0 {
        None
    } else {
        match turn(v, turns[0]) {
            NextView::Ended(e) => Some(e),
            NextView::Again(w) => run_end(w, turns.drop_first()),
            NextView::Wait(_) => None,
        }
    }
}

/// The requests that a run sends in some turns.
pub open spec fn requests(v: RunView, turns: Seq<Option<TurnView>>) -> Seq<TurnView>
    decreases turns.len(),
{
    if turns.len() == 0 {
        Seq::empty()
    } else {
        match turns[0] {
            None => Seq::empty(),
            Some(t) => seq![t] + match turn(v, turns[0]) {
                NextView::Again(w) => requests(w, turns.drop_first()),
                _ => Seq::empty(),
            },
        }
    }
}

/// Whether no account is chosen that failed before in the run.
pub open spec fn respects_failures(v: RunView, turns: Seq<Option<TurnView>>) -> bool
    decreases turns.len(),
{
    turns.len() > 0 ==> {
        &&& turns[0] matches Some(t) ==> !v.failed.contains(t.account)
        &&& turn(v, turns[0]) matches NextView::Again(w) ==> respects_failures(
            w,
            turns.drop_first(),
        )
    }
}

/// A turn ends the run or makes it ready for another account. In the second case the account
/// of this turn is added to those that failed, the ones from before stay, and one more attempt
/// is counted.
pub proof fn law_turn_counts_and_excludes(v: RunView, t: Option<TurnView>)
    requires
        selecting(v),
    ensures
        !(turn(v, t) is Wait),
        turn(v, t) matches NextView::Again(w) ==> {
            &&& selecting(w)
            &&& t matches Some(t) && w == (RunView {
                attempt: v.attempt + 1,
                failed: v.failed.push(t.account),
                site: Some(t.site),
                ..v
            })
        },
{
}

/// A run is over after at most one turn more than there are retries: it sends no more requests
/// than that, and then the client is answered.
pub proof fn law_run_is_bounded(v: RunView, turns: Seq<Option<TurnView>>)
    requires
        selecting(v),
    ensures
        requests(v, turns).len() <= v.max_retries - v.attempt + 1,
        turns.len() > v.max_retries - v.attempt ==> run_end(v, turns) is Some,
    decreases turns.len(),
{
    if turns.len() > 0 {
        law_turn_counts_and_excludes(v, turns[0]);
        if let NextView::Again(w) = turn(v, turns[0]) {
            law_run_is_bounded(w, turns.drop_first());
        }
    }
}

/// Where no account is chosen that failed before, no account is tried twice.
pub proof fn law_no_account_twice(v: RunView, turns: Seq<Option<TurnView>>)
    requires
        selecting(v),
        respects_failures(v, turns),
    ensures
        forall|i: int, j: int|
            0 <= i < j < requests(v, turns).len() ==> (#[trigger] requests(v, turns)[i]).account
                != (#[trigger] requests(v, turns)[j]).account,
        forall|i: int|
            0 <= i < requests(v, turns).len() ==> !v.failed.contains(
                (#[trigger] requests(v, turns)[i]).account,
            ),
    decreases turns.len(),
{
    if turns.len() > 0 {
        if let Some(t) = turns[0] {
            law_turn_counts_and_excludes(v, turns[0]);
            let all = requests(v, turns);
            if let NextView::Again(w) = turn(v, turns[0]) {
                let rest = requests(w, turns.drop_first());
                law_no_account_twice(w, turns.drop_first());
                assert forall|i: int| 0 <= i < rest.len() implies (#[trigger] rest[i]).account
                    != t.account && !v.failed.contains(rest[i].account) by {
                    assert(w.failed[v.failed.len() as int] == t.account);
                    if v.failed.contains(rest[i].account) {
                        let k = choose|k: int|
                            0 <= k < v.failed.len() && v.failed[k] == rest[i].account;
                        assert(w.failed[k] == rest[i].account);
                    }
                }
                assert forall|i: int, j: int| 0 <= i < j < all.len() implies (
                #[trigger] all[i]).account != (#[trigger] all[j]).account by {
                    assert(all[j] == rest[j - 1]);
                    if i > 0 {
                        assert(all[i] == rest[i - 1]);
                    }
                }
                assert forall|i: int| 0 <= i < all.len() implies !v.failed.contains(
                    (#[trigger] all[i]).account,
                ) by {
                    if i > 0 {
                        assert(all[i] == rest[i - 1]);
                    }
                }
            }
        }
    }
}

/// The end of a run names the site to which the last request was sent, and none where none was
/// sent.
pub proof fn law_end_names_last_site(v: RunView, turns: Seq<Option<TurnView>>)
    requires
        selecting(v),
    ensures
        run_end(v, turns) matches Some(e) ==> e.upstream_url == (if requests(v, turns).len() > 0 {
            Some(requests(v, turns).last().site)
        } else {
            v.site
        }),
    decreases turns.len(),
{
    if turns.len() > 0 {
        law_turn_counts_and_excludes(v, turns[0]);
        if let NextView::Again(w) = turn(v, turns[0]) {
            law_end_names_last_site(w, turns.drop_first());
        }
    }
}

/// Whether what came of a request lets the run go on, as long as there are retries left: it
/// could not be sent, or the answer calls for another account and there was leave to go on.
pub open spec fn lets_go_on(x: ExchangeView) -> bool {
    match x {
        ExchangeView::Failed { .. } => true,
        ExchangeView::Answered { answer, go_on } => !crate::key_fetcher::is_success(answer.status)
            && answer.rotate && go_on,
    }
}

/// Whether an account was chosen in a turn and what came of the request lets the run go on.
pub open spec fn failed_turn(t: Option<TurnView>) -> bool {
    t matches Some(t) && lets_go_on(t.exchange)
}

/// Failures are made up for: where one of the accounts that may be tried answers with success,
/// that answer is what the client gets, whatever the accounts before it failed with.
pub proof fn law_first_success_is_relayed(
    v: RunView,
    turns: Seq<Option<TurnView>>,
    k: int,
    t: TurnView,
    answer: Answer,
    go_on: bool,
)
    requires
        selecting(v),
        0 <= k < turns.len(),
        k <= v.max_retries - v.attempt,
        forall|i: int| 0 <= i < k ==> failed_turn(#[trigger] turns[i]),
        turns[k] == Some(t),
        t.exchange == (ExchangeView::Answered { answer, go_on }),
        crate::key_fetcher::is_success(answer.status),
    ensures
        run_end(v, turns) == Some(
            EndingView {
                reply: if v.is_stream {
                    ReplyView::Stream
                } else {
                    ReplyView::Relay
                },
                upstream_url: Some(t.site),
            },
        ),
    decreases k,
{
    law_turn_counts_and_excludes(v, turns[0]);
    if k > 0 {
        let rest = turns.drop_first();
        assert(failed_turn(turns[0]));
        let w = turn(v, turns[0])->Again_0;
        assert(turn(v, turns[0]) is Again);
        assert forall|i: int| 0 <= i < k - 1 implies failed_turn(#[trigger] rest[i]) by {
            assert(rest[i] == turns[i + 1]);
        }
        assert(rest[k - 1] == turns[k]);
        law_first_success_is_relayed(w, rest, k - 1, t, answer, go_on);
    }
}

/// Where every account that may be tried is refused its credential, the client is told so.
pub proof fn law_all_refused_is_answered(v: RunView, turns: Seq<Option<TurnView>>)
    requires
        selecting(v),
        turns.len() == v.max_retries - v.attempt + 1,
        forall|i: int|
            0 <= i < turns.len() ==> failed_turn(#[trigger] turns[i]) && (
            turns[i]->Some_0.exchange matches ExchangeView::Answered { answer, .. }
                && answer.auth_error),
    ensures
        run_end(v, turns) matches Some(e) && e.reply == (ReplyView::Refuse {
            status: 503,
            message: "All upstream accounts failed authentication"@,
        }),
    decreases turns.len(),
{
    law_turn_counts_and_excludes(v, turns[0]);
    assert(failed_turn(turns[0]));
    if v.attempt < v.max_retries {
        let rest = turns.drop_first();
        assert(turn(v, turns[0]) is Again);
        let w = turn(v, turns[0])->Again_0;
        assert forall|i: int| 0 <= i < rest.len() implies failed_turn(#[trigger] rest[i]) && (
        rest[i]->Some_0.exchange matches ExchangeView::Answered { answer, .. }
            && answer.auth_error) by {
            assert(rest[i] == turns[i + 1]);
        }
        law_all_refused_is_answered(w, rest);
    }
}

/// Where no account that may be tried can be reached, the client is told of the last failure.
pub proof fn law_all_unreachable_is_answered(v: RunView, turns: Seq<Option<TurnView>>)
    requires
        selecting(v),
        turns.len() == v.max_retries - v.attempt + 1,
        forall|i: int|
            0 <= i < turns.len() ==> (#[trigger] turns[i]) is Some
                && turns[i]->Some_0.exchange is Failed,
    ensures
        run_end(v, turns) matches Some(e) && e.reply == (ReplyView::Refuse {
            status: 502,
            message: "Upstream error: "@ + turns.last()->Some_0.exchange->error,
        }),
    decreases turns.len(),
{
    law_turn_counts_and_excludes(v, turns[0]);
    assert(turns[0] is Some);
    if v.attempt < v.max_retries {
        let rest = turns.drop_first();
        assert(turn(v, turns[0]) is Again);
        let w = turn(v, turns[0])->Again_0;
        assert forall|i: int| 0 <= i < rest.len() implies (#[trigger] rest[i]) is Some
            && rest[i]->Some_0.exchange is Failed by {
            assert(rest[i] == turns[i + 1]);
        }
        law_all_unreachable_is_answered(w, rest);
        assert(rest.last() == turns.last());
    }
}

/// An answer of success ends the run at once: it is what the client gets, as a stream where the
/// client asked for one, and the success is all that is recorded of the account.
pub proof fn law_success_is_relayed(v: RunView, t: TurnView, answer: Answer, go_on: bool)
    requires
        t.exchange == (ExchangeView::Answered { answer, go_on }),
        crate::key_fetcher::is_success(answer.status),
    ensures
        turn(v, Some(t)) == NextView::Ended(
            EndingView {
                reply: if v.is_stream {
                    ReplyView::Stream
                } else {
                    ReplyView::Relay
                },
                upstream_url: Some(t.site),
            },
        ),
        answer_effects(v, t.account, answer) == seq![EffectView::Success { account: t.account }],
{
}

/// A success is recorded of an account, and a stream is passed on, only after an answer of
/// success.
pub proof fn law_no_success_without_answer(v: RunView, account: Seq<char>, answer: Answer)
    requires
        !crate::key_fetcher::is_success(answer.status),
    ensures
        !answer_effects(v, account, answer).contains(EffectView::Success { account }),
        answer_next(v, account, answer) matches NextView::Ended(e) ==> !(e.reply is Stream),
{
}

/// A refused credential is always recorded of the account, and the refusal is not what the
/// client gets, unless a retry was not given leave.
pub proof fn law_refused_credential_is_recorded(v: RunView, account: Seq<char>, answer: Answer)
    requires
        answer.auth_error,
        !crate::key_fetcher::is_success(answer.status),
    ensures
        answer_effects(v, account, answer).contains(
            EffectView::AuthFailed { account, status: answer.status },
        ),
        answer_next(v, account, answer) matches NextView::Ended(e) ==> e.reply == (
        ReplyView::Refuse {
            status: 503,
            message: "All upstream accounts failed authentication"@,
        }),
{
    let all = answer_effects(v, account, answer);
    assert(all.last() == (EffectView::AuthFailed { account, status: answer.status }));
}

/// After an answer with the status 404 the models of the account are out of date, and the model
/// that was asked for is forgotten, whatever else follows.
pub proof fn law_missing_model_is_forgotten(v: RunView, account: Seq<char>, answer: Answer)
    requires
        answer.status == 404,
    ensures
        answer_effects(v, account, answer).contains(EffectView::StaleModels { account }),
        v.model matches Some(model) ==> answer_effects(v, account, answer).contains(
            EffectView::ForgetModel { account, model },
        ),
{
    let all = answer_effects(v, account, answer);
    assert(all[0] == (EffectView::StaleModels { account }));
    if let Some(model) = v.model {
        assert(all[1] == (EffectView::ForgetModel { account, model }));
    }
}

/// The account that an effect is recorded of.
pub open spec fn effect_account(e: EffectView) -> Seq<char> {
    match e {
        EffectView::Success { account } => account,
        EffectView::StaleModels { account } => account,
        EffectView::ForgetModel { account, .. } => account,
        EffectView::AuthFailed { account, .. } => account,
        EffectView::RateLimited { account, .. } => account,
        EffectView::ServerFailed { account } => account,
        EffectView::ConnectionFailed { account } => account,
    }
}

/// An answer is recorded only of the account that was tried.
pub proof fn law_effects_name_the_account(v: RunView, account: Seq<char>, answer: Answer, i: int)
    requires
        0 <= i < answer_effects(v, account, answer).len(),
    ensures
        effect_account(answer_effects(v, account, answer)[i]) == account,
{
}

/// A run begins with what the client asked for, with all its retries, and with no account tried.
pub proof fn law_run_begins_fresh(is_stream: bool, model: Option<Seq<char>>, max_retries: nat)
    ensures
        first_attempt(is_stream, model, max_retries).is_stream == is_stream,
        first_attempt(is_stream, model, max_retries).model == model,
        first_attempt(is_stream, model, max_retries).max_retries == max_retries,
        first_attempt(is_stream, model, max_retries).attempt == 0,
        first_attempt(is_stream, model, max_retries).failed.len() == 0,
        first_attempt(is_stream, model, max_retries).site is None,
        selecting(first_attempt(is_stream, model, max_retries)),
{
}

/// Sending a request changes nothing of a run but the site that is named at its end.
pub proof fn law_sending_only_sets_the_site(v: RunView, site: Seq<char>)
    ensures
        sent_to(v, site).site == Some(site),
        sent_to(v, site).is_stream == v.is_stream,
        sent_to(v, site).model == v.model,
        sent_to(v, site).max_retries == v.max_retries,
        sent_to(v, site).attempt == v.attempt,
        sent_to(v, site).failed == v.failed,
{
}

/// What an answer leads to, for every answer. One with a status from 200 to 299 ends the run and
/// is passed on. Any other one that calls for another account has the run wait, with this account
/// among those that failed, as long as a retry is left. Of the rest, a refused credential is
/// answered with 503, and every other answer is passed on to the client as it is, whatever its
/// status.
pub proof fn law_every_answer_has_its_end(v: RunView, account: Seq<char>, a: Answer)
    ensures
        200 <= a.status <= 299 && v.is_stream ==> answer_next(v, account, a) == NextView::Ended(
            EndingView { reply: ReplyView::Stream, upstream_url: v.site },
        ),
        200 <= a.status <= 299 && !v.is_stream ==> answer_next(v, account, a) == NextView::Ended(
            EndingView { reply: ReplyView::Relay, upstream_url: v.site },
        ),
        (a.status < 200 || a.status > 299) && a.rotate && v.attempt < v.max_retries ==> answer_next(
            v,
            account,
            a,
        ) == NextView::Wait(
            RunView {
                is_stream: v.is_stream,
                model: v.model,
                max_retries: v.max_retries,
                attempt: v.attempt,
                failed: v.failed.push(account),
                site: v.site,
            },
        ),
        (a.status < 200 || a.status > 299) && !(a.rotate && v.attempt < v.max_retries)
            && a.auth_error ==> answer_next(v, account, a) == NextView::Ended(
            EndingView {
                reply: ReplyView::Refuse {
                    status: 503,
                    message: "All upstream accounts failed authentication"@,
                },
                upstream_url: v.site,
            },
        ),
        (a.status < 200 || a.status > 299) && !(a.rotate && v.attempt < v.max_retries)
            && !a.auth_error ==> answer_next(v, account, a) == NextView::Ended(
            EndingView { reply: ReplyView::Relay, upstream_url: v.site },
        ),
{
}

/// What a request that could not be sent leads to: another account at once while a retry is
/// left, and then the error of this last request.
pub proof fn law_every_failure_has_its_end(v: RunView, account: Seq<char>, error: Seq<char>)
    ensures
        v.attempt < v.max_retries ==> failure_next(v, account, error) == NextView::Again(
            RunView {
                is_stream: v.is_stream,
                model: v.model,
                max_retries: v.max_retries,
                attempt: v.attempt + 1,
                failed: v.failed.push(account),
                site: v.site,
            },
        ),
        v.attempt >= v.max_retries ==> failure_next(v, account, error) == NextView::Ended(
            EndingView {
                reply: ReplyView::Refuse { status: 502, message: "Upstream error: "@ + error },
                upstream_url: v.site,
            },
        ),
{
}

/// What is recorded after an answer, for every answer: each record is made exactly where the
/// answer calls for it, once, and of no other account.
pub proof fn law_every_answer_is_recorded(v: RunView, account: Seq<char>, a: Answer)
    ensures
        forall|who: Seq<char>| #[trigger]
            answer_effects(v, account, a).contains(EffectView::Success { account: who }) <==> who
                == account && 200 <= a.status <= 299,
        forall|who: Seq<char>| #[trigger]
            answer_effects(v, account, a).contains(EffectView::StaleModels { account: who })
                <==> who == account && a.status == 404,
        forall|who: Seq<char>, m: Seq<char>| #[trigger]
            answer_effects(v, account, a).contains(
                EffectView::ForgetModel { account: who, model: m },
            ) <==> who == account && a.status == 404 && v.model == Some(m),
        forall|who: Seq<char>, s: u16| #[trigger]
            answer_effects(v, account, a).contains(
                EffectView::AuthFailed { account: who, status: s },
            ) <==> who == account && s == a.status && a.auth_error && (s < 200 || s > 299),
        forall|who: Seq<char>, s: u16, wait: Option<u64>| #[trigger]
            answer_effects(v, account, a).contains(
                EffectView::RateLimited { account: who, status: s, retry_after: wait },
            ) <==> who == account && s == a.status && wait == a.retry_after && a.rotate
                && !a.auth_error && v.attempt < v.max_retries && (s < 200 || s > 299),
        forall|who: Seq<char>| #[trigger]
            answer_effects(v, account, a).contains(EffectView::ServerFailed { account: who })
                <==> who == account && a.status >= 500 && !a.auth_error && !(a.rotate && v.attempt
                < v.max_retries),
        forall|who: Seq<char>| !#[trigger]
            answer_effects(v, account, a).contains(EffectView::ConnectionFailed { account: who }),
        answer_effects(v, account, a).no_duplicates(),
        a.status == 404 ==> answer_effects(v, account, a)[0] == (EffectView::StaleModels {
            account,
        }),
        a.status == 404 ==> (v.model matches Some(model) ==> answer_effects(v, account, a)[1] == (
        EffectView::ForgetModel { account, model })),
{
    let all = answer_effects(v, account, a);
    let stale = EffectView::StaleModels { account };
    if 200 <= a.status <= 299 {
        assert(all[0] == (EffectView::Success { account }));
    } else {
        if a.status == 404 {
            assert(all[0] == stale);
            if let Some(model) = v.model {
                assert(all[1] == (EffectView::ForgetModel { account, model }));
            }
        }
        if a.auth_error {
            assert(all.last() == (EffectView::AuthFailed { account, status: a.status }));
        } else if a.rotate && v.attempt < v.max_retries {
            assert(all.last() == (EffectView::RateLimited {
                account,
                status: a.status,
                retry_after: a.retry_after,
            }));
        } else if a.status >= 500 {
            assert(all.last() == (EffectView::ServerFailed { account }));
        }
    }
}

/// An answer of the last account that may be tried is what the client gets, whatever its status,
/// unless the credential was refused: an upstream's own error is never thrown away.
pub proof fn law_last_answer_is_relayed(
    v: RunView,
    turns: Seq<Option<TurnView>>,
    t: TurnView,
    answer: Answer,
    go_on: bool,
)
    requires
        selecting(v),
        turns.len() == v.max_retries - v.attempt + 1,
        forall|i: int| 0 <= i < turns.len() - 1 ==> failed_turn(#[trigger] turns[i]),
        turns.last() == Some(t),
        t.exchange == (ExchangeView::Answered { answer, go_on }),
        answer.status < 200 || answer.status > 299,
        !answer.auth_error,
    ensures
        run_end(v, turns) == Some(
            EndingView { reply: ReplyView::Relay, upstream_url: Some(t.site) },
        ),
    decreases turns.len(),
{
    law_turn_counts_and_excludes(v, turns[0]);
    if v.attempt < v.max_retries {
        let rest = turns.drop_first();
        assert(failed_turn(turns[0]));
        assert(turn(v, turns[0]) is Again);
        let w = turn(v, turns[0])->Again_0;
        assert forall|i: int| 0 <= i < rest.len() - 1 implies failed_turn(#[trigger] rest[i]) by {
            assert(rest[i] == turns[i + 1]);
        }
        assert(rest.last() == turns.last());
        law_last_answer_is_relayed(w, rest, t, answer, go_on);
    }
}

/// An answer that calls for no other account is what the client gets, at whatever attempt it
/// comes and whatever its status, unless the credential was refused.
pub proof fn law_answer_without_rotation_is_relayed(
    v: RunView,
    t: TurnView,
    answer: Answer,
    go_on: bool,
)
    requires
        t.exchange == (ExchangeView::Answered { answer, go_on }),
        !answer.rotate,
        !answer.auth_error,
        answer.status < 200 || answer.status > 299,
    ensures
        turn(v, Some(t)) == NextView::Ended(
            EndingView { reply: ReplyView::Relay, upstream_url: Some(t.site) },
        ),
{
}

/// The proxy answers with an error of its own in three cases only: no account is left, the last
/// account that may be tried is refused its credential, or it cannot be reached. In every other
/// case the client gets an upstream's answer.
pub proof fn law_refusals_are_the_only_own_answers(v: RunView, t: Option<TurnView>)
    ensures
        turn(v, t) matches NextView::Ended(e) ==> (e.reply is Refuse <==> {
            ||| t is None
            ||| t matches Some(t) && t.exchange is Failed
            ||| t matches Some(t) && (t.exchange matches ExchangeView::Answered { answer, .. }
                && answer.auth_error && (answer.status < 200 || answer.status > 299) && !(
            answer.rotate && v.attempt < v.max_retries))
        }),
        turn(v, t) matches NextView::Ended(e) ==> (e.reply is Stream <==> v.is_stream && (
        t matches Some(t) && (t.exchange matches ExchangeView::Answered { answer, .. } && 200
            <= answer.status <= 299))),
        t is None ==> turn(v, t) == NextView::Ended(
            EndingView {
                reply: ReplyView::Refuse { status: 503, message: "No available accounts"@ },
                upstream_url: v.site,
            },
        ),
{
}

/// Effects and replies stand for what they hold.
pub proof fn law_effects_and_replies_show_what_they_hold(
    account: String,
    model: String,
    status: u16,
    retry_after: Option<u64>,
    message: String,
    reply: Reply,
    upstream_url: Option<String>,
)
    ensures
        (Effect::Success { account })@ == (EffectView::Success { account: account@ }),
        (Effect::StaleModels { account })@ == (EffectView::StaleModels { account: account@ }),
        (Effect::ForgetModel { account, model })@ == (EffectView::ForgetModel {
            account: account@,
            model: model@,
        }),
        (Effect::AuthFailed { account, status })@ == (EffectView::AuthFailed {
            account: account@,
            status,
        }),
        (Effect::RateLimited { account, status, retry_after })@ == (EffectView::RateLimited {
            account: account@,
            status,
            retry_after,
        }),
        (Effect::ServerFailed { account })@ == (EffectView::ServerFailed { account: account@ }),
        (Effect::ConnectionFailed { account })@ == (EffectView::ConnectionFailed {
            account: account@,
        }),
        Reply::Stream@ == ReplyView::Stream,
        Reply::Relay@ == ReplyView::Relay,
        Reply::Refuse(Refusal { status, message })@ == (ReplyView::Refuse {
            status,
            message: message@,
        }),
        (Ending { reply, upstream_url })@.reply == reply@,
        upstream_url matches Some(url) ==> (Ending { reply, upstream_url })@.upstream_url == Some(
            url@,
        ),
        upstream_url is None ==> (Ending { reply, upstream_url })@.upstream_url is None,
{
}

/// Where there is no leave to go on, the answer that called for another account is what the client
/// gets, and no other account is tried.
pub proof fn law_without_leave_the_answer_is_relayed(v: RunView, t: TurnView, answer: Answer)
    requires
        t.exchange == (ExchangeView::Answered { answer, go_on: false }),
        answer.status < 200 || answer.status > 299,
        answer.rotate,
        v.attempt < v.max_retries,
    ensures
        turn(v, Some(t)) == NextView::Ended(
            EndingView { reply: ReplyView::Relay, upstream_url: Some(t.site) },
        ),
{
}

/// The end of a run is the reply with the site to which the last request was sent, and the next
/// attempt differs from the one before in its number only.
pub proof fn law_ends_and_attempts(v: RunView, reply: ReplyView)
    ensures
        ending(v, reply).reply == reply,
        ending(v, reply).upstream_url == v.site,
        next_attempt(v).attempt == v.attempt + 1,
        next_attempt(v).is_stream == v.is_stream,
        next_attempt(v).model == v.model,
        next_attempt(v).max_retries == v.max_retries,
        next_attempt(v).failed == v.failed,
        next_attempt(v).site == v.site,
{
}

} // verus!
