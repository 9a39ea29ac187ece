//! The iterative resolution state machine.
//!
//! A [`Resolver`] walks the delegation chain for one name at a time. Each
//! call hands back an [`Action`]: either a query to send, or the outcome.
//! The caller sends the query and feeds the response (or the transport
//! failure) back. Nameserver names that come without glue are resolved on a
//! stack of nested resolutions whose height is bounded, and the total number
//! of queries of one resolution is bounded too, so that circular delegations
//! end in [`ResolveError::CycleDetected`].

use crate::message::{
    decide, decision_of, first_answer, first_glue, first_ns, Decision, DecisionView, DnsResponse,
    Ipv4Address,
};
use crate::name::{absolute_form, is_absolute, normalize_name};
use vstd::prelude::*;

verus! {

/// The nesting limit used by [`ResolverConfig::new`].
pub const DEFAULT_MAX_DEPTH: usize = 8;

/// The query budget used by [`ResolverConfig::new`].
pub const DEFAULT_MAX_QUERIES: u64 = 64;

/// Where a resolution starts and how far it may go.
#[derive(Clone, Copy, Debug, PartialEq, Eq, Structural)]
pub struct ResolverConfig {
    /// The root nameserver that every resolution, nested ones included, starts at.
    pub root: Ipv4Address,
    /// The largest number of resolutions that may be nested at once.
    pub max_depth: usize,
    /// The largest number of queries one resolution may issue in all.
    pub max_queries: u64,
}

impl ResolverConfig {
    /// The default configuration: a.root-servers.net (198.41.0.4) and the
    /// default limits.
    pub fn new() -> (r: ResolverConfig)
        ensures
            r.root == (Ipv4Address { a: 198, b: 41, c: 0, d: 4 }),
            r.max_depth == DEFAULT_MAX_DEPTH,
            r.max_queries == DEFAULT_MAX_QUERIES,
    {
        ResolverConfig {
            root: Ipv4Address::new(198, 41, 0, 4),
            max_depth: DEFAULT_MAX_DEPTH,
            max_queries: DEFAULT_MAX_QUERIES,
        }
    }
}

/// Why a resolution failed.
#[derive(Clone, Copy, Debug, PartialEq, Eq, Structural)]
pub enum ResolveError {
    /// The query could not be sent, or its response could not be read.
    Transport,
    /// A response held no answer, no glue and no referral.
    NoPath,
    /// The nesting limit or the query budget was reached.
    CycleDetected,
}

/// A query to send: the name, asked for its A record in class IN, and the
/// nameserver to ask. `depth` is the number of resolutions nested at the
/// time, 1 for the name the caller asked for.
#[derive(Clone, Debug, PartialEq, Eq)]
pub struct Query {
    pub name: String,
    pub server: Ipv4Address,
    pub depth: usize,
}

/// What the caller is to do next.
#[derive(Debug, PartialEq, Eq)]
pub enum Action {
    Send(Query),
    Done(Result<Ipv4Address, ResolveError>),
}

/// The mathematical form of an [`Action`].
pub enum ActionView {
    Send { name: Seq<char>, server: Ipv4Address, depth: nat },
    Done(Result<Ipv4Address, ResolveError>),
}

impl View for Action {
    type V = ActionView;

    open spec fn view(&self) -> ActionView {
        match self {
            Action::Send(q) => ActionView::Send { name: q.name@, server: q.server, depth: q.depth as nat },
            Action::Done(r) => ActionView::Done(*r),
        }
    }
}

/// One resolution in progress: the name looked up and the nameserver that
/// is asked next.
struct Frame {
    name: String,
    server: Ipv4Address,
}

/// The state of a resolver: its configuration, the stack of resolutions in
/// progress (the innermost last) and the number of queries issued so far.
pub struct Resolver {
    config: ResolverConfig,
    frames: Vec<Frame>,
    queries: u64,
}

/// The mathematical form of a [`Resolver`].
pub struct ResolverView {
    pub config: ResolverConfig,
    pub stack: Seq<(Seq<char>, Ipv4Address)>,
    pub queries: nat,
}

impl View for Resolver {
    type V = ResolverView;

    closed spec fn view(&self) -> ResolverView {
        ResolverView {
            config: self.config,
            stack: self.frames@.map_values(|f: Frame| (f.name@, f.server)),
            queries: self.queries as nat,
        }
    }
}

/// The limits hold: the stack is no higher than the nesting limit and the
/// queries issued are within the budget.
pub open spec fn wf_view(v: ResolverView) -> bool {
    &&& v.stack.len() <= v.config.max_depth
    &&& v.queries <= v.config.max_queries
}

/// The resolution has ended with `result`.
pub open spec fn finish(v: ResolverView, result: Result<Ipv4Address, ResolveError>) -> (
    ResolverView,
    ActionView,
) {
    (ResolverView { config: v.config, stack: Seq::empty(), queries: v.queries }, ActionView::Done(result))
}

/// Query the innermost resolution's nameserver, unless the budget is spent.
pub open spec fn send_next(
    config: ResolverConfig,
    stack: Seq<(Seq<char>, Ipv4Address)>,
    queries: nat,
) -> (ResolverView, ActionView) {
    if queries >= config.max_queries {
        finish(ResolverView { config, stack, queries }, Err(ResolveError::CycleDetected))
    } else {
        (
            ResolverView { config, stack, queries: queries + 1 },
            ActionView::Send { name: stack.last().0, server: stack.last().1, depth: stack.len() },
        )
    }
}

/// Begin a nested resolution of `name` at the root, unless the nesting
/// limit is reached.
pub open spec fn descend(
    config: ResolverConfig,
    stack: Seq<(Seq<char>, Ipv4Address)>,
    queries: nat,
    name: Seq<char>,
) -> (ResolverView, ActionView) {
    if stack.len() >= config.max_depth {
        finish(ResolverView { config, stack, queries }, Err(ResolveError::CycleDetected))
    } else {
        send_next(config, stack.push((absolute_form(name), config.root)), queries)
    }
}

/// The state and action that a new resolution of `name` starts with.
pub open spec fn start_view(config: ResolverConfig, name: Seq<char>) -> (ResolverView, ActionView) {
    descend(config, Seq::empty(), 0, name)
}

/// The state and action that follow from the response `resp` to the
/// innermost resolution's query.
pub open spec fn step_view(v: ResolverView, resp: DnsResponse) -> (ResolverView, ActionView) {
    let top = v.stack.last();
    let rest = v.stack.drop_last();
    match decision_of(resp, top.0) {
        DecisionView::Answer(ip) => if rest.len() == 0 {
            finish(v, Ok(ip))
        } else {
            send_next(v.config, rest.update(rest.len() - 1, (rest.last().0, ip)), v.queries)
        },
        DecisionView::Glue(ip) => send_next(v.config, rest.push((top.0, ip)), v.queries),
        DecisionView::Referral(n) => descend(v.config, v.stack, v.queries, n),
        DecisionView::NoPath => finish(v, Err(ResolveError::NoPath)),
    }
}

impl Resolver {
    /// The limits hold.
    pub open spec fn wf(&self) -> bool {
        wf_view(self@)
    }

    /// A resolver with no resolution in progress.
    pub fn new(config: ResolverConfig) -> (r: Resolver)
        ensures
            r@ == (ResolverView { config, stack: Seq::empty(), queries: 0 }),
            r.wf(),
    {
        let r = Resolver { config, frames: Vec::new(), queries: 0 };
        assert(r@.stack =~= Seq::empty());
        r
    }

    /// The configuration.
    pub fn config(&self) -> (r: ResolverConfig)
        ensures
            r == self@.config,
    {
        self.config
    }

    /// Whether a query is outstanding, so that a response is expected.
    pub fn is_waiting(&self) -> (r: bool)
        ensures
            r == (self@.stack.len() > 0),
    {
        self.frames.len() > 0
    }

    /// The number of queries the current (or last) resolution has issued.
    pub fn queries_issued(&self) -> (r: u64)
        ensures
            r == self@.queries,
    {
        self.queries
    }

    fn abandon(&mut self)
        ensures
            final(self)@ == (ResolverView { stack: Seq::empty(), ..old(self)@ }),
    {
        self.frames = Vec::new();
        assert(self@.stack =~= Seq::empty());
    }

    fn send_next(&mut self) -> (r: Action)
        requires
            old(self).frames@.len() > 0,
        ensures
            (final(self)@, r@) == send_next(old(self)@.config, old(self)@.stack, old(self)@.queries),
    {
        if self.queries >= self.config.max_queries {
            self.abandon();
            return Action::Done(Err(ResolveError::CycleDetected));
        }
        self.queries = self.queries + 1;
        let k = self.frames.len() - 1;
        let name = self.frames[k].name.clone();
        Action::Send(Query { name, server: self.frames[k].server, depth: self.frames.len() })
    }

    fn descend(&mut self, name: &str) -> (r: Action)
        ensures
            (final(self)@, r@) == descend(old(self)@.config, old(self)@.stack, old(self)@.queries, name@),
    {
        if self.frames.len() >= self.config.max_depth {
            self.abandon();
            return Action::Done(Err(ResolveError::CycleDetected));
        }
        let n = normalize_name(name);
        self.frames.push(Frame { name: n, server: self.config.root });
        assert(self@.stack =~= old(self)@.stack.push((absolute_form(name@), self.config.root)));
        self.send_next()
    }

    /// Begins the resolution of `name`, dropping any resolution in progress.
    /// The name is made absolute first; its letter case is kept.
    pub fn start(&mut self, name: &str) -> (r: Action)
        ensures
            (final(self)@, r@) == start_view(old(self)@.config, name@),
            final(self).wf(),
    {
        self.queries = 0;
        self.abandon();
        let r = self.descend(name);
        proof {
            lemma_start_wf(self@.config, name@);
        }
        r
    }

    /// Takes the response to the outstanding query and decides what comes
    /// next: the address when the answer is for the name the caller asked,
    /// a query of the glue address, a nested resolution of the nameserver
    /// name, or a failure.
    pub fn on_response(&mut self, resp: &DnsResponse) -> (r: Action)
        requires
            old(self).wf(),
            old(self)@.stack.len() > 0,
        ensures
            (final(self)@, r@) == step_view(old(self)@, *resp),
            final(self).wf(),
    {
        proof {
            lemma_step_keeps_limits(self@, *resp);
        }
        let ghost v = self@;
        let k = self.frames.len() - 1;
        let d = decide(resp, self.frames[k].name.as_str());
        match d {
            Decision::Answer(ip) => {
                if k == 0 {
                    self.abandon();
                    return Action::Done(Ok(ip));
                }
                let _ = self.frames.pop();
                let outer = self.frames.pop().unwrap();
                self.frames.push(Frame { name: outer.name, server: ip });
                proof {
                    let rest = v.stack.drop_last();
                    assert(self@.stack =~= rest.update(rest.len() - 1, (rest.last().0, ip)));
                }
                self.send_next()
            },
            Decision::Glue(ip) => {
                let top = self.frames.pop().unwrap();
                self.frames.push(Frame { name: top.name, server: ip });
                assert(self@.stack =~= v.stack.drop_last().push((v.stack.last().0, ip)));
                self.send_next()
            },
            Decision::Referral(ns) => self.descend(ns.as_str()),
            Decision::NoPath => {
                self.abandon();
                Action::Done(Err(ResolveError::NoPath))
            },
        }
    }

    /// Takes the failure of the outstanding query: the resolution ends with
    /// a transport error.
    pub fn on_transport_error(&mut self) -> (r: Action)
        requires
            old(self).wf(),
        ensures
            (final(self)@, r@) == finish(old(self)@, Err(ResolveError::Transport)),
            final(self).wf(),
    {
        self.abandon();
        Action::Done(Err(ResolveError::Transport))
    }
}

/// A new resolution starts within the limits.
pub proof fn lemma_start_wf(config: ResolverConfig, name: Seq<char>)
    ensures
        wf_view(start_view(config, name).0),
{
}

/// Every step keeps the limits. A query is issued only within the budget
/// and counts against it; a resolution that ends issues nothing more; once
/// the budget is spent, the next response ends the resolution.
pub proof fn lemma_step_keeps_limits(v: ResolverView, resp: DnsResponse)
    requires
        wf_view(v),
        v.stack.len() > 0,
    ensures
        ({
            let (w, a) = step_view(v, resp);
            &&& wf_view(w)
            &&& w.config == v.config
            &&& a is Send ==> w.queries == v.queries + 1 && w.stack.len() > 0
            &&& a is Done ==> w.queries == v.queries && w.stack.len() == 0
            &&& v.queries == v.config.max_queries ==> a is Done
        }),
{
}

/// An answer for the name asked, in the response to the first query, ends
/// the resolution with that address after exactly one query.
pub proof fn lemma_answer_on_first_query(
    config: ResolverConfig,
    name: Seq<char>,
    resp: DnsResponse,
    ip: Ipv4Address,
)
    requires
        config.max_depth >= 1,
        config.max_queries >= 1,
        first_answer(resp.answers@, absolute_form(name)) == Some(ip),
    ensures
        start_view(config, name).1 == (ActionView::Send {
            name: absolute_form(name),
            server: config.root,
            depth: 1,
        }),
        step_view(start_view(config, name).0, resp) == (
            ResolverView { config, stack: Seq::empty(), queries: 1 },
            ActionView::Done(Ok(ip)),
        ),
{
    let v = start_view(config, name).0;
    assert(v.stack.drop_last() =~= Seq::empty());
}

/// Glue is preferred to a referral: without an answer, a glue address is
/// queried next for the same name, at the same depth, whatever the
/// authority section holds; no nested resolution begins.
pub proof fn lemma_glue_preferred(v: ResolverView, resp: DnsResponse, ip: Ipv4Address)
    requires
        wf_view(v),
        v.stack.len() > 0,
        v.queries < v.config.max_queries,
        first_answer(resp.answers@, v.stack.last().0) is None,
        first_glue(resp.additionals@) == Some(ip),
    ensures
        step_view(v, resp).1 == (ActionView::Send {
            name: v.stack.last().0,
            server: ip,
            depth: v.stack.len(),
        }),
        step_view(v, resp).0.stack == v.stack.update(v.stack.len() - 1, (v.stack.last().0, ip)),
{
    assert(v.stack.drop_last().push((v.stack.last().0, ip)) =~= v.stack.update(
        v.stack.len() - 1,
        (v.stack.last().0, ip),
    ));
}

/// A referral without glue begins a nested resolution of the nameserver's
/// name at the root, on top of the one in progress.
pub proof fn lemma_referral_without_glue(v: ResolverView, resp: DnsResponse, ns: Seq<char>)
    requires
        wf_view(v),
        v.stack.len() > 0,
        v.stack.len() < v.config.max_depth,
        v.queries < v.config.max_queries,
        first_answer(resp.answers@, v.stack.last().0) is None,
        first_glue(resp.additionals@) is None,
        first_ns(resp.authorities@) == Some(ns),
    ensures
        step_view(v, resp).1 == (ActionView::Send {
            name: absolute_form(ns),
            server: v.config.root,
            depth: v.stack.len() + 1,
        }),
        step_view(v, resp).0.stack == v.stack.push((absolute_form(ns), v.config.root)),
        step_view(v, resp).0.queries == v.queries + 1,
{
}

/// The answer to a nested resolution resumes the enclosing one: its name is
/// queried next at the address found.
pub proof fn lemma_nested_answer_resumes_outer(v: ResolverView, resp: DnsResponse, ip: Ipv4Address)
    requires
        wf_view(v),
        v.stack.len() >= 2,
        v.queries < v.config.max_queries,
        first_answer(resp.answers@, v.stack.last().0) == Some(ip),
    ensures
        step_view(v, resp).1 == (ActionView::Send {
            name: v.stack[v.stack.len() - 2].0,
            server: ip,
            depth: (v.stack.len() - 1) as nat,
        }),
        step_view(v, resp).0.stack == v.stack.drop_last().update(
            v.stack.len() - 2,
            (v.stack[v.stack.len() - 2].0, ip),
        ),
{
}

/// A response with all three sections empty ends the resolution with
/// `NoPath`, and no further query is issued.
pub proof fn lemma_empty_response_fails(v: ResolverView, resp: DnsResponse)
    requires
        wf_view(v),
        v.stack.len() > 0,
        resp.answers@.len() == 0,
        resp.authorities@.len() == 0,
        resp.additionals@.len() == 0,
    ensures
        step_view(v, resp) == finish(v, Err(ResolveError::NoPath)),
        step_view(v, resp).0.stack.len() == 0,
{
}

/// A name with and without its trailing dot starts the same resolution, so
/// every query that follows is the same too: a resolution depends on the
/// name's absolute form alone.
pub proof fn lemma_name_normalization(config: ResolverConfig, name: Seq<char>)
    ensures
        start_view(config, name) == start_view(config, absolute_form(name)),
        !is_absolute(name) ==> start_view(config, name) == start_view(config, name.push('.')),
{
    assert(absolute_form(name).last() == '.');
    assert(name.push('.').last() == '.');
    if !is_absolute(name) {
        assert(absolute_form(name) == name.push('.'));
    }
}

/// The number of queries issued while the responses `resps` are fed in
/// turn, up to the end of the resolution.
pub open spec fn queries_in_run(v: ResolverView, resps: Seq<DnsResponse>) -> nat
    decreases resps.len(),
{
    if resps.len() == 0 || v.stack.len() == 0 {
        0
    } else {
        let (w, a) = step_view(v, resps[0]);
        (if a is Send {
            1nat
        } else {
            0nat
        }) + queries_in_run(w, resps.drop_first())
    }
}

/// Whatever the responses, a resolution issues no more queries than its
/// budget has left: referral loops and self-referring zones end in
/// `CycleDetected` instead of running on.
pub proof fn lemma_queries_bounded(v: ResolverView, resps: Seq<DnsResponse>)
    requires
        wf_view(v),
    ensures
        queries_in_run(v, resps) <= v.config.max_queries - v.queries,
    decreases resps.len(),
{
    if resps.len() > 0 && v.stack.len() > 0 {
        lemma_step_keeps_limits(v, resps[0]);
        let (w, a) = step_view(v, resps[0]);
        lemma_queries_bounded(w, resps.drop_first());
    }
}

} // verus!
