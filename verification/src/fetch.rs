//! Fetching a handoff, and the replies of the two endpoints.
use crate::handoff::{markdown, render_handoff_markdown, shown_timestamp, Handoff};
use crate::ids::{HandoffId, ProjectId, WorkspaceId};
use crate::payload::{agent_named, parse_agent, AgentKind, HandoffQuery, ProjectStrategy};
use crate::project_cache::{EntryView, ProjectCacheStore};
use crate::resolve::{
    entries_after_start, entries_after_step, started, stepped, ResolveAction, ResolveActionView,
    ResolveReply, ResolveRequest, Resolver, ResolverView, UNEXPECTED_REPLY,
};
use crate::state::{is_request, request_for, HookState};
use crate::text::{opt_copy, opt_str, opt_view, views};
use vstd::prelude::*;

verus! {

/// How long a fetch may take, in seconds, before it is answered with an empty body, so
/// that an agent never blocks measurably on startup.
pub const HANDOFF_CAP_SECONDS: u64 = 1;

/// What a fetch asks for, or what it answers.
pub enum FetchAction {
    /// The project is not known yet.
    Resolve(ResolveAction),
    /// Publish the project if so told, and hand back the open handoff of the project
    /// that was left last in this directory.
    LatestOpenHandoff { ids: (WorkspaceId, ProjectId), publish: bool, cwd: Option<String> },
    /// Mark the handoff as accepted by this agent.
    AcceptHandoff { id: HandoffId, agent: AgentKind },
    /// Answer with this handoff, or with none.
    Reply { markdown: Option<String> },
    /// The fetch failed.
    Failed { message: String },
}

/// The view of a [`FetchAction`].
pub enum FetchActionView {
    Resolve(ResolveActionView),
    LatestOpenHandoff {
        ids: (WorkspaceId, ProjectId),
        publish: bool,
        cwd: Option<Seq<char>>,
    },
    AcceptHandoff { id: HandoffId, agent: Option<Seq<char>> },
    Reply { markdown: Option<Seq<char>> },
    Failed { message: Seq<char> },
}

impl View for FetchAction {
    type V = FetchActionView;

    open spec fn view(&self) -> FetchActionView {
        match *self {
            FetchAction::Resolve(action) => FetchActionView::Resolve(action@),
            FetchAction::LatestOpenHandoff { ids, publish, cwd } => {
                FetchActionView::LatestOpenHandoff { ids, publish, cwd: opt_view(cwd) }
            },
            FetchAction::AcceptHandoff { id, agent } => FetchActionView::AcceptHandoff {
                id,
                agent: agent@,
            },
            FetchAction::Reply { markdown } => FetchActionView::Reply {
                markdown: opt_view(markdown),
            },
            FetchAction::Failed { message } => FetchActionView::Failed { message: message@ },
        }
    }
}

/// A reply to what a fetch asked for; an error is handed back as its text.
pub enum FetchReply {
    Resolve(ResolveReply),
    Found(Result<Option<Handoff>, String>),
    Accepted(Result<(), String>),
}

/// What a fetch waits for.
#[derive(Debug, Clone, Copy, PartialEq, Eq, Structural)]
pub enum FetchStage {
    Resolving,
    Looking,
    Accepting,
    Finished,
}

/// A fetch under way.
pub struct HandoffFetch {
    resolver: Resolver,
    stage: FetchStage,
    agent: AgentKind,
    cwd: Option<String>,
    found: Option<Handoff>,
}

/// The view of a [`HandoffFetch`].
pub struct HandoffFetchView {
    /// The resolution of the project.
    pub resolver: ResolverView,
    /// What is waited for.
    pub stage: FetchStage,
    /// The agent that fetches.
    pub agent: Option<Seq<char>>,
    /// The directory that the agent is in.
    pub cwd: Option<Seq<char>>,
    /// The handoff, once it was found.
    pub found: Option<Handoff>,
}

impl View for HandoffFetch {
    type V = HandoffFetchView;

    closed spec fn view(&self) -> HandoffFetchView {
        HandoffFetchView {
            resolver: self.resolver@,
            stage: self.stage,
            agent: self.agent@,
            cwd: opt_view(self.cwd),
            found: self.found,
        }
    }
}

/// The fetch after an action of its resolver: once the project is known, its open
/// handoff is looked for.
pub open spec fn fetch_resolving(
    v: HandoffFetchView,
    resolver: ResolverView,
    action: ResolveActionView,
) -> (HandoffFetchView, FetchActionView) {
    match action {
        ResolveActionView::Done { ids, publish } => (
            HandoffFetchView { resolver, stage: FetchStage::Looking, ..v },
            FetchActionView::LatestOpenHandoff { ids, publish, cwd: v.cwd },
        ),
        ResolveActionView::Failed { message } => (
            HandoffFetchView { resolver, stage: FetchStage::Finished, ..v },
            FetchActionView::Failed { message },
        ),
        _ => (
            HandoffFetchView { resolver, stage: FetchStage::Resolving, ..v },
            FetchActionView::Resolve(action),
        ),
    }
}

/// The fetch after a reply, and what it asks for next.
pub open spec fn fetch_stepped(v: HandoffFetchView, reply: FetchReply) -> (
    HandoffFetchView,
    FetchActionView,
) {
    let finished = HandoffFetchView { stage: FetchStage::Finished, ..v };
    match (v.stage, reply) {
        (FetchStage::Resolving, FetchReply::Resolve(reply)) => fetch_resolving(
            v,
            stepped(v.resolver, reply).0,
            stepped(v.resolver, reply).1,
        ),
        (FetchStage::Looking, FetchReply::Found(Ok(Some(handoff)))) => (
            HandoffFetchView { stage: FetchStage::Accepting, found: Some(handoff), ..v },
            FetchActionView::AcceptHandoff { id: handoff.id, agent: v.agent },
        ),
        (FetchStage::Looking, FetchReply::Found(Ok(None))) => (
            finished,
            FetchActionView::Reply { markdown: None },
        ),
        (FetchStage::Looking, FetchReply::Found(Err(e))) => (
            finished,
            FetchActionView::Failed { message: e@ },
        ),
        (FetchStage::Accepting, FetchReply::Accepted(Ok(()))) => (
            finished,
            FetchActionView::Reply {
                markdown: match v.found {
                    Some(handoff) => Some(
                        markdown(
                            handoff,
                            shown_timestamp(handoff.created_at.spec_nanosecond())->0,
                        ),
                    ),
                    None => None,
                },
            },
        ),
        (FetchStage::Accepting, FetchReply::Accepted(Err(e))) => (
            finished,
            FetchActionView::Failed { message: e@ },
        ),
        _ => (finished, FetchActionView::Failed { message: UNEXPECTED_REPLY@ }),
    }
}

/// The entries of the project cache after a reply.
pub open spec fn fetch_entries_after_step(
    v: HandoffFetchView,
    reply: FetchReply,
    entries: Seq<EntryView>,
    max: nat,
) -> Seq<EntryView> {
    match (v.stage, reply) {
        (FetchStage::Resolving, FetchReply::Resolve(reply)) => entries_after_step(
            v.resolver,
            reply,
            entries,
            max,
        ),
        _ => entries,
    }
}

/// A fetch by this query has started.
pub open spec fn fetch_started(
    query: HandoffQuery,
    state: HookState,
    entries: Seq<EntryView>,
    request: ResolveRequest,
) -> (HandoffFetchView, FetchActionView) {
    let (resolver, action) = started(request, entries);
    let agent = match query.agent {
        Some(name) => agent_named(name@, views(state.known_agents@)),
        None => None,
    };
    fetch_resolving(
        HandoffFetchView {
            resolver,
            stage: FetchStage::Resolving,
            agent,
            cwd: opt_view(query.cwd),
            found: None,
        },
        resolver,
        action,
    )
}

impl HandoffFetch {
    /// Starts a fetch.
    pub fn start(query: HandoffQuery, state: &HookState, cache: &mut ProjectCacheStore) -> (r: (
        HandoffFetch,
        FetchAction,
    ))
        requires
            old(cache).wf(),
        ensures
            final(cache).wf(),
            final(cache).max() == old(cache).max(),
            exists|request: ResolveRequest|
                {
                    &&& is_request(
                        request,
                        *state,
                        query.cwd,
                        query.workspace,
                        query.project,
                        ProjectStrategy::parsed(opt_view(query.project_strategy)),
                    )
                    &&& (r.0@, r.1@) == #[trigger] fetch_started(
                        query,
                        *state,
                        old(cache)@,
                        request,
                    )
                    &&& final(cache)@ == entries_after_start(request, old(cache)@)
                },
    {
        let agent = match &query.agent {
            Some(name) => parse_agent(name.as_str(), &state.known_agents),
            None => AgentKind::Other,
        };
        let strategy = ProjectStrategy::parse(opt_str(&query.project_strategy));
        let request = request_for(state, &query.cwd, &query.workspace, &query.project, strategy);
        let ghost asked = request;
        let cwd = opt_copy(&query.cwd);
        let (resolver, action) = Resolver::start(request, cache);
        let mut fetch = HandoffFetch {
            resolver,
            stage: FetchStage::Resolving,
            agent,
            cwd,
            found: None,
        };
        let action = fetch.resolved(action);
        assert((fetch@, action@) == fetch_started(query, *state, old(cache)@, asked));
        (fetch, action)
    }

    /// Takes a reply, and says what is to be done next.
    pub fn step(&mut self, cache: &mut ProjectCacheStore, reply: FetchReply) -> (r: FetchAction)
        requires
            old(cache).wf(),
        ensures
            final(cache).wf(),
            final(cache).max() == old(cache).max(),
            (final(self)@, r@) == fetch_stepped(old(self)@, reply),
            final(cache)@ == fetch_entries_after_step(
                old(self)@,
                reply,
                old(cache)@,
                old(cache).max(),
            ),
    {
        let stage = self.stage;
        self.stage = FetchStage::Finished;
        match (stage, reply) {
            (FetchStage::Resolving, FetchReply::Resolve(reply)) => {
                let action = self.resolver.step(cache, reply);
                self.resolved(action)
            },
            (FetchStage::Looking, FetchReply::Found(Ok(Some(handoff)))) => {
                let id = handoff.id;
                self.found = Some(handoff);
                self.stage = FetchStage::Accepting;
                FetchAction::AcceptHandoff { id, agent: self.agent.copy() }
            },
            (FetchStage::Looking, FetchReply::Found(Ok(None))) => FetchAction::Reply {
                markdown: None,
            },
            (FetchStage::Looking, FetchReply::Found(Err(message))) => FetchAction::Failed {
                message,
            },
            (FetchStage::Accepting, FetchReply::Accepted(Ok(()))) => FetchAction::Reply {
                markdown: match &self.found {
                    Some(handoff) => Some(render_handoff_markdown(handoff)),
                    None => None,
                },
            },
            (FetchStage::Accepting, FetchReply::Accepted(Err(message))) => FetchAction::Failed {
                message,
            },
            _ => FetchAction::Failed { message: UNEXPECTED_REPLY.to_string() },
        }
    }

    fn resolved(&mut self, action: ResolveAction) -> (r: FetchAction)
        ensures
            (final(self)@, r@) == fetch_resolving(old(self)@, old(self)@.resolver, action@),
    {
        match action {
            ResolveAction::Done { ids, publish } => {
                self.stage = FetchStage::Looking;
                FetchAction::LatestOpenHandoff { ids, publish, cwd: opt_copy(&self.cwd) }
            },
            ResolveAction::Failed { message } => {
                self.stage = FetchStage::Finished;
                FetchAction::Failed { message }
            },
            action => {
                self.stage = FetchStage::Resolving;
                FetchAction::Resolve(action)
            },
        }
    }
}

/// What an endpoint answers.
#[derive(Debug)]
pub struct HttpReply {
    pub status: u16,
    pub body: String,
}

/// The answer to an event: it is taken, unless too many are being processed.
pub fn handle_hook(permitted: bool) -> (r: HttpReply)
    ensures
        permitted ==> r.status == 202 && r.body@ == "queued"@,
        !permitted ==> r.status == 429 && r.body@ == "hook queue full"@,
{
    if permitted {
        HttpReply { status: 202, body: "queued".to_string() }
    } else {
        HttpReply { status: 429, body: "hook queue full".to_string() }
    }
}

/// The answer to a fetch: the handoff, or an empty body where there is none or the
/// fetch failed.
pub fn handle_handoff(fetched: Result<Option<String>, String>) -> (r: HttpReply)
    ensures
        r.status == 200,
        r.body@ == (match fetched {
            Ok(Some(markdown)) => markdown@,
            _ => Seq::empty(),
        }),
{
    match fetched {
        Ok(Some(markdown)) => HttpReply { status: 200, body: markdown },
        _ => HttpReply { status: 200, body: String::new() },
    }
}

/// A handoff is handed out only once it was accepted: the answer with a handoff is
/// given in reply to the acceptance, and to nothing else.
pub proof fn handoff_is_accepted_before_it_is_returned(v: HandoffFetchView, reply: FetchReply)
    requires
        fetch_stepped(v, reply).1 matches FetchActionView::Reply { markdown: Some(_) },
    ensures
        v.stage == FetchStage::Accepting,
        reply matches FetchReply::Accepted(Ok(_)),
        v.found is Some,
{
}

/// The handoff that is accepted is the one that was found, and it is accepted by the
/// agent that fetches.
pub proof fn found_handoff_is_the_one_accepted(v: HandoffFetchView, handoff: Handoff)
    requires
        v.stage == FetchStage::Looking,
    ensures
        fetch_stepped(v, FetchReply::Found(Ok(Some(handoff)))).1 == (
        FetchActionView::AcceptHandoff { id: handoff.id, agent: v.agent }),
        fetch_stepped(v, FetchReply::Found(Ok(Some(handoff)))).0.found == Some(handoff),
{
}

/// A fetch is for the agent that its query names, where that agent is known, and for the
/// query's own directory; nothing is found before the project is known.
pub proof fn fetch_is_for_the_agent_that_asks(
    query: HandoffQuery,
    state: HookState,
    entries: Seq<EntryView>,
    request: ResolveRequest,
)
    ensures
        ({
            let (v, action) = fetch_started(query, state, entries, request);
            let (resolver, asked) = started(request, entries);
            &&& query.agent is None ==> v.agent is None
            &&& query.agent matches Some(name) ==> (v.agent == Some(name@) <==> exists|i: int|
                0 <= i < state.known_agents@.len() && #[trigger] state.known_agents@[i]@ == name@)
            &&& query.agent matches Some(name) ==> (v.agent is None || v.agent == Some(name@))
            &&& query.cwd matches Some(cwd) ==> v.cwd == Some(cwd@)
            &&& query.cwd is None ==> v.cwd is None
            &&& v.found is None
            &&& asked matches ResolveActionView::Done { ids, publish } ==> action == (
            FetchActionView::LatestOpenHandoff { ids, publish, cwd: v.cwd })
            &&& !(asked is Done) && !(asked is Failed) ==> action == FetchActionView::Resolve(asked)
        }),
{
    if let Some(name) = query.agent {
        let known = views(state.known_agents@);
        if known.contains(name@) {
            let i = choose|i: int| 0 <= i < known.len() && known[i] == name@;
            assert(state.known_agents@[i]@ == name@);
        }
        assert forall|i: int|
            0 <= i < state.known_agents@.len() && #[trigger] state.known_agents@[i]@
                == name@ implies known.contains(name@) by {
            assert(known[i] == name@);
        }
    }
}

/// A fetch, step by step: the open handoff of the resolved project is looked for in the
/// agent's directory; the one that is found is accepted for the agent, and then shown as
/// it was found. With none there is none to show, and what fails fails the fetch with
/// its own words. While the project is looked for, every reply goes to the resolver.
pub proof fn found_handoff_is_accepted_and_shown(
    v: HandoffFetchView,
    reply: ResolveReply,
    handoff: Handoff,
    error: String,
    entries: Seq<EntryView>,
    max: nat,
)
    ensures
        v.stage is Resolving ==> {
            let (next, action) = fetch_stepped(v, FetchReply::Resolve(reply));
            let (resolver, asked) = stepped(v.resolver, reply);
            &&& next.resolver == resolver && next.agent == v.agent && next.cwd == v.cwd
            &&& asked matches ResolveActionView::Done { ids, publish } ==> action == (
            FetchActionView::LatestOpenHandoff { ids, publish, cwd: v.cwd }) && next.stage
                == FetchStage::Looking
            &&& asked matches ResolveActionView::Failed { message } ==> action == (
            FetchActionView::Failed { message })
            &&& !(asked is Done) && !(asked is Failed) ==> action == FetchActionView::Resolve(asked)
            &&& fetch_entries_after_step(v, FetchReply::Resolve(reply), entries, max)
                == entries_after_step(v.resolver, reply, entries, max)
        },
        v.stage is Looking ==> {
            let (v1, a1) = fetch_stepped(v, FetchReply::Found(Ok(Some(handoff))));
            let (v2, a2) = fetch_stepped(v1, FetchReply::Accepted(Ok(())));
            &&& a1 == FetchActionView::AcceptHandoff { id: handoff.id, agent: v.agent }
            &&& a2 == FetchActionView::Reply {
                markdown: Some(
                    markdown(handoff, shown_timestamp(handoff.created_at.spec_nanosecond())->0),
                ),
            }
            &&& fetch_stepped(v1, FetchReply::Accepted(Err(error))).1 == (FetchActionView::Failed {
                message: error@,
            })
            &&& fetch_stepped(v, FetchReply::Found(Ok(None))).1 == (FetchActionView::Reply {
                markdown: None,
            })
            &&& fetch_stepped(v, FetchReply::Found(Err(error))).1 == (FetchActionView::Failed {
                message: error@,
            })
        },
{
}

/// The endpoints answer as they should: an event is queued, or refused where too many
/// are being processed; a fetch is always answered, with the handoff as its body where
/// there is one.
pub proof fn endpoints_answer(
    permitted: bool,
    hook: HttpReply,
    fetched: Result<Option<String>, String>,
    reply: HttpReply,
)
    requires
        call_ensures(handle_hook, (permitted,), hook),
        call_ensures(handle_handoff, (fetched,), reply),
    ensures
        permitted ==> hook.status == 202 && hook.body@ == "queued"@,
        !permitted ==> hook.status == 429 && hook.body@ == "hook queue full"@,
        reply.status == 200,
        fetched matches Ok(Some(text)) ==> reply.body@ == text@,
        !(fetched matches Ok(Some(_))) ==> reply.body@.len() == 0,
{
}

/// What is asked is looked at as it is.
pub proof fn fetch_action_is_seen_whole(action: FetchAction)
    ensures
        action matches FetchAction::Resolve(asked) ==> action@ == FetchActionView::Resolve(asked@),
        action matches FetchAction::LatestOpenHandoff { ids, publish, cwd } ==> {
            &&& action@ is LatestOpenHandoff
            &&& action@->LatestOpenHandoff_ids == ids
            &&& action@->LatestOpenHandoff_publish == publish
            &&& cwd matches Some(text) ==> action@->LatestOpenHandoff_cwd == Some(text@)
            &&& cwd is None ==> action@->LatestOpenHandoff_cwd is None
        },
        action matches FetchAction::AcceptHandoff { id, agent } ==> action@ == (
        FetchActionView::AcceptHandoff { id, agent: agent@ }),
        action matches FetchAction::Reply { markdown } ==> {
            &&& action@ is Reply
            &&& markdown matches Some(text) ==> action@->Reply_markdown == Some(text@)
            &&& markdown is None ==> action@->Reply_markdown is None
        },
        action matches FetchAction::Failed { message } ==> action@ == (FetchActionView::Failed {
            message: message@,
        }),
{
}

} // verus!
