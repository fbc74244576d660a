//! What is done with an event.
//!
//! A [`Processor`] decides; the caller performs what it asks for and hands back the
//! reply, until the processor is done.
use crate::handoff::{
    auto_handoff, build_auto_handoff, NewHandoff, NewHandoffView, Observation,
};
use crate::ids::{
    hyphenated, name_based_uuid, parse_uuid, parsed_uuid, random_uuid, uuid_from_name, uuid_text,
    PageId, ProjectId, SessionId, WorkspaceId, NAMESPACE_OID,
};
use crate::payload::{AgentKind, HookEnvelope, HookEvent, ObservationKind};
use crate::project_cache::{lookup, unique_keys, without_key, EntryView, ProjectCacheStore};
use crate::resolve::{
    entries_after_start, entries_after_step, started, stepped, ResolveAction, ResolveActionView,
    ResolveReply, ResolveRequest, ResolveStage, Resolver, ResolverView, UNEXPECTED_REPLY,
};
use crate::state::{is_request, request_for, HookState};
use crate::text::{first_chars, opt_copy, opt_view, or_empty, take_chars};
use vstd::prelude::*;
use vstd::utf8::encode_utf8;

verus! {

/// The message for an event without a session that does not start one.
pub const NO_SESSION: &'static str =
    "hook payload missing session_id and event is not session-start";

/// How many characters of an identifier are enough to recognise it.
pub const SHORT_ID: usize = 8;

/// How many characters of a page's title a commit message repeats.
pub const COMMIT_TITLE: usize = 60;

/// How important an event of this sort is.
pub open spec fn importance(event: HookEvent) -> u8 {
    match event {
        HookEvent::SessionStart | HookEvent::SessionEnd => 7,
        HookEvent::UserPrompt => 8,
        HookEvent::PostToolUse | HookEvent::PreToolUse => 5,
        HookEvent::Stop | HookEvent::PreCompact => 6,
        HookEvent::Notification | HookEvent::Other => 3,
    }
}

/// How important an event of this sort is.
pub fn importance_for(event: HookEvent) -> (r: u8)
    ensures
        r == importance(event),
{
    match event {
        HookEvent::SessionStart | HookEvent::SessionEnd => 7,
        HookEvent::UserPrompt => 8,
        HookEvent::PostToolUse | HookEvent::PreToolUse => 5,
        HookEvent::Stop | HookEvent::PreCompact => 6,
        HookEvent::Notification | HookEvent::Other => 3,
    }
}

/// The start of an identifier.
pub fn short_id(s: &str) -> (r: String)
    ensures
        r@ == first_chars(s@, SHORT_ID as nat),
{
    take_chars(s, SHORT_ID)
}

/// The session that an agent names: the UUID that the name spells, or else one that
/// is made from the name, always the same.
pub open spec fn session_named(raw: Seq<char>) -> SessionId {
    match parsed_uuid(raw) {
        Some(value) => SessionId(value),
        None => SessionId(name_based_uuid(NAMESPACE_OID, encode_utf8(raw))),
    }
}

/// The session of an event: the one that the agent names, or else the one that was
/// drawn for an event that starts a session.
pub fn session_of(named: Option<SessionId>, drawn: Option<SessionId>) -> (r: Result<
    SessionId,
    String,
>)
    ensures
        match (named, drawn) {
            (Some(id), _) => r == Ok::<SessionId, String>(id),
            (None, Some(id)) => r == Ok::<SessionId, String>(id),
            (None, None) => r is Err && r->Err_0@ == NO_SESSION@,
        },
{
    match (named, drawn) {
        (Some(id), _) => Ok(id),
        (None, Some(id)) => Ok(id),
        (None, None) => Err(NO_SESSION.to_string()),
    }
}

/// The session that an agent names.
pub fn session_from_name(raw: &str) -> (r: SessionId)
    ensures
        r == session_named(raw@),
        forall|value: u128| raw@ == #[trigger] hyphenated(value) ==> r == SessionId(value),
{
    proof {
        assert forall|value: u128| raw@ == #[trigger] hyphenated(value) implies session_named(raw@)
            == SessionId(value) by {
            crate::ids::hyphenated_reads_back(value);
        }
    }
    match parse_uuid(raw) {
        Some(value) => SessionId(value),
        None => SessionId(uuid_from_name(NAMESPACE_OID, raw.as_bytes())),
    }
}

/// The session of an event. A name that the agent gives always leads to the same
/// session, and the text of a session's identifier leads to that session. A new
/// identifier is drawn only where the agent names none and a session starts.
pub fn resolve_session_id(env: &HookEnvelope) -> (r: Result<SessionId, String>)
    ensures
        match (env.session_id, env.event) {
            (Some(raw), _) => r == Ok::<SessionId, String>(session_named(raw@)),
            (None, HookEvent::SessionStart) => r is Ok,
            (None, _) => r is Err && r->Err_0@ == NO_SESSION@,
        },
        forall|value: u128|
            env.session_id is Some && (env.session_id->0)@ == #[trigger] hyphenated(value) ==> r
                == Ok::<SessionId, String>(SessionId(value)),
{
    let named = match &env.session_id {
        Some(raw) => Some(session_from_name(raw.as_str())),
        None => None,
    };
    let drawn = match (&env.session_id, env.event) {
        (None, HookEvent::SessionStart) => Some(SessionId(random_uuid())),
        _ => None,
    };
    session_of(named, drawn)
}

/// A session that is to be begun, if it was not begun before.
#[derive(Debug)]
pub struct NewSession {
    pub id: SessionId,
    pub workspace_id: WorkspaceId,
    pub project_id: ProjectId,
    pub agent_kind: AgentKind,
    pub cwd: Option<String>,
}

/// The view of a [`NewSession`].
pub struct NewSessionView {
    pub id: SessionId,
    pub workspace_id: WorkspaceId,
    pub project_id: ProjectId,
    pub agent_kind: Option<Seq<char>>,
    pub cwd: Option<Seq<char>>,
}

impl View for NewSession {
    type V = NewSessionView;

    open spec fn view(&self) -> NewSessionView {
        NewSessionView {
            id: self.id,
            workspace_id: self.workspace_id,
            project_id: self.project_id,
            agent_kind: self.agent_kind@,
            cwd: opt_view(self.cwd),
        }
    }
}

/// An observation that is to be stored, once it is scrubbed.
#[derive(Debug)]
pub struct NewObservation {
    pub session_id: SessionId,
    pub workspace_id: WorkspaceId,
    pub project_id: ProjectId,
    pub kind: ObservationKind,
    pub extension: Option<String>,
    pub source_event: Option<String>,
    pub title: String,
    pub body: String,
    pub importance: u8,
}

/// The view of a [`NewObservation`].
pub struct NewObservationView {
    pub session_id: SessionId,
    pub workspace_id: WorkspaceId,
    pub project_id: ProjectId,
    pub kind: ObservationKind,
    pub extension: Option<Seq<char>>,
    pub source_event: Option<Seq<char>>,
    pub title: Seq<char>,
    pub body: Seq<char>,
    pub importance: u8,
}

impl View for NewObservation {
    type V = NewObservationView;

    open spec fn view(&self) -> NewObservationView {
        NewObservationView {
            session_id: self.session_id,
            workspace_id: self.workspace_id,
            project_id: self.project_id,
            kind: self.kind,
            extension: opt_view(self.extension),
            source_event: opt_view(self.source_event),
            title: self.title@,
            body: self.body@,
            importance: self.importance,
        }
    }
}

/// What a processor asks for.
pub enum ProcessAction {
    /// The project is not known yet.
    Resolve(ResolveAction),
    /// Publish the project if so told, and begin the session, if it was not begun.
    BeginSession { new_session: NewSession, publish: bool },
    /// Scrub the observation, store it, and hand back the scrubbed title.
    InsertObservation(NewObservation),
    /// Append a line about the event, with this title, to the project's log.
    AppendLog { ids: (WorkspaceId, ProjectId), event: HookEvent, title: String },
    /// Let the language model consolidate the session.
    ConsolidateSession { session: SessionId },
    /// Hand back the observations of the session.
    LoadObservations { session: SessionId },
    /// Write the session's page by rule, from these observations.
    WriteSessionPage {
        ids: (WorkspaceId, ProjectId),
        session: SessionId,
        observations: Vec<Observation>,
    },
    /// End the session, with this page as its summary.
    EndSession { session: SessionId, page: PageId },
    /// Store the handoff.
    InsertHandoff(NewHandoff),
    /// Commit the wiki.
    CommitAll { message: String },
    /// Nothing is left to be done.
    Done,
    /// The event could not be processed.
    Failed { message: String },
}

/// The view of a [`ProcessAction`].
pub enum ProcessActionView {
    Resolve(ResolveActionView),
    BeginSession { new_session: NewSessionView, publish: bool },
    InsertObservation(NewObservationView),
    AppendLog { ids: (WorkspaceId, ProjectId), event: HookEvent, title: Seq<char> },
    ConsolidateSession { session: SessionId },
    LoadObservations { session: SessionId },
    WriteSessionPage {
        ids: (WorkspaceId, ProjectId),
        session: SessionId,
        observations: Seq<Observation>,
    },
    EndSession { session: SessionId, page: PageId },
    InsertHandoff(NewHandoffView),
    CommitAll { message: Seq<char> },
    Done,
    Failed { message: Seq<char> },
}

impl View for ProcessAction {
    type V = ProcessActionView;

    open spec fn view(&self) -> ProcessActionView {
        match *self {
            ProcessAction::Resolve(action) => ProcessActionView::Resolve(action@),
            ProcessAction::BeginSession { new_session, publish } => {
                ProcessActionView::BeginSession { new_session: new_session@, publish }
            },
            ProcessAction::InsertObservation(observation) => {
                ProcessActionView::InsertObservation(observation@)
            },
            ProcessAction::AppendLog { ids, event, title } => ProcessActionView::AppendLog {
                ids,
                event,
                title: title@,
            },
            ProcessAction::ConsolidateSession { session } => {
                ProcessActionView::ConsolidateSession { session }
            },
            ProcessAction::LoadObservations { session } => {
                ProcessActionView::LoadObservations { session }
            },
            ProcessAction::WriteSessionPage { ids, session, observations } => {
                ProcessActionView::WriteSessionPage { ids, session, observations: observations@ }
            },
            ProcessAction::EndSession { session, page } => {
                ProcessActionView::EndSession { session, page }
            },
            ProcessAction::InsertHandoff(handoff) => ProcessActionView::InsertHandoff(handoff@),
            ProcessAction::CommitAll { message } => ProcessActionView::CommitAll {
                message: message@,
            },
            ProcessAction::Done => ProcessActionView::Done,
            ProcessAction::Failed { message } => ProcessActionView::Failed { message: message@ },
        }
    }
}

/// A reply to what a processor asked for; an error is handed back as its text.
pub enum ProcessReply {
    Resolve(ResolveReply),
    Session(Result<(), String>),
    /// The title of the observation that was stored, as it was scrubbed.
    Observation(Result<String, String>),
    Log(Result<(), String>),
    Consolidated(Result<(), String>),
    Observations(Result<Vec<Observation>, String>),
    /// The page that was written, and its title.
    Page(Result<(PageId, String), String>),
    Ended(Result<(), String>),
    HandoffStored(Result<(), String>),
    Committed(Result<(), String>),
}

/// What a processor waits for.
#[derive(Debug, Clone, Copy, PartialEq, Eq, Structural)]
pub enum ProcessStage {
    /// The project; `retried` says whether the session could not be begun before.
    Resolving { retried: bool },
    /// The begun session.
    Beginning { retried: bool },
    Observing,
    Logging,
    /// A checkpoint before the agent's context is compacted.
    CheckpointConsolidating,
    CheckpointLoading,
    CheckpointWriting,
    CheckpointCommitting,
    /// The end of a session.
    EndLoading,
    EndWriting,
    EndClosing,
    EndHandingOff,
    EndConsolidating,
    EndCommitting,
    Finished,
}

/// The processing of an event under way.
pub struct Processor {
    env: HookEnvelope,
    consolidator: bool,
    consolidate_on_session_end: bool,
    session: SessionId,
    resolver: Resolver,
    stage: ProcessStage,
    ids: (WorkspaceId, ProjectId),
    handoff: Option<NewHandoff>,
    title: String,
}

/// The view of a [`Processor`].
pub struct ProcessorView {
    /// The event.
    pub env: HookEnvelope,
    /// Whether a language model can consolidate a session.
    pub consolidator: bool,
    /// Whether a session is consolidated when it ends.
    pub consolidate_on_session_end: bool,
    /// The session of the event.
    pub session: SessionId,
    /// The resolution of the project.
    pub resolver: ResolverView,
    /// What is waited for.
    pub stage: ProcessStage,
    /// Workspace and project of the event, once they are known.
    pub ids: (WorkspaceId, ProjectId),
    /// The handoff that the session leaves, once its observations were loaded and until
    /// it is stored.
    pub handoff: Option<NewHandoffView>,
    /// The title of the session's page, once it was written.
    pub title: Seq<char>,
}

impl View for Processor {
    type V = ProcessorView;

    closed spec fn view(&self) -> ProcessorView {
        ProcessorView {
            env: self.env,
            consolidator: self.consolidator,
            consolidate_on_session_end: self.consolidate_on_session_end,
            session: self.session,
            resolver: self.resolver@,
            stage: self.stage,
            ids: self.ids,
            handoff: match self.handoff {
                Some(handoff) => Some(handoff@),
                None => None,
            },
            title: self.title@,
        }
    }
}

impl ProcessorView {
    /// The processor waits for something else.
    pub open spec fn at(self, stage: ProcessStage) -> ProcessorView {
        ProcessorView { stage, ..self }
    }

    /// The session of the event.
    pub open spec fn new_session(self) -> NewSessionView {
        NewSessionView {
            id: self.session,
            workspace_id: self.ids.0,
            project_id: self.ids.1,
            agent_kind: self.env.agent@,
            cwd: opt_view(self.env.cwd),
        }
    }

    /// What is remembered of the event: its title, or the name of its kind where it
    /// has none, and its text.
    pub open spec fn observation(self) -> NewObservationView {
        NewObservationView {
            session_id: self.session,
            workspace_id: self.ids.0,
            project_id: self.ids.1,
            kind: self.env.event.kind(),
            extension: opt_view(self.env.extension),
            source_event: opt_view(self.env.source_event),
            title: match self.env.title_hint {
                Some(title) => title@,
                None => self.env.event.kind().name(),
            },
            body: or_empty(opt_view(self.env.body_excerpt)),
            importance: importance(self.env.event),
        }
    }

    /// The handoff that the session leaves, given its observations.
    pub open spec fn handoff_from(self, observations: Seq<Observation>) -> NewHandoffView {
        auto_handoff(
            self.ids.0,
            self.ids.1,
            self.env.agent@,
            self.session,
            opt_view(self.env.cwd),
            observations,
        )
    }

    /// The message of the commit at the end of the session.
    pub open spec fn end_message(self) -> Seq<char> {
        "session "@ + first_chars(hyphenated(self.session.0), SHORT_ID as nat) + ": "@
            + first_chars(self.title, COMMIT_TITLE as nat)
    }

    /// The message of the commit of a checkpoint.
    pub open spec fn checkpoint_message(self) -> Seq<char> {
        "pre-compact(session "@ + first_chars(hyphenated(self.session.0), SHORT_ID as nat)
            + "): checkpoint"@
    }
}

/// The processor after an action of its resolver: once the project is known, the
/// session is begun.
pub open spec fn process_resolving(
    v: ProcessorView,
    retried: bool,
    resolver: ResolverView,
    action: ResolveActionView,
) -> (ProcessorView, ProcessActionView) {
    match action {
        ResolveActionView::Done { ids, publish } => {
            let next = ProcessorView {
                resolver,
                ids,
                stage: ProcessStage::Beginning { retried },
                ..v
            };
            (next, ProcessActionView::BeginSession { new_session: next.new_session(), publish })
        },
        ResolveActionView::Failed { message } => (
            ProcessorView { resolver, stage: ProcessStage::Finished, ..v },
            ProcessActionView::Failed { message },
        ),
        _ => (
            ProcessorView { resolver, stage: ProcessStage::Resolving { retried }, ..v },
            ProcessActionView::Resolve(action),
        ),
    }
}

/// What follows once the event is stored: a checkpoint before a compaction, the
/// closing of an ending session, or nothing.
pub open spec fn after_observation(v: ProcessorView) -> (ProcessorView, ProcessActionView) {
    match v.env.event {
        HookEvent::PreCompact => if v.consolidator {
            (
                v.at(ProcessStage::CheckpointConsolidating),
                ProcessActionView::ConsolidateSession { session: v.session },
            )
        } else {
            (
                v.at(ProcessStage::CheckpointLoading),
                ProcessActionView::LoadObservations { session: v.session },
            )
        },
        HookEvent::SessionEnd => (
            v.at(ProcessStage::EndLoading),
            ProcessActionView::LoadObservations { session: v.session },
        ),
        _ => (v.at(ProcessStage::Finished), ProcessActionView::Done),
    }
}

/// A checkpoint after a reply. Whatever fails, the event is processed: a checkpoint
/// is worth having, not worth failing for.
pub open spec fn checkpoint_stepped(v: ProcessorView, reply: ProcessReply) -> (
    ProcessorView,
    ProcessActionView,
) {
    let done = (v.at(ProcessStage::Finished), ProcessActionView::Done);
    let committing = (
        v.at(ProcessStage::CheckpointCommitting),
        ProcessActionView::CommitAll { message: v.checkpoint_message() },
    );
    match (v.stage, reply) {
        (ProcessStage::CheckpointConsolidating, ProcessReply::Consolidated(Ok(()))) => committing,
        (ProcessStage::CheckpointLoading, ProcessReply::Observations(Ok(observations))) => if
            observations@.len() > 0 {
            (
                v.at(ProcessStage::CheckpointWriting),
                ProcessActionView::WriteSessionPage {
                    ids: v.ids,
                    session: v.session,
                    observations: observations@,
                },
            )
        } else {
            done
        },
        (ProcessStage::CheckpointWriting, ProcessReply::Page(Ok(_))) => committing,
        _ => done,
    }
}

/// The end of a session after a reply: page, closing, handoff, consolidation where it
/// is asked for, commit.
pub open spec fn end_stepped(v: ProcessorView, reply: ProcessReply) -> (
    ProcessorView,
    ProcessActionView,
) {
    let committing = (
        v.at(ProcessStage::EndCommitting),
        ProcessActionView::CommitAll { message: v.end_message() },
    );
    match (v.stage, reply) {
        (ProcessStage::EndLoading, ProcessReply::Observations(Ok(observations))) => (
            ProcessorView {
                stage: ProcessStage::EndWriting,
                handoff: Some(v.handoff_from(observations@)),
                ..v
            },
            ProcessActionView::WriteSessionPage {
                ids: v.ids,
                session: v.session,
                observations: observations@,
            },
        ),
        (ProcessStage::EndWriting, ProcessReply::Page(Ok((page, title)))) => (
            ProcessorView { stage: ProcessStage::EndClosing, title: title@, ..v },
            ProcessActionView::EndSession { session: v.session, page },
        ),
        (ProcessStage::EndClosing, ProcessReply::Ended(Ok(()))) => match v.handoff {
            Some(handoff) => (
                ProcessorView { stage: ProcessStage::EndHandingOff, handoff: None, ..v },
                ProcessActionView::InsertHandoff(handoff),
            ),
            None => failed(v, UNEXPECTED_REPLY@),
        },
        (ProcessStage::EndHandingOff, ProcessReply::HandoffStored(Ok(()))) => if v.consolidator
            && v.consolidate_on_session_end {
            (
                v.at(ProcessStage::EndConsolidating),
                ProcessActionView::ConsolidateSession { session: v.session },
            )
        } else {
            committing
        },
        (ProcessStage::EndConsolidating, ProcessReply::Consolidated(_)) => committing,
        (ProcessStage::EndCommitting, ProcessReply::Committed(_)) => (
            v.at(ProcessStage::Finished),
            ProcessActionView::Done,
        ),
        (ProcessStage::EndLoading, ProcessReply::Observations(Err(e))) => failed(v, e@),
        (ProcessStage::EndWriting, ProcessReply::Page(Err(e))) => failed(v, e@),
        (ProcessStage::EndClosing, ProcessReply::Ended(Err(e))) => failed(v, e@),
        (ProcessStage::EndHandingOff, ProcessReply::HandoffStored(Err(e))) => failed(v, e@),
        _ => failed(v, UNEXPECTED_REPLY@),
    }
}

/// The processor gives up.
pub open spec fn failed(v: ProcessorView, message: Seq<char>) -> (
    ProcessorView,
    ProcessActionView,
) {
    (v.at(ProcessStage::Finished), ProcessActionView::Failed { message })
}

/// The processor after a reply, and what it asks for next.
pub open spec fn process_stepped(
    v: ProcessorView,
    reply: ProcessReply,
    entries: Seq<EntryView>,
) -> (ProcessorView, ProcessActionView) {
    match (v.stage, reply) {
        (ProcessStage::Resolving { retried }, ProcessReply::Resolve(reply)) => process_resolving(
            v,
            retried,
            stepped(v.resolver, reply).0,
            stepped(v.resolver, reply).1,
        ),
        (ProcessStage::Beginning { .. }, ProcessReply::Session(Ok(()))) => (
            v.at(ProcessStage::Observing),
            ProcessActionView::InsertObservation(v.observation()),
        ),
        (ProcessStage::Beginning { retried: false }, ProcessReply::Session(Err(_))) => {
            let (resolver, action) = started(
                v.resolver.request,
                without_key(entries, v.resolver.request.key()),
            );
            process_resolving(v, true, resolver, action)
        },
        (ProcessStage::Beginning { retried: true }, ProcessReply::Session(Err(e))) => failed(v, e@),
        (ProcessStage::Observing, ProcessReply::Observation(Ok(title))) => (
            v.at(ProcessStage::Logging),
            ProcessActionView::AppendLog { ids: v.ids, event: v.env.event, title: title@ },
        ),
        (ProcessStage::Observing, ProcessReply::Observation(Err(e))) => failed(v, e@),
        (ProcessStage::Logging, ProcessReply::Log(_)) => after_observation(v),
        (ProcessStage::CheckpointConsolidating, _) => checkpoint_stepped(v, reply),
        (ProcessStage::CheckpointLoading, _) => checkpoint_stepped(v, reply),
        (ProcessStage::CheckpointWriting, _) => checkpoint_stepped(v, reply),
        (ProcessStage::CheckpointCommitting, _) => checkpoint_stepped(v, reply),
        _ => end_stepped(v, reply),
    }
}

/// The entries of the project cache after a reply: a session that could not be begun
/// costs the event's slot.
pub open spec fn process_entries_after_step(
    v: ProcessorView,
    reply: ProcessReply,
    entries: Seq<EntryView>,
    max: nat,
) -> Seq<EntryView> {
    match (v.stage, reply) {
        (ProcessStage::Resolving { .. }, ProcessReply::Resolve(reply)) => entries_after_step(
            v.resolver,
            reply,
            entries,
            max,
        ),
        (ProcessStage::Beginning { retried: false }, ProcessReply::Session(Err(_))) => {
            entries_after_start(
                v.resolver.request,
                without_key(entries, v.resolver.request.key()),
            )
        },
        _ => entries,
    }
}

/// The processing of an event of this session has started.
pub open spec fn process_started(
    env: HookEnvelope,
    state: HookState,
    session: SessionId,
    entries: Seq<EntryView>,
    request: ResolveRequest,
) -> (ProcessorView, ProcessActionView) {
    let (resolver, action) = started(request, entries);
    process_resolving(
        ProcessorView {
            env,
            consolidator: state.consolidator,
            consolidate_on_session_end: state.consolidate_on_session_end,
            session,
            resolver,
            stage: ProcessStage::Resolving { retried: false },
            ids: (state.workspace_id, state.project_id),
            handoff: None,
            title: Seq::empty(),
        },
        false,
        resolver,
        action,
    )
}

/// The request that an event makes of the resolver.
pub open spec fn is_request_of(
    request: ResolveRequest,
    env: HookEnvelope,
    state: HookState,
) -> bool {
    is_request(
        request,
        state,
        env.cwd,
        env.workspace_override,
        env.project_override,
        env.project_strategy,
    )
}

impl Processor {
    /// Starts the processing of an event, or says why it cannot be.
    pub fn start(env: HookEnvelope, state: &HookState, cache: &mut ProjectCacheStore) -> (r: Result<
        (Processor, ProcessAction),
        String,
    >)
        requires
            old(cache).wf(),
        ensures
            final(cache).wf(),
            final(cache).max() == old(cache).max(),
            r is Err <==> env.session_id is None && env.event != HookEvent::SessionStart,
            r matches Err(message) ==> message@ == NO_SESSION@ && final(cache)@ == old(cache)@,
            r matches Ok((processor, action)) ==> {
                &&& env.session_id matches Some(raw) ==> processor@.session == session_named(raw@)
                &&& exists|request: ResolveRequest|
                    {
                        &&& is_request_of(request, env, *state)
                        &&& (processor@, action@) == #[trigger] process_started(
                            env,
                            *state,
                            processor@.session,
                            old(cache)@,
                            request,
                        )
                        &&& final(cache)@ == entries_after_start(request, old(cache)@)
                    }
            },
    {
        let session = match resolve_session_id(&env) {
            Ok(session) => session,
            Err(message) => return Err(message),
        };
        Ok(Processor::start_session(env, session, state, cache))
    }

    /// Starts the processing of an event of this session.
    pub fn start_session(
        env: HookEnvelope,
        session: SessionId,
        state: &HookState,
        cache: &mut ProjectCacheStore,
    ) -> (r: (Processor, ProcessAction))
        requires
            old(cache).wf(),
        ensures
            final(cache).wf(),
            final(cache).max() == old(cache).max(),
            r.0@.session == session,
            exists|request: ResolveRequest|
                {
                    &&& is_request_of(request, env, *state)
                    &&& (r.0@, r.1@) == #[trigger] process_started(
                        env,
                        *state,
                        session,
                        old(cache)@,
                        request,
                    )
                    &&& final(cache)@ == entries_after_start(request, old(cache)@)
                },
    {
        let request = request_for(
            state,
            &env.cwd,
            &env.workspace_override,
            &env.project_override,
            env.project_strategy,
        );
        let ghost asked = request;
        let (resolver, action) = Resolver::start(request, cache);
        let mut processor = Processor {
            env,
            consolidator: state.consolidator,
            consolidate_on_session_end: state.consolidate_on_session_end,
            session,
            resolver,
            stage: ProcessStage::Resolving { retried: false },
            ids: (state.workspace_id, state.project_id),
            handoff: None,
            title: String::new(),
        };
        proof {
            assert(processor@.title =~= Seq::empty());
        }
        let action = processor.resolved(false, action);
        assert((processor@, action@) == process_started(env, *state, session, old(cache)@, asked));
        (processor, action)
    }

    /// Takes a reply, and says what is to be done next.
    pub fn step(&mut self, cache: &mut ProjectCacheStore, reply: ProcessReply) -> (r: ProcessAction)
        requires
            old(cache).wf(),
        ensures
            final(cache).wf(),
            final(cache).max() == old(cache).max(),
            (final(self)@, r@) == process_stepped(old(self)@, reply, old(cache)@),
            final(cache)@ == process_entries_after_step(
                old(self)@,
                reply,
                old(cache)@,
                old(cache).max(),
            ),
    {
        match (self.stage, reply) {
            (ProcessStage::Resolving { retried }, ProcessReply::Resolve(reply)) => {
                let action = self.resolver.step(cache, reply);
                self.resolved(retried, action)
            },
            (ProcessStage::Beginning { .. }, ProcessReply::Session(Ok(()))) => {
                self.stage = ProcessStage::Observing;
                ProcessAction::InsertObservation(self.observation())
            },
            (ProcessStage::Beginning { retried: false }, ProcessReply::Session(Err(_))) => {
                self.resolver.evict(cache);
                let action = self.resolver.restart(cache);
                self.resolved(true, action)
            },
            (ProcessStage::Beginning { retried: true }, ProcessReply::Session(Err(message))) => {
                self.fail(message)
            },
            (ProcessStage::Observing, ProcessReply::Observation(Ok(title))) => {
                self.stage = ProcessStage::Logging;
                ProcessAction::AppendLog { ids: self.ids, event: self.env.event, title }
            },
            (ProcessStage::Observing, ProcessReply::Observation(Err(message))) => {
                self.fail(message)
            },
            (ProcessStage::Logging, ProcessReply::Log(_)) => self.observed(),
            (ProcessStage::CheckpointConsolidating, reply) => self.consolidate_or_synth(reply),
            (ProcessStage::CheckpointLoading, reply) => self.consolidate_or_synth(reply),
            (ProcessStage::CheckpointWriting, reply) => self.consolidate_or_synth(reply),
            (ProcessStage::CheckpointCommitting, reply) => self.consolidate_or_synth(reply),
            (_, reply) => self.end_session(reply),
        }
    }

    fn resolved(&mut self, retried: bool, action: ResolveAction) -> (r: ProcessAction)
        ensures
            (final(self)@, r@) == process_resolving(
                old(self)@,
                retried,
                old(self)@.resolver,
                action@,
            ),
    {
        match action {
            ResolveAction::Done { ids, publish } => {
                self.ids = ids;
                self.stage = ProcessStage::Beginning { retried };
                let new_session = NewSession {
                    id: self.session,
                    workspace_id: ids.0,
                    project_id: ids.1,
                    agent_kind: self.env.agent.copy(),
                    cwd: opt_copy(&self.env.cwd),
                };
                ProcessAction::BeginSession { new_session, publish }
            },
            ResolveAction::Failed { message } => self.fail(message),
            action => {
                self.stage = ProcessStage::Resolving { retried };
                ProcessAction::Resolve(action)
            },
        }
    }

    fn fail(&mut self, message: String) -> (r: ProcessAction)
        ensures
            (final(self)@, r@) == failed(old(self)@, message@),
    {
        self.stage = ProcessStage::Finished;
        ProcessAction::Failed { message }
    }

    fn observation(&self) -> (r: NewObservation)
        ensures
            r@ == self@.observation(),
    {
        let kind = self.env.event.to_observation_kind();
        let title = match &self.env.title_hint {
            Some(title) => title.clone(),
            None => kind.as_str().to_string(),
        };
        let body = match &self.env.body_excerpt {
            Some(body) => body.clone(),
            None => String::new(),
        };
        NewObservation {
            session_id: self.session,
            workspace_id: self.ids.0,
            project_id: self.ids.1,
            kind,
            extension: opt_copy(&self.env.extension),
            source_event: opt_copy(&self.env.source_event),
            title,
            body,
            importance: importance_for(self.env.event),
        }
    }

    fn observed(&mut self) -> (r: ProcessAction)
        ensures
            (final(self)@, r@) == after_observation(old(self)@),
    {
        match self.env.event {
            HookEvent::PreCompact => if self.consolidator {
                self.stage = ProcessStage::CheckpointConsolidating;
                ProcessAction::ConsolidateSession { session: self.session }
            } else {
                self.stage = ProcessStage::CheckpointLoading;
                ProcessAction::LoadObservations { session: self.session }
            },
            HookEvent::SessionEnd => {
                self.stage = ProcessStage::EndLoading;
                ProcessAction::LoadObservations { session: self.session }
            },
            _ => {
                self.stage = ProcessStage::Finished;
                ProcessAction::Done
            },
        }
    }

    fn commit_checkpoint(&mut self) -> (r: ProcessAction)
        ensures
            final(self)@ == old(self)@.at(ProcessStage::CheckpointCommitting),
            r@ == (ProcessActionView::CommitAll { message: old(self)@.checkpoint_message() }),
    {
        self.stage = ProcessStage::CheckpointCommitting;
        let mut message = "pre-compact(session ".to_string();
        message.append(short_id(uuid_text(self.session.0).as_str()).as_str());
        message.append("): checkpoint");
        ProcessAction::CommitAll { message }
    }

    /// Takes a reply to a step of a checkpoint: the session's page is refreshed, by
    /// the language model or by rule, without ending the session.
    fn consolidate_or_synth(&mut self, reply: ProcessReply) -> (r: ProcessAction)
        ensures
            (final(self)@, r@) == checkpoint_stepped(old(self)@, reply),
    {
        match (self.stage, reply) {
            (ProcessStage::CheckpointConsolidating, ProcessReply::Consolidated(Ok(()))) => {
                self.commit_checkpoint()
            },
            (ProcessStage::CheckpointLoading, ProcessReply::Observations(Ok(observations))) => {
                if observations.len() > 0 {
                    self.stage = ProcessStage::CheckpointWriting;
                    ProcessAction::WriteSessionPage {
                        ids: self.ids,
                        session: self.session,
                        observations,
                    }
                } else {
                    self.stage = ProcessStage::Finished;
                    ProcessAction::Done
                }
            },
            (ProcessStage::CheckpointWriting, ProcessReply::Page(Ok(_))) => {
                self.commit_checkpoint()
            },
            _ => {
                self.stage = ProcessStage::Finished;
                ProcessAction::Done
            },
        }
    }

    fn commit_end(&mut self) -> (r: ProcessAction)
        ensures
            final(self)@ == old(self)@.at(ProcessStage::EndCommitting),
            r@ == (ProcessActionView::CommitAll { message: old(self)@.end_message() }),
    {
        self.stage = ProcessStage::EndCommitting;
        let mut message = "session ".to_string();
        message.append(short_id(uuid_text(self.session.0).as_str()).as_str());
        message.append(": ");
        message.append(take_chars(self.title.as_str(), COMMIT_TITLE).as_str());
        ProcessAction::CommitAll { message }
    }

    /// Takes a reply to a step of the end of a session.
    fn end_session(&mut self, reply: ProcessReply) -> (r: ProcessAction)
        ensures
            (final(self)@, r@) == end_stepped(old(self)@, reply),
    {
        match (self.stage, reply) {
            (ProcessStage::EndLoading, ProcessReply::Observations(Ok(observations))) => {
                let handoff = build_auto_handoff(
                    self.ids.0,
                    self.ids.1,
                    self.env.agent.copy(),
                    self.session,
                    opt_copy(&self.env.cwd),
                    observations.as_slice(),
                );
                self.handoff = Some(handoff);
                self.stage = ProcessStage::EndWriting;
                ProcessAction::WriteSessionPage {
                    ids: self.ids,
                    session: self.session,
                    observations,
                }
            },
            (ProcessStage::EndWriting, ProcessReply::Page(Ok((page, title)))) => {
                self.title = title;
                self.stage = ProcessStage::EndClosing;
                ProcessAction::EndSession { session: self.session, page }
            },
            (ProcessStage::EndClosing, ProcessReply::Ended(Ok(()))) => match self.handoff.take() {
                Some(handoff) => {
                    self.stage = ProcessStage::EndHandingOff;
                    ProcessAction::InsertHandoff(handoff)
                },
                None => self.fail(UNEXPECTED_REPLY.to_string()),
            },
            (ProcessStage::EndHandingOff, ProcessReply::HandoffStored(Ok(()))) => {
                if self.consolidator && self.consolidate_on_session_end {
                    self.stage = ProcessStage::EndConsolidating;
                    ProcessAction::ConsolidateSession { session: self.session }
                } else {
                    self.commit_end()
                }
            },
            (ProcessStage::EndConsolidating, ProcessReply::Consolidated(_)) => self.commit_end(),
            (ProcessStage::EndCommitting, ProcessReply::Committed(_)) => {
                self.stage = ProcessStage::Finished;
                ProcessAction::Done
            },
            (ProcessStage::EndLoading, ProcessReply::Observations(Err(message))) => {
                self.fail(message)
            },
            (ProcessStage::EndWriting, ProcessReply::Page(Err(message))) => self.fail(message),
            (ProcessStage::EndClosing, ProcessReply::Ended(Err(message))) => self.fail(message),
            (ProcessStage::EndHandingOff, ProcessReply::HandoffStored(Err(message))) => {
                self.fail(message)
            },
            _ => self.fail(UNEXPECTED_REPLY.to_string()),
        }
    }
}

/// An observation is stored only once its session was begun, and it is stored for
/// the session and the project that were begun.
pub proof fn session_is_begun_before_it_is_observed(
    v: ProcessorView,
    reply: ProcessReply,
    entries: Seq<EntryView>,
)
    requires
        process_stepped(v, reply, entries).1 is InsertObservation,
    ensures
        v.stage is Beginning,
        reply matches ProcessReply::Session(Ok(_)),
        process_stepped(v, reply, entries).1->InsertObservation_0 == v.observation(),
        v.observation().session_id == v.new_session().id,
        v.observation().workspace_id == v.new_session().workspace_id,
        v.observation().project_id == v.new_session().project_id,
{
}

/// A line goes into the log only once the observation was stored, for the project that
/// it was stored for, and with its title as it was scrubbed.
pub proof fn scrubbed_title_is_logged(
    v: ProcessorView,
    reply: ProcessReply,
    entries: Seq<EntryView>,
)
    requires
        process_stepped(v, reply, entries).1 is AppendLog,
    ensures
        v.stage == ProcessStage::Observing,
        reply matches ProcessReply::Observation(Ok(title)) && process_stepped(v, reply, entries).1
            == (ProcessActionView::AppendLog {
            ids: (v.observation().workspace_id, v.observation().project_id),
            event: v.env.event,
            title: title@,
        }),
{
}

/// The stage belongs to the event: only the end of a session leads to its closing,
/// only a compaction to a checkpoint. A session that is being closed has its handoff
/// ready.
pub open spec fn stage_fits_event(v: ProcessorView) -> bool {
    match v.stage {
        ProcessStage::CheckpointConsolidating
        | ProcessStage::CheckpointLoading
        | ProcessStage::CheckpointWriting
        | ProcessStage::CheckpointCommitting => v.env.event == HookEvent::PreCompact,
        ProcessStage::EndWriting | ProcessStage::EndClosing => v.env.event
            == HookEvent::SessionEnd && v.handoff is Some,
        ProcessStage::EndLoading
        | ProcessStage::EndHandingOff
        | ProcessStage::EndConsolidating
        | ProcessStage::EndCommitting => v.env.event == HookEvent::SessionEnd,
        _ => true,
    }
}

/// A session is ended and leaves a handoff only when the event says that it ends; a
/// checkpoint before a compaction does neither. This holds from the start and through
/// every reply.
pub proof fn only_session_end_ends_the_session(
    env: HookEnvelope,
    state: HookState,
    session: SessionId,
    request: ResolveRequest,
    v: ProcessorView,
    reply: ProcessReply,
    entries: Seq<EntryView>,
)
    requires
        stage_fits_event(v),
    ensures
        stage_fits_event(process_started(env, state, session, entries, request).0),
        stage_fits_event(process_stepped(v, reply, entries).0),
        process_stepped(v, reply, entries).0.env == v.env,
        process_stepped(v, reply, entries).0.session == v.session,
        process_stepped(v, reply, entries).1 is EndSession ==> v.env.event
            == HookEvent::SessionEnd,
        process_stepped(v, reply, entries).1 is InsertHandoff ==> v.env.event
            == HookEvent::SessionEnd,
        process_stepped(v, reply, entries).1 is WriteSessionPage ==> v.env.event
            == HookEvent::SessionEnd || v.env.event == HookEvent::PreCompact,
        v.stage == ProcessStage::EndClosing ==> process_stepped(
            v,
            ProcessReply::Ended(Ok(())),
            entries,
        ).1 is InsertHandoff,
{
}

/// The page of an ending session was written.
pub open spec fn end_page_is_written(stage: ProcessStage) -> bool {
    match stage {
        ProcessStage::EndClosing
        | ProcessStage::EndHandingOff
        | ProcessStage::EndConsolidating
        | ProcessStage::EndCommitting => true,
        _ => false,
    }
}

/// When a session ends, its page is always written by rule first: the session is
/// closed, handed off, consolidated and committed only after that, and no stage in
/// which the page counts as written is entered but by the page's having been written.
pub proof fn end_page_comes_first(
    v: ProcessorView,
    reply: ProcessReply,
    entries: Seq<EntryView>,
)
    requires
        stage_fits_event(v),
        v.env.event == HookEvent::SessionEnd,
    ensures
        end_page_is_written(process_stepped(v, reply, entries).0.stage) && !end_page_is_written(
            v.stage,
        ) ==> v.stage == ProcessStage::EndWriting && reply matches ProcessReply::Page(Ok(_)),
        process_stepped(v, reply, entries).1 is ConsolidateSession ==> end_page_is_written(v.stage),
        process_stepped(v, reply, entries).1 is CommitAll ==> end_page_is_written(v.stage),
        process_stepped(v, reply, entries).1 is InsertHandoff ==> end_page_is_written(v.stage),
{
}

/// Consolidation at the end of a session is asked for only where it is switched on
/// and there is something to consolidate with, and its failure changes nothing.
pub proof fn end_consolidation_is_opt_in(
    v: ProcessorView,
    reply: ProcessReply,
    entries: Seq<EntryView>,
    error: String,
)
    requires
        stage_fits_event(v),
        v.env.event == HookEvent::SessionEnd,
    ensures
        process_stepped(v, reply, entries).1 is ConsolidateSession ==> v.consolidator
            && v.consolidate_on_session_end,
        v.stage == ProcessStage::EndConsolidating ==> process_stepped(
            v,
            ProcessReply::Consolidated(Err(error)),
            entries,
        ) == process_stepped(v, ProcessReply::Consolidated(Ok(())), entries),
{
}

/// A log that cannot be written, a checkpoint that cannot be made and a commit that
/// cannot be made do not fail the event.
pub proof fn side_work_never_fails_the_event(
    v: ProcessorView,
    reply: ProcessReply,
    entries: Seq<EntryView>,
    error: String,
)
    ensures
        v.stage == ProcessStage::Logging ==> process_stepped(
            v,
            ProcessReply::Log(Err(error)),
            entries,
        ) == process_stepped(v, ProcessReply::Log(Ok(())), entries),
        v.stage is CheckpointConsolidating || v.stage is CheckpointLoading
            || v.stage is CheckpointWriting || v.stage is CheckpointCommitting ==> !(
        process_stepped(v, reply, entries).1 is Failed),
        v.stage == ProcessStage::EndCommitting ==> process_stepped(
            v,
            ProcessReply::Committed(Err(error)),
            entries,
        ).1 is Done,
{
}

/// A session that cannot be begun costs the event's slot of the cache, and the
/// project is resolved anew: from the store, not from the cache, unless the event
/// falls back to the defaults.
pub proof fn stale_slot_is_evicted(
    v: ProcessorView,
    error: String,
    entries: Seq<EntryView>,
    max: nat,
)
    requires
        v.stage == (ProcessStage::Beginning { retried: false }),
        unique_keys(entries),
    ensures
        lookup(
            process_entries_after_step(v, ProcessReply::Session(Err(error)), entries, max),
            v.resolver.request.key(),
        ) is None,
        !v.resolver.request.says_nothing() ==> process_stepped(
            v,
            ProcessReply::Session(Err(error)),
            entries,
        ).0.stage == (ProcessStage::Resolving { retried: true }),
{
    crate::project_cache::removed_key_is_gone(
        entries,
        v.resolver.request.key(),
        v.resolver.request.key(),
    );
}

/// The project was resolved anew.
pub open spec fn was_retried(stage: ProcessStage) -> bool {
    match stage {
        ProcessStage::Resolving { retried } => retried,
        ProcessStage::Beginning { retried } => retried,
        _ => false,
    }
}

/// How many replies a processor still needs at most.
pub open spec fn process_replies_left(v: ProcessorView) -> nat {
    match v.stage {
        ProcessStage::Resolving { retried: false } => 14 + crate::resolve::replies_left(
            v.resolver.stage,
        ),
        ProcessStage::Beginning { retried: false } => 14,
        ProcessStage::Resolving { retried: true } => 9 + crate::resolve::replies_left(
            v.resolver.stage,
        ),
        ProcessStage::Beginning { retried: true } => 9,
        ProcessStage::Observing => 8,
        ProcessStage::Logging => 7,
        ProcessStage::CheckpointConsolidating => 3,
        ProcessStage::CheckpointLoading => 3,
        ProcessStage::CheckpointWriting => 2,
        ProcessStage::CheckpointCommitting => 1,
        ProcessStage::EndLoading => 6,
        ProcessStage::EndWriting => 5,
        ProcessStage::EndClosing => 4,
        ProcessStage::EndHandingOff => 3,
        ProcessStage::EndConsolidating => 2,
        ProcessStage::EndCommitting => 1,
        ProcessStage::Finished => 0,
    }
}

/// The resolver is under way exactly while the processor waits for it.
pub open spec fn resolver_is_awaited(v: ProcessorView) -> bool {
    v.stage is Resolving ==> v.resolver.stage != ResolveStage::Finished
}

/// The processing of an event ends, and its project is resolved anew at most once:
/// every reply brings it nearer to its end, a second failure to begin the session
/// fails the event, and the processor is at its end exactly when it says so.
pub proof fn processing_ends(
    env: HookEnvelope,
    state: HookState,
    session: SessionId,
    request: ResolveRequest,
    v: ProcessorView,
    reply: ProcessReply,
    entries: Seq<EntryView>,
    error: String,
)
    requires
        resolver_is_awaited(v),
    ensures
        resolver_is_awaited(process_started(env, state, session, entries, request).0),
        process_replies_left(process_started(env, state, session, entries, request).0) <= 18,
        resolver_is_awaited(process_stepped(v, reply, entries).0),
        v.stage != ProcessStage::Finished ==> process_replies_left(
            process_stepped(v, reply, entries).0,
        ) < process_replies_left(v),
        was_retried(process_stepped(v, reply, entries).0.stage) && !was_retried(v.stage)
            ==> v.stage == (ProcessStage::Beginning { retried: false }),
        v.stage == (ProcessStage::Beginning { retried: true }) ==> process_stepped(
            v,
            ProcessReply::Session(Err(error)),
            entries,
        ).1 is Failed,
        process_stepped(v, reply, entries).0.stage == ProcessStage::Finished <==> (process_stepped(
            v,
            reply,
            entries,
        ).1 is Done || process_stepped(v, reply, entries).1 is Failed),
{
    match reply {
        ProcessReply::Resolve(inner) => {
            crate::resolve::resolution_ends(request, entries, v.resolver, inner);
        },
        _ => {},
    }
    crate::resolve::resolution_ends(
        v.resolver.request,
        without_key(entries, v.resolver.request.key()),
        v.resolver,
        ResolveReply::Workspace(Ok(WorkspaceId(0))),
    );
    crate::resolve::resolution_ends(
        request,
        entries,
        v.resolver,
        ResolveReply::Workspace(Ok(WorkspaceId(0))),
    );
}

/// The end of a session whose every step succeeds: page, closing, handoff, commit, in
/// this order, for the event's own session and project.
pub proof fn session_end_is_complete(
    v: ProcessorView,
    entries: Seq<EntryView>,
    observations: Vec<Observation>,
    page: PageId,
    title: String,
)
    requires
        v.stage == ProcessStage::Logging,
        v.env.event == HookEvent::SessionEnd,
        !(v.consolidator && v.consolidate_on_session_end),
    ensures
        ({
            let (v1, a1) = process_stepped(v, ProcessReply::Log(Ok(())), entries);
            let (v2, a2) = process_stepped(
                v1,
                ProcessReply::Observations(Ok(observations)),
                entries,
            );
            let (v3, a3) = process_stepped(v2, ProcessReply::Page(Ok((page, title))), entries);
            let (v4, a4) = process_stepped(v3, ProcessReply::Ended(Ok(())), entries);
            let (v5, a5) = process_stepped(v4, ProcessReply::HandoffStored(Ok(())), entries);
            let (v6, a6) = process_stepped(v5, ProcessReply::Committed(Ok(())), entries);
            &&& a1 == ProcessActionView::LoadObservations { session: v.session }
            &&& a2 == ProcessActionView::WriteSessionPage {
                ids: v.ids,
                session: v.session,
                observations: observations@,
            }
            &&& a3 == ProcessActionView::EndSession { session: v.session, page }
            &&& a4 == ProcessActionView::InsertHandoff(
                auto_handoff(
                    v.ids.0,
                    v.ids.1,
                    v.env.agent@,
                    v.session,
                    opt_view(v.env.cwd),
                    observations@,
                ),
            )
            &&& a5 == ProcessActionView::CommitAll {
                message: "session "@ + first_chars(hyphenated(v.session.0), SHORT_ID as nat)
                    + ": "@ + first_chars(title@, COMMIT_TITLE as nat),
            }
            &&& a6 == ProcessActionView::Done
        }),
{
}

/// What is stored of an event is what the agent said of it: the text as its body, or an
/// empty one; the title that it gave, or else the name of the kind; the kind of the
/// event; the extension and its own name for the event, where there are any; and all
/// that for the session and the project of the event.
pub proof fn observation_says_what_the_event_says(
    v: ProcessorView,
    reply: ProcessReply,
    entries: Seq<EntryView>,
    stored: NewObservationView,
)
    requires
        v.stage is Beginning,
        reply matches ProcessReply::Session(Ok(_)),
        process_stepped(v, reply, entries).1 == ProcessActionView::InsertObservation(stored),
    ensures
        v.env.body_excerpt matches Some(body) ==> stored.body == body@,
        v.env.body_excerpt is None ==> stored.body.len() == 0,
        v.env.title_hint matches Some(title) ==> stored.title == title@,
        v.env.title_hint is None ==> stored.title == stored.kind.name(),
        stored.kind == v.env.event.kind(),
        v.env.extension matches Some(name) ==> stored.extension == Some(name@),
        v.env.extension is None ==> stored.extension is None,
        v.env.source_event matches Some(name) ==> stored.source_event == Some(name@),
        v.env.source_event is None ==> stored.source_event is None,
        stored.session_id == v.session,
        stored.workspace_id == v.ids.0,
        stored.project_id == v.ids.1,
{
}

/// How important an event is goes by what happened: a prompt counts most, then the ends
/// of a session, then a stop or a compaction, then the use of a tool, and the rest least.
pub proof fn importance_goes_by_the_event(v: ProcessorView)
    ensures
        v.observation().importance == (match v.env.event.kind() {
            ObservationKind::UserPrompt => 8u8,
            ObservationKind::SessionStart => 7u8,
            ObservationKind::SessionEnd => 7u8,
            ObservationKind::Stop => 6u8,
            ObservationKind::PreCompact => 6u8,
            ObservationKind::PreToolUse => 5u8,
            ObservationKind::PostToolUse => 5u8,
            ObservationKind::Notification => 3u8,
            ObservationKind::Other => 3u8,
        }),
{
}

/// Every event is recorded: once its project is known, its session is begun there, then
/// the observation is stored, then a line goes into the log, in this order and each with
/// the event's own values, whatever the event is. Only then comes what is left to be
/// done: a checkpoint before a compaction, the closing of a session that ends, and
/// nothing for any other event.
pub proof fn every_event_is_recorded(
    v: ProcessorView,
    retried: bool,
    resolver: ResolverView,
    ids: (WorkspaceId, ProjectId),
    publish: bool,
    entries: Seq<EntryView>,
    title: String,
    logged: Result<(), String>,
)
    ensures
        ({
            let (v1, a1) = process_resolving(
                v,
                retried,
                resolver,
                ResolveActionView::Done { ids, publish },
            );
            let (v2, a2) = process_stepped(v1, ProcessReply::Session(Ok(())), entries);
            let (v3, a3) = process_stepped(v2, ProcessReply::Observation(Ok(title)), entries);
            let (v4, a4) = process_stepped(v3, ProcessReply::Log(logged), entries);
            &&& a1 is BeginSession
            &&& a1->BeginSession_publish == publish
            &&& ({
                let begun = a1->BeginSession_new_session;
                &&& begun.id == v.session
                &&& begun.workspace_id == ids.0
                &&& begun.project_id == ids.1
                &&& begun.agent_kind == v.env.agent@
                &&& v.env.cwd matches Some(cwd) ==> begun.cwd == Some(cwd@)
                &&& v.env.cwd is None ==> begun.cwd is None
            })
            &&& a2 is InsertObservation
            &&& v1.ids == ids && v2.ids == ids && v3.ids == ids && v4.ids == ids
            &&& a3 == ProcessActionView::AppendLog { ids, event: v.env.event, title: title@ }
            &&& v.env.event is PreCompact && v.consolidator ==> a4 == (
            ProcessActionView::ConsolidateSession { session: v.session })
            &&& v.env.event is PreCompact && !v.consolidator ==> a4 == (
            ProcessActionView::LoadObservations { session: v.session })
            &&& v.env.event is SessionEnd ==> a4 == (ProcessActionView::LoadObservations {
                session: v.session,
            })
            &&& !(v.env.event is PreCompact) && !(v.env.event is SessionEnd) ==> a4 is Done
            &&& v1.env == v.env && v2.env == v.env && v3.env == v.env && v4.env == v.env
            &&& v1.session == v.session && v2.session == v.session && v3.session == v.session
            &&& v4.session == v.session
        }),
{
}

/// The processing of an event starts with the resolution of its project, with nothing
/// done before, and knows the event, its session and its settings as they are.
pub proof fn processing_starts_with_the_project(
    env: HookEnvelope,
    state: HookState,
    session: SessionId,
    entries: Seq<EntryView>,
    request: ResolveRequest,
)
    ensures
        ({
            let (v, action) = process_started(env, state, session, entries, request);
            let (resolver, asked) = started(request, entries);
            &&& v.env == env
            &&& v.session == session
            &&& v.consolidator == state.consolidator
            &&& v.consolidate_on_session_end == state.consolidate_on_session_end
            &&& v.resolver == resolver
            &&& asked matches ResolveActionView::Done { ids, publish } ==> action is BeginSession
                && v.ids == ids && action->BeginSession_publish == publish
                && action->BeginSession_new_session.project_id == ids.1
            &&& !(asked is Done) && !(asked is Failed) ==> action == ProcessActionView::Resolve(
                asked,
            )
        }),
{
}

/// While the project is looked for, every reply goes to the resolver, and what it asks
/// for next is asked for next; what it ends in is where the session is begun, and what
/// it fails with fails the event.
pub proof fn resolver_is_followed(
    v: ProcessorView,
    reply: ResolveReply,
    entries: Seq<EntryView>,
    max: nat,
)
    requires
        v.stage is Resolving,
    ensures
        ({
            let (next, action) = process_stepped(v, ProcessReply::Resolve(reply), entries);
            let (resolver, asked) = stepped(v.resolver, reply);
            &&& next.resolver == resolver
            &&& asked matches ResolveActionView::Failed { message } ==> action == (
            ProcessActionView::Failed { message })
            &&& asked matches ResolveActionView::Done { ids, publish } ==> action is BeginSession
                && next.ids == ids && action->BeginSession_publish == publish
                && action->BeginSession_new_session.workspace_id == ids.0
                && action->BeginSession_new_session.project_id == ids.1
            &&& !(asked is Done) && !(asked is Failed) ==> action == ProcessActionView::Resolve(
                asked,
            )
            &&& process_entries_after_step(v, ProcessReply::Resolve(reply), entries, max)
                == entries_after_step(v.resolver, reply, entries, max)
        }),
{
}

/// A session that cannot be begun is tried once more, with its project resolved anew
/// from a cache without the event's slot; the second time the event fails with the
/// store's own words. An observation that cannot be stored fails the event too.
pub proof fn session_is_begun_anew_once(
    v: ProcessorView,
    error: String,
    entries: Seq<EntryView>,
    max: nat,
)
    ensures
        v.stage == (ProcessStage::Beginning { retried: false }) ==> {
            let reply = ProcessReply::Session(Err(error));
            let (next, action) = process_stepped(v, reply, entries);
            let left = without_key(entries, v.resolver.request.key());
            let (resolver, asked) = started(v.resolver.request, left);
            &&& !(asked is Done) && !(asked is Failed) ==> action == ProcessActionView::Resolve(
                asked,
            ) && next.stage == (ProcessStage::Resolving { retried: true })
            &&& next.resolver == resolver
            &&& next.session == v.session && next.env == v.env
            &&& process_entries_after_step(v, reply, entries, max) == entries_after_start(
                v.resolver.request,
                left,
            )
        },
        v.stage == (ProcessStage::Beginning { retried: true }) ==> process_stepped(
            v,
            ProcessReply::Session(Err(error)),
            entries,
        ).1 == (ProcessActionView::Failed { message: error@ }),
        v.stage == ProcessStage::Observing ==> process_stepped(
            v,
            ProcessReply::Observation(Err(error)),
            entries,
        ).1 == (ProcessActionView::Failed { message: error@ }),
{
}

/// A checkpoint before a compaction: where there is a language model, it consolidates
/// the session; else the session's page is written from the session's own observations,
/// unless there are none. What was written is committed, and nothing else is.
pub proof fn checkpoint_is_written_and_committed(
    v: ProcessorView,
    entries: Seq<EntryView>,
    observations: Vec<Observation>,
    page: (PageId, String),
    error: String,
    committed: Result<(), String>,
)
    requires
        v.env.event is PreCompact,
    ensures
        ({
            let message = "pre-compact(session "@ + hyphenated(v.session.0).take(8)
                + "): checkpoint"@;
            let commit = ProcessActionView::CommitAll { message };
            let at = |stage: ProcessStage| v.at(stage);
            let next = |stage: ProcessStage, reply: ProcessReply|
                process_stepped(at(stage), reply, entries);
            let by_model = ProcessStage::CheckpointConsolidating;
            let loading = ProcessStage::CheckpointLoading;
            let writing = ProcessStage::CheckpointWriting;
            let done = ProcessStage::CheckpointCommitting;
            &&& next(by_model, ProcessReply::Consolidated(Ok(()))).1 == commit
            &&& next(by_model, ProcessReply::Consolidated(Err(error))).1 is Done
            &&& observations@.len() > 0 ==> next(
                loading,
                ProcessReply::Observations(Ok(observations)),
            ).1 == (ProcessActionView::WriteSessionPage {
                ids: v.ids,
                session: v.session,
                observations: observations@,
            })
            &&& observations@.len() == 0 ==> next(
                loading,
                ProcessReply::Observations(Ok(observations)),
            ).1 is Done
            &&& next(loading, ProcessReply::Observations(Err(error))).1 is Done
            &&& next(writing, ProcessReply::Page(Ok(page))).1 == commit
            &&& next(writing, ProcessReply::Page(Err(error))).1 is Done
            &&& next(done, ProcessReply::Committed(committed)).1 is Done
        }),
{
}

/// The end of a session, with consolidation at its end: where it is switched on and
/// there is a model, it comes between the handoff and the commit, and its failure
/// changes nothing.
pub proof fn consolidated_end_is_committed(
    v: ProcessorView,
    entries: Seq<EntryView>,
    consolidated: Result<(), String>,
    committed: Result<(), String>,
)
    requires
        v.stage == ProcessStage::EndHandingOff,
        v.consolidator && v.consolidate_on_session_end,
    ensures
        ({
            let (v1, a1) = process_stepped(v, ProcessReply::HandoffStored(Ok(())), entries);
            let (v2, a2) = process_stepped(v1, ProcessReply::Consolidated(consolidated), entries);
            let (v3, a3) = process_stepped(v2, ProcessReply::Committed(committed), entries);
            &&& a1 == ProcessActionView::ConsolidateSession { session: v.session }
            &&& a2 == ProcessActionView::CommitAll {
                message: "session "@ + hyphenated(v.session.0).take(8) + ": "@ + (if v.title.len()
                    <= 60 {
                    v.title
                } else {
                    v.title.take(60)
                }),
            }
            &&& a3 is Done
        }),
{
}

/// A step at the end of a session that fails fails the event, with the words that it
/// failed with: reading the observations, writing the page, closing the session,
/// storing the handoff.
pub proof fn failed_end_fails_the_event(v: ProcessorView, entries: Seq<EntryView>, error: String)
    ensures
        ({
            let failure = ProcessActionView::Failed { message: error@ };
            &&& v.stage is EndLoading ==> process_stepped(
                v,
                ProcessReply::Observations(Err(error)),
                entries,
            ).1 == failure
            &&& v.stage is EndWriting ==> process_stepped(
                v,
                ProcessReply::Page(Err(error)),
                entries,
            ).1 == failure
            &&& v.stage is EndClosing ==> process_stepped(
                v,
                ProcessReply::Ended(Err(error)),
                entries,
            ).1 == failure
            &&& v.stage is EndHandingOff ==> process_stepped(
                v,
                ProcessReply::HandoffStored(Err(error)),
                entries,
            ).1 == failure
        }),
{
}

/// A session whose name spells an identifier is the session of that identifier; any
/// other name leads to the identifier that is made from the name's own bytes.
pub proof fn session_goes_by_its_name(raw: Seq<char>, value: u128)
    ensures
        session_named(hyphenated(value)) == SessionId(value),
        parsed_uuid(raw) is None ==> session_named(raw).0 == name_based_uuid(
            NAMESPACE_OID,
            encode_utf8(raw),
        ),
        parsed_uuid(raw) matches Some(id) ==> session_named(raw).0 == id,
{
    crate::ids::hyphenated_reads_back(value);
}

/// What is to be stored and what is asked for is looked at as it is.
pub proof fn process_action_is_seen_whole(
    action: ProcessAction,
    session: NewSession,
    observation: NewObservation,
)
    ensures
        session@.id == session.id,
        session@.workspace_id == session.workspace_id,
        session@.project_id == session.project_id,
        session@.agent_kind == session.agent_kind@,
        session.cwd matches Some(cwd) ==> session@.cwd == Some(cwd@),
        session.cwd is None ==> session@.cwd is None,
        observation@.session_id == observation.session_id,
        observation@.workspace_id == observation.workspace_id,
        observation@.project_id == observation.project_id,
        observation@.kind == observation.kind,
        observation.extension matches Some(name) ==> observation@.extension == Some(name@),
        observation.extension is None ==> observation@.extension is None,
        observation.source_event matches Some(name) ==> observation@.source_event == Some(name@),
        observation.source_event is None ==> observation@.source_event is None,
        observation@.title == observation.title@,
        observation@.body == observation.body@,
        observation@.importance == observation.importance,
        action matches ProcessAction::Resolve(asked) ==> action@ == ProcessActionView::Resolve(
            asked@,
        ),
        action matches ProcessAction::BeginSession { new_session, publish } ==> action@ == (
        ProcessActionView::BeginSession { new_session: new_session@, publish }),
        action matches ProcessAction::InsertObservation(o) ==> action@
            == ProcessActionView::InsertObservation(o@),
        action matches ProcessAction::AppendLog { ids, event, title } ==> action@ == (
        ProcessActionView::AppendLog { ids, event, title: title@ }),
        action matches ProcessAction::ConsolidateSession { session } ==> action@ == (
        ProcessActionView::ConsolidateSession { session }),
        action matches ProcessAction::LoadObservations { session } ==> action@ == (
        ProcessActionView::LoadObservations { session }),
        action matches ProcessAction::WriteSessionPage { ids, session, observations } ==> action@
            == (ProcessActionView::WriteSessionPage { ids, session, observations: observations@ }),
        action matches ProcessAction::EndSession { session, page } ==> action@ == (
        ProcessActionView::EndSession { session, page }),
        action matches ProcessAction::InsertHandoff(h) ==> action@
            == ProcessActionView::InsertHandoff(h@),
        action matches ProcessAction::CommitAll { message } ==> action@ == (
        ProcessActionView::CommitAll { message: message@ }),
        action is Done ==> action@ is Done,
        action matches ProcessAction::Failed { message } ==> action@ == (
        ProcessActionView::Failed { message: message@ }),
{
}

/// An event is resolved by its own directory, overrides and strategy.
pub proof fn event_is_resolved_by_what_it_says(
    request: ResolveRequest,
    env: HookEnvelope,
    state: HookState,
)
    requires
        is_request_of(request, env, state),
    ensures
        request.cwd is Some <==> env.cwd is Some,
        env.cwd matches Some(text) ==> (request.cwd->0)@ == text@,
        request.workspace_override is Some <==> env.workspace_override is Some,
        env.workspace_override matches Some(text) ==> (request.workspace_override->0)@ == text@,
        request.project_override is Some <==> env.project_override is Some,
        env.project_override matches Some(text) ==> (request.project_override->0)@ == text@,
        request.strategy == env.project_strategy,
        request.defaults == (state.workspace_id, state.project_id),
        request.home_dir is Some <==> state.home_dir is Some,
        state.home_dir matches Some(text) ==> (request.home_dir->0)@ == text@,
{
}

/// An event has a session exactly where the agent names one or it starts one, and two
/// events with the same name for it have the same session.
pub proof fn session_is_kept_through_its_events(
    a: HookEnvelope,
    b: HookEnvelope,
    first: Result<SessionId, String>,
    second: Result<SessionId, String>,
)
    requires
        call_ensures(resolve_session_id, (&a,), first),
        call_ensures(resolve_session_id, (&b,), second),
    ensures
        first is Ok <==> a.session_id is Some || a.event is SessionStart,
        first matches Err(message) ==> message@
            == "hook payload missing session_id and event is not session-start"@,
        a.session_id is Some && b.session_id is Some && (a.session_id->0)@ == (b.session_id->0)@
            ==> first == second,
        a.session_id matches Some(raw) ==> (parsed_uuid(raw@) matches Some(id) ==> first
            == Ok::<SessionId, String>(SessionId(id))),
        a.session_id matches Some(raw) ==> (parsed_uuid(raw@) is None ==> first
            == Ok::<SessionId, String>(
            SessionId(name_based_uuid(NAMESPACE_OID, encode_utf8(raw@))),
        )),
{
}

/// A session that the agent names is never replaced by a drawn one, and the start of an
/// identifier is its first eight characters.
pub proof fn named_session_comes_first(
    named: Option<SessionId>,
    drawn: Option<SessionId>,
    r: Result<SessionId, String>,
    s: &str,
    short: String,
)
    requires
        call_ensures(session_of, (named, drawn), r),
        call_ensures(short_id, (s,), short),
    ensures
        named matches Some(id) ==> r == Ok::<SessionId, String>(id),
        named is None && drawn is Some ==> r == Ok::<SessionId, String>(drawn->0),
        r is Err <==> named is None && drawn is None,
        s@.len() <= 8 ==> short@ == s@,
        s@.len() > 8 ==> short@ == s@.take(8),
{
}

/// Whatever is replied, the event stays the event, of the same session, under the same
/// settings and with the same request; its project stays too once its session is begun,
/// and the title and the handoff of its session until they are replaced or handed on.
pub proof fn event_stays_the_event(v: ProcessorView, reply: ProcessReply, entries: Seq<EntryView>)
    ensures
        ({
            let next = process_stepped(v, reply, entries).0;
            &&& next.env == v.env
            &&& next.session == v.session
            &&& next.consolidator == v.consolidator
            &&& next.consolidate_on_session_end == v.consolidate_on_session_end
            &&& next.resolver.request == v.resolver.request
            &&& !(v.stage is Resolving) && !(v.stage is Beginning) ==> next.ids == v.ids
                && next.resolver == v.resolver
            &&& !(v.stage is EndWriting) ==> next.title == v.title
            &&& !(v.stage is EndLoading) && !(v.stage is EndClosing) ==> next.handoff == v.handoff
        }),
{
    if let ProcessReply::Resolve(answer) = reply {
        assert(stepped(v.resolver, answer).0.request == v.resolver.request);
    }
}

/// The steps of an event are not left out: each good reply leads on to the next one,
/// and what ends the processing is only the last.
pub proof fn no_step_is_left_out(
    v: ProcessorView,
    entries: Seq<EntryView>,
    title: String,
    logged: Result<(), String>,
    observations: Vec<Observation>,
    page: (PageId, String),
)
    ensures
        v.stage is Beginning ==> process_stepped(
            v,
            ProcessReply::Session(Ok(())),
            entries,
        ).0.stage is Observing,
        v.stage is Observing ==> process_stepped(
            v,
            ProcessReply::Observation(Ok(title)),
            entries,
        ).0.stage is Logging,
        v.stage is Logging ==> ({
            let stage = process_stepped(v, ProcessReply::Log(logged), entries).0.stage;
            &&& v.env.event is SessionEnd <==> stage is EndLoading
            &&& v.env.event is PreCompact && v.consolidator <==> stage is CheckpointConsolidating
            &&& v.env.event is PreCompact && !v.consolidator <==> stage is CheckpointLoading
            &&& !(v.env.event is SessionEnd) && !(v.env.event is PreCompact) <==> stage is Finished
        }),
        v.stage is CheckpointConsolidating ==> process_stepped(
            v,
            ProcessReply::Consolidated(Ok(())),
            entries,
        ).0.stage is CheckpointCommitting,
        v.stage is CheckpointLoading && observations@.len() > 0 ==> process_stepped(
            v,
            ProcessReply::Observations(Ok(observations)),
            entries,
        ).0.stage is CheckpointWriting,
        v.stage is CheckpointWriting ==> process_stepped(
            v,
            ProcessReply::Page(Ok(page)),
            entries,
        ).0.stage is CheckpointCommitting,
{
}

/// The end of a session, whatever its settings: its page is written from its own
/// observations, the session is closed with that page, its handoff is stored as its
/// observations tell it, and the commit is the last step.
pub proof fn end_goes_step_by_step(
    v: ProcessorView,
    entries: Seq<EntryView>,
    observations: Vec<Observation>,
    page: PageId,
    title: String,
    consolidated: Result<(), String>,
    committed: Result<(), String>,
)
    ensures
        v.stage is EndLoading ==> ({
            let (next, action) = process_stepped(
                v,
                ProcessReply::Observations(Ok(observations)),
                entries,
            );
            &&& action == ProcessActionView::WriteSessionPage {
                ids: v.ids,
                session: v.session,
                observations: observations@,
            }
            &&& next.stage is EndWriting
            &&& next.handoff == Some(
                auto_handoff(
                    v.ids.0,
                    v.ids.1,
                    v.env.agent@,
                    v.session,
                    match v.env.cwd {
                        Some(cwd) => Some(cwd@),
                        None => None,
                    },
                    observations@,
                ),
            )
        }),
        v.stage is EndWriting ==> ({
            let (next, action) = process_stepped(
                v,
                ProcessReply::Page(Ok((page, title))),
                entries,
            );
            &&& action == ProcessActionView::EndSession { session: v.session, page }
            &&& next.stage is EndClosing && next.title == title@
        }),
        v.stage is EndClosing && v.handoff is Some ==> ({
            let (next, action) = process_stepped(v, ProcessReply::Ended(Ok(())), entries);
            action == ProcessActionView::InsertHandoff(v.handoff->0) && next.stage is EndHandingOff
        }),
        v.stage is EndHandingOff ==> ({
            let (next, action) = process_stepped(v, ProcessReply::HandoffStored(Ok(())), entries);
            &&& v.consolidator && v.consolidate_on_session_end ==> action is ConsolidateSession
                && next.stage is EndConsolidating
            &&& !(v.consolidator && v.consolidate_on_session_end) ==> action is CommitAll
                && next.stage is EndCommitting
        }),
        v.stage is EndConsolidating ==> ({
            let (next, action) = process_stepped(
                v,
                ProcessReply::Consolidated(consolidated),
                entries,
            );
            action is CommitAll && next.stage is EndCommitting
        }),
        v.stage is EndCommitting ==> ({
            let (next, action) = process_stepped(v, ProcessReply::Committed(committed), entries);
            action is Done && next.stage is Finished
        }),
{
}

} // verus!
