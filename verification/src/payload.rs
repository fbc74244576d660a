//! What arrives at the hook endpoints.
use crate::text::{same_text, views};
use vstd::prelude::*;

verus! {

/// The workspace that is used where none is asked for.
pub const DEFAULT_WORKSPACE_NAME: &'static str = "default";

/// How a project is named after a working directory.
#[derive(Debug, Clone, Copy, PartialEq, Eq, Structural)]
pub enum ProjectStrategy {
    /// After the last component of the directory.
    Basename,
    /// After the root of the repository that the directory is in.
    RepoRoot,
}

impl ProjectStrategy {
    /// The name that the strategy goes by.
    pub open spec fn name(self) -> Seq<char> {
        match self {
            ProjectStrategy::Basename => "basename"@,
            ProjectStrategy::RepoRoot => "repo-root"@,
        }
    }

    /// The strategy that is asked for.
    pub open spec fn parsed(raw: Option<Seq<char>>) -> ProjectStrategy {
        match raw {
            Some(name) => if name == "repo-root"@ || name == "repo_root"@ {
                ProjectStrategy::RepoRoot
            } else {
                ProjectStrategy::Basename
            },
            None => ProjectStrategy::Basename,
        }
    }

    /// The name that the strategy goes by.
    pub fn as_str(self) -> (r: &'static str)
        ensures
            r@ == self.name(),
    {
        match self {
            ProjectStrategy::Basename => "basename",
            ProjectStrategy::RepoRoot => "repo-root",
        }
    }

    /// The strategy that is asked for; one that is not known is [`Self::Basename`].
    pub fn parse(raw: Option<&str>) -> (r: Self)
        ensures
            r == Self::parsed(
                match raw {
                    Some(name) => Some(name@),
                    None => None,
                },
            ),
    {
        match raw {
            Some(name) => if same_text(name, "repo-root") || same_text(name, "repo_root") {
                ProjectStrategy::RepoRoot
            } else {
                ProjectStrategy::Basename
            },
            None => ProjectStrategy::Basename,
        }
    }
}

/// The program that an event comes from.
#[derive(Debug)]
pub enum AgentKind {
    /// An agent that is known by this name.
    Known(String),
    /// Any other agent.
    Other,
}

impl View for AgentKind {
    type V = Option<Seq<char>>;

    open spec fn view(&self) -> Option<Seq<char>> {
        match *self {
            AgentKind::Known(name) => Some(name@),
            AgentKind::Other => None,
        }
    }
}

/// The name that an agent goes by.
pub open spec fn agent_name(agent: Option<Seq<char>>) -> Seq<char> {
    match agent {
        Some(name) => name,
        None => "other"@,
    }
}

/// The agent of a name: one of the `known` ones, or else any other.
pub open spec fn agent_named(raw: Seq<char>, known: Seq<Seq<char>>) -> Option<Seq<char>> {
    if known.contains(raw) {
        Some(raw)
    } else {
        None
    }
}

impl AgentKind {
    /// The name that the agent goes by.
    pub fn as_str(&self) -> (r: &str)
        ensures
            r@ == agent_name(self@),
    {
        match self {
            AgentKind::Known(name) => name.as_str(),
            AgentKind::Other => "other",
        }
    }

    /// The same agent.
    pub fn copy(&self) -> (r: AgentKind)
        ensures
            r@ == self@,
    {
        match self {
            AgentKind::Known(name) => AgentKind::Known(name.clone()),
            AgentKind::Other => AgentKind::Other,
        }
    }
}

/// The agent of a name; [`AgentKind::Other`] where none of the `known` agents has it.
pub fn parse_agent(raw: &str, known: &Vec<String>) -> (r: AgentKind)
    ensures
        r@ == agent_named(raw@, views(known@)),
{
    let mut i: usize = 0;
    while i < known.len()
        invariant
            i <= known@.len(),
            forall|j: int| 0 <= j < i ==> #[trigger] views(known@)[j] != raw@,
        decreases known.len() - i,
    {
        if same_text(known[i].as_str(), raw) {
            assert(views(known@)[i as int] == raw@);
            return AgentKind::Known(raw.to_string());
        }
        i = i + 1;
    }
    AgentKind::Other
}

/// What happened in the agent.
#[derive(Debug, Clone, Copy, PartialEq, Eq, Structural)]
pub enum HookEvent {
    SessionStart,
    SessionEnd,
    UserPrompt,
    PreToolUse,
    PostToolUse,
    Stop,
    PreCompact,
    Notification,
    Other,
}

/// What an observation is about.
#[derive(Debug, Clone, Copy, PartialEq, Eq, Structural)]
pub enum ObservationKind {
    SessionStart,
    SessionEnd,
    UserPrompt,
    PreToolUse,
    PostToolUse,
    Stop,
    PreCompact,
    Notification,
    Other,
}

impl ObservationKind {
    /// The name that the kind goes by.
    pub open spec fn name(self) -> Seq<char> {
        match self {
            ObservationKind::SessionStart => "session-start"@,
            ObservationKind::SessionEnd => "session-end"@,
            ObservationKind::UserPrompt => "user-prompt"@,
            ObservationKind::PreToolUse => "pre-tool-use"@,
            ObservationKind::PostToolUse => "post-tool-use"@,
            ObservationKind::Stop => "stop"@,
            ObservationKind::PreCompact => "pre-compact"@,
            ObservationKind::Notification => "notification"@,
            ObservationKind::Other => "other"@,
        }
    }

    /// The name that the kind goes by.
    pub fn as_str(self) -> (r: &'static str)
        ensures
            r@ == self.name(),
    {
        match self {
            ObservationKind::SessionStart => "session-start",
            ObservationKind::SessionEnd => "session-end",
            ObservationKind::UserPrompt => "user-prompt",
            ObservationKind::PreToolUse => "pre-tool-use",
            ObservationKind::PostToolUse => "post-tool-use",
            ObservationKind::Stop => "stop",
            ObservationKind::PreCompact => "pre-compact",
            ObservationKind::Notification => "notification",
            ObservationKind::Other => "other",
        }
    }
}

impl HookEvent {
    /// The kind of the observation that the event leaves.
    pub open spec fn kind(self) -> ObservationKind {
        match self {
            HookEvent::SessionStart => ObservationKind::SessionStart,
            HookEvent::SessionEnd => ObservationKind::SessionEnd,
            HookEvent::UserPrompt => ObservationKind::UserPrompt,
            HookEvent::PreToolUse => ObservationKind::PreToolUse,
            HookEvent::PostToolUse => ObservationKind::PostToolUse,
            HookEvent::Stop => ObservationKind::Stop,
            HookEvent::PreCompact => ObservationKind::PreCompact,
            HookEvent::Notification => ObservationKind::Notification,
            HookEvent::Other => ObservationKind::Other,
        }
    }

    /// The kind of the observation that the event leaves.
    pub fn to_observation_kind(self) -> (r: ObservationKind)
        ensures
            r == self.kind(),
    {
        match self {
            HookEvent::SessionStart => ObservationKind::SessionStart,
            HookEvent::SessionEnd => ObservationKind::SessionEnd,
            HookEvent::UserPrompt => ObservationKind::UserPrompt,
            HookEvent::PreToolUse => ObservationKind::PreToolUse,
            HookEvent::PostToolUse => ObservationKind::PostToolUse,
            HookEvent::Stop => ObservationKind::Stop,
            HookEvent::PreCompact => ObservationKind::PreCompact,
            HookEvent::Notification => ObservationKind::Notification,
            HookEvent::Other => ObservationKind::Other,
        }
    }
}

/// An event with what the agent said of it.
#[derive(Debug)]
pub struct HookEnvelope {
    /// What happened.
    pub event: HookEvent,
    /// Where it happened.
    pub agent: AgentKind,
    /// The agent's own name for the session.
    pub session_id: Option<String>,
    /// The agent's working directory.
    pub cwd: Option<String>,
    /// The workspace that the agent's host asks for.
    pub workspace_override: Option<String>,
    /// The project that the agent's host asks for.
    pub project_override: Option<String>,
    /// How the project is named where none is asked for.
    pub project_strategy: ProjectStrategy,
    /// A title for the observation.
    pub title_hint: Option<String>,
    /// A text for the observation.
    pub body_excerpt: Option<String>,
    /// The extension that the event belongs to.
    pub extension: Option<String>,
    /// The name of the event in its extension.
    pub source_event: Option<String>,
}

/// Query parameters of `GET /handoff`.
#[derive(Debug, Clone, Default)]
pub struct HandoffQuery {
    /// The agent that fetches the handoff; one that is not known is [`AgentKind::Other`].
    pub agent: Option<String>,
    /// The working directory: only handoffs of the same one are returned. The text is
    /// not made canonical, so paths through links must match byte for byte.
    pub cwd: Option<String>,
    /// The workspace that the agent's host asks for.
    pub workspace: Option<String>,
    /// The project that the agent's host asks for.
    pub project: Option<String>,
    /// How the project is named where none is asked for.
    pub project_strategy: Option<String>,
}

/// A known agent is read back from its name, and so is any other, unless a known one
/// is called so.
pub proof fn agent_name_reads_back(agent: Option<Seq<char>>, known: Seq<Seq<char>>)
    requires
        agent matches Some(name) ==> known.contains(name),
        !known.contains("other"@),
    ensures
        agent_named(agent_name(agent), known) == agent,
{
}

/// The strategies differ by name.
pub proof fn strategy_names_are_distinct(a: ProjectStrategy, b: ProjectStrategy)
    requires
        a.name() == b.name(),
    ensures
        a == b,
{
    reveal_strlit("basename");
    reveal_strlit("repo-root");
    assert("basename"@[0] != "repo-root"@[0]);
}

/// What a strategy calls itself is read back as that strategy.
pub proof fn strategy_name_reads_back(strategy: ProjectStrategy)
    ensures
        ProjectStrategy::parsed(Some(strategy.name())) == strategy,
{
    reveal_strlit("basename");
    reveal_strlit("repo-root");
    reveal_strlit("repo_root");
    assert("basename"@[0] != "repo_root"@[0]);
}

/// The repo-root strategy is asked for by one of two spellings of its name; anything
/// else, and nothing, asks for the basename strategy.
pub proof fn two_spellings_ask_for_the_repo_root(raw: Option<Seq<char>>)
    ensures
        ProjectStrategy::parsed(raw) == ProjectStrategy::RepoRoot <==> raw == Some("repo-root"@)
            || raw == Some("repo_root"@),
        ProjectStrategy::Basename.name() == "basename"@,
        ProjectStrategy::RepoRoot.name() == "repo-root"@,
{
}

/// An agent is known exactly where its name is one of the known ones, letter for letter,
/// and it keeps that name.
pub proof fn agent_is_known_by_its_name(raw: Seq<char>, known: Seq<Seq<char>>, agent: AgentKind)
    ensures
        (exists|i: int| 0 <= i < known.len() && #[trigger] known[i] == raw) ==> agent_named(
            raw,
            known,
        ) == Some(raw),
        (forall|i: int| 0 <= i < known.len() ==> #[trigger] known[i] != raw) ==> agent_named(
            raw,
            known,
        ) is None,
        agent matches AgentKind::Known(name) ==> agent@ == Some(name@) && agent_name(agent@)
            == name@,
        agent is Other ==> agent@ is None && agent_name(agent@) == "other"@,
{
}

/// An event is remembered as what it is: the kind of its observation has the same name.
pub proof fn observation_is_of_the_kind_of_its_event(event: HookEvent)
    ensures
        event is SessionStart <==> event.kind() is SessionStart,
        event is SessionEnd <==> event.kind() is SessionEnd,
        event is UserPrompt <==> event.kind() is UserPrompt,
        event is PreToolUse <==> event.kind() is PreToolUse,
        event is PostToolUse <==> event.kind() is PostToolUse,
        event is Stop <==> event.kind() is Stop,
        event is PreCompact <==> event.kind() is PreCompact,
        event is Notification <==> event.kind() is Notification,
        event is Other <==> event.kind() is Other,
{
}

/// Kinds of observations differ by name.
pub proof fn kind_names_are_distinct(a: ObservationKind, b: ObservationKind)
    requires
        a.name() == b.name(),
    ensures
        a == b,
{
    reveal_strlit("session-start");
    reveal_strlit("session-end");
    reveal_strlit("user-prompt");
    reveal_strlit("pre-tool-use");
    reveal_strlit("post-tool-use");
    reveal_strlit("stop");
    reveal_strlit("pre-compact");
    reveal_strlit("notification");
    reveal_strlit("other");
    assert("session-start"@.len() == 13 && "post-tool-use"@.len() == 13);
    assert("session-end"@.len() == 11 && "user-prompt"@.len() == 11 && "pre-compact"@.len() == 11);
    assert("pre-tool-use"@.len() == 12 && "notification"@.len() == 12);
    assert("stop"@.len() == 4 && "other"@.len() == 5);
    assert("session-start"@[0] != "post-tool-use"@[0]);
    assert("session-end"@[0] != "user-prompt"@[0]);
    assert("session-end"@[0] != "pre-compact"@[0]);
    assert("user-prompt"@[0] != "pre-compact"@[0]);
    assert("pre-tool-use"@[0] != "notification"@[0]);
}

} // verus!
