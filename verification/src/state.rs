//! What the hook endpoints are configured with.
use crate::ids::{ProjectId, WorkspaceId};
use crate::payload::ProjectStrategy;
use crate::resolve::ResolveRequest;
use crate::text::{opt_copy, opt_view};
use vstd::prelude::*;

verus! {

/// Settings of the hook endpoints.
#[derive(Debug)]
pub struct HookState {
    /// Workspace of an event that says nothing.
    pub workspace_id: WorkspaceId,
    /// Project of an event that says nothing.
    pub project_id: ProjectId,
    /// Whether a language model can consolidate a session. Without one the session
    /// page is written by rule.
    pub consolidator: bool,
    /// Whether a session is consolidated when it ends, on top of its page.
    pub consolidate_on_session_end: bool,
    /// The operator's home directory, which is no project's root.
    pub home_dir: Option<String>,
    /// The names of the agents that are told apart.
    pub known_agents: Vec<String>,
}

/// Whose active project is meant.
#[derive(Debug)]
pub struct ActorKey {
    /// The user that the request was made by.
    pub user: Option<String>,
    /// The agent's own name for the session.
    pub session_id: Option<String>,
}

/// `request` is what an event with this directory and these overrides asks for.
pub open spec fn is_request(
    request: ResolveRequest,
    state: HookState,
    cwd: Option<String>,
    workspace: Option<String>,
    project: Option<String>,
    strategy: ProjectStrategy,
) -> bool {
    &&& opt_view(request.cwd) == opt_view(cwd)
    &&& opt_view(request.workspace_override) == opt_view(workspace)
    &&& opt_view(request.project_override) == opt_view(project)
    &&& request.strategy == strategy
    &&& request.defaults == (state.workspace_id, state.project_id)
    &&& opt_view(request.home_dir) == opt_view(state.home_dir)
}

/// What an event with this directory and these overrides asks for.
pub fn request_for(
    state: &HookState,
    cwd: &Option<String>,
    workspace: &Option<String>,
    project: &Option<String>,
    strategy: ProjectStrategy,
) -> (r: ResolveRequest)
    ensures
        is_request(r, *state, *cwd, *workspace, *project, strategy),
{
    ResolveRequest {
        cwd: opt_copy(cwd),
        workspace_override: opt_copy(workspace),
        project_override: opt_copy(project),
        strategy,
        defaults: (state.workspace_id, state.project_id),
        home_dir: opt_copy(&state.home_dir),
    }
}

/// Whose active project an event is about: the user of the request, and the session
/// as the agent names it.
pub fn actor_key(user: &Option<String>, session_id: &Option<String>) -> (r: ActorKey)
    ensures
        opt_view(r.user) == opt_view(*user),
        opt_view(r.session_id) == opt_view(*session_id),
{
    ActorKey { user: opt_copy(user), session_id: opt_copy(session_id) }
}

/// An event is resolved by what it says and by what the endpoints are set up with: its
/// directory, its overrides and its strategy, the default project and the home
/// directory.
pub proof fn request_says_what_the_event_says(
    request: ResolveRequest,
    state: HookState,
    cwd: Option<String>,
    workspace: Option<String>,
    project: Option<String>,
    strategy: ProjectStrategy,
)
    requires
        is_request(request, state, cwd, workspace, project, strategy),
    ensures
        request.cwd is Some <==> cwd is Some,
        cwd matches Some(text) ==> (request.cwd->0)@ == text@,
        request.workspace_override is Some <==> workspace is Some,
        workspace matches Some(text) ==> (request.workspace_override->0)@ == text@,
        request.project_override is Some <==> project is Some,
        project matches Some(text) ==> (request.project_override->0)@ == text@,
        request.strategy == strategy,
        request.defaults.0 == state.workspace_id,
        request.defaults.1 == state.project_id,
        request.home_dir is Some <==> state.home_dir is Some,
        state.home_dir matches Some(text) ==> (request.home_dir->0)@ == text@,
{
}

/// An active project is kept for the user and the session that are given.
pub proof fn actor_is_the_one_given(user: Option<String>, session_id: Option<String>, r: ActorKey)
    requires
        call_ensures(actor_key, (&user, &session_id), r),
    ensures
        r.user is Some <==> user is Some,
        user matches Some(text) ==> (r.user->0)@ == text@,
        r.session_id is Some <==> session_id is Some,
        session_id matches Some(text) ==> (r.session_id->0)@ == text@,
{
}

} // verus!
