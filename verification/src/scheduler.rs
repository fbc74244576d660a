//! Which ended sessions are looked at for improvements.
use crate::auto_improve::SessionRow;
use crate::ids::{ProjectId, SessionId, WorkspaceId};
use vstd::prelude::*;

verus! {

/// Where the scheduler of a project stands. Times are in microseconds.
#[derive(Debug, Clone, Copy, PartialEq, Eq, Structural)]
pub struct SchedulerState {
    pub workspace_id: WorkspaceId,
    pub project_id: ProjectId,
    /// Sessions that ended up to here are not looked at.
    pub watermark_ended_at: i64,
    pub initialized_at: i64,
    pub updated_at: i64,
}

/// A session that is looked at, or was.
#[derive(Debug, Clone, Copy, PartialEq, Eq, Structural)]
pub struct SchedulerClaim {
    pub workspace_id: WorkspaceId,
    pub project_id: ProjectId,
    pub session_id: SessionId,
    pub claimed_at: i64,
}

/// The project and the session that a run was made for.
#[derive(Debug, Clone, Copy, PartialEq, Eq, Structural)]
pub struct RunScope {
    pub workspace_id: WorkspaceId,
    pub project_id: ProjectId,
    pub session_id: Option<SessionId>,
}

/// What a claim changes in the store: the claim is added, the state is replaced.
#[derive(Debug, Clone, Copy, PartialEq, Eq, Structural)]
pub struct Claimed {
    pub claim: SchedulerClaim,
    pub state: SchedulerState,
}

/// The session is one of the project that ended at `at`.
pub open spec fn ended_at(
    session: SessionRow,
    workspace_id: WorkspaceId,
    project_id: ProjectId,
    at: i64,
) -> bool {
    &&& session.workspace_id == workspace_id
    &&& session.project_id == project_id
    &&& session.ended_at == Some(at)
}

/// `watermark` is when the project's last session ended, or zero where none did.
pub open spec fn is_watermark(
    sessions: Seq<SessionRow>,
    workspace_id: WorkspaceId,
    project_id: ProjectId,
    watermark: i64,
) -> bool {
    &&& forall|i: int, at: i64|
        0 <= i < sessions.len() && #[trigger] ended_at(sessions[i], workspace_id, project_id, at)
            ==> at <= watermark
    &&& (exists|i: int|
        0 <= i < sessions.len() && #[trigger] ended_at(
            sessions[i],
            workspace_id,
            project_id,
            watermark,
        )) || (watermark == 0 && forall|i: int, at: i64|
        0 <= i < sessions.len() ==> !#[trigger] ended_at(
            sessions[i],
            workspace_id,
            project_id,
            at,
        ))
}

/// The state of a project's scheduler, to be added where the project has none: what
/// ended before is not looked at. A state that is there is left as it is.
pub fn ensure_scheduler_state(
    existing: Option<SchedulerState>,
    sessions: &Vec<SessionRow>,
    workspace_id: WorkspaceId,
    project_id: ProjectId,
    now: i64,
) -> (r: Option<SchedulerState>)
    ensures
        r is None <==> existing is Some,
        r matches Some(state) ==> {
            &&& state.workspace_id == workspace_id
            &&& state.project_id == project_id
            &&& is_watermark(sessions@, workspace_id, project_id, state.watermark_ended_at)
            &&& state.initialized_at == now
            &&& state.updated_at == now
        },
{
    if existing.is_some() {
        return None;
    }
    let mut last: Option<i64> = None;
    let mut i: usize = 0;
    while i < sessions.len()
        invariant
            i <= sessions@.len(),
            match last {
                Some(watermark) => {
                    &&& forall|j: int, at: i64|
                        0 <= j < i && #[trigger] ended_at(
                            sessions@[j],
                            workspace_id,
                            project_id,
                            at,
                        ) ==> at <= watermark
                    &&& exists|j: int|
                        0 <= j < i && #[trigger] ended_at(
                            sessions@[j],
                            workspace_id,
                            project_id,
                            watermark,
                        )
                },
                None => forall|j: int, at: i64|
                    0 <= j < i ==> !#[trigger] ended_at(
                        sessions@[j],
                        workspace_id,
                        project_id,
                        at,
                    ),
            },
        decreases sessions.len() - i,
    {
        let session = &sessions[i];
        if session.workspace_id == workspace_id && session.project_id == project_id {
            if let Some(at) = session.ended_at {
                assert(ended_at(sessions@[i as int], workspace_id, project_id, at));
                let later = match last {
                    Some(watermark) => at > watermark,
                    None => true,
                };
                if later {
                    last = Some(at);
                }
            }
        }
        i = i + 1;
    }
    let watermark_ended_at: i64 = match last {
        Some(watermark) => watermark,
        None => 0,
    };
    Some(
        SchedulerState {
            workspace_id,
            project_id,
            watermark_ended_at,
            initialized_at: now,
            updated_at: now,
        },
    )
}

/// The session is looked at, or was.
pub open spec fn is_claimed(
    claims: Seq<SchedulerClaim>,
    workspace_id: WorkspaceId,
    project_id: ProjectId,
    session_id: SessionId,
) -> bool {
    exists|i: int|
        0 <= i < claims.len() && (#[trigger] claims[i]).workspace_id == workspace_id
            && claims[i].project_id == project_id && claims[i].session_id == session_id
}

/// A run was made for the session.
pub open spec fn has_run(
    runs: Seq<RunScope>,
    workspace_id: WorkspaceId,
    project_id: ProjectId,
    session_id: SessionId,
) -> bool {
    exists|i: int|
        0 <= i < runs.len() && (#[trigger] runs[i]).workspace_id == workspace_id
            && runs[i].project_id == project_id && runs[i].session_id == Some(session_id)
}

/// The session may be looked at: it is one of the project, ended when it is said to
/// have ended, ended after the watermark, has no run and was not claimed.
pub open spec fn may_claim(
    state: Option<SchedulerState>,
    session: Option<SessionRow>,
    runs: Seq<RunScope>,
    claims: Seq<SchedulerClaim>,
    workspace_id: WorkspaceId,
    project_id: ProjectId,
    session_id: SessionId,
    at: i64,
) -> bool {
    &&& state matches Some(st) && st.workspace_id == workspace_id && st.project_id == project_id
        && at > st.watermark_ended_at
    &&& session matches Some(s) && s.id == session_id && ended_at(s, workspace_id, project_id, at)
    &&& !has_run(runs, workspace_id, project_id, session_id)
    &&& !is_claimed(claims, workspace_id, project_id, session_id)
}

/// Claims a session for the scheduler. `state` is the stored state of the scheduler,
/// `session` the stored session, `runs` and `claims` are the stored runs and claims
/// that name the session.
pub fn claim_scheduler_session(
    state: Option<SchedulerState>,
    session: &Option<SessionRow>,
    runs: &Vec<RunScope>,
    claims: &Vec<SchedulerClaim>,
    workspace_id: WorkspaceId,
    project_id: ProjectId,
    session_id: SessionId,
    ended_at: i64,
    now: i64,
) -> (r: Option<Claimed>)
    ensures
        r is Some <==> may_claim(
            state,
            *session,
            runs@,
            claims@,
            workspace_id,
            project_id,
            session_id,
            ended_at,
        ),
        r matches Some(claimed) ==> claimed.claim == (SchedulerClaim {
            workspace_id,
            project_id,
            session_id,
            claimed_at: now,
        }) && claimed.state == (SchedulerState { updated_at: now, ..state->0 }),
{
    let mut i: usize = 0;
    while i < runs.len()
        invariant
            i <= runs@.len(),
            forall|j: int|
                0 <= j < i ==> !((#[trigger] runs@[j]).workspace_id == workspace_id
                    && runs@[j].project_id == project_id && runs@[j].session_id == Some(
                    session_id,
                )),
        decreases runs.len() - i,
    {
        let run = &runs[i];
        if run.workspace_id == workspace_id && run.project_id == project_id {
            if let Some(id) = run.session_id {
                if id == session_id {
                    return None;
                }
            }
        }
        i = i + 1;
    }
    let mut i: usize = 0;
    while i < claims.len()
        invariant
            i <= claims@.len(),
            forall|j: int|
                0 <= j < i ==> !((#[trigger] claims@[j]).workspace_id == workspace_id
                    && claims@[j].project_id == project_id && claims@[j].session_id
                    == session_id),
        decreases claims.len() - i,
    {
        let claim = &claims[i];
        if claim.workspace_id == workspace_id && claim.project_id == project_id
            && claim.session_id == session_id {
            return None;
        }
        i = i + 1;
    }
    let ended_then = match session {
        Some(s) => s.id == session_id && s.workspace_id == workspace_id && s.project_id
            == project_id && match s.ended_at {
            Some(at) => at == ended_at,
            None => false,
        },
        None => false,
    };
    match state {
        Some(st) => if ended_then && st.workspace_id == workspace_id && st.project_id
            == project_id && ended_at > st.watermark_ended_at {
            let mut next = st;
            next.updated_at = now;
            Some(
                Claimed {
                    claim: SchedulerClaim {
                        workspace_id,
                        project_id,
                        session_id,
                        claimed_at: now,
                    },
                    state: next,
                },
            )
        } else {
            None
        },
        None => None,
    }
}

/// A session is claimed at most once.
pub proof fn claimed_session_is_not_claimed_again(
    state: Option<SchedulerState>,
    session: Option<SessionRow>,
    runs: Seq<RunScope>,
    claims: Seq<SchedulerClaim>,
    claim: SchedulerClaim,
    at: i64,
)
    ensures
        !may_claim(
            state,
            session,
            runs,
            claims.push(claim),
            claim.workspace_id,
            claim.project_id,
            claim.session_id,
            at,
        ),
{
    assert(claims.push(claim)[claims.len() as int] == claim);
}

/// A session that ended before the scheduler was set up is never claimed.
pub proof fn session_before_the_watermark_is_not_claimed(
    sessions: Seq<SessionRow>,
    state: SchedulerState,
    i: int,
    runs: Seq<RunScope>,
    claims: Seq<SchedulerClaim>,
    at: i64,
)
    requires
        0 <= i < sessions.len(),
        is_watermark(sessions, state.workspace_id, state.project_id, state.watermark_ended_at),
    ensures
        !may_claim(
            Some(state),
            Some(sessions[i]),
            runs,
            claims,
            state.workspace_id,
            state.project_id,
            sessions[i].id,
            at,
        ),
{
    if ended_at(sessions[i], state.workspace_id, state.project_id, at) {
        assert(at <= state.watermark_ended_at);
    }
}

/// A session that a run was made for is not claimed.
pub proof fn session_with_a_run_is_not_claimed(
    state: Option<SchedulerState>,
    session: Option<SessionRow>,
    runs: Seq<RunScope>,
    claims: Seq<SchedulerClaim>,
    run: RunScope,
    session_id: SessionId,
    at: i64,
)
    requires
        run.session_id == Some(session_id),
    ensures
        !may_claim(
            state,
            session,
            runs.push(run),
            claims,
            run.workspace_id,
            run.project_id,
            session_id,
            at,
        ),
{
    assert(runs.push(run)[runs.len() as int] == run);
}

/// The watermark is determined by the sessions.
pub proof fn watermark_is_unique(
    sessions: Seq<SessionRow>,
    workspace_id: WorkspaceId,
    project_id: ProjectId,
    a: i64,
    b: i64,
)
    requires
        is_watermark(sessions, workspace_id, project_id, a),
        is_watermark(sessions, workspace_id, project_id, b),
    ensures
        a == b,
{
}

/// A session is claimed exactly where the project has a scheduler, the session is the one
/// that is meant, of this project, and ended when it is said to have ended and after the
/// scheduler's watermark, and neither a run nor a claim of this project names it.
pub proof fn claim_goes_by_the_rows(
    state: Option<SchedulerState>,
    session: Option<SessionRow>,
    runs: Seq<RunScope>,
    claims: Seq<SchedulerClaim>,
    workspace_id: WorkspaceId,
    project_id: ProjectId,
    session_id: SessionId,
    at: i64,
)
    ensures
        may_claim(
            state,
            session,
            runs,
            claims,
            workspace_id,
            project_id,
            session_id,
            at,
        ) <==> {
            &&& state is Some
            &&& (state->0).workspace_id == workspace_id
            &&& (state->0).project_id == project_id
            &&& (state->0).watermark_ended_at < at
            &&& session is Some
            &&& (session->0).id == session_id
            &&& (session->0).workspace_id == workspace_id
            &&& (session->0).project_id == project_id
            &&& (session->0).ended_at == Some(at)
            &&& forall|i: int|
                0 <= i < runs.len() ==> (#[trigger] runs[i]).workspace_id != workspace_id
                    || runs[i].project_id != project_id || runs[i].session_id != Some(session_id)
            &&& forall|i: int|
                0 <= i < claims.len() ==> (#[trigger] claims[i]).workspace_id != workspace_id
                    || claims[i].project_id != project_id || claims[i].session_id != session_id
        },
{
}

/// A scheduler starts behind the last of the project's sessions that has ended, and at
/// zero where none has; sessions of other projects and open ones do not count.
pub proof fn watermark_is_the_last_end(
    sessions: Seq<SessionRow>,
    workspace_id: WorkspaceId,
    project_id: ProjectId,
    watermark: i64,
)
    requires
        is_watermark(sessions, workspace_id, project_id, watermark),
    ensures
        forall|i: int|
            0 <= i < sessions.len() && (#[trigger] sessions[i]).workspace_id == workspace_id
                && sessions[i].project_id == project_id && sessions[i].ended_at is Some
                ==> sessions[i].ended_at->0 <= watermark,
        watermark == 0 || exists|i: int|
            0 <= i < sessions.len() && (#[trigger] sessions[i]).workspace_id == workspace_id
                && sessions[i].project_id == project_id && sessions[i].ended_at == Some(watermark),
        (exists|i: int|
            0 <= i < sessions.len() && (#[trigger] sessions[i]).workspace_id == workspace_id
                && sessions[i].project_id == project_id && sessions[i].ended_at is Some) ==> exists|
            i: int,
        |
            0 <= i < sessions.len() && (#[trigger] sessions[i]).workspace_id == workspace_id
                && sessions[i].project_id == project_id && sessions[i].ended_at == Some(watermark),
{
    assert forall|i: int|
        0 <= i < sessions.len() && (#[trigger] sessions[i]).workspace_id == workspace_id
            && sessions[i].project_id == project_id
            && sessions[i].ended_at is Some implies sessions[i].ended_at->0 <= watermark by {
        assert(ended_at(sessions[i], workspace_id, project_id, sessions[i].ended_at->0));
    }
    if exists|i: int|
        0 <= i < sessions.len() && #[trigger] ended_at(
            sessions[i],
            workspace_id,
            project_id,
            watermark,
        ) {
        let i = choose|i: int|
            0 <= i < sessions.len() && #[trigger] ended_at(
                sessions[i],
                workspace_id,
                project_id,
                watermark,
            );
        assert(sessions[i].ended_at == Some(watermark));
    } else {
        assert forall|i: int|
            0 <= i < sessions.len() && (#[trigger] sessions[i]).workspace_id == workspace_id
                && sessions[i].project_id == project_id implies sessions[i].ended_at is None by {
            if let Some(at) = sessions[i].ended_at {
                assert(ended_at(sessions[i], workspace_id, project_id, at));
            }
        }
    }
}

/// A claim adds the session to those that are looked at, and marks the scheduler as
/// touched and nothing else of it; a scheduler is set up once, at the watermark.
pub proof fn claim_and_setup_change_what_they_say(
    state: Option<SchedulerState>,
    session: Option<SessionRow>,
    runs: Vec<RunScope>,
    claims: Vec<SchedulerClaim>,
    sessions: Vec<SessionRow>,
    workspace_id: WorkspaceId,
    project_id: ProjectId,
    session_id: SessionId,
    at: i64,
    now: i64,
    claimed: Option<Claimed>,
    set_up: Option<SchedulerState>,
)
    requires
        call_ensures(
            claim_scheduler_session,
            (state, &session, &runs, &claims, workspace_id, project_id, session_id, at, now),
            claimed,
        ),
        call_ensures(
            ensure_scheduler_state,
            (state, &sessions, workspace_id, project_id, now),
            set_up,
        ),
    ensures
        claimed is Some <==> may_claim(
            state,
            session,
            runs@,
            claims@,
            workspace_id,
            project_id,
            session_id,
            at,
        ),
        claimed matches Some(c) ==> {
            &&& c.claim.workspace_id == workspace_id
            &&& c.claim.project_id == project_id
            &&& c.claim.session_id == session_id
            &&& c.claim.claimed_at == now
            &&& c.state.watermark_ended_at == (state->0).watermark_ended_at
            &&& c.state.initialized_at == (state->0).initialized_at
            &&& c.state.updated_at == now
        },
        set_up is Some <==> state is None,
        set_up matches Some(s) ==> {
            &&& s.workspace_id == workspace_id
            &&& s.project_id == project_id
            &&& is_watermark(sessions@, workspace_id, project_id, s.watermark_ended_at)
            &&& s.initialized_at == now
            &&& s.updated_at == now
        },
{
}

} // verus!
