//! Staging a run of proposals.
use crate::auto_improve::{
    artifact_path, artifact_path_for, bytes32, is_event, is_readable, is_summary,
    latest_target_snapshot, new_event, opt_digest, sha256, sha256_digest, target,
    AutoImproveProposalOperation, AutoImproveProposalStatus, AutoImproveProposalSummary,
    NewAutoImproveProposal, NewProposalEvent, PageRow, SessionRow, StageAutoImproveRun,
    StagedAutoImproveRun, StoredProposal, StoredRun, SESSION_OUT_OF_SCOPE,
};
use crate::error::{labelled, StoreError, StoreResult};
use crate::ids::{
    as_bytes, opt_bytes, random_uuid, stored, AutoImproveProposalId, AutoImproveRunId,
};
use crate::text::{opt_copy, opt_view};
use vstd::prelude::*;
use vstd::utf8::encode_utf8;

verus! {

/// What the log says of a staged proposal.
pub const STAGED_DETAIL: &'static str = "{}";

/// What the database says of a second row with the identifier of a proposal.
pub const REPEATED_ID: &'static str = "UNIQUE constraint failed: auto_improve_proposals.id";

/// The rows that a staged run adds to the store, and what its caller is told.
#[derive(Debug)]
pub struct StagedRows {
    pub run: StoredRun,
    pub proposals: Vec<StoredProposal>,
    pub events: Vec<NewProposalEvent>,
    pub staged: StagedAutoImproveRun,
}

/// Why a proposal cannot be staged.
pub enum Refusal {
    /// It would create a page that exists.
    TargetExists,
    /// It would update a page that does not exist.
    TargetMissing,
    /// The digest of the page that it would update is malformed.
    TargetDigest,
}

/// The session of the run is a session of the project.
pub open spec fn session_in_scope(input: StageAutoImproveRun, session: Option<SessionRow>) -> bool {
    match (input.session_id, session) {
        (None, _) => true,
        (Some(id), Some(row)) => row.id == id && row.workspace_id == input.workspace_id
            && row.project_id == input.project_id,
        (Some(_), None) => false,
    }
}

/// Why a proposal cannot be staged, given the latest version of its target.
pub open spec fn refusal(
    operation: AutoImproveProposalOperation,
    current: Option<PageRow>,
) -> Option<Refusal> {
    match (operation, current) {
        (AutoImproveProposalOperation::Create, None) => None,
        (AutoImproveProposalOperation::Create, Some(_)) => Some(Refusal::TargetExists),
        (AutoImproveProposalOperation::Update, Some(row)) => if row.body_sha256@.len() == 32 {
            None
        } else {
            Some(Refusal::TargetDigest)
        },
        (AutoImproveProposalOperation::Update, None) => Some(Refusal::TargetMissing),
    }
}

/// The error for a proposal that cannot be staged.
pub open spec fn refused_with(e: StoreError, why: Refusal, path: Seq<char>) -> bool {
    match why {
        Refusal::TargetExists => e.is_invalid_state(
            "create proposal target already exists: "@ + path,
        ),
        Refusal::TargetMissing => e.is_invalid_state(
            "update proposal target does not exist: "@ + path,
        ),
        Refusal::TargetDigest => e.is_malformed_record("invalid sha256 length"@),
    }
}

/// The latest version of a proposal's target.
pub open spec fn target_of(
    input: StageAutoImproveRun,
    pages: Seq<PageRow>,
    proposal: NewAutoImproveProposal,
) -> Option<PageRow> {
    target(pages, input.workspace_id, input.project_id, proposal.target_path@)
}

/// Why the proposal at `i` cannot be staged.
pub open spec fn refusal_at(
    input: StageAutoImproveRun,
    pages: Seq<PageRow>,
    i: int,
) -> Option<Refusal> {
    refusal(input.proposals@[i].operation, target_of(input, pages, input.proposals@[i]))
}

/// The identifier at `i` stands before it too.
pub open spec fn repeats(ids: Seq<AutoImproveProposalId>, i: int) -> bool {
    exists|j: int| 0 <= j < i && #[trigger] ids[j] == ids[i]
}

/// The proposal at `i` can be staged under its identifier.
pub open spec fn can_stage(
    input: StageAutoImproveRun,
    pages: Seq<PageRow>,
    ids: Seq<AutoImproveProposalId>,
    i: int,
) -> bool {
    refusal_at(input, pages, i) is None && !repeats(ids, i)
}

/// The proposal at `i` is the first that cannot be staged.
pub open spec fn first_refused(
    input: StageAutoImproveRun,
    pages: Seq<PageRow>,
    ids: Seq<AutoImproveProposalId>,
    i: int,
) -> bool {
    &&& 0 <= i < input.proposals@.len()
    &&& !can_stage(input, pages, ids, i)
    &&& forall|j: int| 0 <= j < i ==> #[trigger] can_stage(input, pages, ids, j)
}

/// What staging under these identifiers comes to: the rows, where the session is in
/// scope and every proposal can be staged; else the error for the session, or for the
/// first proposal that cannot be staged.
pub open spec fn is_outcome(
    r: StoreResult<StagedRows>,
    input: StageAutoImproveRun,
    run_id: AutoImproveRunId,
    ids: Seq<AutoImproveProposalId>,
    session: Option<SessionRow>,
    pages: Seq<PageRow>,
    now: i64,
) -> bool {
    match r {
        Ok(rows) => {
            &&& session_in_scope(input, session)
            &&& forall|i: int|
                0 <= i < input.proposals@.len() ==> #[trigger] can_stage(input, pages, ids, i)
            &&& is_staged(rows, input, run_id, ids, pages, now)
            &&& rows.staged.proposal_ids@.no_duplicates()
        },
        Err(e) => if session_in_scope(input, session) {
            exists|i: int| #[trigger]
                first_refused(input, pages, ids, i) && match refusal_at(input, pages, i) {
                    Some(why) => refused_with(e, why, input.proposals@[i].target_path@),
                    None => e.is_sqlite(REPEATED_ID@),
                }
        } else {
            e.is_invalid_state(SESSION_OUT_OF_SCOPE@)
        },
    }
}

/// The row is the run as it was given.
pub open spec fn is_run_row(
    row: StoredRun,
    input: StageAutoImproveRun,
    run_id: AutoImproveRunId,
    now: i64,
) -> bool {
    &&& row.id == run_id
    &&& row.workspace_id == input.workspace_id
    &&& row.project_id == input.project_id
    &&& row.session_id == input.session_id
    &&& opt_view(row.provider) == opt_view(input.provider)
    &&& opt_view(row.model) == opt_view(input.model)
    &&& opt_view(row.summary) == opt_view(input.summary)
    &&& row.warnings_json@ == input.warnings_json@
    &&& row.rejected_candidates_json@ == input.rejected_candidates_json@
    &&& row.config_json@ == input.config_json@
    &&& row.proposal_actor_json@ == input.proposal_actor_json@
    &&& row.created_at == now
}

/// The row remembers the version of the target that an update was proposed for.
pub open spec fn remembers_target(row: StoredProposal, current: Option<PageRow>) -> bool {
    match current {
        Some(page) => {
            &&& opt_bytes(row.target_latest_page_id_at_stage) == Some(stored(page.id.0))
            &&& opt_bytes(row.target_body_sha256_at_stage) == Some(page.body_sha256@)
            &&& row.target_updated_at_at_stage == Some(page.updated_at)
        },
        None => {
            &&& row.target_latest_page_id_at_stage is None
            &&& row.target_body_sha256_at_stage is None
            &&& row.target_updated_at_at_stage is None
        },
    }
}

/// The row is a proposal as it was given, waiting for a decision.
pub open spec fn is_proposal_row(
    row: StoredProposal,
    input: StageAutoImproveRun,
    proposal: NewAutoImproveProposal,
    run_id: AutoImproveRunId,
    id: AutoImproveProposalId,
    current: Option<PageRow>,
    now: i64,
) -> bool {
    &&& row.id@ == stored(id.0)
    &&& row.run_id@ == stored(run_id.0)
    &&& row.workspace_id@ == stored(input.workspace_id.0)
    &&& row.project_id@ == stored(input.project_id.0)
    &&& row.status@ == "pending"@
    &&& row.operation@ == proposal.operation.name()
    &&& row.target_path@ == proposal.target_path@
    &&& row.kind@ == proposal.kind@
    &&& row.title@ == proposal.title@
    &&& row.confidence_bits == proposal.confidence_bits
    &&& row.rationale@ == proposal.rationale@
    &&& row.evidence_json@ == proposal.evidence_json@
    &&& row.body_markdown@ == proposal.body_markdown@
    &&& row.body_sha256@ == sha256_digest(encode_utf8(proposal.body_markdown@))
    &&& row.artifact_path@ == artifact_path(id)
    &&& opt_bytes(row.artifact_sha256) == opt_digest(proposal.artifact_sha256)
    &&& remembers_target(row, current)
    &&& row.staged_at == now
    &&& row.decided_at is None
    &&& row.decision_reason is None
    &&& row.decided_by_author_id is None
    &&& row.decided_by_actor_json is None
    &&& row.applied_page_id is None
    &&& row.checkpoint is None
}

/// The rows are the run as it was given, under these identifiers: one row and one
/// event for each proposal, in order.
pub open spec fn is_staged(
    rows: StagedRows,
    input: StageAutoImproveRun,
    run_id: AutoImproveRunId,
    ids: Seq<AutoImproveProposalId>,
    pages: Seq<PageRow>,
    now: i64,
) -> bool {
    &&& is_run_row(rows.run, input, run_id, now)
    &&& rows.proposals@.len() == input.proposals@.len()
    &&& rows.events@.len() == input.proposals@.len()
    &&& forall|i: int|
        0 <= i < input.proposals@.len() ==> is_proposal_row(
            #[trigger] rows.proposals@[i],
            input,
            input.proposals@[i],
            run_id,
            ids[i],
            target_of(input, pages, input.proposals@[i]),
            now,
        )
    &&& forall|i: int|
        0 <= i < input.proposals@.len() ==> is_event(
            #[trigger] rows.events@[i],
            ids[i],
            "staged"@,
            input.proposal_actor_json@,
            None,
            STAGED_DETAIL@,
            now,
        )
    &&& rows.staged.run_id == run_id
    &&& rows.staged.proposal_ids@ == ids
}

/// Digests and optional bytes as they are stored.
fn digest_bytes(digest: &Option<[u8; 32]>) -> (r: Option<Vec<u8>>)
    ensures
        opt_bytes(r) == opt_digest(*digest),
{
    match digest {
        Some(d) => {
            let mut r: Vec<u8> = Vec::new();
            let mut i: usize = 0;
            while i < 32
                invariant
                    i <= 32,
                    d@.len() == 32,
                    r@ == d@.take(i as int),
                decreases 32 - i,
            {
                r.push(d[i]);
                i = i + 1;
            }
            assert(d@.take(32) == d@);
            Some(r)
        },
        None => None,
    }
}

/// Stages one proposal, given the latest version of its target.
fn stage_proposal(
    input: &StageAutoImproveRun,
    proposal: &NewAutoImproveProposal,
    run_id: AutoImproveRunId,
    id: AutoImproveProposalId,
    pages: &Vec<PageRow>,
    now: i64,
) -> (r: StoreResult<StoredProposal>)
    ensures
        match r {
            Ok(row) => refusal(proposal.operation, target_of(*input, pages@, *proposal)) is None
                && is_proposal_row(
                row,
                *input,
                *proposal,
                run_id,
                id,
                target_of(*input, pages@, *proposal),
                now,
            ),
            Err(e) => refusal(
                proposal.operation,
                target_of(*input, pages@, *proposal),
            ) matches Some(why) && refused_with(e, why, proposal.target_path@),
        },
{
    let current = latest_target_snapshot(
        pages,
        input.workspace_id,
        input.project_id,
        proposal.target_path.as_str(),
    );
    let (page_id, body_sha256, updated_at) = match (proposal.operation, current) {
        (AutoImproveProposalOperation::Create, None) => (None, None, None),
        (AutoImproveProposalOperation::Create, Some(_)) => {
            return Err(
                StoreError::InvalidState(
                    labelled(
                        "create proposal target already exists: ",
                        proposal.target_path.as_str(),
                    ),
                ),
            );
        },
        (AutoImproveProposalOperation::Update, Some(snapshot)) => match bytes32(
            snapshot.body_sha256,
        ) {
            Ok(digest) => (
                Some(as_bytes(snapshot.page_id.0)),
                digest_bytes(&Some(digest)),
                Some(snapshot.updated_at),
            ),
            Err(e) => return Err(e),
        },
        (AutoImproveProposalOperation::Update, None) => {
            return Err(
                StoreError::InvalidState(
                    labelled(
                        "update proposal target does not exist: ",
                        proposal.target_path.as_str(),
                    ),
                ),
            );
        },
    };
    let digest = sha256(proposal.body_markdown.as_str().as_bytes());
    let body_digest = match digest_bytes(&Some(digest)) {
        Some(bytes) => bytes,
        None => Vec::new(),
    };
    Ok(
        StoredProposal {
            id: as_bytes(id.0),
            run_id: as_bytes(run_id.0),
            workspace_id: as_bytes(input.workspace_id.0),
            project_id: as_bytes(input.project_id.0),
            status: "pending".to_string(),
            operation: proposal.operation.as_str().to_string(),
            target_path: proposal.target_path.clone(),
            kind: proposal.kind.clone(),
            title: proposal.title.clone(),
            confidence_bits: proposal.confidence_bits,
            rationale: proposal.rationale.clone(),
            evidence_json: proposal.evidence_json.clone(),
            body_markdown: proposal.body_markdown.clone(),
            body_sha256: body_digest,
            artifact_path: artifact_path_for(id),
            artifact_sha256: digest_bytes(&proposal.artifact_sha256),
            target_latest_page_id_at_stage: page_id,
            target_body_sha256_at_stage: body_sha256,
            target_updated_at_at_stage: updated_at,
            staged_at: now,
            decided_at: None,
            decision_reason: None,
            decided_by_author_id: None,
            decided_by_actor_json: None,
            applied_page_id: None,
            checkpoint: None,
        },
    )
}

/// Whether the identifier at `i` stands before it too.
fn is_repeated(ids: &Vec<AutoImproveProposalId>, i: usize) -> (r: bool)
    requires
        i < ids@.len(),
    ensures
        r == repeats(ids@, i as int),
{
    let mut j: usize = 0;
    while j < i
        invariant
            j <= i < ids@.len(),
            forall|k: int| 0 <= k < j ==> #[trigger] ids@[k] != ids@[i as int],
        decreases i - j,
    {
        if ids[j] == ids[i] {
            return true;
        }
        j = j + 1;
    }
    false
}

/// Stages a run under these identifiers. `session` is the stored session of the run,
/// `pages` are the stored versions of the pages that the proposals are about. Either
/// every proposal is staged or none. An identifier is the key of its proposal, so one
/// that comes twice fails as the database does.
pub fn stage_run_as(
    input: &StageAutoImproveRun,
    run_id: AutoImproveRunId,
    proposal_ids: Vec<AutoImproveProposalId>,
    session: &Option<SessionRow>,
    pages: &Vec<PageRow>,
    now: i64,
) -> (r: StoreResult<StagedRows>)
    requires
        proposal_ids@.len() == input.proposals@.len(),
    ensures
        is_outcome(r, *input, run_id, proposal_ids@, *session, pages@, now),
{
    if let Some(id) = input.session_id {
        let in_scope = match session {
            Some(row) => row.id == id && row.workspace_id == input.workspace_id && row.project_id
                == input.project_id,
            None => false,
        };
        if !in_scope {
            return Err(StoreError::InvalidState(SESSION_OUT_OF_SCOPE.to_string()));
        }
    }
    let mut proposals: Vec<StoredProposal> = Vec::new();
    let mut events: Vec<NewProposalEvent> = Vec::new();
    let mut i: usize = 0;
    while i < input.proposals.len()
        invariant
            i <= input.proposals@.len(),
            proposal_ids@.len() == input.proposals@.len(),
            session_in_scope(*input, *session),
            proposals@.len() == i,
            events@.len() == i,
            forall|j: int|
                0 <= j < i ==> #[trigger] can_stage(*input, pages@, proposal_ids@, j),
            forall|j: int|
                0 <= j < i ==> is_proposal_row(
                    #[trigger] proposals@[j],
                    *input,
                    input.proposals@[j],
                    run_id,
                    proposal_ids@[j],
                    target_of(*input, pages@, input.proposals@[j]),
                    now,
                ),
            forall|j: int|
                0 <= j < i ==> is_event(
                    #[trigger] events@[j],
                    proposal_ids@[j],
                    "staged"@,
                    input.proposal_actor_json@,
                    None,
                    STAGED_DETAIL@,
                    now,
                ),
        decreases input.proposals.len() - i,
    {
        let id = proposal_ids[i];
        match stage_proposal(input, &input.proposals[i], run_id, id, pages, now) {
            Ok(row) => {
                if is_repeated(&proposal_ids, i) {
                    assert(first_refused(*input, pages@, proposal_ids@, i as int));
                    return Err(StoreError::Sqlite(REPEATED_ID.to_string()));
                }
                assert(can_stage(*input, pages@, proposal_ids@, i as int));
                proposals.push(row);
                events.push(
                    new_event(
                        id,
                        "staged",
                        input.proposal_actor_json.as_str(),
                        None,
                        STAGED_DETAIL.to_string(),
                        now,
                    ),
                );
            },
            Err(e) => {
                assert(first_refused(*input, pages@, proposal_ids@, i as int));
                return Err(e);
            },
        }
        i = i + 1;
    }
    proof {
        let ids = proposal_ids@;
        assert forall|a: int, b: int|
            0 <= a < ids.len() && 0 <= b < ids.len() && a != b implies ids[a] != ids[b] by {
            assert(can_stage(*input, pages@, ids, a) && can_stage(*input, pages@, ids, b));
        }
    }
    let run = StoredRun {
        id: run_id,
        workspace_id: input.workspace_id,
        project_id: input.project_id,
        session_id: input.session_id,
        provider: opt_copy(&input.provider),
        model: opt_copy(&input.model),
        summary: opt_copy(&input.summary),
        warnings_json: input.warnings_json.clone(),
        rejected_candidates_json: input.rejected_candidates_json.clone(),
        config_json: input.config_json.clone(),
        proposal_actor_json: input.proposal_actor_json.clone(),
        created_at: now,
    };
    Ok(
        StagedRows {
            run,
            proposals,
            events,
            staged: StagedAutoImproveRun { run_id, proposal_ids },
        },
    )
}

/// Stages a run under new identifiers, which are drawn at random. A draw that repeats
/// an identifier fails.
pub fn stage_run(
    input: &StageAutoImproveRun,
    session: &Option<SessionRow>,
    pages: &Vec<PageRow>,
    now: i64,
) -> (r: StoreResult<StagedRows>)
    ensures
        exists|run_id: AutoImproveRunId, ids: Seq<AutoImproveProposalId>|
            ids.len() == input.proposals@.len() && #[trigger] is_outcome(
                r,
                *input,
                run_id,
                ids,
                *session,
                pages@,
                now,
            ),
        r matches Ok(rows) ==> rows.staged.proposal_ids@.no_duplicates(),
{
    let run_id = AutoImproveRunId(random_uuid());
    let mut ids: Vec<AutoImproveProposalId> = Vec::new();
    while ids.len() < input.proposals.len()
        invariant
            ids@.len() <= input.proposals@.len(),
        decreases input.proposals.len() - ids.len(),
    {
        ids.push(AutoImproveProposalId(random_uuid()));
    }
    let ghost drawn = ids@;
    let r = stage_run_as(input, run_id, ids, session, pages, now);
    assert(is_outcome(r, *input, run_id, drawn, *session, pages@, now));
    r
}

/// A run of at most one proposal is staged whenever its session is in scope and its
/// proposal is not refused: the draw cannot repeat an identifier.
pub proof fn single_proposal_is_staged(
    r: StoreResult<StagedRows>,
    input: StageAutoImproveRun,
    run_id: AutoImproveRunId,
    ids: Seq<AutoImproveProposalId>,
    session: Option<SessionRow>,
    pages: Seq<PageRow>,
    now: i64,
)
    requires
        is_outcome(r, input, run_id, ids, session, pages, now),
        session_in_scope(input, session),
        input.proposals@.len() <= 1,
        input.proposals@.len() == 1 ==> refusal_at(input, pages, 0) is None,
    ensures
        r is Ok,
{
}

/// What was staged is read back: the row of a staged proposal can be read, and its
/// summary is the proposal as it was given, waiting for a decision.
pub proof fn staged_proposal_reads_back(
    row: StoredProposal,
    input: StageAutoImproveRun,
    proposal: NewAutoImproveProposal,
    run_id: AutoImproveRunId,
    id: AutoImproveProposalId,
    current: Option<PageRow>,
    now: i64,
    summary: AutoImproveProposalSummary,
)
    requires
        is_proposal_row(row, input, proposal, run_id, id, current, now),
    ensures
        is_readable(row),
        is_summary(summary, row) ==> {
            &&& summary.id == id
            &&& summary.run_id == run_id
            &&& summary.workspace_id == input.workspace_id
            &&& summary.project_id == input.project_id
            &&& summary.status == AutoImproveProposalStatus::Pending
            &&& summary.operation == proposal.operation
            &&& summary.target_path@ == proposal.target_path@
            &&& summary.kind@ == proposal.kind@
            &&& summary.title@ == proposal.title@
            &&& summary.confidence_bits == proposal.confidence_bits
            &&& summary.staged_at == now
            &&& summary.decided_at is None
        },
{
    crate::ids::stored_bytes_read_back(id.0);
    crate::ids::stored_bytes_read_back(run_id.0);
    crate::ids::stored_bytes_read_back(input.workspace_id.0);
    crate::ids::stored_bytes_read_back(input.project_id.0);
    assert(AutoImproveProposalStatus::Pending.name() == row.status@);
    assert(proposal.operation.name() == row.operation@);
    if is_summary(summary, row) {
        crate::ids::stored_is_injective(summary.id.0, id.0);
        crate::ids::stored_is_injective(summary.run_id.0, run_id.0);
        crate::ids::stored_is_injective(summary.workspace_id.0, input.workspace_id.0);
        crate::ids::stored_is_injective(summary.project_id.0, input.project_id.0);
        crate::auto_improve::status_names_are_distinct(
            summary.status,
            AutoImproveProposalStatus::Pending,
        );
        crate::auto_improve::operation_names_are_distinct(summary.operation, proposal.operation);
    }
}

/// The run has no session, or the stored session is the run's own: it has the session's
/// identifier, workspace and project. Whether it has ended does not matter.
pub open spec fn has_its_session(input: StageAutoImproveRun, session: Option<SessionRow>) -> bool {
    input.session_id matches Some(id) ==> (session matches Some(row) && row.id == id
        && row.workspace_id == input.workspace_id && row.project_id == input.project_id)
}

/// The proposal fits its target: a page to be created does not exist, a page to be
/// updated does, and its digest has thirty-two bytes.
pub open spec fn fits_its_target(
    input: StageAutoImproveRun,
    pages: Seq<PageRow>,
    proposal: NewAutoImproveProposal,
) -> bool {
    let current = target(pages, input.workspace_id, input.project_id, proposal.target_path@);
    match proposal.operation {
        AutoImproveProposalOperation::Create => current is None,
        AutoImproveProposalOperation::Update => current matches Some(page)
            && page.body_sha256@.len() == 32,
    }
}

/// A run is staged where it has its session, every proposal fits its target and no
/// identifier comes twice, and only there. So a run of a session that has ended is
/// staged like any other.
pub proof fn fitting_run_is_staged(
    r: StoreResult<StagedRows>,
    input: StageAutoImproveRun,
    run_id: AutoImproveRunId,
    ids: Seq<AutoImproveProposalId>,
    session: Option<SessionRow>,
    pages: Seq<PageRow>,
    now: i64,
)
    requires
        is_outcome(r, input, run_id, ids, session, pages, now),
        ids.len() == input.proposals@.len(),
    ensures
        r is Ok <==> has_its_session(input, session) && ids.no_duplicates() && forall|i: int|
            0 <= i < input.proposals@.len() ==> fits_its_target(
                input,
                pages,
                #[trigger] input.proposals@[i],
            ),
{
    assert forall|i: int| 0 <= i < input.proposals@.len() implies (fits_its_target(
        input,
        pages,
        #[trigger] input.proposals@[i],
    ) <==> refusal_at(input, pages, i) is None) by {}
    if r is Ok {
        assert forall|i: int| 0 <= i < input.proposals@.len() implies fits_its_target(
            input,
            pages,
            #[trigger] input.proposals@[i],
        ) by {
            assert(can_stage(input, pages, ids, i));
        }
        assert forall|a: int, b: int|
            0 <= a < ids.len() && 0 <= b < ids.len() && a != b implies ids[a] != ids[b] by {
            assert(can_stage(input, pages, ids, a) && can_stage(input, pages, ids, b));
        }
    } else if has_its_session(input, session) && ids.no_duplicates() {
        let i = choose|i: int| #[trigger] first_refused(input, pages, ids, i);
        assert(!fits_its_target(input, pages, input.proposals@[i]));
    }
}

/// A run without its session is refused for that, and a run with its session never is.
pub proof fn only_a_foreign_session_is_out_of_scope(
    r: StoreResult<StagedRows>,
    input: StageAutoImproveRun,
    run_id: AutoImproveRunId,
    ids: Seq<AutoImproveProposalId>,
    session: Option<SessionRow>,
    pages: Seq<PageRow>,
    now: i64,
)
    requires
        is_outcome(r, input, run_id, ids, session, pages, now),
    ensures
        !has_its_session(input, session) <==> (r matches Err(StoreError::InvalidState(message))
            && message@ == "auto-improve session is not in proposal scope"@),
{
    reveal_strlit("auto-improve session is not in proposal scope");
    reveal_strlit("create proposal target already exists: ");
    reveal_strlit("update proposal target does not exist: ");
    if has_its_session(input, session) {
        if let Err(StoreError::InvalidState(message)) = r {
            let i = choose|i: int| #[trigger] first_refused(input, pages, ids, i);
            let path = input.proposals@[i].target_path@;
            assert(("create proposal target already exists: "@ + path)[0] == 'c');
            assert(("update proposal target does not exist: "@ + path)[0] == 'u');
        }
    }
}

/// Of a run with its session, the first proposal that cannot be staged decides: a page
/// to be created that exists, a page to be updated that does not, a digest of another
/// length, or else an identifier that stood before.
pub proof fn first_unfit_proposal_decides(
    r: StoreResult<StagedRows>,
    input: StageAutoImproveRun,
    run_id: AutoImproveRunId,
    ids: Seq<AutoImproveProposalId>,
    session: Option<SessionRow>,
    pages: Seq<PageRow>,
    now: i64,
    i: int,
)
    requires
        is_outcome(r, input, run_id, ids, session, pages, now),
        ids.len() == input.proposals@.len(),
        has_its_session(input, session),
        0 <= i < input.proposals@.len(),
        ids.take(i).no_duplicates(),
        forall|j: int|
            0 <= j < i ==> fits_its_target(input, pages, #[trigger] input.proposals@[j]),
        !fits_its_target(input, pages, input.proposals@[i]) || ids.take(i).contains(ids[i]),
    ensures
        r is Err,
        ({
            let proposal = input.proposals@[i];
            let current = target(
                pages,
                input.workspace_id,
                input.project_id,
                proposal.target_path@,
            );
            &&& proposal.operation is Create && current is Some ==> (
            r->Err_0 matches StoreError::InvalidState(message) && message@
                == "create proposal target already exists: "@ + proposal.target_path@)
            &&& proposal.operation is Update && current is None ==> (
            r->Err_0 matches StoreError::InvalidState(message) && message@
                == "update proposal target does not exist: "@ + proposal.target_path@)
            &&& proposal.operation is Update && current is Some && (
            current->0).body_sha256@.len() != 32 ==> (
            r->Err_0 matches StoreError::MalformedRecord(message) && message@
                == "invalid sha256 length"@)
            &&& fits_its_target(input, pages, proposal) ==> r->Err_0 is Sqlite
        }),
{
    assert forall|j: int| 0 <= j < i implies #[trigger] can_stage(input, pages, ids, j) by {
        assert(fits_its_target(input, pages, input.proposals@[j]));
        if repeats(ids, j) {
            let k = choose|k: int| 0 <= k < j && #[trigger] ids[k] == ids[j];
            assert(ids.take(i)[k] == ids.take(i)[j]);
        }
    }
    if ids.take(i).contains(ids[i]) {
        let k = choose|k: int| 0 <= k < ids.take(i).len() && ids.take(i)[k] == ids[i];
        assert(ids[k] == ids[i]);
        assert(repeats(ids, i));
    }
    assert(!can_stage(input, pages, ids, i));
    assert(first_refused(input, pages, ids, i));
    if r is Ok {
        assert(can_stage(input, pages, ids, i));
    } else {
        let k = choose|k: int| #[trigger]
            first_refused(input, pages, ids, k) && match refusal_at(input, pages, k) {
                Some(why) => refused_with(r->Err_0, why, input.proposals@[k].target_path@),
                None => r->Err_0.is_sqlite(REPEATED_ID@),
            };
        if k < i {
            assert(can_stage(input, pages, ids, k));
        } else if i < k {
            assert(can_stage(input, pages, ids, i));
        }
    }
}

/// What is staged of a proposal is the proposal as it was given, in its run and its
/// project, waiting for a decision, with the digest of its text; an update remembers the
/// version of the page that it was proposed for, a creation remembers none.
pub proof fn staged_row_says_what_was_given(
    rows: StagedRows,
    input: StageAutoImproveRun,
    run_id: AutoImproveRunId,
    ids: Seq<AutoImproveProposalId>,
    pages: Seq<PageRow>,
    now: i64,
    i: int,
)
    requires
        is_staged(rows, input, run_id, ids, pages, now),
        0 <= i < input.proposals@.len(),
        fits_its_target(input, pages, input.proposals@[i]),
    ensures
        rows.proposals@.len() == input.proposals@.len(),
        rows.events@.len() == input.proposals@.len(),
        rows.staged.run_id == run_id,
        rows.staged.proposal_ids@ == ids,
        ({
            let given = input.proposals@[i];
            let row = rows.proposals@[i];
            let event = rows.events@[i];
            let current = target(pages, input.workspace_id, input.project_id, given.target_path@);
            &&& row.id@ == stored(ids[i].0)
            &&& row.run_id@ == stored(run_id.0)
            &&& row.workspace_id@ == stored(input.workspace_id.0)
            &&& row.project_id@ == stored(input.project_id.0)
            &&& row.status@ == "pending"@
            &&& given.operation is Create ==> row.operation@ == "create"@
            &&& given.operation is Update ==> row.operation@ == "update"@
            &&& row.target_path@ == given.target_path@
            &&& row.kind@ == given.kind@
            &&& row.title@ == given.title@
            &&& row.confidence_bits == given.confidence_bits
            &&& row.rationale@ == given.rationale@
            &&& row.evidence_json@ == given.evidence_json@
            &&& row.body_markdown@ == given.body_markdown@
            &&& row.body_sha256@ == sha256_digest(encode_utf8(given.body_markdown@))
            &&& row.artifact_path@ == "_pending/auto-improve/"@ + crate::ids::hyphenated(ids[i].0)
                + ".md"@
            &&& given.artifact_sha256 is Some <==> row.artifact_sha256 is Some
            &&& given.artifact_sha256 matches Some(digest) ==> (row.artifact_sha256->0)@ == digest@
            &&& given.operation is Create ==> row.target_latest_page_id_at_stage is None
                && row.target_body_sha256_at_stage is None && row.target_updated_at_at_stage is None
            &&& given.operation is Update ==> {
                &&& row.target_latest_page_id_at_stage matches Some(id) && id@ == stored(
                    (current->0).id.0,
                )
                &&& row.target_body_sha256_at_stage matches Some(digest) && digest@ == (
                current->0).body_sha256@
                &&& row.target_updated_at_at_stage == Some((current->0).updated_at)
            }
            &&& row.staged_at == now
            &&& row.decided_at is None && row.decision_reason is None
            &&& row.decided_by_author_id is None && row.decided_by_actor_json is None
            &&& row.applied_page_id is None && row.checkpoint is None
            &&& event.proposal_id == ids[i]
            &&& event.event@ == "staged"@
            &&& event.actor_json@ == input.proposal_actor_json@
            &&& event.author_id is None
            &&& event.detail_json@ == "{}"@
            &&& event.at == now
        }),
{
    let given = input.proposals@[i];
    let row = rows.proposals@[i];
    assert(is_proposal_row(row, input, given, run_id, ids[i], target_of(input, pages, given), now));
    assert(is_event(
        rows.events@[i],
        ids[i],
        "staged"@,
        input.proposal_actor_json@,
        None,
        STAGED_DETAIL@,
        now,
    ));
}

/// What is stored of a run is the run as it was given.
pub proof fn staged_run_says_what_was_given(
    rows: StagedRows,
    input: StageAutoImproveRun,
    run_id: AutoImproveRunId,
    ids: Seq<AutoImproveProposalId>,
    pages: Seq<PageRow>,
    now: i64,
)
    requires
        is_staged(rows, input, run_id, ids, pages, now),
    ensures
        rows.run.id == run_id,
        rows.run.workspace_id == input.workspace_id,
        rows.run.project_id == input.project_id,
        rows.run.session_id == input.session_id,
        rows.run.provider is Some <==> input.provider is Some,
        input.provider matches Some(text) ==> (rows.run.provider->0)@ == text@,
        rows.run.model is Some <==> input.model is Some,
        input.model matches Some(text) ==> (rows.run.model->0)@ == text@,
        rows.run.summary is Some <==> input.summary is Some,
        input.summary matches Some(text) ==> (rows.run.summary->0)@ == text@,
        rows.run.warnings_json@ == input.warnings_json@,
        rows.run.rejected_candidates_json@ == input.rejected_candidates_json@,
        rows.run.config_json@ == input.config_json@,
        rows.run.proposal_actor_json@ == input.proposal_actor_json@,
        rows.run.created_at == now,
{
}

/// Staging under given identifiers succeeds for every run that has its session, whose
/// proposals fit their targets and whose identifiers differ, and for no other.
pub proof fn staging_succeeds_for_every_fitting_run(
    input: StageAutoImproveRun,
    run_id: AutoImproveRunId,
    ids: Vec<AutoImproveProposalId>,
    session: Option<SessionRow>,
    pages: Vec<PageRow>,
    now: i64,
    r: StoreResult<StagedRows>,
)
    requires
        ids@.len() == input.proposals@.len(),
        call_ensures(stage_run_as, (&input, run_id, ids, &session, &pages, now), r),
    ensures
        r is Ok <==> has_its_session(input, session) && ids@.no_duplicates() && forall|i: int|
            0 <= i < input.proposals@.len() ==> fits_its_target(
                input,
                pages@,
                #[trigger] input.proposals@[i],
            ),
        r matches Ok(rows) ==> rows.staged.run_id == run_id && rows.staged.proposal_ids@ == ids@,
{
    fitting_run_is_staged(r, input, run_id, ids@, session, pages@, now);
}

/// Staging under drawn identifiers never succeeds for a run without its session or with
/// a proposal that does not fit its target, and always for a fitting run of at most one
/// proposal, which cannot repeat an identifier.
pub proof fn drawn_staging_goes_by_the_run(
    input: StageAutoImproveRun,
    session: Option<SessionRow>,
    pages: Vec<PageRow>,
    now: i64,
    r: StoreResult<StagedRows>,
)
    requires
        call_ensures(stage_run, (&input, &session, &pages, now), r),
    ensures
        ({
            let fits = has_its_session(input, session) && forall|i: int|
                0 <= i < input.proposals@.len() ==> fits_its_target(
                    input,
                    pages@,
                    #[trigger] input.proposals@[i],
                );
            &&& r is Ok ==> fits
            &&& fits && input.proposals@.len() <= 1 ==> r is Ok
            &&& r matches Ok(rows) ==> rows.staged.proposal_ids@.no_duplicates()
                && rows.proposals@.len() == input.proposals@.len() && rows.run.workspace_id
                == input.workspace_id && rows.run.project_id == input.project_id
        }),
{
    let (run_id, ids) = choose|run_id: AutoImproveRunId, ids: Seq<AutoImproveProposalId>|
        ids.len() == input.proposals@.len() && #[trigger] is_outcome(
            r,
            input,
            run_id,
            ids,
            session,
            pages@,
            now,
        );
    fitting_run_is_staged(r, input, run_id, ids, session, pages@, now);
}

} // verus!
