//! Deciding a proposal: failing, rejecting and approving it.
use crate::auto_improve::{
    is_event, is_readable, is_summary, latest_target_snapshot, new_event, target,
    AutoImproveProposalOperation, AutoImproveProposalStatus, AutoImproveProposalSummary,
    NewProposalEvent, PageRow, StageAutoImproveRun, StoredProposal, TargetSnapshot, NOT_PENDING,
    PAGE_AT_OTHER_PATH, PAGE_OF_OTHER_AUTHOR, PAGE_OUT_OF_SCOPE, TARGET_CHANGED,
};
use crate::error::{StoreError, StoreResult};
use crate::ids::{
    as_bytes, hyphenated, is_stored_as, opt_bytes, same_bytes, stored, uuid_text,
    AutoImproveProposalId, AutoImproveRunId, PageId, ProjectId, UserId, WorkspaceId,
};
use crate::json::{object_text, one_field_object};
use crate::staging::{is_proposal_row, is_staged, refusal_at, target_of, StagedRows};
use crate::text::{opt_copy, opt_view, same_text};
use vstd::prelude::*;

verus! {

/// The rejection of a proposal. The actor is given as JSON text.
#[derive(Debug)]
pub struct RejectAutoImproveProposal {
    pub workspace_id: WorkspaceId,
    pub project_id: ProjectId,
    pub proposal_id: AutoImproveProposalId,
    pub reason: String,
    pub actor_json: String,
    pub author_id: Option<UserId>,
}

/// The failure of a proposal. The actor is given as JSON text.
#[derive(Debug)]
pub struct FailAutoImproveProposal {
    pub workspace_id: WorkspaceId,
    pub project_id: ProjectId,
    pub proposal_id: AutoImproveProposalId,
    pub reason: String,
    pub actor_json: String,
    pub author_id: Option<UserId>,
}

/// The page that an approval writes, as far as the decision goes.
#[derive(Debug)]
pub struct NewPage {
    pub workspace_id: WorkspaceId,
    pub project_id: ProjectId,
    pub path: String,
    pub author_id: Option<UserId>,
}

/// The approval of a proposal. The actor is given as JSON text.
#[derive(Debug)]
pub struct ApproveAutoImproveProposal {
    pub workspace_id: WorkspaceId,
    pub project_id: ProjectId,
    pub proposal_id: AutoImproveProposalId,
    pub page: NewPage,
    pub actor_json: String,
    pub author_id: Option<UserId>,
    pub checkpoint: Option<String>,
}

/// What became of an approval.
#[derive(Debug, Clone, Copy, PartialEq, Eq, Structural)]
pub enum ApproveAutoImproveProposalResult {
    Approved { page_id: PageId },
    Conflict,
}

/// The row of a decided proposal, and what is added to its log.
#[derive(Debug)]
pub struct DecidedRows {
    pub proposal: StoredProposal,
    pub event: NewProposalEvent,
}

/// What an approval asks for next.
#[derive(Debug)]
pub enum ApprovalStep {
    /// The target changed: the proposal is decided.
    Conflict(DecidedRows),
    /// Write the page, and complete the approval with the page that was written.
    Apply(PendingApproval),
}

/// An approval that waits for its page.
#[derive(Debug)]
pub struct PendingApproval {
    proposal: StoredProposal,
}

impl PendingApproval {
    /// The proposal that is approved.
    pub closed spec fn spec_proposal(&self) -> StoredProposal {
        self.proposal
    }
}

/// The row is the proposal of this project, and it waits for a decision.
pub open spec fn can_be_decided(
    row: StoredProposal,
    proposal_id: AutoImproveProposalId,
    workspace_id: WorkspaceId,
    project_id: ProjectId,
) -> bool {
    &&& row.id@ == stored(proposal_id.0)
    &&& row.workspace_id@ == stored(workspace_id.0)
    &&& row.project_id@ == stored(project_id.0)
    &&& row.status@ == "pending"@
}

/// What was staged of a proposal is the same in both rows.
pub open spec fn same_staging(before: StoredProposal, after: StoredProposal) -> bool {
    &&& after.id == before.id
    &&& after.run_id == before.run_id
    &&& after.workspace_id == before.workspace_id
    &&& after.project_id == before.project_id
    &&& after.operation == before.operation
    &&& after.target_path == before.target_path
    &&& after.kind == before.kind
    &&& after.title == before.title
    &&& after.confidence_bits == before.confidence_bits
    &&& after.rationale == before.rationale
    &&& after.evidence_json == before.evidence_json
    &&& after.body_markdown == before.body_markdown
    &&& after.body_sha256 == before.body_sha256
    &&& after.artifact_path == before.artifact_path
    &&& after.artifact_sha256 == before.artifact_sha256
    &&& after.target_latest_page_id_at_stage == before.target_latest_page_id_at_stage
    &&& after.target_body_sha256_at_stage == before.target_body_sha256_at_stage
    &&& after.target_updated_at_at_stage == before.target_updated_at_at_stage
    &&& after.staged_at == before.staged_at
}

/// The proposal was decided in this way.
pub open spec fn is_decided(
    before: StoredProposal,
    after: StoredProposal,
    status: AutoImproveProposalStatus,
    now: i64,
    reason: Option<Seq<char>>,
    author_id: Option<UserId>,
    actor_json: Seq<char>,
) -> bool {
    &&& same_staging(before, after)
    &&& after.status@ == status.name()
    &&& after.decided_at == Some(now)
    &&& opt_view(after.decision_reason) == reason
    &&& after.decided_by_author_id == author_id
    &&& opt_view(after.decided_by_actor_json) == Some(actor_json)
}

/// Takes the proposal out of the store, where it can be decided.
fn pending_in_scope(
    found: Option<StoredProposal>,
    proposal_id: AutoImproveProposalId,
    workspace_id: WorkspaceId,
    project_id: ProjectId,
) -> (r: StoreResult<StoredProposal>)
    ensures
        match r {
            Ok(row) => found == Some(row) && can_be_decided(
                row,
                proposal_id,
                workspace_id,
                project_id,
            ),
            Err(e) => e.is_invalid_state(NOT_PENDING@) && (found matches Some(row)
                ==> !can_be_decided(row, proposal_id, workspace_id, project_id)),
        },
{
    if let Some(row) = found {
        if is_stored_as(&row.id, proposal_id.0) && is_stored_as(&row.workspace_id, workspace_id.0)
            && is_stored_as(&row.project_id, project_id.0) && same_text(
            row.status.as_str(),
            "pending",
        ) {
            return Ok(row);
        }
    }
    Err(StoreError::InvalidState(NOT_PENDING.to_string()))
}

/// Decides against a proposal, for a reason.
fn decide_against(
    found: Option<StoredProposal>,
    proposal_id: AutoImproveProposalId,
    workspace_id: WorkspaceId,
    project_id: ProjectId,
    status: AutoImproveProposalStatus,
    reason: &str,
    actor_json: &str,
    author_id: Option<UserId>,
    now: i64,
) -> (r: StoreResult<DecidedRows>)
    ensures
        is_decided_against(
            found,
            proposal_id,
            workspace_id,
            project_id,
            status,
            reason@,
            actor_json@,
            author_id,
            now,
            r,
        ),
{
    match pending_in_scope(found, proposal_id, workspace_id, project_id) {
        Ok(row) => {
            let mut proposal = row;
            proposal.status = status.as_str().to_string();
            proposal.decided_at = Some(now);
            proposal.decision_reason = Some(reason.to_string());
            proposal.decided_by_author_id = author_id;
            proposal.decided_by_actor_json = Some(actor_json.to_string());
            let event = new_event(
                proposal_id,
                status.as_str(),
                actor_json,
                author_id,
                object_text("reason", reason),
                now,
            );
            Ok(DecidedRows { proposal, event })
        },
        Err(e) => Err(e),
    }
}

/// The proposal was decided against where it could be decided; its application is
/// left as it was.
pub open spec fn is_decided_against(
    found: Option<StoredProposal>,
    proposal_id: AutoImproveProposalId,
    workspace_id: WorkspaceId,
    project_id: ProjectId,
    status: AutoImproveProposalStatus,
    reason: Seq<char>,
    actor_json: Seq<char>,
    author_id: Option<UserId>,
    now: i64,
    r: StoreResult<DecidedRows>,
) -> bool {
    match r {
        Ok(rows) => {
            &&& found matches Some(row)
            &&& can_be_decided(row, proposal_id, workspace_id, project_id)
            &&& is_decided(
                row,
                rows.proposal,
                status,
                now,
                Some(reason),
                author_id,
                actor_json,
            )
            &&& rows.proposal.applied_page_id == row.applied_page_id
            &&& rows.proposal.checkpoint == row.checkpoint
            &&& is_event(
                rows.event,
                proposal_id,
                status.name(),
                actor_json,
                author_id,
                one_field_object("reason"@, reason),
                now,
            )
        },
        Err(e) => {
            &&& e.is_invalid_state(NOT_PENDING@)
            &&& found matches Some(row) ==> !can_be_decided(
                row,
                proposal_id,
                workspace_id,
                project_id,
            )
        },
    }
}

/// Marks a proposal as failed. `found` is the stored proposal.
pub fn fail_proposal(
    found: Option<StoredProposal>,
    input: &FailAutoImproveProposal,
    now: i64,
) -> (r: StoreResult<DecidedRows>)
    ensures
        is_decided_against(
            found,
            input.proposal_id,
            input.workspace_id,
            input.project_id,
            AutoImproveProposalStatus::Failed,
            input.reason@,
            input.actor_json@,
            input.author_id,
            now,
            r,
        ),
{
    decide_against(
        found,
        input.proposal_id,
        input.workspace_id,
        input.project_id,
        AutoImproveProposalStatus::Failed,
        input.reason.as_str(),
        input.actor_json.as_str(),
        input.author_id,
        now,
    )
}

/// Marks a proposal as rejected. `found` is the stored proposal.
pub fn reject_proposal(
    found: Option<StoredProposal>,
    input: &RejectAutoImproveProposal,
    now: i64,
) -> (r: StoreResult<DecidedRows>)
    ensures
        is_decided_against(
            found,
            input.proposal_id,
            input.workspace_id,
            input.project_id,
            AutoImproveProposalStatus::Rejected,
            input.reason@,
            input.actor_json@,
            input.author_id,
            now,
            r,
        ),
{
    decide_against(
        found,
        input.proposal_id,
        input.workspace_id,
        input.project_id,
        AutoImproveProposalStatus::Rejected,
        input.reason.as_str(),
        input.actor_json.as_str(),
        input.author_id,
        now,
    )
}

/// The target of a proposal is not what it was when the proposal was staged: a page
/// to be created exists, or a page to be updated is gone or has another version.
pub open spec fn target_changed(
    row: StoredProposal,
    operation: AutoImproveProposalOperation,
    current: Option<PageRow>,
) -> bool {
    match (operation, current) {
        (AutoImproveProposalOperation::Create, _) => current is Some,
        (AutoImproveProposalOperation::Update, None) => true,
        (AutoImproveProposalOperation::Update, Some(page)) => {
            ||| opt_bytes(row.target_latest_page_id_at_stage) != Some(stored(page.id.0))
            ||| opt_bytes(row.target_body_sha256_at_stage) != Some(page.body_sha256@)
            ||| row.target_updated_at_at_stage != Some(page.updated_at)
        },
    }
}

/// Why an approval is refused before the target is looked at.
pub open spec fn approval_refusal(
    found: Option<StoredProposal>,
    input: ApproveAutoImproveProposal,
) -> Option<Seq<char>> {
    if input.page.workspace_id != input.workspace_id || input.page.project_id
        != input.project_id {
        Some(PAGE_OUT_OF_SCOPE@)
    } else if input.page.author_id != input.author_id {
        Some(PAGE_OF_OTHER_AUTHOR@)
    } else {
        match found {
            Some(row) => if !can_be_decided(
                row,
                input.proposal_id,
                input.workspace_id,
                input.project_id,
            ) {
                Some(NOT_PENDING@)
            } else if input.page.path@ != row.target_path@ {
                Some(PAGE_AT_OTHER_PATH@)
            } else {
                None
            },
            None => Some(NOT_PENDING@),
        }
    }
}

/// Whether optional bytes are those.
fn is_some_bytes(bytes: &Option<Vec<u8>>, expected: &Vec<u8>) -> (r: bool)
    ensures
        r == (opt_bytes(*bytes) == Some(expected@)),
{
    match bytes {
        Some(b) => same_bytes(b, expected),
        None => false,
    }
}

/// Whether two optional users are the same.
fn same_user(a: Option<UserId>, b: Option<UserId>) -> (r: bool)
    ensures
        r == (a == b),
{
    match (a, b) {
        (Some(x), Some(y)) => x == y,
        (None, None) => true,
        _ => false,
    }
}

/// Whether the target changed since the proposal was staged.
fn has_changed(
    row: &StoredProposal,
    operation: AutoImproveProposalOperation,
    current: &Option<TargetSnapshot>,
) -> (r: bool)
    ensures
        forall|page: Option<PageRow>|
            (match (*current, page) {
                (Some(snapshot), Some(p)) => snapshot.page_id == p.id && snapshot.body_sha256@
                    == p.body_sha256@ && snapshot.updated_at == p.updated_at,
                (None, None) => true,
                _ => false,
            }) ==> r == #[trigger] target_changed(*row, operation, page),
{
    match (operation, current) {
        (AutoImproveProposalOperation::Create, current) => current.is_some(),
        (AutoImproveProposalOperation::Update, None) => true,
        (AutoImproveProposalOperation::Update, Some(snapshot)) => {
            let same_time = match row.target_updated_at_at_stage {
                Some(at) => at == snapshot.updated_at,
                None => false,
            };
            !is_some_bytes(
                &row.target_latest_page_id_at_stage,
                &as_bytes(snapshot.page_id.0),
            ) || !is_some_bytes(&row.target_body_sha256_at_stage, &snapshot.body_sha256)
                || !same_time
        },
    }
}

/// Sets the columns of a decision on an approval.
fn mark_decision(
    row: StoredProposal,
    input: &ApproveAutoImproveProposal,
    status: AutoImproveProposalStatus,
    applied_page_id: Option<PageId>,
    reason: Option<String>,
    now: i64,
) -> (r: StoredProposal)
    ensures
        is_decided(
            row,
            r,
            status,
            now,
            opt_view(reason),
            input.author_id,
            input.actor_json@,
        ),
        r.applied_page_id == applied_page_id,
        opt_view(r.checkpoint) == opt_view(input.checkpoint),
{
    let mut proposal = row;
    proposal.status = status.as_str().to_string();
    proposal.decided_at = Some(now);
    proposal.decision_reason = reason;
    proposal.decided_by_author_id = input.author_id;
    proposal.decided_by_actor_json = Some(input.actor_json.clone());
    proposal.applied_page_id = applied_page_id;
    proposal.checkpoint = opt_copy(&input.checkpoint);
    proposal
}

/// Approves a proposal, or finds that its target changed. `found` is the stored
/// proposal, `pages` are the stored versions of its target.
pub fn approve_proposal(
    found: Option<StoredProposal>,
    pages: &Vec<PageRow>,
    input: &ApproveAutoImproveProposal,
    now: i64,
) -> (r: StoreResult<ApprovalStep>)
    ensures
        match (approval_refusal(found, *input), r) {
            (Some(message), _) => r matches Err(e) && e.is_invalid_state(message),
            (None, Err(e)) => e.is_malformed_record(
                "unknown auto-improve proposal operation: "@ + found->0.operation@,
            ) && forall|operation: AutoImproveProposalOperation| #[trigger]
                operation.name() != found->0.operation@,
            (None, Ok(ApprovalStep::Conflict(rows))) => {
                &&& exists|operation: AutoImproveProposalOperation| #[trigger]
                    operation.name() == found->0.operation@ && target_changed(
                        found->0,
                        operation,
                        current_target(found->0, pages@, *input),
                    )
                &&& is_conflict(rows, found->0, *input, now)
            },
            (None, Ok(ApprovalStep::Apply(pending))) => {
                &&& exists|operation: AutoImproveProposalOperation| #[trigger]
                    operation.name() == found->0.operation@ && !target_changed(
                        found->0,
                        operation,
                        current_target(found->0, pages@, *input),
                    )
                &&& pending.spec_proposal() == found->0
            },
        },
{
    if input.page.workspace_id != input.workspace_id || input.page.project_id
        != input.project_id {
        return Err(StoreError::InvalidState(PAGE_OUT_OF_SCOPE.to_string()));
    }
    if !same_user(input.page.author_id, input.author_id) {
        return Err(StoreError::InvalidState(PAGE_OF_OTHER_AUTHOR.to_string()));
    }
    let row = match pending_in_scope(
        found,
        input.proposal_id,
        input.workspace_id,
        input.project_id,
    ) {
        Ok(row) => row,
        Err(e) => return Err(e),
    };
    if !same_text(input.page.path.as_str(), row.target_path.as_str()) {
        return Err(StoreError::InvalidState(PAGE_AT_OTHER_PATH.to_string()));
    }
    let current = latest_target_snapshot(
        pages,
        input.workspace_id,
        input.project_id,
        row.target_path.as_str(),
    );
    let operation = match AutoImproveProposalOperation::from_str(row.operation.as_str()) {
        Ok(operation) => operation,
        Err(e) => return Err(e),
    };
    let changed = has_changed(&row, operation, &current);
    assert(changed == target_changed(row, operation, current_target(row, pages@, *input)));
    if changed {
        let event = new_event(
            input.proposal_id,
            "conflict",
            input.actor_json.as_str(),
            input.author_id,
            object_text("reason", TARGET_CHANGED),
            now,
        );
        let proposal = mark_decision(
            row,
            input,
            AutoImproveProposalStatus::Conflict,
            None,
            Some(TARGET_CHANGED.to_string()),
            now,
        );
        return Ok(ApprovalStep::Conflict(DecidedRows { proposal, event }));
    }
    Ok(ApprovalStep::Apply(PendingApproval { proposal: row }))
}

/// The latest version of the target of a proposal.
pub open spec fn current_target(
    row: StoredProposal,
    pages: Seq<PageRow>,
    input: ApproveAutoImproveProposal,
) -> Option<PageRow> {
    target(pages, input.workspace_id, input.project_id, row.target_path@)
}

/// The rows of a conflict.
pub open spec fn is_conflict(
    rows: DecidedRows,
    before: StoredProposal,
    input: ApproveAutoImproveProposal,
    now: i64,
) -> bool {
    &&& is_decided(
        before,
        rows.proposal,
        AutoImproveProposalStatus::Conflict,
        now,
        Some(TARGET_CHANGED@),
        input.author_id,
        input.actor_json@,
    )
    &&& rows.proposal.applied_page_id is None
    &&& opt_view(rows.proposal.checkpoint) == opt_view(input.checkpoint)
    &&& is_event(
        rows.event,
        input.proposal_id,
        "conflict"@,
        input.actor_json@,
        input.author_id,
        one_field_object("reason"@, TARGET_CHANGED@),
        now,
    )
}

/// Completes an approval with the page that was written.
pub fn complete_approval(
    pending: PendingApproval,
    input: &ApproveAutoImproveProposal,
    page_id: PageId,
    now: i64,
) -> (r: (DecidedRows, ApproveAutoImproveProposalResult))
    ensures
        is_decided(
            pending.spec_proposal(),
            r.0.proposal,
            AutoImproveProposalStatus::Approved,
            now,
            None,
            input.author_id,
            input.actor_json@,
        ),
        r.0.proposal.applied_page_id == Some(page_id),
        opt_view(r.0.proposal.checkpoint) == opt_view(input.checkpoint),
        is_event(
            r.0.event,
            input.proposal_id,
            "approved"@,
            input.actor_json@,
            input.author_id,
            one_field_object("applied_page_id"@, hyphenated(page_id.0)),
            now,
        ),
        r.1 == (ApproveAutoImproveProposalResult::Approved { page_id }),
{
    let event = new_event(
        input.proposal_id,
        "approved",
        input.actor_json.as_str(),
        input.author_id,
        object_text("applied_page_id", uuid_text(page_id.0).as_str()),
        now,
    );
    let proposal = mark_decision(
        pending.proposal,
        input,
        AutoImproveProposalStatus::Approved,
        Some(page_id),
        None,
        now,
    );
    (DecidedRows { proposal, event }, ApproveAutoImproveProposalResult::Approved { page_id })
}

/// A proposal is decided at most once: once it is decided in any way, it cannot be
/// decided again, by whomever.
pub proof fn decided_proposal_stays_decided(
    before: StoredProposal,
    after: StoredProposal,
    status: AutoImproveProposalStatus,
    now: i64,
    reason: Option<Seq<char>>,
    author_id: Option<UserId>,
    actor_json: Seq<char>,
    proposal_id: AutoImproveProposalId,
    workspace_id: WorkspaceId,
    project_id: ProjectId,
)
    requires
        status != AutoImproveProposalStatus::Pending,
        is_decided(before, after, status, now, reason, author_id, actor_json),
    ensures
        !can_be_decided(after, proposal_id, workspace_id, project_id),
{
    if after.status@ == "pending"@ {
        crate::auto_improve::status_names_are_distinct(
            status,
            AutoImproveProposalStatus::Pending,
        );
    }
}

/// A decision is read back: a proposal that could be read can still be read once it
/// is decided, with the status and the time of the decision.
pub proof fn decision_reads_back(
    before: StoredProposal,
    after: StoredProposal,
    status: AutoImproveProposalStatus,
    now: i64,
    reason: Option<Seq<char>>,
    author_id: Option<UserId>,
    actor_json: Seq<char>,
    summary: AutoImproveProposalSummary,
)
    requires
        is_readable(before),
        is_decided(before, after, status, now, reason, author_id, actor_json),
    ensures
        is_readable(after),
        is_summary(summary, after) ==> summary.status == status && summary.decided_at == Some(now),
{
    assert(crate::auto_improve::identifiers(after) == crate::auto_improve::identifiers(before));
    assert(status.name() == after.status@);
    if is_summary(summary, after) {
        crate::auto_improve::status_names_are_distinct(summary.status, status);
    }
}

/// A proposal whose target did not change since it was staged is not in conflict: it
/// can be decided by the project that it was staged for, and an approval at the same
/// versions of the pages applies it.
pub proof fn unchanged_target_is_no_conflict(
    input: StageAutoImproveRun,
    rows: StagedRows,
    run_id: AutoImproveRunId,
    ids: Seq<AutoImproveProposalId>,
    pages: Seq<PageRow>,
    now: i64,
    i: int,
)
    requires
        0 <= i < input.proposals@.len(),
        is_staged(rows, input, run_id, ids, pages, now),
        refusal_at(input, pages, i) is None,
    ensures
        can_be_decided(rows.proposals@[i], ids[i], input.workspace_id, input.project_id),
        rows.proposals@[i].target_path@ == input.proposals@[i].target_path@,
        forall|operation: AutoImproveProposalOperation| #[trigger]
            operation.name() == rows.proposals@[i].operation@ ==> !target_changed(
                rows.proposals@[i],
                operation,
                target_of(input, pages, input.proposals@[i]),
            ),
        input.proposals@[i].operation.name() == rows.proposals@[i].operation@,
{
    let proposal = input.proposals@[i];
    assert(is_proposal_row(
        rows.proposals@[i],
        input,
        proposal,
        run_id,
        ids[i],
        target_of(input, pages, proposal),
        now,
    ));
    assert forall|operation: AutoImproveProposalOperation| #[trigger]
        operation.name() == rows.proposals@[i].operation@ implies operation
        == proposal.operation by {
        crate::auto_improve::operation_names_are_distinct(operation, proposal.operation);
    }
}

/// A proposal whose target has another version than the one that it was staged for is
/// in conflict: its update is never applied.
pub proof fn changed_target_is_a_conflict(
    row: StoredProposal,
    staged_for: PageRow,
    current: Option<PageRow>,
)
    requires
        crate::staging::remembers_target(row, Some(staged_for)),
        current matches Some(page) ==> page.id != staged_for.id || page.body_sha256@
            != staged_for.body_sha256@ || page.updated_at != staged_for.updated_at,
    ensures
        target_changed(row, AutoImproveProposalOperation::Update, current),
{
    if let Some(page) = current {
        if page.id != staged_for.id && stored(page.id.0) == stored(staged_for.id.0) {
            crate::ids::stored_is_injective(page.id.0, staged_for.id.0);
        }
    }
}

/// A project decides its own proposals only.
pub proof fn foreign_proposal_cannot_be_decided(
    row: StoredProposal,
    proposal_id: AutoImproveProposalId,
    own: (WorkspaceId, ProjectId),
    other: (WorkspaceId, ProjectId),
)
    requires
        can_be_decided(row, proposal_id, own.0, own.1),
        own != other,
    ensures
        !can_be_decided(row, proposal_id, other.0, other.1),
{
    if stored(own.0.0) == stored(other.0.0) {
        crate::ids::stored_is_injective(own.0.0, other.0.0);
    }
    if stored(own.1.0) == stored(other.1.0) {
        crate::ids::stored_is_injective(own.1.0, other.1.0);
    }
}

/// The row is the proposal that is meant: it has its identifier, its workspace and its
/// project, and it is pending.
pub open spec fn is_pending(
    row: StoredProposal,
    proposal_id: AutoImproveProposalId,
    workspace_id: WorkspaceId,
    project_id: ProjectId,
) -> bool {
    row.id@ == stored(proposal_id.0) && row.workspace_id@ == stored(workspace_id.0)
        && row.project_id@ == stored(project_id.0) && row.status@ == "pending"@
}

/// A decision sets what it decides and leaves the proposal as it was staged: the status,
/// the time, the reason, the author and the actor are those of the decision, and every
/// other word of the row is the one from before.
pub proof fn decision_changes_only_the_decision(
    before: StoredProposal,
    after: StoredProposal,
    status: AutoImproveProposalStatus,
    now: i64,
    reason: Option<Seq<char>>,
    author_id: Option<UserId>,
    actor_json: Seq<char>,
)
    requires
        is_decided(before, after, status, now, reason, author_id, actor_json),
    ensures
        after.status@ == status.name(),
        after.decided_at == Some(now),
        after.decision_reason is Some <==> reason is Some,
        reason matches Some(text) ==> (after.decision_reason->0)@ == text,
        after.decided_by_author_id == author_id,
        after.decided_by_actor_json matches Some(json) && json@ == actor_json,
        after == (StoredProposal {
            status: after.status,
            decided_at: after.decided_at,
            decision_reason: after.decision_reason,
            decided_by_author_id: after.decided_by_author_id,
            decided_by_actor_json: after.decided_by_actor_json,
            applied_page_id: after.applied_page_id,
            checkpoint: after.checkpoint,
            ..before
        }),
{
}

/// Turning a proposal down succeeds exactly where the proposal is the one that is meant
/// and is pending; it then has the status, the reason, the author and the actor of the
/// decision, its application is left as it was, and the log says so. Else the proposal
/// is said not to be pending or not to be in scope.
pub proof fn pending_proposal_is_turned_down(
    found: Option<StoredProposal>,
    proposal_id: AutoImproveProposalId,
    workspace_id: WorkspaceId,
    project_id: ProjectId,
    status: AutoImproveProposalStatus,
    reason: Seq<char>,
    actor_json: Seq<char>,
    author_id: Option<UserId>,
    now: i64,
    r: StoreResult<DecidedRows>,
)
    requires
        is_decided_against(
            found,
            proposal_id,
            workspace_id,
            project_id,
            status,
            reason,
            actor_json,
            author_id,
            now,
            r,
        ),
    ensures
        r is Ok <==> (found matches Some(row) && is_pending(
            row,
            proposal_id,
            workspace_id,
            project_id,
        )),
        r matches Ok(rows) ==> {
            &&& rows.proposal.status@ == status.name()
            &&& rows.proposal.decided_at == Some(now)
            &&& rows.proposal.decision_reason matches Some(why) && why@ == reason
            &&& rows.proposal.decided_by_author_id == author_id
            &&& rows.proposal.decided_by_actor_json matches Some(json) && json@ == actor_json
            &&& rows.proposal == (StoredProposal {
                status: rows.proposal.status,
                decided_at: rows.proposal.decided_at,
                decision_reason: rows.proposal.decision_reason,
                decided_by_author_id: rows.proposal.decided_by_author_id,
                decided_by_actor_json: rows.proposal.decided_by_actor_json,
                ..found->0
            })
            &&& rows.event.proposal_id == proposal_id
            &&& rows.event.event@ == status.name()
            &&& rows.event.actor_json@ == actor_json
            &&& rows.event.author_id == author_id
            &&& rows.event.detail_json@ == one_field_object("reason"@, reason)
            &&& rows.event.at == now
        },
        r matches Err(e) ==> (e matches StoreError::InvalidState(message) && message@
            == "auto-improve proposal is not pending or not in scope"@),
{
}

/// An approval is refused before its target is looked at exactly where its page is of
/// another project or of another author, or goes to another path than the proposal's,
/// or where the proposal is not the one that is meant or not pending; and the first of
/// these says why.
pub proof fn approval_is_refused_for_these_reasons(
    found: Option<StoredProposal>,
    input: ApproveAutoImproveProposal,
)
    ensures
        ({
            let in_scope = input.page.workspace_id == input.workspace_id && input.page.project_id
                == input.project_id;
            let own = input.page.author_id == input.author_id;
            let pending = found matches Some(row) && is_pending(
                row,
                input.proposal_id,
                input.workspace_id,
                input.project_id,
            );
            let refusal = approval_refusal(found, input);
            &&& !in_scope ==> refusal == Some("approval page scope does not match proposal scope"@)
            &&& in_scope && !own ==> refusal == Some(
                "approval page author does not match approver author"@,
            )
            &&& in_scope && own && !pending ==> refusal == Some(
                "auto-improve proposal is not pending or not in scope"@,
            )
            &&& in_scope && own && pending && input.page.path@ != (found->0).target_path@
                ==> refusal == Some("approval page path does not match proposal target"@)
            &&& in_scope && own && pending && input.page.path@ == (found->0).target_path@
                ==> refusal is None
        }),
{
}

/// The target of a proposal changed exactly where a page that is to be created exists,
/// or a page that is to be updated is gone, or is another page, or has another text or
/// another time than the version that the proposal remembers.
pub proof fn target_changes_by_its_version(
    row: StoredProposal,
    pages: Seq<PageRow>,
    input: ApproveAutoImproveProposal,
)
    ensures
        ({
            let current = target(
                pages,
                input.workspace_id,
                input.project_id,
                row.target_path@,
            );
            let create = AutoImproveProposalOperation::Create;
            let update = AutoImproveProposalOperation::Update;
            &&& current_target(row, pages, input) == current
            &&& target_changed(row, create, current) <==> current is Some
            &&& current is None ==> target_changed(row, update, current)
            &&& current matches Some(page) ==> (!target_changed(row, update, current) <==> (
            row.target_latest_page_id_at_stage is Some && (
            row.target_latest_page_id_at_stage->0)@ == stored(page.id.0)
                && row.target_body_sha256_at_stage is Some && (row.target_body_sha256_at_stage->0)@
                == page.body_sha256@ && row.target_updated_at_at_stage is Some
                && row.target_updated_at_at_stage->0 == page.updated_at))
        }),
{
}

/// A conflict marks the proposal and applies nothing, and the log says that the target
/// changed.
pub proof fn conflict_applies_nothing(
    rows: DecidedRows,
    before: StoredProposal,
    input: ApproveAutoImproveProposal,
    now: i64,
)
    requires
        is_conflict(rows, before, input, now),
    ensures
        rows.proposal.status@ == "conflict"@,
        rows.proposal.decided_at == Some(now),
        rows.proposal.decision_reason matches Some(why) && why@
            == "target changed since proposal was staged"@,
        rows.proposal.decided_by_author_id == input.author_id,
        rows.proposal.decided_by_actor_json matches Some(json) && json@ == input.actor_json@,
        rows.proposal.applied_page_id is None,
        rows.proposal.checkpoint is Some <==> input.checkpoint is Some,
        input.checkpoint matches Some(text) ==> (rows.proposal.checkpoint->0)@ == text@,
        rows.proposal.target_path == before.target_path,
        rows.proposal.body_markdown == before.body_markdown,
        rows.event.proposal_id == input.proposal_id,
        rows.event.event@ == "conflict"@,
        rows.event.actor_json@ == input.actor_json@,
        rows.event.author_id == input.author_id,
        rows.event.detail_json@ == one_field_object(
            "reason"@,
            "target changed since proposal was staged"@,
        ),
        rows.event.at == now,
{
}

/// A proposal is rejected, or marked as failed, by its own name for it.
pub proof fn rejection_and_failure_are_told_apart(
    found: Option<StoredProposal>,
    rejection: RejectAutoImproveProposal,
    failure: FailAutoImproveProposal,
    now: i64,
    rejected: StoreResult<DecidedRows>,
    failed: StoreResult<DecidedRows>,
)
    requires
        call_ensures(reject_proposal, (found, &rejection, now), rejected),
        call_ensures(fail_proposal, (found, &failure, now), failed),
    ensures
        rejected is Ok <==> (found matches Some(row) && is_pending(
            row,
            rejection.proposal_id,
            rejection.workspace_id,
            rejection.project_id,
        )),
        rejected matches Ok(rows) ==> rows.proposal.status@ == "rejected"@ && rows.event.event@
            == "rejected"@ && rows.event.proposal_id == rejection.proposal_id && (
        rows.proposal.decision_reason matches Some(why) && why@ == rejection.reason@)
            && rows.proposal.decided_by_author_id == rejection.author_id,
        failed is Ok <==> (found matches Some(row) && is_pending(
            row,
            failure.proposal_id,
            failure.workspace_id,
            failure.project_id,
        )),
        failed matches Ok(rows) ==> rows.proposal.status@ == "failed"@ && rows.event.event@
            == "failed"@ && rows.event.proposal_id == failure.proposal_id && (
        rows.proposal.decision_reason matches Some(why) && why@ == failure.reason@)
            && rows.proposal.decided_by_author_id == failure.author_id,
{
}

/// An approval that is not refused applies the proposal exactly where its target did not
/// change since it was staged, and marks a conflict where it did; a proposal whose
/// operation is not known is refused. What is applied is the stored proposal, which then
/// counts as approved, with the page that was written.
pub proof fn approval_applies_an_unchanged_target(
    found: Option<StoredProposal>,
    pages: Vec<PageRow>,
    input: ApproveAutoImproveProposal,
    now: i64,
    r: StoreResult<ApprovalStep>,
    pending: PendingApproval,
    page_id: PageId,
    completed: (DecidedRows, ApproveAutoImproveProposalResult),
)
    requires
        call_ensures(approve_proposal, (found, &pages, &input, now), r),
        call_ensures(complete_approval, (pending, &input, page_id, now), completed),
    ensures
        approval_refusal(found, input) is Some ==> (r matches Err(StoreError::InvalidState(message))
            && Some(message@) == approval_refusal(found, input)),
        approval_refusal(found, input) is None ==> {
            let row = found->0;
            let current = target(pages@, input.workspace_id, input.project_id, row.target_path@);
            let create = row.operation@ == "create"@;
            let update = row.operation@ == "update"@;
            &&& r is Err <==> !create && !update
            &&& create ==> (r matches Ok(ApprovalStep::Conflict(_)) <==> current is Some)
            &&& update ==> (r matches Ok(ApprovalStep::Conflict(_)) <==> target_changed(
                row,
                AutoImproveProposalOperation::Update,
                current,
            ))
            &&& r matches Ok(ApprovalStep::Apply(p)) ==> p.spec_proposal() == row
            &&& r matches Ok(ApprovalStep::Conflict(rows)) ==> is_conflict(rows, row, input, now)
        },
        completed.0.proposal.status@ == "approved"@,
        completed.0.proposal.decided_at == Some(now),
        completed.0.proposal.decision_reason is None,
        completed.0.proposal.decided_by_author_id == input.author_id,
        completed.0.proposal.applied_page_id == Some(page_id),
        completed.0.proposal.checkpoint is Some <==> input.checkpoint is Some,
        input.checkpoint matches Some(text) ==> (completed.0.proposal.checkpoint->0)@ == text@,
        completed.0.proposal.body_markdown == pending.spec_proposal().body_markdown,
        completed.0.proposal.target_path == pending.spec_proposal().target_path,
        completed.0.event.proposal_id == input.proposal_id,
        completed.0.event.event@ == "approved"@,
        completed.0.event.detail_json@ == one_field_object(
            "applied_page_id"@,
            hyphenated(page_id.0),
        ),
        completed.1 == (ApproveAutoImproveProposalResult::Approved { page_id }),
{
    if approval_refusal(found, input) is None {
        let row = found->0;
        assert(AutoImproveProposalOperation::Create.name() == "create"@);
        assert(AutoImproveProposalOperation::Update.name() == "update"@);
        assert forall|operation: AutoImproveProposalOperation| #[trigger]
            operation.name() == row.operation@ implies (row.operation@ == "create"@ ==> operation
            == AutoImproveProposalOperation::Create) && (row.operation@ == "update"@ ==> operation
            == AutoImproveProposalOperation::Update) by {
            crate::auto_improve::stored_names(AutoImproveProposalStatus::Pending, operation);
        }
    }
}

} // verus!
