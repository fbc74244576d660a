//! Proposals to improve the wiki: staging, deciding, and scheduling.
//!
//! The rows of the store come in as values and go out as values; what is done to the
//! rows is decided here.
use crate::error::{labelled, StoreError, StoreResult};
use crate::ids::{
    from_slice, hyphenated, stored, uuid_text, AutoImproveProposalId, AutoImproveRunId, PageId,
    ProjectId, SessionId, UserId, WorkspaceId,
};
use crate::text::same_text;
use vstd::prelude::*;

verus! {

/// The directory of proposals that wait for a decision.
pub const PENDING_DIRECTORY: &'static str = "_pending/auto-improve/";

/// The message for a proposal that cannot be decided.
pub const NOT_PENDING: &'static str = "auto-improve proposal is not pending or not in scope";

/// The reason of a conflict.
pub const TARGET_CHANGED: &'static str = "target changed since proposal was staged";

/// The message for a session of another project.
pub const SESSION_OUT_OF_SCOPE: &'static str = "auto-improve session is not in proposal scope";

/// The message for a page of another project.
pub const PAGE_OUT_OF_SCOPE: &'static str = "approval page scope does not match proposal scope";

/// The message for a page of another author.
pub const PAGE_OF_OTHER_AUTHOR: &'static str =
    "approval page author does not match approver author";

/// The message for a page at another path.
pub const PAGE_AT_OTHER_PATH: &'static str = "approval page path does not match proposal target";

/// Where a proposal stands.
#[derive(Debug, Clone, Copy, PartialEq, Eq, Structural)]
pub enum AutoImproveProposalStatus {
    Pending,
    Approved,
    Rejected,
    Conflict,
    Failed,
}

impl AutoImproveProposalStatus {
    /// The name that the status is stored under.
    pub open spec fn name(self) -> Seq<char> {
        match self {
            Self::Pending => "pending"@,
            Self::Approved => "approved"@,
            Self::Rejected => "rejected"@,
            Self::Conflict => "conflict"@,
            Self::Failed => "failed"@,
        }
    }

    /// The name that the status is stored under.
    pub fn as_str(self) -> (r: &'static str)
        ensures
            r@ == self.name(),
    {
        match self {
            Self::Pending => "pending",
            Self::Approved => "approved",
            Self::Rejected => "rejected",
            Self::Conflict => "conflict",
            Self::Failed => "failed",
        }
    }

    /// The status that is stored under a name.
    pub fn from_str(s: &str) -> (r: StoreResult<Self>)
        ensures
            match r {
                Ok(status) => status.name() == s@,
                Err(e) => e.is_malformed_record("unknown auto-improve proposal status: "@ + s@)
                    && forall|status: Self| #[trigger] status.name() != s@,
            },
    {
        if same_text(s, "pending") {
            Ok(Self::Pending)
        } else if same_text(s, "approved") {
            Ok(Self::Approved)
        } else if same_text(s, "rejected") {
            Ok(Self::Rejected)
        } else if same_text(s, "conflict") {
            Ok(Self::Conflict)
        } else if same_text(s, "failed") {
            Ok(Self::Failed)
        } else {
            Err(StoreError::MalformedRecord(labelled("unknown auto-improve proposal status: ", s)))
        }
    }
}

/// What a proposal does to its target.
#[derive(Debug, Clone, Copy, PartialEq, Eq, Structural)]
pub enum AutoImproveProposalOperation {
    Create,
    Update,
}

impl AutoImproveProposalOperation {
    /// The name that the operation is stored under.
    pub open spec fn name(self) -> Seq<char> {
        match self {
            Self::Create => "create"@,
            Self::Update => "update"@,
        }
    }

    /// The name that the operation is stored under.
    pub fn as_str(self) -> (r: &'static str)
        ensures
            r@ == self.name(),
    {
        match self {
            Self::Create => "create",
            Self::Update => "update",
        }
    }

    /// The operation that is stored under a name.
    pub fn from_str(s: &str) -> (r: StoreResult<Self>)
        ensures
            match r {
                Ok(operation) => operation.name() == s@,
                Err(e) => e.is_malformed_record("unknown auto-improve proposal operation: "@ + s@)
                    && forall|operation: Self| #[trigger] operation.name() != s@,
            },
    {
        if same_text(s, "create") {
            Ok(Self::Create)
        } else if same_text(s, "update") {
            Ok(Self::Update)
        } else {
            Err(
                StoreError::MalformedRecord(
                    labelled("unknown auto-improve proposal operation: ", s),
                ),
            )
        }
    }
}

/// What `sha2::Sha256` makes of a byte string.
pub uninterp spec fn sha256_digest(bytes: Seq<u8>) -> Seq<u8>;

/// Calls `sha2::Sha256::digest`. Trusted: the result is a function of the bytes.
#[verifier::external_body]
pub(crate) fn sha256(bytes: &[u8]) -> (r: [u8; 32])
    ensures
        r@ == sha256_digest(bytes@),
{
    <sha2::Sha256 as sha2::Digest>::digest(bytes).into()
}

/// The thirty-two bytes of a digest.
pub fn bytes32(bytes: Vec<u8>) -> (r: StoreResult<[u8; 32]>)
    ensures
        match r {
            Ok(digest) => digest@ == bytes@,
            Err(e) => bytes@.len() != 32 && e.is_malformed_record("invalid sha256 length"@),
        },
{
    if bytes.len() != 32 {
        return Err(StoreError::MalformedRecord("invalid sha256 length".to_string()));
    }
    let mut digest: [u8; 32] = [0;32];
    let mut i: usize = 0;
    while i < 32
        invariant
            i <= 32,
            bytes@.len() == 32,
            forall|k: int| 0 <= k < i ==> digest@[k] == bytes@[k],
        decreases 32 - i,
    {
        digest[i] = bytes[i];
        i = i + 1;
    }
    assert(digest@ =~= bytes@);
    Ok(digest)
}

/// The thirty-two bytes of a digest, where there is one.
pub fn opt_bytes32(bytes: Option<Vec<u8>>) -> (r: StoreResult<Option<[u8; 32]>>)
    ensures
        match (bytes, r) {
            (None, Ok(None)) => true,
            (Some(b), Ok(Some(digest))) => digest@ == b@,
            (Some(b), Err(e)) => b@.len() != 32 && e.is_malformed_record(
                "invalid sha256 length"@,
            ),
            _ => false,
        },
{
    match bytes {
        Some(bytes) => match bytes32(bytes) {
            Ok(digest) => Ok(Some(digest)),
            Err(e) => Err(e),
        },
        None => Ok(None),
    }
}

/// Where the text of a proposal is kept until it is decided.
pub open spec fn artifact_path(proposal_id: AutoImproveProposalId) -> Seq<char> {
    PENDING_DIRECTORY@ + hyphenated(proposal_id.0) + ".md"@
}

/// Where the text of a proposal is kept until it is decided.
pub fn artifact_path_for(proposal_id: AutoImproveProposalId) -> (r: String)
    ensures
        r@ == artifact_path(proposal_id),
{
    let mut r = PENDING_DIRECTORY.to_string();
    r.append(uuid_text(proposal_id.0).as_str());
    r.append(".md");
    r
}

/// Two proposals never share an artifact.
pub proof fn artifact_paths_are_distinct(a: AutoImproveProposalId, b: AutoImproveProposalId)
    requires
        artifact_path(a) == artifact_path(b),
    ensures
        a == b,
{
    let n = PENDING_DIRECTORY@.len() as int;
    assert(hyphenated(a.0) =~= artifact_path(a).subrange(n, n + 36));
    assert(hyphenated(b.0) =~= artifact_path(b).subrange(n, n + 36));
    crate::ids::hyphenated_is_injective(a.0, b.0);
}

/// A run that is to be staged. JSON values and the actor are given as JSON text.
#[derive(Debug)]
pub struct StageAutoImproveRun {
    pub workspace_id: WorkspaceId,
    pub project_id: ProjectId,
    pub session_id: Option<SessionId>,
    pub provider: Option<String>,
    pub model: Option<String>,
    pub summary: Option<String>,
    pub warnings_json: String,
    pub rejected_candidates_json: String,
    pub config_json: String,
    pub proposal_actor_json: String,
    pub proposals: Vec<NewAutoImproveProposal>,
}

/// A proposal that is to be staged.
#[derive(Debug)]
pub struct NewAutoImproveProposal {
    pub operation: AutoImproveProposalOperation,
    pub target_path: String,
    pub kind: String,
    pub title: String,
    /// The bits of the floating-point number that says how sure the model is.
    pub confidence_bits: u64,
    pub rationale: String,
    pub evidence_json: String,
    pub body_markdown: String,
    pub artifact_sha256: Option<[u8; 32]>,
}

/// What was staged.
#[derive(Debug)]
pub struct StagedAutoImproveRun {
    pub run_id: AutoImproveRunId,
    pub proposal_ids: Vec<AutoImproveProposalId>,
}

/// A proposal in short.
#[derive(Debug)]
pub struct AutoImproveProposalSummary {
    pub id: AutoImproveProposalId,
    pub run_id: AutoImproveRunId,
    pub workspace_id: WorkspaceId,
    pub project_id: ProjectId,
    pub status: AutoImproveProposalStatus,
    pub operation: AutoImproveProposalOperation,
    pub target_path: String,
    pub kind: String,
    pub title: String,
    pub confidence_bits: u64,
    pub staged_at: i64,
    pub decided_at: Option<i64>,
}

/// A proposal in full.
#[derive(Debug)]
pub struct AutoImproveProposalDetail {
    pub summary: AutoImproveProposalSummary,
    pub rationale: String,
    pub evidence_json: String,
    pub body_markdown: String,
    pub body_sha256: [u8; 32],
    pub artifact_path: String,
    pub artifact_sha256: Option<[u8; 32]>,
    pub target_latest_page_id_at_stage: Option<PageId>,
    pub target_body_sha256_at_stage: Option<[u8; 32]>,
    pub target_updated_at_at_stage: Option<i64>,
    pub decision_reason: Option<String>,
    pub decided_by_author_id: Option<UserId>,
    pub decided_by_actor_json: Option<String>,
    pub applied_page_id: Option<PageId>,
    pub checkpoint: Option<String>,
    pub events: Vec<AutoImproveProposalEvent>,
}

/// Something that happened to a proposal.
#[derive(Debug)]
pub struct AutoImproveProposalEvent {
    pub id: i64,
    pub proposal_id: AutoImproveProposalId,
    pub event: String,
    pub actor_json: String,
    pub author_id: Option<UserId>,
    pub detail_json: String,
    pub at: i64,
}

/// Something that happened to a proposal, to be added to its log.
#[derive(Debug)]
pub struct NewProposalEvent {
    pub proposal_id: AutoImproveProposalId,
    pub event: String,
    pub actor_json: String,
    pub author_id: Option<UserId>,
    pub detail_json: String,
    pub at: i64,
}

/// A run as it is stored.
#[derive(Debug)]
pub struct StoredRun {
    pub id: AutoImproveRunId,
    pub workspace_id: WorkspaceId,
    pub project_id: ProjectId,
    pub session_id: Option<SessionId>,
    pub provider: Option<String>,
    pub model: Option<String>,
    pub summary: Option<String>,
    pub warnings_json: String,
    pub rejected_candidates_json: String,
    pub config_json: String,
    pub proposal_actor_json: String,
    pub created_at: i64,
}

/// A proposal as it is stored.
#[derive(Debug)]
pub struct StoredProposal {
    pub id: Vec<u8>,
    pub run_id: Vec<u8>,
    pub workspace_id: Vec<u8>,
    pub project_id: Vec<u8>,
    pub status: String,
    pub operation: String,
    pub target_path: String,
    pub kind: String,
    pub title: String,
    pub confidence_bits: u64,
    pub rationale: String,
    pub evidence_json: String,
    pub body_markdown: String,
    pub body_sha256: Vec<u8>,
    pub artifact_path: String,
    pub artifact_sha256: Option<Vec<u8>>,
    pub target_latest_page_id_at_stage: Option<Vec<u8>>,
    pub target_body_sha256_at_stage: Option<Vec<u8>>,
    pub target_updated_at_at_stage: Option<i64>,
    pub staged_at: i64,
    pub decided_at: Option<i64>,
    pub decision_reason: Option<String>,
    pub decided_by_author_id: Option<UserId>,
    pub decided_by_actor_json: Option<String>,
    pub applied_page_id: Option<PageId>,
    pub checkpoint: Option<String>,
}

/// A page version as it is stored, as far as proposals go.
#[derive(Debug)]
pub struct PageRow {
    pub id: PageId,
    pub workspace_id: WorkspaceId,
    pub project_id: ProjectId,
    pub path: String,
    pub is_latest: bool,
    pub body_sha256: Vec<u8>,
    pub updated_at: i64,
}

/// A session as it is stored, as far as proposals go.
#[derive(Debug)]
pub struct SessionRow {
    pub id: SessionId,
    pub workspace_id: WorkspaceId,
    pub project_id: ProjectId,
    pub ended_at: Option<i64>,
}

/// The latest version of a proposal's target.
#[derive(Debug)]
pub struct TargetSnapshot {
    pub page_id: PageId,
    pub body_sha256: Vec<u8>,
    pub updated_at: i64,
}

/// The row is the latest version of the page at `path`.
pub open spec fn is_target(
    row: PageRow,
    workspace_id: WorkspaceId,
    project_id: ProjectId,
    path: Seq<char>,
) -> bool {
    &&& row.workspace_id == workspace_id
    &&& row.project_id == project_id
    &&& row.path@ == path
    &&& row.is_latest
}

/// The first of the rows that is the latest version of the page at `path`.
pub open spec fn target(
    pages: Seq<PageRow>,
    workspace_id: WorkspaceId,
    project_id: ProjectId,
    path: Seq<char>,
) -> Option<PageRow>
    decreases pages.len(),
{
    if pages.len() == 0 {
        None
    } else if is_target(pages[0], workspace_id, project_id, path) {
        Some(pages[0])
    } else {
        target(pages.drop_first(), workspace_id, project_id, path)
    }
}

/// The latest version of the page at `target_path`, where there is a page.
pub fn latest_target_snapshot(
    pages: &Vec<PageRow>,
    workspace_id: WorkspaceId,
    project_id: ProjectId,
    target_path: &str,
) -> (r: Option<TargetSnapshot>)
    ensures
        match (r, target(pages@, workspace_id, project_id, target_path@)) {
            (Some(snapshot), Some(row)) => snapshot.page_id == row.id && snapshot.body_sha256@
                == row.body_sha256@ && snapshot.updated_at == row.updated_at,
            (None, None) => true,
            _ => false,
        },
{
    let mut i: usize = 0;
    proof {
        assert(pages@.skip(0) == pages@);
    }
    while i < pages.len()
        invariant
            i <= pages@.len(),
            target(pages@, workspace_id, project_id, target_path@) == target(
                pages@.skip(i as int),
                workspace_id,
                project_id,
                target_path@,
            ),
        decreases pages.len() - i,
    {
        proof {
            assert(pages@.skip(i as int)[0] == pages@[i as int]);
            assert(pages@.skip(i as int).drop_first() == pages@.skip(i + 1));
        }
        let row = &pages[i];
        if row.workspace_id == workspace_id && row.project_id == project_id && row.is_latest
            && same_text(row.path.as_str(), target_path) {
            return Some(
                TargetSnapshot {
                    page_id: row.id,
                    body_sha256: copy_bytes(&row.body_sha256),
                    updated_at: row.updated_at,
                },
            );
        }
        i = i + 1;
    }
    None
}

/// A copy of a byte string.
pub(crate) fn copy_bytes(bytes: &Vec<u8>) -> (r: Vec<u8>)
    ensures
        r@ == bytes@,
{
    let mut r: Vec<u8> = Vec::new();
    let mut i: usize = 0;
    while i < bytes.len()
        invariant
            i <= bytes@.len(),
            r@ == bytes@.take(i as int),
        decreases bytes.len() - i,
    {
        r.push(bytes[i]);
        i = i + 1;
    }
    r
}

/// The view of an optional digest.
pub open spec fn opt_digest(digest: Option<[u8; 32]>) -> Option<Seq<u8>> {
    match digest {
        Some(d) => Some(d@),
        None => None,
    }
}

/// What an event says.
pub open spec fn is_event(
    e: NewProposalEvent,
    proposal_id: AutoImproveProposalId,
    event: Seq<char>,
    actor_json: Seq<char>,
    author_id: Option<UserId>,
    detail_json: Seq<char>,
    at: i64,
) -> bool {
    &&& e.proposal_id == proposal_id
    &&& e.event@ == event
    &&& e.actor_json@ == actor_json
    &&& e.author_id == author_id
    &&& e.detail_json@ == detail_json
    &&& e.at == at
}

/// The entry of a proposal's log.
pub(crate) fn new_event(
    proposal_id: AutoImproveProposalId,
    event: &str,
    actor_json: &str,
    author_id: Option<UserId>,
    detail_json: String,
    at: i64,
) -> (r: NewProposalEvent)
    ensures
        is_event(r, proposal_id, event@, actor_json@, author_id, detail_json@, at),
{
    NewProposalEvent {
        proposal_id,
        event: event.to_string(),
        actor_json: actor_json.to_string(),
        author_id,
        detail_json,
        at,
    }
}

/// Why a stored proposal cannot be read.
#[derive(Debug)]
pub enum RowError {
    /// An identifier has this many bytes.
    Identifier(usize),
    /// The target is no path of a page, for this reason.
    Path(String),
    /// Status or operation is not known.
    Value(StoreError),
}

/// The identifiers of a stored proposal, in the order in which they are read.
pub open spec fn identifiers(row: StoredProposal) -> Seq<Seq<u8>> {
    seq![row.id@, row.run_id@, row.workspace_id@, row.project_id@]
}

/// The first identifier that cannot be read stands at `i`.
pub open spec fn first_bad_identifier(row: StoredProposal, i: int) -> bool {
    &&& 0 <= i < 4
    &&& identifiers(row)[i].len() != 16
    &&& forall|j: int| 0 <= j < i ==> #[trigger] identifiers(row)[j].len() == 16
}

/// The summary says what is stored.
pub open spec fn is_summary(summary: AutoImproveProposalSummary, row: StoredProposal) -> bool {
    &&& stored(summary.id.0) == row.id@
    &&& stored(summary.run_id.0) == row.run_id@
    &&& stored(summary.workspace_id.0) == row.workspace_id@
    &&& stored(summary.project_id.0) == row.project_id@
    &&& summary.status.name() == row.status@
    &&& summary.operation.name() == row.operation@
    &&& summary.target_path@ == row.target_path@
    &&& summary.kind@ == row.kind@
    &&& summary.title@ == row.title@
    &&& summary.confidence_bits == row.confidence_bits
    &&& summary.staged_at == row.staged_at
    &&& summary.decided_at == row.decided_at
}

/// A row that can be read: four identifiers, a known status, a known operation.
pub open spec fn is_readable(row: StoredProposal) -> bool {
    &&& forall|i: int| 0 <= i < 4 ==> #[trigger] identifiers(row)[i].len() == 16
    &&& exists|status: AutoImproveProposalStatus| #[trigger] status.name() == row.status@
    &&& exists|operation: AutoImproveProposalOperation| #[trigger]
        operation.name() == row.operation@
}

/// Reads a stored proposal in short. `path` says whether the target is the path of a
/// page, and if not, why.
pub fn summary_from_row(row: &StoredProposal, path: Result<(), String>) -> (r: Result<
    AutoImproveProposalSummary,
    RowError,
>)
    ensures
        r is Ok <==> is_readable(*row) && path is Ok,
        match r {
            Ok(summary) => is_summary(summary, *row) && path is Ok,
            Err(RowError::Identifier(n)) => exists|i: int|
                first_bad_identifier(*row, i) && n == #[trigger] identifiers(*row)[i].len(),
            Err(RowError::Path(why)) => {
                &&& forall|i: int| 0 <= i < 4 ==> #[trigger] identifiers(*row)[i].len() == 16
                &&& path matches Err(reason)
                &&& why@ == reason@
            },
            Err(RowError::Value(e)) => {
                &&& forall|i: int| 0 <= i < 4 ==> #[trigger] identifiers(*row)[i].len() == 16
                &&& path is Ok
                &&& if exists|status: AutoImproveProposalStatus| #[trigger]
                    status.name() == row.status@ {
                    e.is_malformed_record(
                        "unknown auto-improve proposal operation: "@ + row.operation@,
                    ) && forall|operation: AutoImproveProposalOperation| #[trigger]
                        operation.name() != row.operation@
                } else {
                    e.is_malformed_record("unknown auto-improve proposal status: "@ + row.status@)
                }
            },
        },
{
    proof {
        assert(identifiers(*row)[0] == row.id@);
        assert(identifiers(*row)[1] == row.run_id@);
        assert(identifiers(*row)[2] == row.workspace_id@);
        assert(identifiers(*row)[3] == row.project_id@);
    }
    let id = match from_slice(row.id.as_slice()) {
        Some(id) => id,
        None => {
            assert(first_bad_identifier(*row, 0));
            return Err(RowError::Identifier(row.id.len()));
        },
    };
    let run_id = match from_slice(row.run_id.as_slice()) {
        Some(id) => id,
        None => {
            assert(first_bad_identifier(*row, 1));
            return Err(RowError::Identifier(row.run_id.len()));
        },
    };
    let workspace_id = match from_slice(row.workspace_id.as_slice()) {
        Some(id) => id,
        None => {
            assert(first_bad_identifier(*row, 2));
            return Err(RowError::Identifier(row.workspace_id.len()));
        },
    };
    let project_id = match from_slice(row.project_id.as_slice()) {
        Some(id) => id,
        None => {
            assert(first_bad_identifier(*row, 3));
            return Err(RowError::Identifier(row.project_id.len()));
        },
    };
    if let Err(why) = path {
        return Err(RowError::Path(why));
    }
    let status = match AutoImproveProposalStatus::from_str(row.status.as_str()) {
        Ok(status) => status,
        Err(e) => return Err(RowError::Value(e)),
    };
    let operation = match AutoImproveProposalOperation::from_str(row.operation.as_str()) {
        Ok(operation) => operation,
        Err(e) => return Err(RowError::Value(e)),
    };
    proof {
        assert(forall|i: int| 0 <= i < 4 ==> #[trigger] identifiers(*row)[i].len() == 16);
        crate::ids::read_bytes_are_stored(row.id@);
        crate::ids::read_bytes_are_stored(row.run_id@);
        crate::ids::read_bytes_are_stored(row.workspace_id@);
        crate::ids::read_bytes_are_stored(row.project_id@);
    }
    Ok(
        AutoImproveProposalSummary {
            id: AutoImproveProposalId(id),
            run_id: AutoImproveRunId(run_id),
            workspace_id: WorkspaceId(workspace_id),
            project_id: ProjectId(project_id),
            status,
            operation,
            target_path: row.target_path.clone(),
            kind: row.kind.clone(),
            title: row.title.clone(),
            confidence_bits: row.confidence_bits,
            staged_at: row.staged_at,
            decided_at: row.decided_at,
        },
    )
}

/// A status is read back from the name that it is stored under.
pub proof fn status_names_are_distinct(
    a: AutoImproveProposalStatus,
    b: AutoImproveProposalStatus,
)
    requires
        a.name() == b.name(),
    ensures
        a == b,
{
    reveal_strlit("pending");
    reveal_strlit("approved");
    reveal_strlit("rejected");
    reveal_strlit("conflict");
    reveal_strlit("failed");
    assert("pending"@.len() == 7 && "failed"@.len() == 6);
    assert("approved"@.len() == 8 && "rejected"@.len() == 8 && "conflict"@.len() == 8);
    assert("approved"@[0] != "rejected"@[0]);
    assert("approved"@[0] != "conflict"@[0]);
    assert("rejected"@[0] != "conflict"@[0]);
}

/// An operation is read back from the name that it is stored under.
pub proof fn operation_names_are_distinct(
    a: AutoImproveProposalOperation,
    b: AutoImproveProposalOperation,
)
    requires
        a.name() == b.name(),
    ensures
        a == b,
{
    reveal_strlit("create");
    reveal_strlit("update");
    assert("create"@[0] != "update"@[0]);
}

/// The page is the latest version of the one at `path` in the project.
pub open spec fn is_page_at(
    page: PageRow,
    workspace_id: WorkspaceId,
    project_id: ProjectId,
    path: Seq<char>,
) -> bool {
    page.workspace_id == workspace_id && page.project_id == project_id && page.path@ == path
        && page.is_latest
}

/// The target of a proposal is the first of the pages that is the latest version at its
/// path in its project, and there is none only where no page is.
pub proof fn target_is_the_latest_page_at_the_path(
    pages: Seq<PageRow>,
    workspace_id: WorkspaceId,
    project_id: ProjectId,
    path: Seq<char>,
)
    ensures
        target(pages, workspace_id, project_id, path) is None <==> forall|i: int|
            0 <= i < pages.len() ==> !is_page_at(
                #[trigger] pages[i],
                workspace_id,
                project_id,
                path,
            ),
        target(pages, workspace_id, project_id, path) matches Some(page) ==> exists|i: int|
            0 <= i < pages.len() && #[trigger] pages[i] == page && is_page_at(
                page,
                workspace_id,
                project_id,
                path,
            ) && forall|j: int|
                0 <= j < i ==> !is_page_at(#[trigger] pages[j], workspace_id, project_id, path),
    decreases pages.len(),
{
    if pages.len() > 0 && !is_target(pages[0], workspace_id, project_id, path) {
        let rest = pages.drop_first();
        target_is_the_latest_page_at_the_path(rest, workspace_id, project_id, path);
        if let Some(page) = target(pages, workspace_id, project_id, path) {
            let i = choose|i: int|
                0 <= i < rest.len() && #[trigger] rest[i] == page && is_page_at(
                    page,
                    workspace_id,
                    project_id,
                    path,
                ) && forall|j: int|
                    0 <= j < i ==> !is_page_at(#[trigger] rest[j], workspace_id, project_id, path);
            assert(pages[i + 1] == page);
            assert forall|j: int| 0 <= j < i + 1 implies !is_page_at(
                #[trigger] pages[j],
                workspace_id,
                project_id,
                path,
            ) by {
                if j > 0 {
                    assert(rest[j - 1] == pages[j]);
                }
            }
            assert(is_page_at(pages[i + 1], workspace_id, project_id, path));
        } else {
            assert forall|i: int| 0 <= i < pages.len() implies !is_page_at(
                #[trigger] pages[i],
                workspace_id,
                project_id,
                path,
            ) by {
                if i > 0 {
                    assert(rest[i - 1] == pages[i]);
                }
            }
        }
    }
}

/// Status and operation are stored under these names.
pub proof fn stored_names(
    status: AutoImproveProposalStatus,
    operation: AutoImproveProposalOperation,
)
    ensures
        status is Pending <==> status.name() == "pending"@,
        status is Approved <==> status.name() == "approved"@,
        status is Rejected <==> status.name() == "rejected"@,
        status is Conflict <==> status.name() == "conflict"@,
        status is Failed <==> status.name() == "failed"@,
        operation is Create <==> operation.name() == "create"@,
        operation is Update <==> operation.name() == "update"@,
{
    if status.name() == "pending"@ {
        status_names_are_distinct(status, AutoImproveProposalStatus::Pending);
    }
    if status.name() == "approved"@ {
        status_names_are_distinct(status, AutoImproveProposalStatus::Approved);
    }
    if status.name() == "rejected"@ {
        status_names_are_distinct(status, AutoImproveProposalStatus::Rejected);
    }
    if status.name() == "conflict"@ {
        status_names_are_distinct(status, AutoImproveProposalStatus::Conflict);
    }
    if status.name() == "failed"@ {
        status_names_are_distinct(status, AutoImproveProposalStatus::Failed);
    }
    if operation.name() == "create"@ {
        operation_names_are_distinct(operation, AutoImproveProposalOperation::Create);
    }
    if operation.name() == "update"@ {
        operation_names_are_distinct(operation, AutoImproveProposalOperation::Update);
    }
}

/// The text of a proposal is kept under its identifier among those that wait.
pub proof fn artifact_is_kept_under_its_identifier(proposal_id: AutoImproveProposalId)
    ensures
        artifact_path(proposal_id) == "_pending/auto-improve/"@ + hyphenated(proposal_id.0)
            + ".md"@,
{
}

/// A summary repeats the row: its identifiers, its status and its operation, and the
/// rest of it word for word. A row can be read where its four identifiers have sixteen
/// bytes each and it has one of the five statuses and one of the two operations.
pub proof fn summary_repeats_the_row(summary: AutoImproveProposalSummary, row: StoredProposal)
    ensures
        is_summary(summary, row) ==> {
            &&& row.id@ == stored(summary.id.0)
            &&& row.run_id@ == stored(summary.run_id.0)
            &&& row.workspace_id@ == stored(summary.workspace_id.0)
            &&& row.project_id@ == stored(summary.project_id.0)
            &&& row.status@ == summary.status.name()
            &&& row.operation@ == summary.operation.name()
            &&& row.target_path@ == summary.target_path@
            &&& row.kind@ == summary.kind@
            &&& row.title@ == summary.title@
            &&& row.confidence_bits == summary.confidence_bits
            &&& row.staged_at == summary.staged_at
            &&& row.decided_at == summary.decided_at
        },
        row.id@.len() == 16 && row.run_id@.len() == 16 && row.workspace_id@.len() == 16
            && row.project_id@.len() == 16 && (row.status@ == "pending"@ || row.status@
            == "approved"@ || row.status@ == "rejected"@ || row.status@ == "conflict"@
            || row.status@ == "failed"@) && (row.operation@ == "create"@ || row.operation@
            == "update"@) <==> is_readable(row),
{
    assert(identifiers(row)[0] == row.id@);
    assert(identifiers(row)[1] == row.run_id@);
    assert(identifiers(row)[2] == row.workspace_id@);
    assert(identifiers(row)[3] == row.project_id@);
    assert(AutoImproveProposalStatus::Pending.name() == "pending"@);
    assert(AutoImproveProposalStatus::Approved.name() == "approved"@);
    assert(AutoImproveProposalStatus::Rejected.name() == "rejected"@);
    assert(AutoImproveProposalStatus::Conflict.name() == "conflict"@);
    assert(AutoImproveProposalStatus::Failed.name() == "failed"@);
    assert(AutoImproveProposalOperation::Create.name() == "create"@);
    assert(AutoImproveProposalOperation::Update.name() == "update"@);
}

/// The log says of which proposal, what happened, by whom, when and in which detail.
pub proof fn event_says_what_happened(
    e: NewProposalEvent,
    proposal_id: AutoImproveProposalId,
    event: Seq<char>,
    actor_json: Seq<char>,
    author_id: Option<UserId>,
    detail_json: Seq<char>,
    at: i64,
)
    requires
        is_event(e, proposal_id, event, actor_json, author_id, detail_json, at),
    ensures
        e.proposal_id == proposal_id,
        e.event@ == event,
        e.actor_json@ == actor_json,
        e.author_id == author_id,
        e.detail_json@ == detail_json,
        e.at == at,
{
}

/// A stored proposal is read in short exactly where its four identifiers have sixteen
/// bytes each, its target is the path of a page, and its status and its operation are
/// known. What is wrong is told in this order, the first of it.
pub proof fn first_fault_of_a_row_is_told(
    row: StoredProposal,
    path: Result<(), String>,
    r: Result<AutoImproveProposalSummary, RowError>,
)
    requires
        call_ensures(summary_from_row, (&row, path), r),
    ensures
        ({
            let known_status = row.status@ == "pending"@ || row.status@ == "approved"@
                || row.status@ == "rejected"@ || row.status@ == "conflict"@ || row.status@
                == "failed"@;
            let known_operation = row.operation@ == "create"@ || row.operation@ == "update"@;
            let short = if row.id@.len() != 16 {
                row.id@.len()
            } else if row.run_id@.len() != 16 {
                row.run_id@.len()
            } else if row.workspace_id@.len() != 16 {
                row.workspace_id@.len()
            } else {
                row.project_id@.len()
            };
            &&& r is Ok <==> short == 16 && path is Ok && known_status && known_operation
            &&& short != 16 ==> (r matches Err(RowError::Identifier(n)) && n == short)
            &&& short == 16 && path is Err ==> (r matches Err(RowError::Path(why)) && why@
                == (path->Err_0)@)
            &&& short == 16 && path is Ok && !known_status ==> (r matches Err(RowError::Value(e))
                && e.is_malformed_record("unknown auto-improve proposal status: "@ + row.status@))
            &&& short == 16 && path is Ok && known_status && !known_operation ==> (r matches Err(
                RowError::Value(e),
            ) && e.is_malformed_record(
                "unknown auto-improve proposal operation: "@ + row.operation@,
            ))
        }),
{
    assert(identifiers(row)[0] == row.id@);
    assert(identifiers(row)[1] == row.run_id@);
    assert(identifiers(row)[2] == row.workspace_id@);
    assert(identifiers(row)[3] == row.project_id@);
    assert(AutoImproveProposalStatus::Pending.name() == "pending"@);
    assert(AutoImproveProposalStatus::Approved.name() == "approved"@);
    assert(AutoImproveProposalStatus::Rejected.name() == "rejected"@);
    assert(AutoImproveProposalStatus::Conflict.name() == "conflict"@);
    assert(AutoImproveProposalStatus::Failed.name() == "failed"@);
    assert(AutoImproveProposalOperation::Create.name() == "create"@);
    assert(AutoImproveProposalOperation::Update.name() == "update"@);
}

/// A digest of thirty-two bytes is taken as it is, and no other; where none is stored
/// there is none.
pub proof fn digest_is_taken_as_it_is(
    bytes: Vec<u8>,
    r: StoreResult<[u8; 32]>,
    stored_bytes: Option<Vec<u8>>,
    opt: StoreResult<Option<[u8; 32]>>,
    digest: Option<[u8; 32]>,
)
    requires
        call_ensures(bytes32, (bytes,), r),
        call_ensures(opt_bytes32, (stored_bytes,), opt),
    ensures
        r is Ok <==> bytes@.len() == 32,
        r matches Ok(d) ==> d@ == bytes@,
        opt is Ok <==> (stored_bytes is None || (stored_bytes->0)@.len() == 32),
        stored_bytes is None ==> opt matches Ok(None),
        stored_bytes matches Some(b) ==> opt is Err || (opt matches Ok(Some(d)) && d@ == b@),
        digest matches Some(d) ==> opt_digest(digest) == Some(d@),
        digest is None ==> opt_digest(digest) is None,
{
    if let Ok(d) = r {
        assert(d@.len() == 32);
    }
    if let Ok(Some(d)) = opt {
        assert(d@.len() == 32);
    }
}

} // verus!
