use ai_memory::auto_improve::{
    artifact_path_for, bytes32, latest_target_snapshot, opt_bytes32, summary_from_row,
    AutoImproveProposalOperation, AutoImproveProposalStatus, NewAutoImproveProposal, PageRow,
    RowError, SessionRow, StageAutoImproveRun, StoredProposal,
};
use ai_memory::decisions::{
    approve_proposal, complete_approval, fail_proposal, reject_proposal, ApprovalStep,
    ApproveAutoImproveProposal, ApproveAutoImproveProposalResult, FailAutoImproveProposal,
    NewPage, RejectAutoImproveProposal,
};
use ai_memory::error::StoreError;
use ai_memory::ids::{
    as_bytes, AutoImproveProposalId, AutoImproveRunId, PageId, ProjectId, SessionId, UserId,
    WorkspaceId,
};
use ai_memory::scheduler::{
    claim_scheduler_session, ensure_scheduler_state, RunScope, SchedulerClaim, SchedulerState,
};
use ai_memory::staging::{stage_run, stage_run_as, StagedRows};

const WS: WorkspaceId = WorkspaceId(1);
const PROJ: ProjectId = ProjectId(2);
const RUN: AutoImproveRunId = AutoImproveRunId(3);
const PROPOSAL: AutoImproveProposalId = AutoImproveProposalId(4);
const AUTHOR: Option<UserId> = Some(UserId(5));

fn proposal(operation: AutoImproveProposalOperation, path: &str) -> NewAutoImproveProposal {
    NewAutoImproveProposal {
        operation,
        target_path: path.to_string(),
        kind: "fact".to_string(),
        title: "A title".to_string(),
        confidence_bits: 0.75f64.to_bits(),
        rationale: "because".to_string(),
        evidence_json: "[]".to_string(),
        body_markdown: "abc".to_string(),
        artifact_sha256: Some([9; 32]),
    }
}

fn run(proposals: Vec<NewAutoImproveProposal>) -> StageAutoImproveRun {
    StageAutoImproveRun {
        workspace_id: WS,
        project_id: PROJ,
        session_id: None,
        provider: Some("openai-compat".to_string()),
        model: None,
        summary: Some("summary".to_string()),
        warnings_json: "[]".to_string(),
        rejected_candidates_json: "[1]".to_string(),
        config_json: "{}".to_string(),
        proposal_actor_json: "{\"user\":null}".to_string(),
        proposals,
    }
}

fn page(id: u128, path: &str) -> PageRow {
    PageRow {
        id: PageId(id),
        workspace_id: WS,
        project_id: PROJ,
        path: path.to_string(),
        is_latest: true,
        body_sha256: vec![id as u8; 32],
        updated_at: 1000 + id as i64,
    }
}

fn stage(
    proposals: Vec<NewAutoImproveProposal>,
    pages: Vec<PageRow>,
) -> Result<StagedRows, StoreError> {
    let ids = (0..proposals.len()).map(|i| AutoImproveProposalId(4 + i as u128)).collect();
    stage_run_as(&run(proposals), RUN, ids, &None, &pages, 77)
}

fn staged(operation: AutoImproveProposalOperation, pages: Vec<PageRow>) -> StoredProposal {
    stage(vec![proposal(operation, "notes/a.md")], pages).unwrap().proposals.pop().unwrap()
}

#[test]
fn names_are_read_back() {
    for status in [
        AutoImproveProposalStatus::Pending,
        AutoImproveProposalStatus::Approved,
        AutoImproveProposalStatus::Rejected,
        AutoImproveProposalStatus::Conflict,
        AutoImproveProposalStatus::Failed,
    ] {
        assert_eq!(AutoImproveProposalStatus::from_str(status.as_str()).unwrap(), status);
    }
    for operation in [
        AutoImproveProposalOperation::Create,
        AutoImproveProposalOperation::Update,
    ] {
        let name = operation.as_str();
        assert_eq!(AutoImproveProposalOperation::from_str(name).unwrap(), operation);
    }
    assert_eq!(AutoImproveProposalStatus::Conflict.as_str(), "conflict");
    assert_eq!(AutoImproveProposalOperation::Update.as_str(), "update");
    match AutoImproveProposalStatus::from_str("Pending") {
        Err(StoreError::MalformedRecord(m)) => {
            assert_eq!(m, "unknown auto-improve proposal status: Pending")
        }
        other => panic!("{other:?}"),
    }
    match AutoImproveProposalOperation::from_str("delete") {
        Err(StoreError::MalformedRecord(m)) => {
            assert_eq!(m, "unknown auto-improve proposal operation: delete")
        }
        other => panic!("{other:?}"),
    }
}

#[test]
fn an_artifact_has_the_path_of_its_proposal() {
    assert_eq!(
        artifact_path_for(AutoImproveProposalId(0x0123456789abcdef0011223344556677)),
        "_pending/auto-improve/01234567-89ab-cdef-0011-223344556677.md",
    );
    assert!(artifact_path_for(AutoImproveProposalId(1)) != artifact_path_for(PROPOSAL));
}

#[test]
fn digests_have_thirty_two_bytes() {
    assert_eq!(bytes32(vec![7; 32]).unwrap(), [7u8; 32]);
    for n in [0, 31, 33] {
        match bytes32(vec![7; n]) {
            Err(StoreError::MalformedRecord(m)) => assert_eq!(m, "invalid sha256 length"),
            other => panic!("{other:?}"),
        }
    }
    assert_eq!(opt_bytes32(None).unwrap(), None);
    assert_eq!(opt_bytes32(Some(vec![1; 32])).unwrap(), Some([1u8; 32]));
    assert!(opt_bytes32(Some(vec![1; 5])).is_err());
}

#[test]
fn a_snapshot_is_the_latest_version_in_scope() {
    let mut old = page(1, "a.md");
    old.is_latest = false;
    let mut foreign = page(2, "a.md");
    foreign.project_id = ProjectId(99);
    let mut elsewhere = page(3, "a.md");
    elsewhere.workspace_id = WorkspaceId(99);
    let rows = vec![old, foreign, elsewhere, page(4, "b.md"), page(5, "a.md"), page(6, "a.md")];
    let s = latest_target_snapshot(&rows, WS, PROJ, "a.md").unwrap();
    assert_eq!(s.page_id, PageId(5));
    assert_eq!(s.body_sha256, vec![5; 32]);
    assert_eq!(s.updated_at, 1005);
    assert!(latest_target_snapshot(&rows, WS, PROJ, "c.md").is_none());
}

#[test]
fn a_run_is_staged_with_all_its_proposals() {
    let rows = stage(
        vec![
            proposal(AutoImproveProposalOperation::Create, "notes/new.md"),
            proposal(AutoImproveProposalOperation::Update, "notes/a.md"),
        ],
        vec![page(8, "notes/a.md")],
    )
    .unwrap();
    assert_eq!(rows.staged.run_id, RUN);
    assert_eq!(rows.staged.proposal_ids, [PROPOSAL, AutoImproveProposalId(5)]);
    assert_eq!(rows.run.id, RUN);
    assert_eq!(rows.run.created_at, 77);
    assert_eq!(rows.run.provider.as_deref(), Some("openai-compat"));
    assert_eq!(rows.run.rejected_candidates_json, "[1]");

    let created = &rows.proposals[0];
    assert_eq!(created.id, as_bytes(4));
    assert_eq!(created.run_id, as_bytes(3));
    assert_eq!(created.status, "pending");
    assert_eq!(created.operation, "create");
    assert_eq!(f64::from_bits(created.confidence_bits), 0.75);
    assert_eq!(
        created.body_sha256[..4],
        [0xba, 0x78, 0x16, 0xbf],
        "the digest of abc",
    );
    assert_eq!(created.artifact_sha256, Some(vec![9; 32]));
    assert_eq!(
        created.artifact_path,
        "_pending/auto-improve/00000000-0000-0000-0000-000000000004.md",
    );
    assert!(created.target_latest_page_id_at_stage.is_none());
    assert!(created.target_updated_at_at_stage.is_none());
    assert_eq!(created.staged_at, 77);
    assert!(created.decided_at.is_none() && created.applied_page_id.is_none());

    let updated = &rows.proposals[1];
    assert_eq!(updated.target_latest_page_id_at_stage, Some(as_bytes(8)));
    assert_eq!(updated.target_body_sha256_at_stage, Some(vec![8; 32]));
    assert_eq!(updated.target_updated_at_at_stage, Some(1008));

    assert_eq!(rows.events.len(), 2);
    assert_eq!(rows.events[1].event, "staged");
    assert_eq!(rows.events[1].detail_json, "{}");
    assert_eq!(rows.events[1].proposal_id, AutoImproveProposalId(5));
    assert_eq!(rows.events[1].actor_json, "{\"user\":null}");
    assert_eq!(rows.events[1].author_id, None);
}

#[test]
fn a_run_is_refused_as_a_whole() {
    let invalid = |r: Result<StagedRows, StoreError>| match r {
        Err(StoreError::InvalidState(m)) => m,
        other => panic!("{other:?}"),
    };
    let create = || proposal(AutoImproveProposalOperation::Create, "notes/a.md");
    let update = || proposal(AutoImproveProposalOperation::Update, "notes/b.md");
    assert_eq!(
        invalid(stage(vec![create(), update()], vec![page(8, "notes/a.md")])),
        "create proposal target already exists: notes/a.md",
    );
    assert_eq!(
        invalid(stage(vec![create(), update()], Vec::new())),
        "update proposal target does not exist: notes/b.md",
    );
    let mut short = page(8, "notes/b.md");
    short.body_sha256.pop();
    match stage(vec![update()], vec![short]) {
        Err(StoreError::MalformedRecord(m)) => assert_eq!(m, "invalid sha256 length"),
        other => panic!("{other:?}"),
    }
}

#[test]
fn an_identifier_is_given_once() {
    let input = run(vec![
        proposal(AutoImproveProposalOperation::Create, "a.md"),
        proposal(AutoImproveProposalOperation::Create, "b.md"),
    ]);
    let same = vec![AutoImproveProposalId(4), AutoImproveProposalId(4)];
    match stage_run_as(&input, RUN, same, &None, &Vec::new(), 77) {
        Err(StoreError::Sqlite(m)) => {
            assert_eq!(m, "UNIQUE constraint failed: auto_improve_proposals.id")
        }
        other => panic!("{other:?}"),
    }
}

#[test]
fn the_session_of_a_run_is_one_of_its_project() {
    let mut input = run(Vec::new());
    input.session_id = Some(SessionId(6));
    let session = |project_id| {
        Some(SessionRow { id: SessionId(6), workspace_id: WS, project_id, ended_at: None })
    };
    for row in [None, session(ProjectId(99))] {
        match stage_run(&input, &row, &Vec::new(), 1) {
            Err(StoreError::InvalidState(m)) => {
                assert_eq!(m, "auto-improve session is not in proposal scope")
            }
            other => panic!("{other:?}"),
        }
    }
    let rows = stage_run(&input, &session(PROJ), &Vec::new(), 1).unwrap();
    assert_eq!(rows.run.session_id, Some(SessionId(6)));
    assert!(rows.proposals.is_empty());
}

#[test]
fn staged_proposals_get_identifiers_of_their_own() {
    let input = run(vec![
        proposal(AutoImproveProposalOperation::Create, "a.md"),
        proposal(AutoImproveProposalOperation::Create, "b.md"),
    ]);
    let rows = stage_run(&input, &None, &Vec::new(), 1).unwrap();
    let ids = &rows.staged.proposal_ids;
    assert!(ids[0] != ids[1]);
    assert_eq!(rows.proposals[0].id, as_bytes(ids[0].0));
    assert_eq!(rows.events[1].proposal_id, ids[1]);
}

#[test]
fn a_stored_proposal_is_read_in_short() {
    let row = staged(AutoImproveProposalOperation::Create, Vec::new());
    let s = summary_from_row(&row, Ok(())).unwrap();
    assert_eq!(s.id, PROPOSAL);
    assert_eq!(s.run_id, RUN);
    assert_eq!((s.workspace_id, s.project_id), (WS, PROJ));
    assert_eq!(s.status, AutoImproveProposalStatus::Pending);
    assert_eq!(s.operation, AutoImproveProposalOperation::Create);
    assert_eq!(s.target_path, "notes/a.md");
    assert_eq!((s.staged_at, s.decided_at), (77, None));

    let bad = |change: &dyn Fn(&mut StoredProposal), path: Result<(), String>| {
        let mut row = staged(AutoImproveProposalOperation::Create, Vec::new());
        change(&mut row);
        summary_from_row(&row, path).unwrap_err()
    };
    let why = || Err("absolute path".to_string());
    assert!(matches!(
        bad(&|r| { r.project_id.pop(); r.run_id.push(0); }, why()),
        RowError::Identifier(17),
    ));
    assert!(matches!(
        bad(&|r| r.status = "x".to_string(), why()),
        RowError::Path(m) if m == "absolute path",
    ));
    assert!(matches!(
        bad(&|r| { r.status = "x".to_string(); r.operation = "y".to_string(); }, Ok(())),
        RowError::Value(StoreError::MalformedRecord(m))
            if m == "unknown auto-improve proposal status: x",
    ));
    assert!(matches!(
        bad(&|r| r.operation = "y".to_string(), Ok(())),
        RowError::Value(StoreError::MalformedRecord(m))
            if m == "unknown auto-improve proposal operation: y",
    ));
}

fn rejection(project_id: ProjectId) -> RejectAutoImproveProposal {
    RejectAutoImproveProposal {
        workspace_id: WS,
        project_id,
        proposal_id: PROPOSAL,
        reason: "not \"true\"\n\u{1}".to_string(),
        actor_json: "{\"user\":\"ann\"}".to_string(),
        author_id: AUTHOR,
    }
}

fn not_pending<T: std::fmt::Debug>(r: Result<T, StoreError>) {
    match r {
        Err(StoreError::InvalidState(m)) => {
            assert_eq!(m, "auto-improve proposal is not pending or not in scope")
        }
        other => panic!("{other:?}"),
    }
}

#[test]
fn a_proposal_is_rejected_once() {
    let row = staged(AutoImproveProposalOperation::Create, Vec::new());
    let rows = reject_proposal(Some(row), &rejection(PROJ), 88).unwrap();
    assert_eq!(rows.proposal.status, "rejected");
    assert_eq!(rows.proposal.decided_at, Some(88));
    assert_eq!(rows.proposal.decision_reason.as_deref(), Some("not \"true\"\n\u{1}"));
    assert_eq!(rows.proposal.decided_by_author_id, AUTHOR);
    assert_eq!(rows.proposal.decided_by_actor_json.as_deref(), Some("{\"user\":\"ann\"}"));
    assert_eq!(rows.proposal.body_markdown, "abc");
    assert!(rows.proposal.applied_page_id.is_none());
    assert_eq!(rows.event.event, "rejected");
    assert_eq!(
        rows.event.detail_json,
        "{\"reason\":\"not \\\"true\\\"\\n\\u0001\"}",
    );
    assert_eq!(rows.event.at, 88);
    not_pending(reject_proposal(Some(rows.proposal), &rejection(PROJ), 89));
    not_pending(reject_proposal(None, &rejection(PROJ), 89));
    let row = staged(AutoImproveProposalOperation::Create, Vec::new());
    not_pending(reject_proposal(Some(row), &rejection(ProjectId(99)), 89));
}

#[test]
fn a_proposal_fails_once() {
    let input = FailAutoImproveProposal {
        workspace_id: WS,
        project_id: PROJ,
        proposal_id: PROPOSAL,
        reason: "gone".to_string(),
        actor_json: "{}".to_string(),
        author_id: None,
    };
    let row = staged(AutoImproveProposalOperation::Create, Vec::new());
    let rows = fail_proposal(Some(row), &input, 88).unwrap();
    assert_eq!(rows.proposal.status, "failed");
    assert_eq!(rows.event.event, "failed");
    assert_eq!(rows.event.detail_json, "{\"reason\":\"gone\"}");
    assert_eq!(rows.event.author_id, None);
    not_pending(fail_proposal(Some(rows.proposal), &input, 89));
}

fn approval() -> ApproveAutoImproveProposal {
    ApproveAutoImproveProposal {
        workspace_id: WS,
        project_id: PROJ,
        proposal_id: PROPOSAL,
        page: NewPage {
            workspace_id: WS,
            project_id: PROJ,
            path: "notes/a.md".to_string(),
            author_id: AUTHOR,
        },
        actor_json: "{}".to_string(),
        author_id: AUTHOR,
        checkpoint: Some("deadbeef".to_string()),
    }
}

#[test]
fn an_unchanged_target_is_approved() {
    for (operation, pages) in [
        (AutoImproveProposalOperation::Create, 0),
        (AutoImproveProposalOperation::Update, 1),
    ] {
        let pages = || (0..pages).map(|_| page(8, "notes/a.md")).collect::<Vec<_>>();
        let row = staged(operation, pages());
        let input = approval();
        let pending = match approve_proposal(Some(row), &pages(), &input, 90).unwrap() {
            ApprovalStep::Apply(pending) => pending,
            other => panic!("{other:?}"),
        };
        let (rows, result) = complete_approval(pending, &input, PageId(10), 90);
        assert_eq!(result, ApproveAutoImproveProposalResult::Approved { page_id: PageId(10) });
        assert_eq!(rows.proposal.status, "approved");
        assert_eq!(rows.proposal.applied_page_id, Some(PageId(10)));
        assert_eq!(rows.proposal.checkpoint.as_deref(), Some("deadbeef"));
        assert_eq!(rows.proposal.decision_reason, None);
        assert_eq!(rows.event.event, "approved");
        assert_eq!(
            rows.event.detail_json,
            "{\"applied_page_id\":\"00000000-0000-0000-0000-00000000000a\"}",
        );
        not_pending(approve_proposal(Some(rows.proposal), &pages(), &input, 91));
    }
}

#[test]
fn a_changed_target_is_a_conflict() {
    let conflict = |operation, before: Vec<PageRow>, after: Vec<PageRow>| {
        let row = staged(operation, before);
        match approve_proposal(Some(row), &after, &approval(), 90).unwrap() {
            ApprovalStep::Conflict(rows) => {
                assert_eq!(rows.proposal.status, "conflict");
                assert_eq!(
                    rows.proposal.decision_reason.as_deref(),
                    Some("target changed since proposal was staged"),
                );
                assert_eq!(
                    rows.event.detail_json,
                    "{\"reason\":\"target changed since proposal was staged\"}",
                );
                assert!(rows.proposal.applied_page_id.is_none());
                assert_eq!(rows.proposal.checkpoint.as_deref(), Some("deadbeef"));
            }
            other => panic!("{other:?}"),
        }
    };
    let target = || page(8, "notes/a.md");
    conflict(AutoImproveProposalOperation::Create, Vec::new(), vec![target()]);
    conflict(AutoImproveProposalOperation::Update, vec![target()], Vec::new());
    let mut other_id = target();
    other_id.id = PageId(11);
    let mut other_body = target();
    other_body.body_sha256[0] ^= 1;
    let mut other_time = target();
    other_time.updated_at += 1;
    for changed in [other_id, other_body, other_time] {
        conflict(AutoImproveProposalOperation::Update, vec![target()], vec![changed]);
    }
}

#[test]
fn an_approval_is_refused_in_order() {
    let refused = |change: &dyn Fn(&mut ApproveAutoImproveProposal), row: Option<StoredProposal>| {
        let mut input = approval();
        change(&mut input);
        match approve_proposal(row, &Vec::new(), &input, 90) {
            Err(StoreError::InvalidState(m)) | Err(StoreError::MalformedRecord(m)) => m,
            other => panic!("{other:?}"),
        }
    };
    let row = || Some(staged(AutoImproveProposalOperation::Create, Vec::new()));
    assert_eq!(
        refused(&|i| { i.page.project_id = ProjectId(99); i.page.author_id = None; }, row()),
        "approval page scope does not match proposal scope",
    );
    assert_eq!(
        refused(&|i| i.page.author_id = None, None),
        "approval page author does not match approver author",
    );
    assert_eq!(
        refused(&|i| i.page.path = "x.md".to_string(), None),
        "auto-improve proposal is not pending or not in scope",
    );
    assert_eq!(
        refused(&|i| i.page.path = "x.md".to_string(), row()),
        "approval page path does not match proposal target",
    );
    let mut odd = row();
    odd.as_mut().unwrap().operation = "delete".to_string();
    assert_eq!(
        refused(&|_| (), odd),
        "unknown auto-improve proposal operation: delete",
    );
}

fn session(id: u128, ended_at: Option<i64>) -> SessionRow {
    SessionRow { id: SessionId(id), workspace_id: WS, project_id: PROJ, ended_at }
}

#[test]
fn a_scheduler_starts_behind_the_last_session() {
    let mut foreign = session(9, Some(900));
    foreign.project_id = ProjectId(99);
    let sessions = vec![session(1, Some(30)), foreign, session(2, None), session(3, Some(20))];
    let state = ensure_scheduler_state(None, &sessions, WS, PROJ, 1000).unwrap();
    assert_eq!(state.watermark_ended_at, 30);
    assert_eq!((state.initialized_at, state.updated_at), (1000, 1000));
    assert_eq!((state.workspace_id, state.project_id), (WS, PROJ));
    assert!(ensure_scheduler_state(Some(state), &sessions, WS, PROJ, 2000).is_none());
    let empty = ensure_scheduler_state(None, &vec![session(2, None)], WS, PROJ, 1).unwrap();
    assert_eq!(empty.watermark_ended_at, 0);
    let early = ensure_scheduler_state(None, &vec![session(2, Some(-5))], WS, PROJ, 1).unwrap();
    assert_eq!(early.watermark_ended_at, -5);
}

#[test]
fn a_session_is_claimed_once() {
    let state = SchedulerState {
        workspace_id: WS,
        project_id: PROJ,
        watermark_ended_at: 30,
        initialized_at: 1,
        updated_at: 1,
    };
    let claim = |s: Option<SchedulerState>,
                 row: Option<SessionRow>,
                 runs: &Vec<RunScope>,
                 claims: &Vec<SchedulerClaim>| {
        claim_scheduler_session(s, &row, runs, claims, WS, PROJ, SessionId(7), 40, 50)
    };
    let row = || Some(session(7, Some(40)));
    let claimed = claim(Some(state), row(), &Vec::new(), &Vec::new()).unwrap();
    assert_eq!(claimed.claim.session_id, SessionId(7));
    assert_eq!(claimed.claim.claimed_at, 50);
    assert_eq!(claimed.state.updated_at, 50);
    assert_eq!(claimed.state.watermark_ended_at, 30);

    assert!(claim(Some(state), row(), &Vec::new(), &vec![claimed.claim]).is_none());
    let run = |session_id| RunScope { workspace_id: WS, project_id: PROJ, session_id };
    assert!(claim(Some(state), row(), &vec![run(Some(SessionId(7)))], &Vec::new()).is_none());
    assert!(claim(Some(state), row(), &vec![run(None)], &Vec::new()).is_some());
    assert!(claim(None, row(), &Vec::new(), &Vec::new()).is_none());
    assert!(claim(Some(state), None, &Vec::new(), &Vec::new()).is_none());
    for ended in [None, Some(41)] {
        let row = Some(session(7, ended));
        assert!(claim(Some(state), row, &Vec::new(), &Vec::new()).is_none());
    }
    let late = SchedulerState { watermark_ended_at: 40, ..state };
    assert!(claim(Some(late), row(), &Vec::new(), &Vec::new()).is_none());
}
