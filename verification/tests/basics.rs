use ai_memory::error::StoreError;
use ai_memory::ids::{as_bytes, from_slice, is_stored_as};
use ai_memory::payload::{
    parse_agent, AgentKind, HandoffQuery, HookEvent, ObservationKind, ProjectStrategy,
};
use ai_memory::text::{decimal_text, join_texts, precedes, same_text, strip_trailing, take_chars};

#[test]
fn unknown_project_strategy_defaults_to_basename() {
    assert_eq!(
        ProjectStrategy::parse(Some("repo-root")),
        ProjectStrategy::RepoRoot
    );
    assert_eq!(
        ProjectStrategy::parse(Some("repo_root")),
        ProjectStrategy::RepoRoot
    );
    assert_eq!(
        ProjectStrategy::parse(Some("git-root")),
        ProjectStrategy::Basename
    );
}

#[test]
fn a_strategy_is_read_back_from_its_name() {
    for strategy in [ProjectStrategy::Basename, ProjectStrategy::RepoRoot] {
        assert_eq!(ProjectStrategy::parse(Some(strategy.as_str())), strategy);
    }
    assert_eq!(ProjectStrategy::parse(None), ProjectStrategy::Basename);
}

#[test]
fn an_agent_is_read_back_from_its_name() {
    let known = vec!["codex".to_string(), "opencode".to_string()];
    for name in ["codex", "opencode"] {
        let agent = parse_agent(name, &known);
        assert!(matches!(agent, AgentKind::Known(_)));
        assert_eq!(agent.as_str(), name);
        assert_eq!(agent.copy().as_str(), name);
    }
    let agent = parse_agent("somebody", &known);
    assert!(matches!(agent, AgentKind::Other));
    assert_eq!(agent.as_str(), "other");
    assert!(matches!(parse_agent("", &Vec::new()), AgentKind::Other));
}

#[test]
fn an_event_leaves_an_observation_of_its_kind() {
    assert_eq!(HookEvent::PreCompact.to_observation_kind(), ObservationKind::PreCompact);
    assert_eq!(HookEvent::Other.to_observation_kind().as_str(), "other");
    assert_eq!(HookEvent::UserPrompt.to_observation_kind().as_str(), "user-prompt");
}

#[test]
fn an_empty_query_asks_for_nothing() {
    let query = HandoffQuery::default();
    assert!(query.agent.is_none() && query.cwd.is_none() && query.project_strategy.is_none());
}

#[test]
fn an_identifier_is_read_back_from_its_bytes() {
    for value in [0u128, 1, 255, 256, u128::MAX, 0x6ba7b812_9dad_11d1_80b4_00c04fd430c8] {
        let bytes = as_bytes(value);
        assert_eq!(bytes, value.to_be_bytes().to_vec());
        assert_eq!(from_slice(&bytes), Some(value));
        assert!(is_stored_as(&bytes, value));
        assert!(!is_stored_as(&bytes, value ^ 1));
    }
    assert_eq!(from_slice(&[0u8; 15]), None);
    assert_eq!(from_slice(&[0u8; 17]), None);
    assert_eq!(from_slice(&[]), None);
}

#[test]
fn texts_are_cut_joined_and_ordered() {
    assert_eq!(decimal_text(0), "0");
    assert_eq!(decimal_text(1905), "1905");
    assert_eq!(take_chars("héllo", 2), "hé");
    assert_eq!(take_chars("hé", 5), "hé");
    assert_eq!(strip_trailing("/a/b//", '/'), "/a/b");
    assert_eq!(strip_trailing("///", '/'), "");
    assert_eq!(join_texts(&vec!["a".to_string(), "b".to_string()], ", "), "a, b");
    assert_eq!(join_texts(&Vec::new(), ", "), "");
    assert!(same_text("é", "é") && !same_text("é", "e"));
    for (a, b) in [("", "a"), ("a", "ab"), ("Z", "a"), ("z", "é"), ("\u{ffff}", "\u{10000}")] {
        assert!(precedes(a, b) && !precedes(b, a));
        assert_eq!(precedes(a, b), a < b);
    }
    assert!(!precedes("a", "a"));
}

#[test]
fn errors_say_what_went_wrong() {
    let text = |s: &str| s.to_string();
    for (error, message) in [
        (StoreError::Sqlite(text("locked")), "sqlite: locked"),
        (StoreError::Migration(text("v7")), "migration: v7"),
        (StoreError::Io(text("no such file")), "no such file"),
        (StoreError::Serde(text("eof")), "serde: eof"),
        (StoreError::WriterClosed, "writer actor is no longer running"),
        (StoreError::PoolPanic(text("x")), "reader pool task did not complete: x"),
        (StoreError::Memory(text("bad path")), "bad path"),
        (
            StoreError::ProjectNameTaken(text("api")),
            "project name 'api' is already taken in this workspace",
        ),
        (StoreError::InvalidProjectName(text("a/b")), "invalid project name: a/b"),
        (StoreError::Duplicate(text("users.email")), "duplicate: users.email"),
        (StoreError::Os(text("rng")), "os error: rng"),
        (StoreError::InvalidState(text("s")), "invalid state: s"),
        (StoreError::MalformedRecord(text("r")), "malformed record: r"),
    ] {
        assert_eq!(error.message(), message);
    }
}
