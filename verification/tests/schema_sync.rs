use dbward_app::domain::{Agent, AgentStatus, DatabaseCapability};
use dbward_app::error::AppError;
use dbward_app::json::Json;
use dbward_app::time::Timestamp;
use dbward_app::use_cases::schema_sync::{SchemaSync, SchemaSyncInput, SchemaSyncStore};

const NOW: Timestamp = Timestamp { secs: 1_700_000_000, nanos: 0 };

fn input(status: &str, snapshot: Option<&str>) -> SchemaSyncInput {
    SchemaSyncInput {
        agent_id: "agent-1".to_string(),
        database: "app".to_string(),
        environment: "production".to_string(),
        dialect: "postgresql".to_string(),
        status: status.to_string(),
        snapshot: snapshot.and_then(|s| Json::parse(s)),
        error_message: None,
    }
}

fn agent(database: &str) -> Agent {
    Agent {
        id: "agent-1".to_string(),
        token_id: "tok-1".to_string(),
        databases: vec![DatabaseCapability {
            database: database.to_string(),
            environment: "production".to_string(),
        }],
        status: AgentStatus::Active,
        max_concurrent: 4,
        in_flight: 0,
        uptime_secs: 1,
        active_jobs: vec![],
        lease_duration_secs: None,
        last_seen: Some(NOW),
        created_at: NOW,
    }
}

fn hand_in(
    given: SchemaSyncInput,
    agent: Option<Agent>,
    known: Option<bool>,
) -> Result<SchemaSyncStore, AppError> {
    Ok(SchemaSync {}.execute(given)?.found(agent)?.registered(known)?.at(NOW))
}

#[test]
fn snapshot_is_stored_as_text() {
    let store = hand_in(
        input("ready", Some("{ \"tables\" : [ ] }")),
        Some(agent("app")),
        Some(true),
    )
    .unwrap_or_else(|_| panic!("refused"));
    assert_eq!(store.record.snapshot_json, Some("{\"tables\":[]}".to_string()));
    assert_eq!(store.record.collected_at, "2023-11-14T22:13:20+00:00");
    assert_eq!(store.record.agent_id, "agent-1");
    assert_eq!(store.recorded(NOW).actor_id, "agent-1");
}

#[test]
fn ready_needs_a_snapshot() {
    let r = hand_in(input("ready", None), Some(agent("app")), Some(true));
    assert!(matches!(r, Err(AppError::Validation(m)) if m == "snapshot required when status=ready"));
    assert!(hand_in(input("failed", None), Some(agent("app")), Some(true)).is_ok());
}

#[test]
fn dialect_and_status_are_known() {
    let mut given = input("ready", Some("{}"));
    given.dialect = "oracle".to_string();
    let r = hand_in(given, Some(agent("app")), Some(true));
    assert!(matches!(r, Err(AppError::Validation(m)) if m == "invalid dialect"));
    let r = hand_in(input("done", Some("{}")), Some(agent("app")), Some(true));
    assert!(matches!(r, Err(AppError::Validation(m)) if m == "invalid status"));
}

#[test]
fn agent_hands_in_only_its_own() {
    let r = hand_in(input("failed", None), Some(agent("other")), Some(true));
    assert!(matches!(r, Err(AppError::Forbidden(_))));
    assert!(hand_in(input("failed", None), None, Some(true)).is_err());
    assert!(hand_in(input("failed", None), Some(agent("app")), Some(false)).is_err());
}
