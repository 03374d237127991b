use dbward_app::domain::{EventMetadata, Operation, RequestStatus, SubjectType, TransitionEvent};
use dbward_app::services::audit_event_builder::{
    build_audit_event, build_webhook_event, event_type_and_category, noop_redact,
    redact_webhook_detail, sanitize_version, RedactionMode,
};
use dbward_app::time::Timestamp;

const NOW: Timestamp = Timestamp { secs: 1_700_000_000, nanos: 0 };

fn make_event(metadata: EventMetadata) -> TransitionEvent {
    TransitionEvent {
        request_id: "req-001".to_string(),
        previous_status: RequestStatus::Approved,
        new_status: RequestStatus::Running,
        actor_id: "agent-1".to_string(),
        actor_type: SubjectType::Agent,
        database: "testdb".to_string(),
        environment: "production".to_string(),
        operation: Operation::ExecuteSelect,
        timestamp: NOW,
        metadata,
        requester_id: "user-alice".to_string(),
        auth_token_id: None,
    }
}

#[test]
fn p0_claimed_sets_execution_id_as_resource_id_and_request_id() {
    let event = make_event(EventMetadata::Claimed {
        execution_id: "exec-123".to_string(),
        agent_id: "agent-1".to_string(),
    });
    let audit = build_audit_event(&event, NOW, RedactionMode::Full, noop_redact);
    assert_eq!(audit.resource_id.as_deref(), Some("exec-123"));
    assert_eq!(audit.request_id.as_deref(), Some("req-001"));
}

#[test]
fn p0_completed_sets_execution_id_as_resource_id_and_request_id() {
    let event = make_event(EventMetadata::Completed {
        success: true,
        execution_id: "exec-456".to_string(),
    });
    let audit = build_audit_event(&event, NOW, RedactionMode::Full, noop_redact);
    assert_eq!(audit.resource_id.as_deref(), Some("exec-456"));
    assert_eq!(audit.request_id.as_deref(), Some("req-001"));
}

#[test]
fn p0_execution_lost_sets_execution_id_as_resource_id_and_request_id() {
    let event = make_event(EventMetadata::ExecutionLost {
        execution_id: "exec-789".to_string(),
    });
    let audit = build_audit_event(&event, NOW, RedactionMode::Full, noop_redact);
    assert_eq!(audit.resource_id.as_deref(), Some("exec-789"));
    assert_eq!(audit.request_id.as_deref(), Some("req-001"));
}

#[test]
fn p0_created_keeps_request_id_as_resource_id() {
    let event = make_event(EventMetadata::Created {
        detail: "SELECT 1".to_string(),
        emergency: false,
    });
    let audit = build_audit_event(&event, NOW, RedactionMode::Full, noop_redact);
    assert_eq!(audit.resource_id.as_deref(), Some("req-001"));
    assert_eq!(audit.request_id.as_deref(), Some("req-001"));
}

#[test]
fn p1b_webhook_passes_through_normal_query() {
    let event = make_event(EventMetadata::Created {
        detail: "SELECT * FROM users WHERE id = 42".to_string(),
        emergency: false,
    });
    let wh = build_webhook_event(&event);
    let detail = wh.redacted_detail.unwrap();
    assert_eq!(detail, "SELECT * FROM users WHERE id = 42");
}

#[test]
fn p1b_webhook_summarizes_migrate_detail() {
    let mut event = make_event(EventMetadata::Created {
        detail: r#"{"format":"v2","direction":"up","versions":["100247","100301"],"migrations":[{"version":"100247","sql":"CREATE TABLE x()","transactional":true}],"dir_sha256":"abc","max_count":2}"#.to_string(),
        emergency: false,
    });
    event.operation = Operation::MigrateUp;
    let wh = build_webhook_event(&event);
    let detail = wh.redacted_detail.unwrap();
    assert!(detail.contains("migrate_up"), "should contain operation: {detail}");
    assert!(detail.contains("100247"), "should contain versions: {detail}");
    assert!(!detail.contains("CREATE TABLE"), "should not contain SQL: {detail}");
}

#[test]
fn p1b_webhook_migrate_parse_error_does_not_leak_sql() {
    let mut event = make_event(EventMetadata::Created {
        detail: "not valid json CREATE TABLE secret()".to_string(),
        emergency: false,
    });
    event.operation = Operation::MigrateUp;
    let wh = build_webhook_event(&event);
    let detail = wh.redacted_detail.unwrap();
    assert!(detail.contains("<parse error>"), "should indicate error: {detail}");
    assert!(!detail.contains("CREATE TABLE"), "should not contain SQL: {detail}");
}

#[test]
fn versions_are_shown_plain_or_not_at_all() {
    assert_eq!(sanitize_version("100247"), "100247");
    assert_eq!(sanitize_version("DROP TABLE x"), "<invalid:12>");
}

#[test]
fn migration_notices_tell_nothing_of_the_statements() {
    let a = r#"{"versions":["1","2"],"migrations":[{"sql":"DROP TABLE a"}]}"#;
    let b = r#"{"versions":["1","2"],"migrations":[]}"#;
    assert_eq!(redact_webhook_detail("migrate_down", a), redact_webhook_detail("migrate_down", b));
    assert_eq!(redact_webhook_detail("execute_select", a), a);
}

#[test]
fn events_have_types_and_categories() {
    let cases = vec![
        (EventMetadata::Created { detail: "x".to_string(), emergency: true }, "request.break_glass", "approval"),
        (EventMetadata::Created { detail: "x".to_string(), emergency: false }, "request.created", "approval"),
        (EventMetadata::Dispatched, "request.dispatched", "approval"),
        (EventMetadata::Completed { success: false, execution_id: "e".to_string() }, "execution.failed", "execution"),
        (EventMetadata::ExecutionLost { execution_id: "e".to_string() }, "execution.lost", "agent"),
        (EventMetadata::Expired, "request.expired", "approval"),
    ];
    for (metadata, kind, category) in cases {
        let event = make_event(metadata);
        assert_eq!(event_type_and_category(&event), (kind, category));
    }
}

#[test]
fn full_statements_are_fingerprinted() {
    let event = make_event(EventMetadata::Created { detail: "SELECT 1".to_string(), emergency: false });
    let audit = build_audit_event(&event, NOW, RedactionMode::Full, noop_redact);
    assert_eq!(audit.created_at, NOW);
    assert_eq!(audit.database_name.as_deref(), Some("testdb"));
    assert_eq!(audit.operation.as_deref(), Some("execute_select"));
}
