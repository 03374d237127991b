use dbward_app::domain::{AuditEvent, AuthUser, Permission, SubjectType};
use dbward_app::error::{AppError, AuthzError};
use dbward_app::ports::repos::{AuditFilter, AuditVerifyResult};
use dbward_app::time::Timestamp;
use dbward_app::use_cases::audit_query::{AuditListInput, AuditListOutput, AuditQuery};

const NOW: Timestamp = Timestamp { secs: 1_700_000_000, nanos: 0 };

fn make_user(id: &str) -> AuthUser {
    AuthUser {
        subject_id: id.to_string(),
        subject_type: SubjectType::User,
        roles: vec![],
        groups: vec![],
        token_id: None,
    }
}

fn denied(permission: Permission) -> Result<(), AuthzError> {
    Err(AuthzError::Forbidden { permission, reason: "denied".to_string() })
}

fn make_input() -> AuditListInput {
    AuditListInput {
        filter: AuditFilter {
            actor_id: None,
            event_type: None,
            event_category: None,
            outcome: None,
            environment: None,
            database: None,
            since: None,
            until: None,
            limit: 100,
            offset: 0,
        },
    }
}

fn make_event() -> AuditEvent {
    let mut event = AuditEvent::simple("request.created", "request", "alice", None, NOW);
    event.detail_raw = Some("SELECT 1".to_string());
    event
}

fn list(id: &str, view_all: bool, view: bool) -> Result<(AuditListOutput, Option<String>), AppError> {
    let reply = if view { Ok(()) } else { denied(Permission::AuditView) };
    let query = AuditQuery {}.list(make_input(), &make_user(id)).authorized(view_all, reply)?;
    let actor = query.filter.actor_id.clone();
    Ok((query.listed(vec![make_event()]), actor))
}

#[test]
fn admin_sees_all_with_detail_raw() {
    let (out, actor) = list("admin", true, true).unwrap_or_else(|_| panic!("refused"));
    assert_eq!(out.events.len(), 1);
    assert!(out.events[0].detail_raw.is_some());
    assert_eq!(actor, None);
}

#[test]
fn user_sees_own_events_redacted() {
    let (out, actor) = list("alice", false, true).unwrap_or_else(|_| panic!("refused"));
    assert_eq!(out.events.len(), 1);
    assert!(out.events[0].detail_raw.is_none());
    assert_eq!(actor, Some("alice".to_string()));
}

#[test]
fn unauthorized_returns_forbidden() {
    assert!(matches!(list("alice", false, false), Err(AppError::Forbidden(_))));
}

#[test]
fn verify_chain_returns_result() {
    let gate = AuditQuery {}.verify();
    let out = gate
        .authorized(Ok(()))
        .unwrap_or_else(|_| panic!("refused"))
        .verified(AuditVerifyResult { total_events: 42, first_broken_id: None, failure: None });
    assert_eq!(out.total_events, 42);
    assert!(out.first_broken_id.is_none());
}
