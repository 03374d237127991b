use dbward_app::domain::{
    DeliveryMode, Operation, Request, RequestStatus, ResourceContext, ResultPolicy, Selector,
};
use dbward_app::error::AppError;
use dbward_app::time::Timestamp;
use dbward_app::use_cases::agent_submit_result::ResultSummary;
use dbward_app::use_cases::stream_result::{
    StreamResult, StreamResultData, StreamResultInput, StreamStep,
};

const NOW: Timestamp = Timestamp { secs: 1_700_000_000, nanos: 0 };

fn make_request(status: RequestStatus) -> Request {
    Request {
        id: "req-001".to_string(),
        requester: "alice".to_string(),
        database: "app".to_string(),
        environment: "production".to_string(),
        operation: Operation::ExecuteDml,
        detail: "UPDATE t SET x=1".to_string(),
        status,
        emergency: false,
        reason: None,
        idempotency_key: None,
        idempotency_fingerprint: None,
        metadata_json: "{}".to_string(),
        share_with: vec![],
        no_result_store: false,
        workflow_snapshot_json: None,
        decision_trace_json: None,
        execution_plan_json: None,
        cancel_reason: None,
        cancelled_by: None,
        created_at: NOW,
        updated_at: NOW,
        resolved_at: None,
        expires_at: None,
    }
}

fn terminal(status: RequestStatus) -> bool {
    matches!(
        status,
        RequestStatus::Executed
            | RequestStatus::Failed
            | RequestStatus::Rejected
            | RequestStatus::Cancelled
            | RequestStatus::Expired
    )
}

fn stream(
    id: &str,
    request: Option<Request>,
    timeout: Option<u64>,
    arrived: Option<ResultSummary>,
) -> Result<StreamResultData, AppError> {
    let done = request.as_ref().map(|r| terminal(r.status)).unwrap_or(false);
    let start = StreamResult {}
        .execute(StreamResultInput { request_id: id.to_string(), timeout_secs: timeout });
    let state = start.found(request)?.access(&Ok(None)).authorized(Ok(()))?;
    match state.state(done) {
        StreamStep::Done(out) => Ok(out.data),
        StreamStep::Subscribe(s) => {
            assert_eq!(s.timeout_secs, timeout.unwrap_or(300));
            Ok(s.received(arrived).data)
        },
    }
}

#[test]
fn stream_result_not_found_returns_error() {
    assert!(matches!(stream("nope", None, None, None), Err(AppError::NotFound(_))));
}

#[test]
fn terminal_state_returns_immediately() {
    let data = stream("req-1", Some(make_request(RequestStatus::Executed)), None, None);
    assert!(matches!(data, Ok(StreamResultData::TerminalPlaceholder { success: true })));
}

#[test]
fn pending_state_subscribes_and_returns_none_on_timeout() {
    let data = stream("req-1", Some(make_request(RequestStatus::Pending)), Some(1), None);
    assert!(matches!(data, Ok(StreamResultData::Timeout)));
}

#[test]
fn failed_terminal_returns_placeholder_with_success_false() {
    let data = stream("req-1", Some(make_request(RequestStatus::Failed)), Some(1), None);
    assert!(matches!(data, Ok(StreamResultData::TerminalPlaceholder { success: false })));
}

#[test]
fn rejected_terminal_returns_result_not_placeholder() {
    let data = stream("req-1", Some(make_request(RequestStatus::Rejected)), Some(1), None);
    assert!(matches!(data, Ok(StreamResultData::Result(_))));
}

#[test]
fn arrived_summary_is_handed_on() {
    let summary = ResultSummary {
        execution_id: "exec-1".to_string(),
        success: true,
        rows_affected: Some(3),
        truncated: false,
        error_message: None,
        result_data: None,
    };
    let data = stream("req-1", Some(make_request(RequestStatus::Running)), None, Some(summary));
    assert!(matches!(data, Ok(StreamResultData::Result(s)) if s.rows_affected == Some(3)));
}

#[test]
fn readers_of_the_policy_are_asked_for() {
    let policy = ResultPolicy {
        id: "rp-1".to_string(),
        database: "app".to_string(),
        environment: "production".to_string(),
        retention_days: 30,
        delivery_mode: DeliveryMode::Both,
        access: vec![Selector::Role("dba".to_string())],
        created_at: None,
        updated_at: None,
    };
    let request = make_request(RequestStatus::Running);
    let scoped = StreamResult {}
        .execute(StreamResultInput { request_id: "req-1".to_string(), timeout_secs: None })
        .found(Some(request))
        .unwrap_or_else(|_| panic!("refused"))
        .access(&Ok(Some(policy)));
    match scoped.context() {
        ResourceContext::Result { requester_id, access_selectors } => {
            assert_eq!(requester_id, "alice");
            assert_eq!(access_selectors, vec!["role:dba".to_string()]);
        },
        _ => panic!("not a result"),
    }
}
