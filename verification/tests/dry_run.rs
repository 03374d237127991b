use dbward_app::domain::{Agent, AgentStatus, DatabaseCapability};
use dbward_app::error::AppError;
use dbward_app::ports::repos::DryRunJobRecord;
use dbward_app::time::Timestamp;
use dbward_app::use_cases::dry_run::{
    DryRunClaim, DryRunResultInput, DryRunSubmitResult, JobClaimStep, JobEnd, JobScopeStep,
};

const NOW: Timestamp = Timestamp { secs: 1_700_000_000, nanos: 0 };

fn job(id: &str, status: &str, result: Option<&str>, error: Option<&str>) -> DryRunJobRecord {
    DryRunJobRecord {
        id: id.to_string(),
        request_id: "req-1".to_string(),
        database_name: "app".to_string(),
        environment: "production".to_string(),
        sql_text: "SELECT 1".to_string(),
        status: status.to_string(),
        claimed_by: None,
        claimed_at: None,
        claim_token: None,
        result_json: result.map(|r| r.to_string()),
        error_message: error.map(|e| e.to_string()),
        created_at: "2023-11-14T22:13:20+00:00".to_string(),
        completed_at: None,
    }
}

fn agent(database: &str) -> Agent {
    Agent {
        id: "agent-1".to_string(),
        token_id: "tok-1".to_string(),
        databases: vec![DatabaseCapability {
            database: database.to_string(),
            environment: "production".to_string(),
        }],
        status: AgentStatus::Active,
        max_concurrent: 4,
        in_flight: 0,
        uptime_secs: 1,
        active_jobs: vec![],
        lease_duration_secs: None,
        last_seen: Some(NOW),
        created_at: NOW,
    }
}

fn claim(agent: Option<Agent>, claimed: bool) -> Result<String, AppError> {
    let jobs = match (DryRunClaim {}).execute("j1", "agent-1").request(Some("req-1".to_string())) {
        JobClaimStep::Jobs(s) => s,
        JobClaimStep::Free(_) => panic!("free"),
    };
    let known = Ok(vec![job("j1", "pending", None, None)]);
    let free = match jobs.jobs(&known) {
        JobScopeStep::Agent(s) => {
            assert_eq!(s.database, "app");
            s.agent(agent)?
        },
        JobScopeStep::Free(_) => panic!("free"),
    };
    let claim = free.token("token-1".to_string(), NOW);
    assert_eq!(claim.now, "2023-11-14T22:13:20+00:00");
    claim.claimed(claimed)
}

#[test]
fn capable_agent_gets_the_token() {
    assert!(matches!(claim(Some(agent("app")), true), Ok(t) if t == "token-1"));
}

#[test]
fn incapable_agent_is_refused() {
    assert!(matches!(claim(Some(agent("other")), true), Err(AppError::Forbidden(_))));
}

#[test]
fn taken_job_is_a_conflict() {
    assert!(matches!(claim(Some(agent("app")), false), Err(AppError::Conflict(_))));
}

fn report<'a>(result: Option<&'a str>, error: Option<&'a str>) -> DryRunResultInput<'a> {
    DryRunResultInput {
        job_id: "j1",
        agent_id: "agent-1",
        claim_token: "token-1",
        result_json: result,
        error,
    }
}

#[test]
fn error_ends_a_job_as_failed() {
    let r = DryRunSubmitResult {}.execute(report(Some("{}"), Some("boom")), NOW);
    assert!(matches!(&r.end, JobEnd::Fail(e) if e == "boom"));
    let r = DryRunSubmitResult {}.execute(report(Some("{\"a\":1}"), None), NOW);
    assert!(matches!(&r.end, JobEnd::Complete(j) if j == "{\"a\":1}"));
    assert!(matches!(r.stored(false), Err(AppError::Conflict(_))));
}

#[test]
fn explain_waits_for_every_job() {
    let ended = DryRunSubmitResult {}
        .execute(report(Some("{}"), None), NOW)
        .stored(true)
        .unwrap_or_else(|_| panic!("refused"));
    let some = Ok(vec![job("j1", "completed", Some("{}"), None), job("j2", "claimed", None, None)]);
    assert!(ended.aggregate(&some).is_none());
    let all = Ok(vec![
        job("j1", "completed", Some("{\"cost\":1}"), None),
        job("j2", "failed", None, Some("boom")),
    ]);
    match ended.aggregate(&all) {
        Some(update) => {
            assert!(update.explain_json.contains("cost"));
            assert!(update.explain_json.contains("boom"));
            assert_eq!(update.status, "partial");
            let json = update.explain_json.clone();
            let stored = update.at(NOW);
            assert_eq!(stored.explain_json, json);
            assert_eq!(stored.status, "partial");
            assert_eq!(stored.now, "2023-11-14T22:13:20+00:00");
        },
        None => panic!("held back"),
    }
}
