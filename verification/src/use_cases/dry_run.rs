//! Explaining statements before they run: agents claim the jobs and hand in the
//! plans, which are put together once all are in.

use vstd::prelude::*;

use crate::domain::{Agent, Permission};
use crate::error::{AppError, AuthzError, AuthzView, ErrorView};
use crate::json::{parsed_json, rendered_json, trees, Json, JsonObject, JsonTree};
use crate::ports::DryRunJobRecord;
use crate::text::{contains_seq, contains_text, same_text};
use crate::time::{rfc3339, rfc3339_text, Timestamp};
use crate::use_cases::schema_sync::{is_registered_for, registered_for};

verus! {

/// Claiming a job.
pub struct DryRunClaim {}

/// Due: the request of the job.
pub struct JobClaimStart {
    pub job_id: String,
    pub agent_id: String,
}

/// What the request of the job leads to.
pub enum JobClaimStep {
    /// Due: the jobs of the request.
    Jobs(JobClaimJobs),
    /// The job is claimed unchecked.
    Free(JobClaimFree),
}

/// Due: the jobs of the request.
pub struct JobClaimJobs {
    pub job_id: String,
    pub agent_id: String,
    pub request_id: String,
}

/// What the jobs of the request lead to.
pub enum JobScopeStep {
    /// Due: the agent.
    Agent(JobClaimAgent),
    /// The job is claimed unchecked.
    Free(JobClaimFree),
}

/// Due: the agent.
pub struct JobClaimAgent {
    pub job_id: String,
    pub agent_id: String,
    pub database: String,
    pub environment: String,
}

/// Due: a fresh token and the current time.
pub struct JobClaimFree {
    pub job_id: String,
    pub agent_id: String,
}

/// Due: claim the job for the agent with the token at `now`.
pub struct JobClaim {
    pub job_id: String,
    pub agent_id: String,
    pub claim_token: String,
    pub now: String,
}

impl DryRunClaim {
    /// Starts a claim of a job by an agent.
    pub fn execute(&self, job_id: &str, agent_id: &str) -> (r: JobClaimStart)
        ensures
            r.job_id@ == job_id@,
            r.agent_id@ == agent_id@,
    {
        JobClaimStart { job_id: job_id.to_string(), agent_id: agent_id.to_string() }
    }
}

impl JobClaimStart {
    /// Takes the request of the job, where it has one.
    pub fn request(self, request_id: Option<String>) -> (r: JobClaimStep)
        ensures
            match request_id {
                Some(id) => r matches JobClaimStep::Jobs(s) && s.job_id == self.job_id
                    && s.agent_id == self.agent_id && s.request_id == id,
                None => r matches JobClaimStep::Free(s) && s.job_id == self.job_id && s.agent_id
                    == self.agent_id,
            },
    {
        match request_id {
            Some(request_id) => JobClaimStep::Jobs(
                JobClaimJobs { job_id: self.job_id, agent_id: self.agent_id, request_id },
            ),
            None => JobClaimStep::Free(
                JobClaimFree { job_id: self.job_id, agent_id: self.agent_id },
            ),
        }
    }
}

/// The place of the first job with the identifier.
pub open spec fn first_job(jobs: Seq<DryRunJobRecord>, id: Seq<char>, k: int) -> bool {
    &&& 0 <= k < jobs.len()
    &&& jobs[k].id@ == id
    &&& forall|j: int| 0 <= j < k ==> (#[trigger] jobs[j]).id@ != id
}

/// Whether no job has the identifier.
pub open spec fn no_job(jobs: Seq<DryRunJobRecord>, id: Seq<char>) -> bool {
    forall|j: int| 0 <= j < jobs.len() ==> (#[trigger] jobs[j]).id@ != id
}

impl JobClaimJobs {
    /// Takes the jobs of the request, if they could be read. The job is checked
    /// only where it is among them.
    pub fn jobs(self, jobs: &Result<Vec<DryRunJobRecord>, AppError>) -> (r: JobScopeStep)
        ensures
            match r {
                JobScopeStep::Free(s) => {
                    &&& s.job_id == self.job_id
                    &&& s.agent_id == self.agent_id
                    &&& jobs is Ok ==> no_job(jobs->Ok_0@, self.job_id@)
                },
                JobScopeStep::Agent(s) => {
                    &&& s.job_id == self.job_id
                    &&& s.agent_id == self.agent_id
                    &&& jobs is Ok
                    &&& exists|k: int| #[trigger]
                        first_job(jobs->Ok_0@, self.job_id@, k) && s.database
                            == jobs->Ok_0@[k].database_name && s.environment
                            == jobs->Ok_0@[k].environment
                },
            },
    {
        match jobs {
            Ok(list) => {
                let n: usize = list.len();
                let mut i: usize = 0;
                while i < n
                    invariant
                        i <= n,
                        n == list@.len(),
                        *jobs == Ok::<Vec<DryRunJobRecord>, AppError>(*list),
                        forall|j: int| 0 <= j < i ==> (#[trigger] list@[j]).id@ != self.job_id@,
                    decreases n - i,
                {
                    if same_text(list[i].id.as_str(), self.job_id.as_str()) {
                        assert(first_job(jobs->Ok_0@, self.job_id@, i as int));
                        return JobScopeStep::Agent(
                            JobClaimAgent {
                                job_id: self.job_id,
                                agent_id: self.agent_id,
                                database: list[i].database_name.clone(),
                                environment: list[i].environment.clone(),
                            },
                        );
                    }
                    i += 1;
                }
            },
            Err(_) => {},
        }
        JobScopeStep::Free(JobClaimFree { job_id: self.job_id, agent_id: self.agent_id })
    }
}

impl JobClaimAgent {
    /// Takes the agent, where it is known: it must be registered for the job's
    /// database and environment.
    pub fn agent(self, agent: Option<Agent>) -> (r: Result<JobClaimFree, AppError>)
        ensures
            if agent is Some && !registered_for(
                agent->0.databases@,
                self.database@,
                self.environment@,
            ) {
                r matches Err(e) && e@ == ErrorView::Forbidden(
                    AuthzView::Forbidden {
                        permission: Permission::AgentClaim,
                        reason: "agent not authorized for this job"@,
                    },
                )
            } else {
                r matches Ok(s) && s.job_id == self.job_id && s.agent_id == self.agent_id
            },
    {
        match agent {
            Some(a) => {
                if !is_registered_for(
                    &a.databases,
                    self.database.as_str(),
                    self.environment.as_str(),
                ) {
                    return Err(
                        AppError::Forbidden(
                            AuthzError::Forbidden {
                                permission: Permission::AgentClaim,
                                reason: "agent not authorized for this job".to_string(),
                            },
                        ),
                    );
                }
            },
            None => {},
        }
        Ok(JobClaimFree { job_id: self.job_id, agent_id: self.agent_id })
    }
}

impl JobClaimFree {
    /// Takes the fresh token and the current time.
    pub fn token(self, claim_token: String, now: Timestamp) -> (r: JobClaim)
        requires
            now.valid(),
        ensures
            r.job_id == self.job_id,
            r.agent_id == self.agent_id,
            r.claim_token == claim_token,
            r.now@ == rfc3339_text(now.secs as int, now.nanos as int),
    {
        JobClaim {
            job_id: self.job_id,
            agent_id: self.agent_id,
            claim_token,
            now: rfc3339(&now),
        }
    }
}

impl JobClaim {
    /// Takes whether the job was claimed. The token is the answer.
    pub fn claimed(self, claimed: bool) -> (r: Result<String, AppError>)
        ensures
            match r {
                Ok(t) => claimed && t == self.claim_token,
                Err(e) => !claimed && e@ == ErrorView::Conflict("already_claimed"@),
            },
    {
        if claimed {
            Ok(self.claim_token)
        } else {
            Err(AppError::Conflict("already_claimed".to_string()))
        }
    }
}

/// Handing in the plan of a job.
pub struct DryRunSubmitResult {}

/// What an agent hands in.
pub struct DryRunResultInput<'a> {
    pub job_id: &'a str,
    pub agent_id: &'a str,
    pub claim_token: &'a str,
    pub result_json: Option<&'a str>,
    pub error: Option<&'a str>,
}

/// How a job ends.
pub enum JobEnd {
    Fail(String),
    Complete(String),
}

/// Due: end the job, if the agent holds it under the token.
pub struct JobReport {
    pub job_id: String,
    pub agent_id: String,
    pub claim_token: String,
    pub end: JobEnd,
    pub now: String,
}

/// Due: the request of the job, and if there is one its jobs.
pub struct JobEnded {
    pub job_id: String,
}

/// The plans of the request, put together. Due: the current time.
pub struct ExplainPlans {
    pub explain_json: String,
    pub status: String,
}

/// Due: store the plans of the request with the status and the time. A failure
/// to store stops nothing.
pub struct ExplainUpdate {
    pub explain_json: String,
    pub status: String,
    pub now: String,
}

impl ExplainPlans {
    /// Takes the current time.
    pub fn at(self, now: Timestamp) -> (r: ExplainUpdate)
        requires
            now.valid(),
        ensures
            r.explain_json == self.explain_json,
            r.status == self.status,
            r.now@ == rfc3339_text(now.secs as int, now.nanos as int),
    {
        ExplainUpdate { explain_json: self.explain_json, status: self.status, now: rfc3339(&now) }
    }
}

impl DryRunSubmitResult {
    /// Starts a hand-in at the current time. An error ends the job as failed; a
    /// job without a result is completed with an empty object.
    pub fn execute(&self, input: DryRunResultInput<'_>, now: Timestamp) -> (r: JobReport)
        requires
            now.valid(),
        ensures
            r.job_id@ == input.job_id@,
            r.agent_id@ == input.agent_id@,
            r.claim_token@ == input.claim_token@,
            match input.error {
                Some(e) => r.end matches JobEnd::Fail(m) && m@ == e@,
                None => r.end matches JobEnd::Complete(t) && t@ == match input.result_json {
                    Some(j) => j@,
                    None => "{}"@,
                },
            },
            r.now@ == rfc3339_text(now.secs as int, now.nanos as int),
    {
        let end: JobEnd = match input.error {
            Some(e) => JobEnd::Fail(e.to_string()),
            None => match input.result_json {
                Some(j) => JobEnd::Complete(j.to_string()),
                None => JobEnd::Complete("{}".to_string()),
            },
        };
        JobReport {
            job_id: input.job_id.to_string(),
            agent_id: input.agent_id.to_string(),
            claim_token: input.claim_token.to_string(),
            end,
            now: rfc3339(&now),
        }
    }
}

impl JobReport {
    /// Takes whether the job was ended.
    pub fn stored(self, success: bool) -> (r: Result<JobEnded, AppError>)
        ensures
            match r {
                Ok(s) => success && s.job_id == self.job_id,
                Err(e) => !success && e@ == ErrorView::Conflict(
                    "claim_token mismatch or job not claimed"@,
                ),
            },
    {
        if success {
            Ok(JobEnded { job_id: self.job_id })
        } else {
            Err(AppError::Conflict("claim_token mismatch or job not claimed".to_string()))
        }
    }
}

/// Whether a job is over.
pub open spec fn job_done(j: DryRunJobRecord) -> bool {
    j.status@ != "pending"@ && j.status@ != "claimed"@
}

/// Whether a job gave a plan.
pub open spec fn job_completed(j: DryRunJobRecord) -> bool {
    j.status@ == "completed"@
}

/// The plan of a completed job; null where it cannot be read.
pub open spec fn job_plan(j: DryRunJobRecord) -> JsonTree {
    match j.result_json {
        Some(s) => match parsed_json(s@) {
            Some(t) => t,
            None => JsonTree::Null,
        },
        None => JsonTree::Null,
    }
}

/// A text, or null.
pub open spec fn text_or_null(s: Option<String>) -> JsonTree {
    match s {
        Some(t) => JsonTree::Text(t@),
        None => JsonTree::Null,
    }
}

/// Whether an error says that the agent lacks a privilege.
pub open spec fn lacks_privilege(m: Option<String>) -> bool {
    m is Some && (contains_seq(m->0@, "permission denied"@) || contains_seq(
        m->0@,
        "Access denied"@,
    ))
}

/// What is shown of a job that is over: the statement with its plan, or with
/// the error and a hint where a privilege is missing.
pub open spec fn job_entry(j: DryRunJobRecord) -> JsonTree {
    JsonTree::Object(
        if job_completed(j) {
            Map::<Seq<char>, JsonTree>::empty().insert("sql"@, JsonTree::Text(j.sql_text@)).insert(
                "plan"@,
                job_plan(j),
            )
        } else {
            Map::<Seq<char>, JsonTree>::empty().insert("sql"@, JsonTree::Text(j.sql_text@)).insert(
                "error"@,
                text_or_null(j.error_message),
            ).insert(
                "hint"@,
                if lacks_privilege(j.error_message) {
                    JsonTree::Text("Grant EXPLAIN privilege to agent DB user"@)
                } else {
                    JsonTree::Null
                },
            )
        },
    )
}

/// What is shown of one job.
pub fn explain_entry(j: &DryRunJobRecord) -> (r: Json)
    ensures
        r@ == job_entry(*j),
{
    let base = JsonObject::new().with("sql", Json::text(j.sql_text.as_str()));
    if same_text(j.status.as_str(), "completed") {
        let plan: Json = match &j.result_json {
            Some(s) => match Json::parse(s.as_str()) {
                Some(t) => t,
                None => Json::Null,
            },
            None => Json::Null,
        };
        base.with("plan", plan).build()
    } else {
        let (error, hint): (Json, Json) = match &j.error_message {
            Some(m) => (
                Json::text(m.as_str()),
                if contains_text(m.as_str(), "permission denied") || contains_text(
                    m.as_str(),
                    "Access denied",
                ) {
                    Json::text("Grant EXPLAIN privilege to agent DB user")
                } else {
                    Json::Null
                },
            ),
            None => (Json::Null, Json::Null),
        };
        base.with("error", error).with("hint", hint).build()
    }
}

/// Whether every job is over.
pub open spec fn all_done(jobs: Seq<DryRunJobRecord>) -> bool {
    forall|k: int| 0 <= k < jobs.len() ==> job_done(#[trigger] jobs[k])
}

/// Whether every job gave a plan.
pub open spec fn all_completed(jobs: Seq<DryRunJobRecord>) -> bool {
    forall|k: int| 0 <= k < jobs.len() ==> job_completed(#[trigger] jobs[k])
}

/// What is shown of the jobs, in order.
pub open spec fn job_entries(jobs: Seq<DryRunJobRecord>) -> JsonTree {
    JsonTree::Array(jobs.map_values(|j: DryRunJobRecord| job_entry(j)))
}

impl JobEnded {
    /// Takes the jobs of the request, if they could be read. Once all are over
    /// the plans are put together.
    pub fn aggregate(&self, jobs: &Result<Vec<DryRunJobRecord>, AppError>) -> (r: Option<
        ExplainPlans,
    >)
        ensures
            match r {
                None => jobs is Err || !all_done(jobs->Ok_0@),
                Some(u) => {
                    &&& jobs is Ok
                    &&& all_done(jobs->Ok_0@)
                    &&& u.explain_json@ == rendered_json(job_entries(jobs->Ok_0@))
                    &&& u.status@ == if all_completed(jobs->Ok_0@) {
                        "ready"@
                    } else {
                        "partial"@
                    }
                },
            },
    {
        match jobs {
            Err(_) => None,
            Ok(list) => {
                let mut entries: Vec<Json> = Vec::new();
                let mut complete: bool = true;
                let n: usize = list.len();
                let mut i: usize = 0;
                while i < n
                    invariant
                        i <= n,
                        n == list@.len(),
                        *jobs == Ok::<Vec<DryRunJobRecord>, AppError>(*list),
                        forall|k: int| 0 <= k < i ==> job_done(#[trigger] list@[k]),
                        complete <==> forall|k: int|
                            0 <= k < i ==> job_completed(#[trigger] list@[k]),
                        entries@.len() == i,
                        forall|k: int| 0 <= k < i ==> (#[trigger] entries@[k])@ == job_entry(list@[k]),
                    decreases n - i,
                {
                    let job = &list[i];
                    if same_text(job.status.as_str(), "pending") || same_text(
                        job.status.as_str(),
                        "claimed",
                    ) {
                        assert(!job_done(list@[i as int]));
                        return None;
                    }
                    if !same_text(job.status.as_str(), "completed") {
                        assert(!job_completed(list@[i as int]));
                        complete = false;
                    }
                    entries.push(explain_entry(job));
                    i += 1;
                }
                proof {
                    assert(trees(entries@) =~= list@.map_values(|j: DryRunJobRecord| job_entry(j)));
                }
                let explain_json = Json::Array(entries).render();
                let status: String = if complete {
                    "ready".to_string()
                } else {
                    "partial".to_string()
                };
                Some(ExplainPlans { explain_json, status })
            },
        }
    }
}

/// A plan is put together only of jobs that are all over; while one waits or
/// runs, nothing is stored.
pub proof fn unfinished_jobs_hold_back(jobs: Seq<DryRunJobRecord>, k: int)
    requires
        0 <= k < jobs.len(),
        jobs[k].status@ == "pending"@ || jobs[k].status@ == "claimed"@,
    ensures
        !all_done(jobs),
{
    assert(!job_done(jobs[k]));
}

/// A job of no known request is claimed unchecked; one of a known request is
/// checked by the jobs of that request.
pub proof fn jobs_are_checked_by_their_request(
    stage: JobClaimStart,
    request_id: Option<String>,
    r: JobClaimStep,
)
    requires
        call_ensures(JobClaimStart::request, (stage, request_id), r),
    ensures
        r is Jobs <==> request_id is Some,
        r matches JobClaimStep::Jobs(s) ==> s.request_id == request_id->0 && s.job_id
            == stage.job_id && s.agent_id == stage.agent_id,
        r matches JobClaimStep::Free(s) ==> s.job_id == stage.job_id && s.agent_id
            == stage.agent_id,
{
}

/// A job that is among those of its request is checked by its own database and
/// environment; one that is not is claimed unchecked.
pub proof fn listed_jobs_are_checked(
    stage: JobClaimJobs,
    jobs: Result<Vec<DryRunJobRecord>, AppError>,
    r: JobScopeStep,
)
    requires
        call_ensures(JobClaimJobs::jobs, (stage, &jobs), r),
    ensures
        r is Agent <==> jobs is Ok && exists|k: int|
            0 <= k < jobs->Ok_0@.len() && (#[trigger] jobs->Ok_0@[k]).id@ == stage.job_id@,
        r matches JobScopeStep::Agent(s) ==> s.job_id == stage.job_id && s.agent_id
            == stage.agent_id && exists|k: int|
            0 <= k < jobs->Ok_0@.len() && (#[trigger] jobs->Ok_0@[k]).id@ == stage.job_id@
                && s.database == jobs->Ok_0@[k].database_name && s.environment
                == jobs->Ok_0@[k].environment,
        r matches JobScopeStep::Free(s) ==> s.job_id == stage.job_id && s.agent_id
            == stage.agent_id,
{
    if let JobScopeStep::Agent(s) = r {
        let k = choose|k: int| #[trigger]
            first_job(jobs->Ok_0@, stage.job_id@, k) && s.database == jobs->Ok_0@[k].database_name
                && s.environment == jobs->Ok_0@[k].environment;
        assert(jobs->Ok_0@[k].id@ == stage.job_id@);
    }
}

/// A known agent claims a job only if it is registered for exactly its database
/// and environment.
pub proof fn agents_claim_jobs_they_are_registered_for(
    stage: JobClaimAgent,
    agent: Option<Agent>,
    r: Result<JobClaimFree, AppError>,
)
    requires
        call_ensures(JobClaimAgent::agent, (stage, agent), r),
    ensures
        r is Ok <==> agent is None || exists|i: int|
            0 <= i < agent->0.databases@.len() && (#[trigger] agent->0.databases@[i]).database@
                == stage.database@ && agent->0.databases@[i].environment@ == stage.environment@,
        r is Err ==> r->Err_0 is Forbidden,
        r matches Ok(s) ==> s.job_id == stage.job_id && s.agent_id == stage.agent_id,
{
}

/// A job is claimed once, and its token goes to who claimed it.
pub proof fn jobs_are_claimed_once(
    free: JobClaimFree,
    token: String,
    now: Timestamp,
    stage: JobClaim,
    claimed: bool,
    r: Result<String, AppError>,
)
    requires
        now.valid(),
        call_ensures(JobClaimFree::token, (free, token, now), stage),
        call_ensures(JobClaim::claimed, (stage, claimed), r),
    ensures
        stage.job_id == free.job_id,
        stage.agent_id == free.agent_id,
        stage.claim_token == token,
        r is Ok <==> claimed,
        r is Ok ==> r->Ok_0 == token,
        r is Err ==> r->Err_0 is Conflict,
{
}

/// A job that ended with an error failed, whatever else was handed in; any other
/// is completed with what was.
pub proof fn errors_end_a_job_as_failed(
    uc: DryRunSubmitResult,
    input: DryRunResultInput<'_>,
    now: Timestamp,
    r: JobReport,
    success: bool,
    e: Result<JobEnded, AppError>,
)
    requires
        now.valid(),
        call_ensures(DryRunSubmitResult::execute, (&uc, input, now), r),
        call_ensures(JobReport::stored, (r, success), e),
    ensures
        r.end is Fail <==> input.error is Some,
        r.end matches JobEnd::Fail(m) ==> m@ == input.error->0@,
        r.end matches JobEnd::Complete(t) ==> (input.result_json matches Some(j) ==> t@ == j@) && (
        input.result_json is None ==> t@ == "{}"@),
        r.job_id@ == input.job_id@,
        r.agent_id@ == input.agent_id@,
        r.claim_token@ == input.claim_token@,
        e is Ok <==> success,
        e is Err ==> e->Err_0 is Conflict,
        e is Ok ==> e->Ok_0.job_id == r.job_id,
{
}

/// Plans are put together exactly if the jobs can be read and none waits or
/// runs, and are ready exactly if every job was completed.
pub proof fn plans_wait_for_every_job(
    stage: JobEnded,
    jobs: Result<Vec<DryRunJobRecord>, AppError>,
    r: Option<ExplainPlans>,
)
    requires
        call_ensures(JobEnded::aggregate, (&stage, &jobs), r),
    ensures
        r is Some <==> jobs is Ok && forall|k: int|
            0 <= k < jobs->Ok_0@.len() ==> (#[trigger] jobs->Ok_0@[k]).status@ != "pending"@
                && jobs->Ok_0@[k].status@ != "claimed"@,
        r matches Some(p) ==> {
            let done = forall|k: int|
                0 <= k < jobs->Ok_0@.len() ==> (#[trigger] jobs->Ok_0@[k]).status@
                    == "completed"@;
            &&& done ==> p.status@ == "ready"@
            &&& !done ==> p.status@ == "partial"@
            &&& exists|entries: Seq<JsonTree>|
                p.explain_json@ == #[trigger] rendered_json(JsonTree::Array(entries))
                    && entries.len() == jobs->Ok_0@.len()
        },
{
    if jobs is Ok {
        let v = jobs->Ok_0@;
        assert(all_done(v) <==> forall|k: int|
            0 <= k < v.len() ==> (#[trigger] v[k]).status@ != "pending"@ && v[k].status@
                != "claimed"@) by {
            if all_done(v) {
                assert forall|k: int| 0 <= k < v.len() implies (#[trigger] v[k]).status@
                    != "pending"@ && v[k].status@ != "claimed"@ by {
                    assert(job_done(v[k]));
                }
            }
        }
        assert(all_completed(v) <==> forall|k: int|
            0 <= k < v.len() ==> (#[trigger] v[k]).status@ == "completed"@) by {
            if all_completed(v) {
                assert forall|k: int| 0 <= k < v.len() implies (#[trigger] v[k]).status@
                    == "completed"@ by {
                    assert(job_completed(v[k]));
                }
            }
        }
        if let Some(p) = r {
            let entries = v.map_values(|j: DryRunJobRecord| job_entry(j));
            assert(p.explain_json@ == rendered_json(JsonTree::Array(entries)));
        }
    }
}

/// A job shows its statement, with the plan if it was completed and with the
/// error if not; a missing privilege brings a hint, and nothing else does.
pub proof fn jobs_show_their_plan_or_error(j: DryRunJobRecord, r: Json)
    requires
        call_ensures(explain_entry, (&j,), r),
    ensures
        r@.at("sql"@) == JsonTree::Text(j.sql_text@),
        j.status@ == "completed"@ ==> {
            &&& r@.at("error"@) == JsonTree::Null
            &&& r@.at("hint"@) == JsonTree::Null
            &&& j.result_json is None ==> r@.at("plan"@) == JsonTree::Null
            &&& j.result_json matches Some(s) ==> (parsed_json(s@) matches Some(t) ==> r@.at(
                "plan"@,
            ) == t)
        },
        j.status@ != "completed"@ ==> {
            &&& r@.at("plan"@) == JsonTree::Null
            &&& j.error_message matches Some(m) ==> r@.at("error"@) == JsonTree::Text(m@)
            &&& j.error_message is None ==> r@.at("error"@) == JsonTree::Null && r@.at("hint"@)
                == JsonTree::Null
            &&& j.error_message matches Some(m) ==> (r@.at("hint"@) == JsonTree::Text(
                "Grant EXPLAIN privilege to agent DB user"@,
            ) <==> contains_seq(m@, "permission denied"@) || contains_seq(m@, "Access denied"@))
            &&& r@.at("hint"@) == JsonTree::Null || r@.at("hint"@) == JsonTree::Text(
                "Grant EXPLAIN privilege to agent DB user"@,
            )
        },
{
    reveal_strlit("sql");
    reveal_strlit("plan");
    reveal_strlit("error");
    reveal_strlit("hint");
    assert("sql"@.len() == 3 && "error"@.len() == 5);
    assert("plan"@[0] != "hint"@[0]);
    assert("plan"@.len() == 4 && "hint"@.len() == 4);
}

} // verus!
