//! An agent registers itself and asks for dispatched work.

use vstd::prelude::*;

use crate::domain::{
    ActiveJobEntry, Agent, AgentStatus, AuditEvent, AuthUser, DatabaseCapability, Operation,
    Request,
};
use crate::error::{AppError, AuthzError, ErrorView};
use crate::time::Timestamp;

verus! {

/// How many jobs are handed out where the agent does not say.
pub const DEFAULT_POLL_LIMIT: u32 = 10;

/// How many jobs are handed out at most.
pub const MAX_POLL_LIMIT: u32 = 20;

/// The use case.
pub struct AgentPoll {}

/// What an agent reports and asks for.
pub struct AgentPollInput {
    pub capabilities: Vec<DatabaseCapability>,
    pub operations: Vec<Operation>,
    pub limit: Option<u32>,
    pub in_flight: u32,
    pub max_concurrent: u32,
    pub draining: bool,
    pub uptime_secs: u64,
    pub active_jobs: Vec<ActiveJobEntry>,
}

/// The jobs that the agent may claim.
pub struct AgentPollOutput {
    pub jobs: Vec<PollJob>,
}

/// A job that the agent may claim.
pub struct PollJob {
    pub id: String,
    pub created_by: String,
    pub operation: Operation,
    pub environment: String,
    pub database: String,
    pub detail: String,
}

/// Due: authorize the caller for `AgentOperate`.
pub struct PollStart {
    pub input: AgentPollInput,
    pub agent_id: String,
    pub token_id: Option<String>,
}

/// Due: find the agent, then the current time.
pub struct PollLookup {
    pub input: AgentPollInput,
    pub agent_id: String,
    pub token_id: Option<String>,
}

/// Due: store the agent; where `is_new`, record the registration. A failure to
/// record stops nothing.
pub struct PollRegistration {
    pub agent: Agent,
    pub is_new: bool,
    pub query: PollQuery,
}

/// Due: find the dispatched jobs on the agent's databases.
pub struct PollQuery {
    pub operations: Vec<Operation>,
    pub limit: usize,
}

/// How many jobs are handed out.
pub open spec fn poll_limit(limit: Option<u32>) -> u32 {
    let wanted = match limit {
        Some(n) => n,
        None => DEFAULT_POLL_LIMIT,
    };
    if wanted <= MAX_POLL_LIMIT {
        wanted
    } else {
        MAX_POLL_LIMIT
    }
}

impl AgentPoll {
    /// Starts a poll.
    pub fn execute(&self, input: AgentPollInput, user: &AuthUser) -> (r: PollStart)
        ensures
            r.input == input,
            r.agent_id == user.subject_id,
            r.token_id == user.token_id,
    {
        PollStart { input, agent_id: user.subject_id.clone(), token_id: user.token_id.clone() }
    }
}

impl PollStart {
    /// Takes the answer of the authorizer.
    pub fn authorized(self, reply: Result<(), AuthzError>) -> (r: Result<PollLookup, AppError>)
        ensures
            match reply {
                Err(e) => r matches Err(x) && x@ == ErrorView::Forbidden(e@),
                Ok(_) => r matches Ok(s) && s.input == self.input && s.agent_id == self.agent_id
                    && s.token_id == self.token_id,
            },
    {
        match reply {
            Err(e) => Err(AppError::Forbidden(e)),
            Ok(_) => Ok(
                PollLookup { input: self.input, agent_id: self.agent_id, token_id: self.token_id },
            ),
        }
    }
}

impl PollLookup {
    /// Takes whether the agent is known, and the current time.
    pub fn registered(self, known: bool, now: Timestamp) -> (r: PollRegistration)
        ensures
            r.agent.id == self.agent_id,
            r.agent.token_id@ == match self.token_id {
                Some(t) => t@,
                None => ""@,
            },
            r.agent.databases == self.input.capabilities,
            r.agent.status == if self.input.draining {
                AgentStatus::Draining
            } else {
                AgentStatus::Active
            },
            r.agent.max_concurrent == self.input.max_concurrent,
            r.agent.in_flight == self.input.in_flight,
            r.agent.uptime_secs == self.input.uptime_secs,
            r.agent.active_jobs == self.input.active_jobs,
            r.agent.lease_duration_secs is None,
            r.agent.last_seen == Some(now),
            r.agent.created_at == now,
            r.is_new == !known,
            r.query.operations == self.input.operations,
            r.query.limit == poll_limit(self.input.limit),
    {
        let token_id: String = match self.token_id {
            Some(t) => t,
            None => "".to_string(),
        };
        let wanted: u32 = match self.input.limit {
            Some(n) => n,
            None => DEFAULT_POLL_LIMIT,
        };
        let limit: u32 = if wanted <= MAX_POLL_LIMIT {
            wanted
        } else {
            MAX_POLL_LIMIT
        };
        PollRegistration {
            agent: Agent {
                id: self.agent_id,
                token_id,
                databases: self.input.capabilities,
                status: if self.input.draining {
                    AgentStatus::Draining
                } else {
                    AgentStatus::Active
                },
                max_concurrent: self.input.max_concurrent,
                in_flight: self.input.in_flight,
                uptime_secs: self.input.uptime_secs,
                active_jobs: self.input.active_jobs,
                lease_duration_secs: None,
                last_seen: Some(now),
                created_at: now,
            },
            is_new: !known,
            query: PollQuery { operations: self.input.operations, limit: limit as usize },
        }
    }
}

impl PollRegistration {
    /// The record of a new agent, at the current time.
    pub fn record(&self, now: Timestamp) -> (r: Option<AuditEvent>)
        ensures
            r is Some <==> self.is_new,
            r matches Some(e) ==> e.is_simple(
                "agent_registered"@,
                "agent"@,
                self.agent.id@,
                Some(self.agent.id@),
                now,
            ),
    {
        if !self.is_new {
            return None;
        }
        Some(
            AuditEvent::simple(
                "agent_registered",
                "agent",
                self.agent.id.as_str(),
                Some(self.agent.id.clone()),
                now,
            ),
        )
    }
}

/// Whether the agent takes the operation; an empty list takes every one.
pub open spec fn takes(operations: Seq<Operation>, op: Operation) -> bool {
    operations.len() == 0 || operations.contains(op)
}

/// The jobs among `jobs` that the agent takes, in order.
pub open spec fn takeable(operations: Seq<Operation>, jobs: Seq<Request>) -> Seq<Request>
    decreases jobs.len(),
{
    if jobs.len() == 0 {
        seq![]
    } else {
        let rest = takeable(operations, jobs.drop_last());
        if takes(operations, jobs.last().operation) {
            rest.push(jobs.last())
        } else {
            rest
        }
    }
}

/// Whether a handed out job shows the request.
pub open spec fn shows(job: PollJob, request: Request) -> bool {
    &&& job.id == request.id
    &&& job.created_by == request.requester
    &&& job.operation == request.operation
    &&& job.environment == request.environment
    &&& job.database == request.database
    &&& job.detail == request.detail
}

/// Whether `jobs` are the first takeable requests, up to the limit.
pub open spec fn handed_out(jobs: Seq<PollJob>, found: Seq<Request>, limit: nat) -> bool {
    &&& jobs.len() == if found.len() <= limit {
        found.len()
    } else {
        limit
    }
    &&& forall|k: int| 0 <= k < jobs.len() ==> shows(#[trigger] jobs[k], found[k])
}

fn holds_operation(operations: &Vec<Operation>, op: Operation) -> (r: bool)
    ensures
        r == operations@.contains(op),
{
    let n: usize = operations.len();
    let mut i: usize = 0;
    while i < n
        invariant
            i <= n,
            n == operations@.len(),
            forall|k: int| 0 <= k < i ==> operations@[k] != op,
        decreases n - i,
    {
        if operations[i] == op {
            assert(operations@[i as int] == op);
            return true;
        }
        i += 1;
    }
    false
}

/// More requests never take a takeable one away.
proof fn lemma_takeable_grows(operations: Seq<Operation>, jobs: Seq<Request>, i: int)
    requires
        0 <= i <= jobs.len(),
    ensures
        takeable(operations, jobs.take(i)).len() <= takeable(operations, jobs).len(),
        forall|k: int|
            0 <= k < takeable(operations, jobs.take(i)).len() ==> #[trigger] takeable(
                operations,
                jobs,
            )[k] == takeable(operations, jobs.take(i))[k],
    decreases jobs.len() - i,
{
    if i < jobs.len() {
        lemma_takeable_grows(operations, jobs, i + 1);
        assert(jobs.take(i + 1).drop_last() =~= jobs.take(i));
    } else {
        assert(jobs.take(i) =~= jobs);
    }
}

impl PollQuery {
    /// Takes the dispatched jobs.
    pub fn found(self, jobs: &Vec<Request>) -> (r: AgentPollOutput)
        ensures
            handed_out(r.jobs@, takeable(self.operations@, jobs@), self.limit as nat),
    {
        let mut out: Vec<PollJob> = Vec::new();
        let n: usize = jobs.len();
        let mut i: usize = 0;
        while i < n && out.len() < self.limit
            invariant
                i <= n,
                n == jobs@.len(),
                out@.len() <= self.limit,
                out@.len() == takeable(self.operations@, jobs@.take(i as int)).len(),
                forall|k: int|
                    0 <= k < out@.len() ==> shows(
                        #[trigger] out@[k],
                        takeable(self.operations@, jobs@.take(i as int))[k],
                    ),
            decreases n - i,
        {
            let job = &jobs[i];
            proof {
                assert(jobs@.take(i + 1).drop_last() =~= jobs@.take(i as int));
                assert(jobs@.take(i + 1).last() == jobs@[i as int]);
            }
            if self.operations.len() == 0 || holds_operation(&self.operations, job.operation) {
                out.push(
                    PollJob {
                        id: job.id.clone(),
                        created_by: job.requester.clone(),
                        operation: job.operation,
                        environment: job.environment.clone(),
                        database: job.database.clone(),
                        detail: job.detail.clone(),
                    },
                );
            }
            i += 1;
        }
        proof {
            lemma_takeable_grows(self.operations@, jobs@, i as int);
            if i == n {
                assert(jobs@.take(i as int) =~= jobs@);
            }
        }
        AgentPollOutput { jobs: out }
    }
}

/// An agent never gets more jobs than the cap, whatever it asks for.
pub proof fn poll_is_capped(limit: Option<u32>, jobs: Seq<PollJob>, found: Seq<Request>)
    requires
        handed_out(jobs, found, poll_limit(limit) as nat),
    ensures
        jobs.len() <= MAX_POLL_LIMIT,
{
}

/// An agent that names operations gets jobs of those alone.
pub proof fn polled_operations_are_asked_for(
    operations: Seq<Operation>,
    requests: Seq<Request>,
    jobs: Seq<PollJob>,
    limit: nat,
)
    requires
        operations.len() > 0,
        handed_out(jobs, takeable(operations, requests), limit),
    ensures
        forall|k: int| 0 <= k < jobs.len() ==> operations.contains((#[trigger] jobs[k]).operation),
{
    lemma_takeable_takes(operations, requests);
    assert forall|k: int| 0 <= k < jobs.len() implies operations.contains(
        (#[trigger] jobs[k]).operation,
    ) by {
        assert(shows(jobs[k], takeable(operations, requests)[k]));
    }
}

proof fn lemma_takeable_takes(operations: Seq<Operation>, requests: Seq<Request>)
    ensures
        forall|k: int|
            0 <= k < takeable(operations, requests).len() ==> takes(
                operations,
                (#[trigger] takeable(operations, requests)[k]).operation,
            ),
    decreases requests.len(),
{
    if requests.len() > 0 {
        lemma_takeable_takes(operations, requests.drop_last());
    }
}

/// An agent that polls is registered with what it reports, and as draining
/// exactly if it says so; it asks for ten jobs where it does not say, and never
/// gets more than twenty.
pub proof fn polling_agents_are_registered(
    stage: PollLookup,
    known: bool,
    now: Timestamp,
    r: PollRegistration,
)
    requires
        call_ensures(PollLookup::registered, (stage, known, now), r),
    ensures
        r.agent.id == stage.agent_id,
        r.agent.databases == stage.input.capabilities,
        r.agent.status == AgentStatus::Draining <==> stage.input.draining,
        r.agent.status == AgentStatus::Active <==> !stage.input.draining,
        r.agent.max_concurrent == stage.input.max_concurrent,
        r.agent.in_flight == stage.input.in_flight,
        r.agent.active_jobs == stage.input.active_jobs,
        r.agent.last_seen == Some(now),
        r.is_new <==> !known,
        r.query.operations == stage.input.operations,
        stage.input.limit is None ==> r.query.limit == 10,
        stage.input.limit matches Some(n) ==> (n <= 20 ==> r.query.limit == n) && (n > 20
            ==> r.query.limit == 20),
{
}

/// A new agent is recorded, a known one is not.
pub proof fn new_agents_are_recorded(stage: PollRegistration, now: Timestamp, r: Option<AuditEvent>)
    requires
        call_ensures(PollRegistration::record, (&stage, now), r),
    ensures
        r is Some <==> stage.is_new,
        r matches Some(e) ==> e.event_type@ == "agent_registered"@ && e.event_category@ == "agent"@
            && e.actor_id@ == stage.agent.id@ && e.created_at == now,
{
}

/// A request of an operation that the agent takes keeps its place among those it
/// takes.
proof fn lemma_taken_are_takeable(operations: Seq<Operation>, jobs: Seq<Request>, i: int)
    requires
        0 <= i < jobs.len(),
        takes(operations, jobs[i].operation),
    ensures
        takeable(operations, jobs).contains(jobs[i]),
    decreases jobs.len(),
{
    let rest = takeable(operations, jobs.drop_last());
    let all = takeable(operations, jobs);
    if i < jobs.len() - 1 {
        assert(jobs.drop_last()[i] == jobs[i]);
        lemma_taken_are_takeable(operations, jobs.drop_last(), i);
        let k = choose|k: int| 0 <= k < rest.len() && rest[k] == jobs[i];
        assert(all[k] == jobs[i]);
    } else {
        assert(all[all.len() - 1] == jobs[i]);
    }
}

proof fn lemma_takeable_is_found(operations: Seq<Operation>, jobs: Seq<Request>, k: int)
    requires
        0 <= k < takeable(operations, jobs).len(),
    ensures
        jobs.contains(takeable(operations, jobs)[k]),
    decreases jobs.len(),
{
    let rest = takeable(operations, jobs.drop_last());
    if k < rest.len() {
        lemma_takeable_is_found(operations, jobs.drop_last(), k);
        let i = choose|i: int| 0 <= i < jobs.drop_last().len() && jobs.drop_last()[i] == rest[k];
        assert(jobs[i] == rest[k]);
    } else {
        assert(jobs[jobs.len() - 1] == takeable(operations, jobs)[k]);
    }
}

/// Every job that is handed out is a dispatched request of an operation that the
/// agent named, or of any where it named none, and no more than asked for come.
pub proof fn jobs_are_dispatched_requests(
    stage: PollQuery,
    jobs: Vec<Request>,
    r: AgentPollOutput,
    k: int,
)
    requires
        call_ensures(PollQuery::found, (stage, &jobs), r),
        0 <= k < r.jobs@.len(),
    ensures
        r.jobs@.len() <= stage.limit,
        exists|i: int|
            0 <= i < jobs@.len() && (#[trigger] jobs@[i]).id == r.jobs@[k].id
                && jobs@[i].requester == r.jobs@[k].created_by && jobs@[i].operation
                == r.jobs@[k].operation && jobs@[i].database == r.jobs@[k].database
                && jobs@[i].environment == r.jobs@[k].environment && jobs@[i].detail
                == r.jobs@[k].detail,
        stage.operations@.len() > 0 ==> stage.operations@.contains(r.jobs@[k].operation),
{
    let found = takeable(stage.operations@, jobs@);
    lemma_takeable_is_found(stage.operations@, jobs@, k);
    lemma_takeable_takes(stage.operations@, jobs@);
    assert(shows(r.jobs@[k], found[k]));
    let i = choose|i: int| 0 <= i < jobs@.len() && jobs@[i] == found[k];
    assert(jobs@[i].id == r.jobs@[k].id);
}

/// A dispatched request of an operation that the agent takes is handed out,
/// unless as many as it asked for are.
pub proof fn wanted_jobs_are_handed_out(
    stage: PollQuery,
    jobs: Vec<Request>,
    r: AgentPollOutput,
    i: int,
)
    requires
        call_ensures(PollQuery::found, (stage, &jobs), r),
        0 <= i < jobs@.len(),
        stage.operations@.len() == 0 || stage.operations@.contains(jobs@[i].operation),
        r.jobs@.len() < stage.limit,
    ensures
        exists|k: int| 0 <= k < r.jobs@.len() && (#[trigger] r.jobs@[k]).id == jobs@[i].id,
{
    let found = takeable(stage.operations@, jobs@);
    lemma_taken_are_takeable(stage.operations@, jobs@, i);
    let k = choose|k: int| 0 <= k < found.len() && found[k] == jobs@[i];
    assert(shows(r.jobs@[k], found[k]));
}

/// Only the authorized poll.
pub proof fn polls_are_authorized(
    uc: AgentPoll,
    input: AgentPollInput,
    user: AuthUser,
    start: PollStart,
    reply: Result<(), AuthzError>,
    r: Result<PollLookup, AppError>,
)
    requires
        call_ensures(AgentPoll::execute, (&uc, input, &user), start),
        call_ensures(PollStart::authorized, (start, reply), r),
    ensures
        r is Ok <==> reply is Ok,
        r is Err ==> r->Err_0 is Forbidden,
        r matches Ok(s) ==> s.input == input && s.agent_id == user.subject_id && s.token_id
            == user.token_id,
{
}

} // verus!
