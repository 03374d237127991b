//! An agent claims a dispatched request: it gets a signed token and a lease.

use vstd::prelude::*;

use crate::digest::{hex_text, sha256, sha256_text};
use crate::domain::{
    wildcard, AuthUser, DatabaseCapability, EventMetadata, Execution, ExecutionPolicy,
    ExecutionStatus, Operation, Permission, Request, ResourceContext, SubjectType,
    TransitionContext, TransitionEvent, TransitionReply,
};
use crate::error::{AppError, AuthError, AuthzError, AuthzView, ErrorView};
use crate::text::same_text;
use crate::time::Timestamp;
use crate::use_cases::cancel_request::status_marked;
use vstd::utf8::encode_utf8;

verus! {

/// The use case.
pub struct AgentClaim {}

/// What an agent asks for.
pub struct AgentClaimInput {
    pub request_id: String,
    pub agent_id: String,
    pub agent_databases: Vec<DatabaseCapability>,
}

/// What the agent gets back.
pub struct AgentClaimOutput {
    pub execution_id: String,
    pub request_id: String,
    pub execution_token: String,
    pub operation: String,
    pub database: String,
    pub environment: String,
    pub detail: String,
    pub statement_timeout_secs: u32,
    pub max_rows: Option<u32>,
    pub lease_expires_at: Timestamp,
}

/// What an execution token vouches for.
pub struct ExecutionTokenClaims {
    pub request_id: String,
    pub operation: String,
    pub database: String,
    pub environment: String,
    pub detail_hash: String,
    pub requester: String,
    pub requester_role: String,
}

/// Due: authorize the caller for `AgentClaim`.
pub struct ClaimStart {
    pub input: AgentClaimInput,
    pub caller_id: String,
    pub caller_type: SubjectType,
}

/// Due: find the request.
pub struct ClaimLookup {
    pub start: ClaimStart,
}

/// Due: the current time, a fresh identifier, and the transition by `Claim`.
pub struct ClaimTransition {
    pub start: ClaimStart,
    pub request: Request,
}

/// A claim on its way. The stages that hold it say what is due.
pub struct ClaimCase {
    pub input: AgentClaimInput,
    pub request: Request,
    pub now: Timestamp,
    pub execution_id: String,
    pub event: TransitionEvent,
}

/// Due: find the agent.
pub struct ClaimAgent {
    pub case: ClaimCase,
}

/// Due: where `is_migration` says so, whether another migration is running on
/// the database and environment.
pub struct ClaimExclusion {
    pub case: ClaimCase,
}

/// Due: authorize the caller for `AgentClaim` on the request's database and
/// environment.
pub struct ClaimScoped {
    pub case: ClaimCase,
}

/// Due: the execution policy with its lease, and the requester's groups.
pub struct ClaimRequester {
    pub case: ClaimCase,
}

/// Due: the roles of the requester, a user in these groups; then the
/// signature of the claims.
pub struct ClaimSigning {
    pub case: ClaimCase,
    pub groups: Vec<String>,
}

/// Due: store the execution and mark the request running, both or neither.
pub struct ClaimCommit {
    pub execution: Execution,
    pub output: AgentClaimOutput,
    pub now: Timestamp,
    pub event: TransitionEvent,
}

impl AgentClaim {
    /// Starts a claim.
    pub fn execute(&self, input: AgentClaimInput, user: &AuthUser) -> (r: ClaimStart)
        ensures
            r.input == input,
            r.caller_id == user.subject_id,
            r.caller_type == user.subject_type,
    {
        ClaimStart { input, caller_id: user.subject_id.clone(), caller_type: user.subject_type }
    }
}

impl ClaimStart {
    /// Takes the answer of the authorizer.
    pub fn authorized(self, reply: Result<(), AuthzError>) -> (r: Result<ClaimLookup, AppError>)
        ensures
            match reply {
                Err(e) => r matches Err(x) && x@ == ErrorView::Forbidden(e@),
                Ok(_) => r matches Ok(s) && s.start == self,
            },
    {
        match reply {
            Err(e) => Err(AppError::Forbidden(e)),
            Ok(_) => Ok(ClaimLookup { start: self }),
        }
    }
}

impl ClaimLookup {
    /// Takes the request.
    pub fn found(self, request: Option<Request>) -> (r: Result<ClaimTransition, AppError>)
        ensures
            match request {
                None => r matches Err(e) && e@ == ErrorView::NotFound("request not found"@),
                Some(q) => r matches Ok(s) && s.start == self.start && s.request == q,
            },
    {
        match request {
            None => Err(AppError::NotFound("request not found".to_string())),
            Some(request) => Ok(ClaimTransition { start: self.start, request }),
        }
    }
}

/// Whether a name is the given one or the wildcard.
pub open spec fn covers(name: Seq<char>, wanted: Seq<char>) -> bool {
    name == wildcard() || name == wanted
}

/// Whether some capability covers the database and the environment.
pub open spec fn capable(
    caps: Seq<DatabaseCapability>,
    database: Seq<char>,
    environment: Seq<char>,
) -> bool {
    exists|i: int|
        #![trigger caps[i]]
        0 <= i < caps.len() && covers(caps[i].database@, database) && covers(
            caps[i].environment@,
            environment,
        )
}

/// Whether some capability covers the database.
pub open spec fn serves_database(caps: Seq<DatabaseCapability>, database: Seq<char>) -> bool {
    exists|i: int| 0 <= i < caps.len() && covers((#[trigger] caps[i]).database@, database)
}

/// Whether some capability covers the database and, unless it is left open, the
/// environment.
fn has_capability(
    caps: &Vec<DatabaseCapability>,
    database: &str,
    environment: Option<&str>,
) -> (r: bool)
    ensures
        r == match environment {
            Some(env) => capable(caps@, database@, env@),
            None => serves_database(caps@, database@),
        },
{
    let n: usize = caps.len();
    let mut i: usize = 0;
    while i < n
        invariant
            i <= n,
            n == caps@.len(),
            forall|k: int|
                0 <= k < i ==> !(covers((#[trigger] caps@[k]).database@, database@) && (
                environment is Some ==> covers(caps@[k].environment@, environment->0@))),
        decreases n - i,
    {
        let cap = &caps[i];
        let db: bool = same_text(cap.database.as_str(), "*") || same_text(
            cap.database.as_str(),
            database,
        );
        let env: bool = match environment {
            Some(e) => same_text(cap.environment.as_str(), "*") || same_text(
                cap.environment.as_str(),
                e,
            ),
            None => true,
        };
        if db && env {
            assert(covers(caps@[i as int].database@, database@));
            return true;
        }
        i += 1;
    }
    false
}

/// Whether a request changes the schema in an order that must not be mixed.
pub open spec fn ordered_migration(op: Operation) -> bool {
    op is MigrateUp || op is MigrateDown
}

/// The refusal of an agent that does not serve the database and environment.
pub open spec fn not_capable() -> ErrorView {
    ErrorView::Forbidden(
        AuthzView::Forbidden {
            permission: Permission::AgentClaim,
            reason: "agent lacks capability for this database/environment"@,
        },
    )
}

/// The refusal of a registered agent that does not serve a migration's
/// database.
pub open spec fn not_supported() -> ErrorView {
    ErrorView::Forbidden(
        AuthzView::Forbidden {
            permission: Permission::AgentClaim,
            reason: "agent.capability_mismatch: operation not supported"@,
        },
    )
}

impl ClaimTransition {
    /// What the transition is asked for with.
    pub fn context(&self, now: Timestamp, execution_id: &String) -> (r: TransitionContext)
        ensures
            r.request_id == self.request.id,
            r.actor_id == self.start.caller_id,
            r.actor_type == self.start.caller_type,
            r.database == self.request.database,
            r.environment == self.request.environment,
            r.operation == self.request.operation,
            r.timestamp == now,
            r.metadata == (EventMetadata::Claimed {
                execution_id: *execution_id,
                agent_id: self.start.input.agent_id,
            }),
            r.requester_id == self.request.requester,
    {
        TransitionContext {
            request_id: self.request.id.clone(),
            actor_id: self.start.caller_id.clone(),
            actor_type: self.start.caller_type,
            database: self.request.database.clone(),
            environment: self.request.environment.clone(),
            operation: self.request.operation,
            timestamp: now,
            metadata: EventMetadata::Claimed {
                execution_id: execution_id.clone(),
                agent_id: self.start.input.agent_id.clone(),
            },
            requester_id: self.request.requester.clone(),
        }
    }

    /// Takes the answer of the status machine. The agent must serve the
    /// request's database and environment.
    pub fn transitioned(
        self,
        now: Timestamp,
        execution_id: String,
        reply: TransitionReply,
    ) -> (r: Result<ClaimAgent, AppError>)
        ensures
            match reply {
                Err(e) => r matches Err(x) && x@ == ErrorView::Conflict(e@),
                Ok(event) => if capable(
                    self.start.input.agent_databases@,
                    self.request.database@,
                    self.request.environment@,
                ) {
                    r matches Ok(s) && {
                        &&& s.case.input == self.start.input
                        &&& s.case.request == self.request
                        &&& s.case.now == now
                        &&& s.case.execution_id == execution_id
                        &&& s.case.event == event
                    }
                } else {
                    r matches Err(x) && x@ == not_capable()
                },
            },
    {
        match reply {
            Err(e) => Err(AppError::Conflict(e)),
            Ok(event) => {
                if !has_capability(
                    &self.start.input.agent_databases,
                    self.request.database.as_str(),
                    Some(self.request.environment.as_str()),
                ) {
                    return Err(
                        AppError::Forbidden(
                            AuthzError::Forbidden {
                                permission: Permission::AgentClaim,
                                reason:
                                    "agent lacks capability for this database/environment".to_string(),
                            },
                        ),
                    );
                }
                Ok(
                    ClaimAgent {
                        case: ClaimCase {
                            input: self.start.input,
                            request: self.request,
                            now,
                            execution_id,
                            event,
                        },
                    },
                )
            },
        }
    }
}

impl ClaimAgent {
    /// Takes whether the agent is registered. A registered agent must serve the
    /// database that it migrates.
    pub fn registered(self, known: bool) -> (r: Result<ClaimExclusion, AppError>)
        ensures
            if known && ordered_migration(self.case.request.operation) && !serves_database(
                self.case.input.agent_databases@,
                self.case.request.database@,
            ) {
                r matches Err(x) && x@ == not_supported()
            } else {
                r matches Ok(s) && s.case == self.case
            },
    {
        if known {
            let supported: bool = match self.case.request.operation {
                Operation::MigrateUp | Operation::MigrateDown => has_capability(
                    &self.case.input.agent_databases,
                    self.case.request.database.as_str(),
                    None,
                ),
                _ => true,
            };
            if !supported {
                return Err(
                    AppError::Forbidden(
                        AuthzError::Forbidden {
                            permission: Permission::AgentClaim,
                            reason: "agent.capability_mismatch: operation not supported".to_string(),
                        },
                    ),
                );
            }
        }
        Ok(ClaimExclusion { case: self.case })
    }
}

impl ClaimExclusion {
    /// Whether running migrations are looked at.
    pub fn is_migration(&self) -> (r: bool)
        ensures
            r == ordered_migration(self.case.request.operation),
    {
        match self.case.request.operation {
            Operation::MigrateUp | Operation::MigrateDown => true,
            _ => false,
        }
    }

    /// Takes whether another migration is running. Only one runs at a time.
    pub fn exclusive(self, running: bool) -> (r: Result<ClaimScoped, AppError>)
        ensures
            if ordered_migration(self.case.request.operation) && running {
                r matches Err(x) && x@ == ErrorView::Conflict(
                    "migration already running for this database"@,
                )
            } else {
                r matches Ok(s) && s.case == self.case
            },
    {
        if self.is_migration() && running {
            return Err(
                AppError::Conflict("migration already running for this database".to_string()),
            );
        }
        Ok(ClaimScoped { case: self.case })
    }
}

impl ClaimScoped {
    /// The resource that the authorization is asked for.
    pub fn context(&self) -> (r: ResourceContext)
        ensures
            r == (ResourceContext::AgentExecution { agent_id: self.case.input.agent_id }),
    {
        ResourceContext::AgentExecution { agent_id: self.case.input.agent_id.clone() }
    }

    /// Takes the answer of the authorizer.
    pub fn authorized(self, reply: Result<(), AuthzError>) -> (r: Result<ClaimRequester, AppError>)
        ensures
            match reply {
                Err(e) => r matches Err(x) && x@ == ErrorView::Forbidden(e@),
                Ok(_) => r matches Ok(s) && s.case == self.case,
            },
    {
        match reply {
            Err(e) => Err(AppError::Forbidden(e)),
            Ok(_) => Ok(ClaimRequester { case: self.case }),
        }
    }
}

impl ClaimRequester {
    /// Takes the groups of the requester, where the requester is known.
    pub fn grouped(self, groups: Option<Vec<String>>) -> (r: ClaimSigning)
        ensures
            r.case == self.case,
            r.groups@ == match groups {
                Some(g) => g@,
                None => Seq::<String>::empty(),
            },
    {
        let groups: Vec<String> = match groups {
            Some(g) => g,
            None => Vec::new(),
        };
        ClaimSigning { case: self.case, groups }
    }
}

/// The role that a token names: the first one, or `unknown` where the roles
/// cannot be resolved or there is none.
pub open spec fn named_role(roles: Result<Vec<String>, AuthError>) -> Seq<char> {
    match roles {
        Ok(names) => if names@.len() > 0 {
            names@[0]@
        } else {
            "unknown"@
        },
        Err(_) => "unknown"@,
    }
}

/// Whether an execution runs the request of the claim under the token.
pub open spec fn claimed_execution(
    e: Execution,
    case: ClaimCase,
    token: Seq<char>,
    lease_secs: i64,
) -> bool {
    &&& e.id == case.execution_id
    &&& e.request_id == case.request.id
    &&& e.agent_id == case.input.agent_id
    &&& e.status == ExecutionStatus::Claimed
    &&& e.token@ == token
    &&& e.lease_expires_at.instant() == case.now.instant() + lease_secs * 1_000_000_000
    &&& e.lease_expires_at.valid()
    &&& e.started_at == Some(case.now)
    &&& e.finished_at is None
    &&& e.error_message is None
    &&& e.created_at == case.now
}

impl ClaimSigning {
    /// What the token is signed for, given the names of the requester's roles.
    pub fn claims(&self, roles: &Result<Vec<String>, AuthError>) -> (r: ExecutionTokenClaims)
        ensures
            r.request_id == self.case.request.id,
            r.operation@ == self.case.request.operation.text(),
            r.database == self.case.request.database,
            r.environment == self.case.request.environment,
            r.detail_hash@ == hex_text(sha256(encode_utf8(self.case.request.detail@))),
            r.requester == self.case.request.requester,
            r.requester_role@ == named_role(*roles),
    {
        let requester_role: String = match roles {
            Ok(names) => if names.len() > 0 {
                names[0].clone()
            } else {
                "unknown".to_string()
            },
            Err(_) => "unknown".to_string(),
        };
        ExecutionTokenClaims {
            request_id: self.case.request.id.clone(),
            operation: self.case.request.operation.as_str().to_string(),
            database: self.case.request.database.clone(),
            environment: self.case.request.environment.clone(),
            detail_hash: sha256_text(self.case.request.detail.as_str()),
            requester: self.case.request.requester.clone(),
            requester_role,
        }
    }

    /// Takes the signed token and the execution policy with its lease.
    pub fn signed(self, token: String, policy: &ExecutionPolicy, lease_secs: i64) -> (r: ClaimCommit)
        requires
            self.case.now.shiftable(lease_secs as int),
        ensures
            claimed_execution(r.execution, self.case, token@, lease_secs),
            r.output.execution_id == self.case.execution_id,
            r.output.request_id == self.case.request.id,
            r.output.execution_token == token,
            r.output.operation@ == self.case.request.operation.text(),
            r.output.database == self.case.request.database,
            r.output.environment == self.case.request.environment,
            r.output.detail == self.case.request.detail,
            r.output.statement_timeout_secs == policy.statement_timeout_secs,
            r.output.max_rows == policy.max_rows,
            r.output.lease_expires_at == r.execution.lease_expires_at,
            r.now == self.case.now,
            r.event == self.case.event,
    {
        let case = self.case;
        let lease_expires_at = case.now.plus_secs(lease_secs);
        let execution = Execution {
            id: case.execution_id.clone(),
            request_id: case.request.id.clone(),
            agent_id: case.input.agent_id,
            status: ExecutionStatus::Claimed,
            token: token.clone(),
            lease_expires_at,
            started_at: Some(case.now),
            finished_at: None,
            error_message: None,
            created_at: case.now,
        };
        ClaimCommit {
            execution,
            output: AgentClaimOutput {
                execution_id: case.execution_id,
                request_id: case.request.id,
                execution_token: token,
                operation: case.request.operation.as_str().to_string(),
                database: case.request.database,
                environment: case.request.environment,
                detail: case.request.detail,
                statement_timeout_secs: policy.statement_timeout_secs,
                max_rows: policy.max_rows,
                lease_expires_at,
            },
            now: case.now,
            event: case.event,
        }
    }
}

impl ClaimCommit {
    /// Takes whether the request was marked running. The event is dispatched
    /// only where it was.
    pub fn marked(self, updated: bool) -> (r: Result<(AgentClaimOutput, TransitionEvent), AppError>)
        ensures
            match r {
                Err(e) => !updated && e@ == ErrorView::Conflict("concurrent status change"@),
                Ok(out) => updated && out.0 == self.output && out.1 == self.event,
            },
    {
        match status_marked(updated) {
            Err(e) => Err(e),
            Ok(_) => Ok((self.output, self.event)),
        }
    }
}

/// An agent that serves the database and environment of a request also serves
/// its database, so the second look at its capabilities never refuses it.
pub proof fn capable_agent_serves_database(
    caps: Seq<DatabaseCapability>,
    database: Seq<char>,
    environment: Seq<char>,
)
    requires
        capable(caps, database, environment),
    ensures
        serves_database(caps, database),
{
    let i = choose|i: int|
        #![trigger caps[i]]
        0 <= i < caps.len() && covers(caps[i].database@, database) && covers(
            caps[i].environment@,
            environment,
        );
    assert(covers(caps[i].database@, database));
}

/// A claim goes on only with authorization, of a request that is found.
pub proof fn claims_are_authorized(
    start: ClaimStart,
    reply: Result<(), AuthzError>,
    a: Result<ClaimLookup, AppError>,
    stage: ClaimLookup,
    request: Option<Request>,
    f: Result<ClaimTransition, AppError>,
    scoped: ClaimScoped,
    context: ResourceContext,
    s: Result<ClaimRequester, AppError>,
)
    requires
        call_ensures(ClaimStart::authorized, (start, reply), a),
        call_ensures(ClaimLookup::found, (stage, request), f),
        call_ensures(ClaimScoped::context, (&scoped,), context),
        call_ensures(ClaimScoped::authorized, (scoped, reply), s),
    ensures
        a is Ok <==> reply is Ok,
        a is Err ==> a->Err_0 is Forbidden,
        a is Ok ==> a->Ok_0.start == start,
        f is Ok <==> request is Some,
        f is Err ==> f->Err_0 is NotFound,
        f is Ok ==> f->Ok_0.start == stage.start && f->Ok_0.request == request->0,
        context == (ResourceContext::AgentExecution { agent_id: scoped.case.input.agent_id }),
        s is Ok <==> reply is Ok,
        s is Err ==> s->Err_0 is Forbidden,
        s is Ok ==> s->Ok_0.case == scoped.case,
{
}

/// An agent claims only what it serves: some capability of it names the database
/// of the request or every database, and its environment or every environment.
pub proof fn agents_claim_what_they_serve(
    stage: ClaimTransition,
    now: Timestamp,
    id: String,
    reply: TransitionReply,
    r: Result<ClaimAgent, AppError>,
)
    requires
        call_ensures(ClaimTransition::transitioned, (stage, now, id, reply), r),
    ensures
        r is Ok <==> reply is Ok && exists|i: int|
            0 <= i < stage.start.input.agent_databases@.len() && ((
            #[trigger] stage.start.input.agent_databases@[i]).database@ == "*"@
                || stage.start.input.agent_databases@[i].database@ == stage.request.database@) && (
            stage.start.input.agent_databases@[i].environment@ == "*"@
                || stage.start.input.agent_databases@[i].environment@
                == stage.request.environment@),
        reply is Err ==> r->Err_0 is Conflict,
        reply is Ok && r is Err ==> r->Err_0 is Forbidden,
        r matches Ok(s) ==> {
            &&& s.case.input == stage.start.input
            &&& s.case.request == stage.request
            &&& s.case.now == now
            &&& s.case.execution_id == id
            &&& s.case.event == reply->Ok_0
        },
{
    let caps = stage.start.input.agent_databases@;
    if capable(caps, stage.request.database@, stage.request.environment@) {
        let i = choose|i: int|
            #![trigger caps[i]]
            0 <= i < caps.len() && covers(caps[i].database@, stage.request.database@) && covers(
                caps[i].environment@,
                stage.request.environment@,
            );
        assert(caps[i].database@ == "*"@ || caps[i].database@ == stage.request.database@);
    }
    if exists|i: int|
        0 <= i < caps.len() && ((#[trigger] caps[i]).database@ == "*"@ || caps[i].database@
            == stage.request.database@) && (caps[i].environment@ == "*"@ || caps[i].environment@
            == stage.request.environment@) {
        let i = choose|i: int|
            0 <= i < caps.len() && ((#[trigger] caps[i]).database@ == "*"@ || caps[i].database@
                == stage.request.database@) && (caps[i].environment@ == "*"@
                || caps[i].environment@ == stage.request.environment@);
        assert(covers(caps[i].database@, stage.request.database@) && covers(
            caps[i].environment@,
            stage.request.environment@,
        ));
    }
}

/// Two migrations up or down never run on one database at a time, and a
/// registered agent migrates only databases it serves; anything else is not held
/// up.
pub proof fn migrations_run_one_at_a_time(
    agent: ClaimAgent,
    known: bool,
    g: Result<ClaimExclusion, AppError>,
    stage: ClaimExclusion,
    looked_at: bool,
    running: bool,
    r: Result<ClaimScoped, AppError>,
)
    requires
        call_ensures(ClaimAgent::registered, (agent, known), g),
        call_ensures(ClaimExclusion::is_migration, (&stage,), looked_at),
        call_ensures(ClaimExclusion::exclusive, (stage, running), r),
    ensures
        looked_at <==> stage.case.request.operation == Operation::MigrateUp
            || stage.case.request.operation == Operation::MigrateDown,
        r is Ok <==> !(looked_at && running),
        r is Err ==> r->Err_0 is Conflict,
        r is Ok ==> r->Ok_0.case == stage.case,
        !known ==> g is Ok,
        agent.case.request.operation != Operation::MigrateUp && agent.case.request.operation
            != Operation::MigrateDown ==> g is Ok,
        known && (agent.case.request.operation == Operation::MigrateUp
            || agent.case.request.operation == Operation::MigrateDown) ==> (g is Ok <==> exists|
            i: int,
        |
            0 <= i < agent.case.input.agent_databases@.len() && ((
            #[trigger] agent.case.input.agent_databases@[i]).database@ == "*"@
                || agent.case.input.agent_databases@[i].database@ == agent.case.request.database@)),
        g is Err ==> g->Err_0 is Forbidden,
        g is Ok ==> g->Ok_0.case == agent.case,
{
    let caps = agent.case.input.agent_databases@;
    let db = agent.case.request.database@;
    if serves_database(caps, db) {
        let i = choose|i: int| 0 <= i < caps.len() && covers((#[trigger] caps[i]).database@, db);
        assert(caps[i].database@ == "*"@ || caps[i].database@ == db);
    }
    if exists|i: int|
        0 <= i < caps.len() && ((#[trigger] caps[i]).database@ == "*"@ || caps[i].database@ == db) {
        let i = choose|i: int|
            0 <= i < caps.len() && ((#[trigger] caps[i]).database@ == "*"@ || caps[i].database@
                == db);
        assert(covers(caps[i].database@, db));
    }
}

/// A token vouches for the request as it stands, and for the first role of its
/// requester.
pub proof fn tokens_vouch_for_the_request(
    stage: ClaimSigning,
    roles: Result<Vec<String>, AuthError>,
    r: ExecutionTokenClaims,
)
    requires
        call_ensures(ClaimSigning::claims, (&stage, &roles), r),
    ensures
        r.request_id == stage.case.request.id,
        r.operation@ == stage.case.request.operation.text(),
        r.database == stage.case.request.database,
        r.environment == stage.case.request.environment,
        r.requester == stage.case.request.requester,
        r.detail_hash@ == hex_text(sha256(encode_utf8(stage.case.request.detail@))),
        roles is Ok && roles->Ok_0@.len() > 0 ==> r.requester_role == roles->Ok_0@[0] || r.requester_role@
            == roles->Ok_0@[0]@,
        roles is Err || roles->Ok_0@.len() == 0 ==> r.requester_role@ == "unknown"@,
{
}

/// A claimed execution runs under the token, for the agent, until its lease is
/// over, and the agent is told the same.
pub proof fn claims_lease_the_execution(
    stage: ClaimSigning,
    token: String,
    policy: ExecutionPolicy,
    lease_secs: i64,
    r: ClaimCommit,
)
    requires
        stage.case.now.shiftable(lease_secs as int),
        call_ensures(ClaimSigning::signed, (stage, token, &policy, lease_secs), r),
    ensures
        r.execution.status == ExecutionStatus::Claimed,
        r.execution.id == stage.case.execution_id,
        r.execution.request_id == stage.case.request.id,
        r.execution.agent_id == stage.case.input.agent_id,
        r.execution.token@ == token@,
        r.execution.lease_expires_at.instant() - stage.case.now.instant() == lease_secs
            * 1_000_000_000,
        r.execution.started_at == Some(stage.case.now),
        r.execution.finished_at is None,
        r.output.execution_id == r.execution.id,
        r.output.request_id == stage.case.request.id,
        r.output.execution_token == token,
        r.output.lease_expires_at == r.execution.lease_expires_at,
        r.output.detail == stage.case.request.detail,
        r.output.database == stage.case.request.database,
        r.output.environment == stage.case.request.environment,
        r.output.statement_timeout_secs == policy.statement_timeout_secs,
        r.output.max_rows == policy.max_rows,
        r.event == stage.case.event,
{
}

/// Of two claims of one request the one that comes late is refused.
pub proof fn late_claims_are_conflicts(
    stage: ClaimCommit,
    updated: bool,
    r: Result<(AgentClaimOutput, TransitionEvent), AppError>,
)
    requires
        call_ensures(ClaimCommit::marked, (stage, updated), r),
    ensures
        r is Ok <==> updated,
        r is Err ==> r->Err_0 is Conflict,
        r is Ok ==> r->Ok_0 == (stage.output, stage.event),
{
}

/// A claim is made in the name of the caller, for the agent and the execution.
pub proof fn claims_name_agent_and_execution(
    uc: AgentClaim,
    input: AgentClaimInput,
    user: AuthUser,
    start: ClaimStart,
    stage: ClaimTransition,
    now: Timestamp,
    id: String,
    c: TransitionContext,
    requester: ClaimRequester,
    groups: Option<Vec<String>>,
    g: ClaimSigning,
)
    requires
        call_ensures(AgentClaim::execute, (&uc, input, &user), start),
        call_ensures(ClaimTransition::context, (&stage, now, &id), c),
        call_ensures(ClaimRequester::grouped, (requester, groups), g),
    ensures
        start.input == input && start.caller_id == user.subject_id && start.caller_type
            == user.subject_type,
        c.request_id == stage.request.id,
        c.actor_id == stage.start.caller_id,
        c.timestamp == now,
        c.metadata == (EventMetadata::Claimed {
            execution_id: id,
            agent_id: stage.start.input.agent_id,
        }),
        g.case == requester.case,
        groups matches Some(v) ==> g.groups@ == v@,
        groups is None ==> g.groups@.len() == 0,
{
}

/// An agent is told why it gets no work.
pub proof fn agents_are_told_why_they_get_no_work(
    stage: ClaimTransition,
    now: Timestamp,
    id: String,
    event: TransitionEvent,
    e: AppError,
    agent: ClaimAgent,
    x: AppError,
    exclusion: ClaimExclusion,
    y: AppError,
)
    requires
        call_ensures(
            ClaimTransition::transitioned,
            (stage, now, id, Ok::<TransitionEvent, String>(event)),
            Err::<ClaimAgent, AppError>(e),
        ),
        call_ensures(
            ClaimAgent::registered,
            (agent, true),
            Err::<ClaimExclusion, AppError>(x),
        ),
        call_ensures(
            ClaimExclusion::exclusive,
            (exclusion, true),
            Err::<ClaimScoped, AppError>(y),
        ),
    ensures
        e@ == ErrorView::Forbidden(
            AuthzView::Forbidden {
                permission: Permission::AgentClaim,
                reason: "agent lacks capability for this database/environment"@,
            },
        ),
        x@ == ErrorView::Forbidden(
            AuthzView::Forbidden {
                permission: Permission::AgentClaim,
                reason: "agent.capability_mismatch: operation not supported"@,
            },
        ),
        y@ == ErrorView::Conflict("migration already running for this database"@),
{
}

} // verus!
