//! A running agent extends its lease and learns whether to stop.

use vstd::prelude::*;

use crate::domain::{Execution, ExecutionStatus, Request, RequestStatus, ResourceContext};
use crate::error::{AppError, AuthzError, ErrorView};
use crate::text::concat3;
use crate::time::Timestamp;

verus! {

/// The use case.
pub struct AgentHeartbeat {}

/// What an agent reports.
pub struct AgentHeartbeatInput {
    pub execution_id: String,
}

/// What the agent gets back.
pub struct AgentHeartbeatOutput {
    pub cancelled: bool,
}

/// Due: authorize the caller for `AgentHeartbeat`.
pub struct HeartbeatStart {
    pub execution_id: String,
}

/// Due: find the execution.
pub struct HeartbeatLookup {
    pub execution_id: String,
}

/// Due: authorize the caller for `AgentHeartbeat` on every database and
/// environment.
pub struct HeartbeatScoped {
    pub execution: Execution,
}

/// Due: find the request of the execution; then its execution policy, or the
/// default policy where there is no request; then the current time.
pub struct HeartbeatLease {
    pub execution: Execution,
}

/// Due: extend the lease of the execution to `expires_at`.
pub struct LeaseExtension {
    pub execution_id: String,
    pub expires_at: Timestamp,
    pub output: AgentHeartbeatOutput,
}

impl AgentHeartbeat {
    /// Starts a heartbeat.
    pub fn execute(&self, input: AgentHeartbeatInput) -> (r: HeartbeatStart)
        ensures
            r.execution_id == input.execution_id,
    {
        HeartbeatStart { execution_id: input.execution_id }
    }
}

impl HeartbeatStart {
    /// Takes the answer of the authorizer.
    pub fn authorized(self, reply: Result<(), AuthzError>) -> (r: Result<HeartbeatLookup, AppError>)
        ensures
            match reply {
                Err(e) => r matches Err(x) && x@ == ErrorView::Forbidden(e@),
                Ok(_) => r matches Ok(s) && s.execution_id == self.execution_id,
            },
    {
        match reply {
            Err(e) => Err(AppError::Forbidden(e)),
            Ok(_) => Ok(HeartbeatLookup { execution_id: self.execution_id }),
        }
    }
}

impl HeartbeatLookup {
    /// Takes the execution.
    pub fn found(self, execution: Option<Execution>) -> (r: Result<HeartbeatScoped, AppError>)
        ensures
            match execution {
                None => r matches Err(e) && e@ == ErrorView::NotFound("execution not found"@),
                Some(x) => r matches Ok(s) && s.execution == x,
            },
    {
        match execution {
            None => Err(AppError::NotFound("execution not found".to_string())),
            Some(execution) => Ok(HeartbeatScoped { execution }),
        }
    }
}

impl HeartbeatScoped {
    /// The resource that the authorization is asked for.
    pub fn context(&self) -> (r: ResourceContext)
        ensures
            r == (ResourceContext::AgentExecution { agent_id: self.execution.agent_id }),
    {
        ResourceContext::AgentExecution { agent_id: self.execution.agent_id.clone() }
    }

    /// Takes the answer of the authorizer. Only a running execution has a
    /// heartbeat.
    pub fn authorized(self, reply: Result<(), AuthzError>) -> (r: Result<HeartbeatLease, AppError>)
        ensures
            match reply {
                Err(e) => r matches Err(x) && x@ == ErrorView::Forbidden(e@),
                Ok(_) => if self.execution.status is Claimed {
                    r matches Ok(s) && s.execution == self.execution
                } else {
                    r matches Err(x) && x@ == ErrorView::Conflict(
                        "execution is "@ + self.execution.status.text() + ", cannot heartbeat"@,
                    )
                },
            },
    {
        match reply {
            Err(e) => Err(AppError::Forbidden(e)),
            Ok(_) => {
                if self.execution.status != ExecutionStatus::Claimed {
                    return Err(
                        AppError::Conflict(
                            concat3(
                                "execution is ",
                                self.execution.status.as_str(),
                                ", cannot heartbeat",
                            ),
                        ),
                    );
                }
                Ok(HeartbeatLease { execution: self.execution })
            },
        }
    }
}

impl HeartbeatLease {
    /// Takes the request of the execution, where there is one, the current time
    /// and the lease that the policy gives. The lease is extended even where
    /// the request was cancelled: the agent is told.
    pub fn extended(self, request: &Option<Request>, now: Timestamp, lease_secs: i64) -> (r:
        LeaseExtension)
        requires
            now.shiftable(lease_secs as int),
        ensures
            r.execution_id == self.execution.id,
            r.expires_at.valid(),
            r.expires_at.instant() == now.instant() + lease_secs * 1_000_000_000,
            r.output.cancelled == (request matches Some(q) && q.status is Cancelled),
    {
        let cancelled: bool = match request {
            Some(q) => q.status == RequestStatus::Cancelled,
            None => false,
        };
        LeaseExtension {
            execution_id: self.execution.id,
            expires_at: now.plus_secs(lease_secs),
            output: AgentHeartbeatOutput { cancelled },
        }
    }
}

/// A heartbeat goes on only with authorization, of an execution that is found
/// and is running.
pub proof fn only_running_executions_beat(
    stage: HeartbeatScoped,
    context: ResourceContext,
    reply: Result<(), AuthzError>,
    r: Result<HeartbeatLease, AppError>,
)
    requires
        call_ensures(HeartbeatScoped::context, (&stage,), context),
        call_ensures(HeartbeatScoped::authorized, (stage, reply), r),
    ensures
        context == (ResourceContext::AgentExecution { agent_id: stage.execution.agent_id }),
        r is Ok <==> reply is Ok && stage.execution.status == ExecutionStatus::Claimed,
        reply is Err ==> r->Err_0 is Forbidden,
        reply is Ok && r is Err ==> r->Err_0 is Conflict,
        r is Ok ==> r->Ok_0.execution == stage.execution,
{
}

/// An unknown execution has no heartbeat.
pub proof fn unknown_executions_do_not_beat(
    start: HeartbeatStart,
    reply: Result<(), AuthzError>,
    a: Result<HeartbeatLookup, AppError>,
    stage: HeartbeatLookup,
    execution: Option<Execution>,
    r: Result<HeartbeatScoped, AppError>,
)
    requires
        call_ensures(HeartbeatStart::authorized, (start, reply), a),
        call_ensures(HeartbeatLookup::found, (stage, execution), r),
    ensures
        a is Ok <==> reply is Ok,
        a is Err ==> a->Err_0 is Forbidden,
        r is Ok <==> execution is Some,
        r is Err ==> r->Err_0 is NotFound,
        r is Ok ==> r->Ok_0.execution == execution->0,
{
}

/// A heartbeat moves the lease to the given time from now, and tells the agent
/// of a cancelled request, and of nothing else, to stop.
pub proof fn heartbeats_extend_the_lease(
    stage: HeartbeatLease,
    request: Option<Request>,
    now: Timestamp,
    lease_secs: i64,
    r: LeaseExtension,
)
    requires
        now.shiftable(lease_secs as int),
        call_ensures(HeartbeatLease::extended, (stage, &request, now, lease_secs), r),
    ensures
        r.execution_id == stage.execution.id,
        r.expires_at.instant() - now.instant() == lease_secs * 1_000_000_000,
        r.output.cancelled <==> request is Some && request->0.status == RequestStatus::Cancelled,
{
}

} // verus!
