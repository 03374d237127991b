//! Reading and checking the audit log.

use vstd::prelude::*;

use crate::domain::{AuditEvent, AuthUser, Permission};
use crate::error::{AppError, AuthzError, ErrorView};
use crate::ports::{AuditFilter, AuditVerifyResult};
use crate::use_cases::gate::Gate;

verus! {

/// The use case.
pub struct AuditQuery {}

/// What a caller asks for.
pub struct AuditListInput {
    pub filter: AuditFilter,
}

/// What the caller gets back.
pub struct AuditListOutput {
    pub events: Vec<AuditEvent>,
}

/// What a check of the audit chain found.
pub struct AuditVerifyOutput {
    pub total_events: u64,
    pub first_broken_id: Option<String>,
}

/// Due: whether the caller has `AuditViewAll` and, if not, `AuditView`.
pub struct AuditListStart {
    pub filter: AuditFilter,
    pub caller_id: String,
}

/// Due: the records that match the filter.
pub struct AuditListQuery {
    pub filter: AuditFilter,
    pub view_all: bool,
}

/// Due: check the audit chain.
pub struct AuditVerifying {}

impl AuditQuery {
    /// Starts a list.
    pub fn list(&self, input: AuditListInput, user: &AuthUser) -> (r: AuditListStart)
        ensures
            r.filter == input.filter,
            r.caller_id == user.subject_id,
    {
        AuditListStart { filter: input.filter, caller_id: user.subject_id.clone() }
    }

    /// Starts a check of the audit chain.
    pub fn verify(&self) -> (r: Gate<AuditVerifying>)
        ensures
            r.permission == Permission::AuditViewAll,
    {
        Gate { permission: Permission::AuditViewAll, next: AuditVerifying {  } }
    }
}

impl AuditListStart {
    /// Takes the answers of the authorizer; `view` counts only where the caller
    /// may not view all. Such a caller is shown their own records alone.
    pub fn authorized(self, view_all: bool, view: Result<(), AuthzError>) -> (r: Result<
        AuditListQuery,
        AppError,
    >)
        ensures
            if view_all {
                r matches Ok(q) && q.view_all && q.filter == self.filter
            } else {
                match view {
                    Err(e) => r matches Err(x) && x@ == ErrorView::Forbidden(e@),
                    Ok(_) => r matches Ok(q) && !q.view_all && q.filter == (AuditFilter {
                        actor_id: Some(self.caller_id),
                        ..self.filter
                    }),
                }
            },
    {
        let mut filter = self.filter;
        if !view_all {
            match view {
                Err(e) => {
                    return Err(AppError::Forbidden(e));
                },
                Ok(_) => {},
            }
            filter.actor_id = Some(self.caller_id);
        }
        Ok(AuditListQuery { filter, view_all })
    }
}

/// A record without the statement.
pub open spec fn without_detail(e: AuditEvent) -> AuditEvent {
    AuditEvent { detail_raw: None, ..e }
}

fn hide_detail(e: &AuditEvent) -> (r: AuditEvent)
    ensures
        r == without_detail(*e),
{
    AuditEvent {
        event_type: e.event_type.clone(),
        event_category: e.event_category.clone(),
        actor_id: e.actor_id.clone(),
        resource_id: e.resource_id.clone(),
        created_at: e.created_at,
        request_id: e.request_id.clone(),
        database_name: e.database_name.clone(),
        environment: e.environment.clone(),
        operation: e.operation.clone(),
        reason: e.reason.clone(),
        detail_fingerprint: e.detail_fingerprint.clone(),
        detail_raw: None,
        metadata_json: e.metadata_json.clone(),
    }
}

impl AuditListQuery {
    /// Takes the records. The statements are shown only to who may view all.
    pub fn listed(self, events: Vec<AuditEvent>) -> (r: AuditListOutput)
        ensures
            r.events@ == if self.view_all {
                events@
            } else {
                events@.map_values(|e: AuditEvent| without_detail(e))
            },
    {
        if self.view_all {
            return AuditListOutput { events };
        }
        let mut out: Vec<AuditEvent> = Vec::new();
        let n: usize = events.len();
        let mut i: usize = 0;
        while i < n
            invariant
                i <= n,
                n == events@.len(),
                out@.len() == i,
                forall|k: int| 0 <= k < i ==> #[trigger] out@[k] == without_detail(events@[k]),
            decreases n - i,
        {
            out.push(hide_detail(&events[i]));
            i += 1;
        }
        assert(out@ =~= events@.map_values(|e: AuditEvent| without_detail(e)));
        AuditListOutput { events: out }
    }
}

impl AuditVerifying {
    /// Takes what the check found.
    pub fn verified(self, result: AuditVerifyResult) -> (r: AuditVerifyOutput)
        ensures
            r.total_events == result.total_events,
            r.first_broken_id == result.first_broken_id,
    {
        AuditVerifyOutput {
            total_events: result.total_events,
            first_broken_id: result.first_broken_id,
        }
    }
}

/// Who may not view all sees no statement, whatever the log holds.
pub proof fn statements_stay_hidden(events: Seq<AuditEvent>, k: int)
    requires
        0 <= k < events.len(),
    ensures
        events.map_values(|e: AuditEvent| without_detail(e))[k].detail_raw is None,
{
}

/// Who may view all records is shown what they ask for; who may view only their
/// own is shown those; nobody else is shown any.
pub proof fn callers_see_their_own_records(
    stage: AuditListStart,
    view_all: bool,
    view: Result<(), AuthzError>,
    r: Result<AuditListQuery, AppError>,
)
    requires
        call_ensures(AuditListStart::authorized, (stage, view_all, view), r),
    ensures
        r is Ok <==> view_all || view is Ok,
        r is Err ==> r->Err_0 is Forbidden,
        r matches Ok(q) ==> {
            &&& q.view_all == view_all
            &&& view_all ==> q.filter == stage.filter
            &&& !view_all ==> q.filter.actor_id == Some(stage.caller_id)
        },
{
}

/// Records come in their order, complete to who may view all, and without their
/// statements to anybody else.
pub proof fn records_come_without_statements(
    stage: AuditListQuery,
    events: Vec<AuditEvent>,
    r: AuditListOutput,
    k: int,
)
    requires
        call_ensures(AuditListQuery::listed, (stage, events), r),
        0 <= k < events@.len(),
    ensures
        r.events@.len() == events@.len(),
        stage.view_all ==> r.events@[k] == events@[k],
        !stage.view_all ==> r.events@[k].detail_raw is None,
        r.events@[k].event_type == events@[k].event_type,
        r.events@[k].actor_id == events@[k].actor_id,
        r.events@[k].created_at == events@[k].created_at,
        r.events@[k].request_id == events@[k].request_id,
        r.events@[k].metadata_json == events@[k].metadata_json,
        r.events@[k].detail_fingerprint == events@[k].detail_fingerprint,
{
}

/// The chain is checked only for who may view all, and its state is told as it
/// is.
pub proof fn checks_need_full_view(
    uc: AuditQuery,
    gate: Gate<AuditVerifying>,
    stage: AuditVerifying,
    result: AuditVerifyResult,
    r: AuditVerifyOutput,
)
    requires
        call_ensures(AuditQuery::verify, (&uc,), gate),
        call_ensures(AuditVerifying::verified, (stage, result), r),
    ensures
        gate.permission == Permission::AuditViewAll,
        r.total_events == result.total_events,
        r.first_broken_id == result.first_broken_id,
{
}

/// The list that starts is the one asked for, for the caller.
pub proof fn lists_are_for_the_caller(
    uc: AuditQuery,
    input: AuditListInput,
    user: AuthUser,
    r: AuditListStart,
)
    requires
        call_ensures(AuditQuery::list, (&uc, input, &user), r),
    ensures
        r.filter == input.filter,
        r.caller_id == user.subject_id,
{
}

} // verus!
