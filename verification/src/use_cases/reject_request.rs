//! Rejecting a request: by its requester, or by an approver of its current
//! step.

use vstd::prelude::*;

use crate::domain::{
    Approval, ApprovalAction, ApproverGroup, AuditEvent, AuthUser, EventMetadata, Permission,
    Request, RequestStatus, TransitionContext, TransitionEvent, TransitionReply, Workflow,
};
use crate::error::{AppError, AuthzError, AuthzView, ErrorView};
use crate::ports::WebhookEvent;
use crate::services::audit_event_builder::{
    build_webhook_event, notifies, plain_audit_event, plainly_records,
};
use crate::text::{concat2, same_text};
use crate::time::Timestamp;
use crate::use_cases::approve_request::{
    check_comment, comment_error, expired, expired_error, expired_text, is_expired,
};

verus! {

/// The use case.
pub struct RejectRequest {}

/// What a caller submits.
pub struct RejectRequestInput {
    pub request_id: String,
    pub comment: Option<String>,
}

/// What the caller gets back.
pub struct RejectRequestOutput {
    pub id: String,
    pub status: RequestStatus,
}

/// Due: find the request.
pub struct RejectStart {
    pub input: RejectRequestInput,
    pub user: AuthUser,
}

/// Due: read the workflow from `request.workflow_snapshot_json`, where there
/// is one.
pub struct RejectParse {
    pub input: RejectRequestInput,
    pub user: AuthUser,
    pub request: Request,
}

/// Due: the votes so far and, where there is a workflow, the step they lead to.
pub struct RejectVotes {
    pub input: RejectRequestInput,
    pub user: AuthUser,
    pub request: Request,
    pub workflow: Option<Workflow>,
}

impl RejectRequest {
    /// Starts a rejection.
    pub fn execute(&self, input: RejectRequestInput, user: AuthUser) -> (r: Result<
        RejectStart,
        AppError,
    >)
        ensures
            match r {
                Err(e) => comment_error(input.comment) == Some(e@),
                Ok(s) => comment_error(input.comment) is None && s.input == input && s.user
                    == user,
            },
    {
        match check_comment(&input.comment) {
            Err(e) => Err(e),
            Ok(_) => Ok(RejectStart { input, user }),
        }
    }
}

impl RejectStart {
    /// Takes the request.
    pub fn found(self, request: Option<Request>) -> (r: Result<RejectParse, AppError>)
        ensures
            match request {
                None => r matches Err(e) && e@ == ErrorView::NotFound("request not found"@),
                Some(q) => r matches Ok(s) && s.input == self.input && s.user == self.user
                    && s.request == q,
            },
    {
        match request {
            None => Err(AppError::NotFound("request not found".to_string())),
            Some(request) => Ok(RejectParse { input: self.input, user: self.user, request }),
        }
    }
}

impl RejectParse {
    /// Takes the workflow where the request has one, or why it cannot be read.
    pub fn parsed(self, workflow: Result<Option<Workflow>, String>) -> (r: Result<
        RejectVotes,
        AppError,
    >)
        ensures
            match workflow {
                Err(e) => r matches Err(x) && x@ == ErrorView::Internal(
                    "corrupt workflow snapshot: "@ + e@,
                ),
                Ok(wf) => r matches Ok(s) && {
                    &&& s.input == self.input
                    &&& s.user == self.user
                    &&& s.request == self.request
                    &&& s.workflow == wf
                },
            },
    {
        match workflow {
            Err(e) => Err(AppError::Internal(concat2("corrupt workflow snapshot: ", e.as_str()))),
            Ok(workflow) => Ok(
                RejectVotes {
                    input: self.input,
                    user: self.user,
                    request: self.request,
                    workflow,
                },
            ),
        }
    }
}

/// What decides whether the caller may reject.
pub enum RejectStep {
    /// The requester may. Due: the current time.
    Own(RejectReady),
    /// Due: which groups of the current step the caller matches.
    Eligibility(RejectEligibility),
}

/// Due: for each group of the step, whether the caller matches its selector.
pub struct RejectEligibility {
    pub input: RejectRequestInput,
    pub user: AuthUser,
    pub request: Request,
    pub groups: Vec<ApproverGroup>,
    pub step: u32,
}

/// A rejection that may be made. Due: the current time, then the transition by
/// `Reject`.
pub struct RejectReady {
    pub input: RejectRequestInput,
    pub user: AuthUser,
    pub request: Request,
    pub step: u32,
    pub matched_selector: String,
}

/// Whether the caller is the requester.
pub open spec fn own_request(user: AuthUser, request: Request) -> bool {
    user.subject_id@ == request.requester@
}

impl RejectVotes {
    /// Takes the step that the votes lead to; it counts only where there is a
    /// workflow.
    pub fn counted(self, current_step: u32) -> (r: Result<RejectStep, AppError>)
        ensures
            ({
                let step = if self.workflow is Some {
                    current_step
                } else {
                    0
                };
                if own_request(self.user, self.request) {
                    r matches Ok(RejectStep::Own(s)) && {
                        &&& s.input == self.input
                        &&& s.user == self.user
                        &&& s.request == self.request
                        &&& s.step == step
                        &&& s.matched_selector@ == "requester"@
                    }
                } else {
                    match self.workflow {
                        None => r matches Err(e) && e@ == ErrorView::Conflict(
                            "request has no workflow snapshot"@,
                        ),
                        Some(wf) => if current_step >= wf.steps@.len() {
                            r matches Err(e) && e@ == ErrorView::Conflict(
                                "all steps already satisfied"@,
                            )
                        } else {
                            r matches Ok(RejectStep::Eligibility(s)) && {
                                &&& s.input == self.input
                                &&& s.user == self.user
                                &&& s.request == self.request
                                &&& s.groups@ == wf.steps@[step as int].approvers@
                                &&& s.step == step
                            }
                        },
                    }
                }
            }),
    {
        let step: u32 = match &self.workflow {
            Some(_) => current_step,
            None => 0,
        };
        if same_text(self.user.subject_id.as_str(), self.request.requester.as_str()) {
            return Ok(
                RejectStep::Own(
                    RejectReady {
                        input: self.input,
                        user: self.user,
                        request: self.request,
                        step,
                        matched_selector: "requester".to_string(),
                    },
                ),
            );
        }
        match &self.workflow {
            None => Err(AppError::Conflict("request has no workflow snapshot".to_string())),
            Some(wf) => {
                if current_step as usize >= wf.steps.len() {
                    return Err(AppError::Conflict("all steps already satisfied".to_string()));
                }
                let groups = crate::domain::copy_groups(&wf.steps[current_step as usize].approvers);
                Ok(
                    RejectStep::Eligibility(
                        RejectEligibility {
                            input: self.input,
                            user: self.user,
                            request: self.request,
                            groups,
                            step,
                        },
                    ),
                )
            },
        }
    }
}

/// The first group that the caller matches.
pub open spec fn first_match(matches: Seq<bool>, i: int) -> Option<int>
    decreases matches.len() - i,
{
    if i < 0 || i >= matches.len() {
        None
    } else if matches[i] {
        Some(i)
    } else {
        first_match(matches, i + 1)
    }
}

/// The first match from `i` on is a match at or after `i`.
proof fn lemma_first_match(matches: Seq<bool>, i: int)
    requires
        0 <= i,
    ensures
        match first_match(matches, i) {
            Some(k) => i <= k < matches.len() && matches[k] && forall|j: int|
                i <= j < k ==> !#[trigger] matches[j],
            None => forall|j: int| i <= j < matches.len() ==> !#[trigger] matches[j],
        },
    decreases matches.len() - i,
{
    if i < matches.len() && !matches[i] {
        lemma_first_match(matches, i + 1);
    }
}

impl RejectEligibility {
    /// Takes for each group whether the caller matches its selector. The
    /// rejection is recorded under the first one that does.
    pub fn checked(self, matches: &Vec<bool>) -> (r: Result<RejectReady, AppError>)
        requires
            matches@.len() == self.groups@.len(),
        ensures
            match first_match(matches@, 0) {
                None => r matches Err(e) && e@ == ErrorView::Forbidden(
                    AuthzView::Forbidden {
                        permission: Permission::RequestApprove,
                        reason: "not eligible to reject this step"@,
                    },
                ),
                Some(k) => r matches Ok(s) && {
                    &&& 0 <= k < self.groups@.len()
                    &&& s.input == self.input
                    &&& s.user == self.user
                    &&& s.request == self.request
                    &&& s.step == self.step
                    &&& s.matched_selector@ == self.groups@[k].selector.text()
                },
            },
    {
        let n: usize = matches.len();
        let mut i: usize = 0;
        while i < n
            invariant
                i <= n,
                n == matches@.len(),
                n == self.groups@.len(),
                first_match(matches@, 0) == first_match(matches@, i as int),
            decreases n - i,
        {
            if matches[i] {
                let matched_selector = self.groups[i].selector.to_text();
                return Ok(
                    RejectReady {
                        input: self.input,
                        user: self.user,
                        request: self.request,
                        step: self.step,
                        matched_selector,
                    },
                );
            }
            i += 1;
        }
        Err(
            AppError::Forbidden(
                AuthzError::Forbidden {
                    permission: Permission::RequestApprove,
                    reason: "not eligible to reject this step".to_string(),
                },
            ),
        )
    }
}

/// A rejection at a known time. Due: the transition by `Reject`, then a fresh
/// identifier.
pub struct RejectTransition {
    pub ready: RejectReady,
    pub now: Timestamp,
}

impl RejectReady {
    /// Takes the current time. A request that has expired is not rejected.
    pub fn at(self, now: Timestamp) -> (r: Result<RejectTransition, AppError>)
        ensures
            if expired(self.request.expires_at, now) {
                r matches Err(e) && e@ == ErrorView::Gone(expired_text())
            } else {
                r matches Ok(s) && s.ready == self && s.now == now
            },
    {
        if is_expired(&self.request.expires_at, &now) {
            return Err(expired_error());
        }
        Ok(RejectTransition { ready: self, now })
    }
}

/// Due: one transaction that inserts the vote, marks the request rejected at
/// `now` and, if it was still open, writes the record.
pub struct RejectCommit {
    pub approval: Approval,
    pub now: Timestamp,
    pub audit: AuditEvent,
    pub event: TransitionEvent,
}

/// Whether `a` is the vote that a rejection is recorded as.
pub open spec fn rejection_vote(a: Approval, t: RejectTransition, id: String) -> bool {
    &&& a.id == id
    &&& a.request_id == t.ready.request.id
    &&& a.action == ApprovalAction::Reject
    &&& a.actor_id == t.ready.user.subject_id
    &&& a.matched_selector == t.ready.matched_selector
    &&& a.step_index == t.ready.step
    &&& a.comment == t.ready.input.comment
    &&& a.created_at == t.now
}

impl RejectTransition {
    /// What the transition is asked for with.
    pub fn context(&self) -> (r: TransitionContext)
        ensures
            r.request_id == self.ready.request.id,
            r.actor_id == self.ready.user.subject_id,
            r.actor_type == self.ready.user.subject_type,
            r.database == self.ready.request.database,
            r.environment == self.ready.request.environment,
            r.operation == self.ready.request.operation,
            r.timestamp == self.now,
            r.metadata == (EventMetadata::Rejected { comment: self.ready.input.comment }),
            r.requester_id == self.ready.request.requester,
    {
        TransitionContext {
            request_id: self.ready.request.id.clone(),
            actor_id: self.ready.user.subject_id.clone(),
            actor_type: self.ready.user.subject_type,
            database: self.ready.request.database.clone(),
            environment: self.ready.request.environment.clone(),
            operation: self.ready.request.operation,
            timestamp: self.now,
            metadata: EventMetadata::Rejected { comment: self.ready.input.comment.clone() },
            requester_id: self.ready.request.requester.clone(),
        }
    }

    /// Takes the answer of the status machine.
    pub fn transitioned(self, reply: TransitionReply) -> (r: Result<RejectDecided, AppError>)
        ensures
            match reply {
                Err(e) => r matches Err(x) && x@ == ErrorView::Conflict(e@),
                Ok(event) => r matches Ok(s) && s.transition == self && s.event == event,
            },
    {
        match reply {
            Err(e) => Err(AppError::Conflict(e)),
            Ok(event) => Ok(RejectDecided { transition: self, event }),
        }
    }
}

/// Due: a fresh identifier for the vote.
pub struct RejectDecided {
    pub transition: RejectTransition,
    pub event: TransitionEvent,
}

impl RejectDecided {
    /// Takes the identifier of the vote.
    pub fn identified(self, id: String) -> (r: RejectCommit)
        ensures
            rejection_vote(r.approval, self.transition, id),
            r.now == self.transition.now,
            plainly_records(r.audit, self.event, self.transition.now),
            r.event == self.event,
    {
        let audit = plain_audit_event(&self.event, self.transition.now);
        let t = self.transition;
        RejectCommit {
            approval: Approval {
                id,
                request_id: t.ready.request.id,
                action: ApprovalAction::Reject,
                actor_id: t.ready.user.subject_id,
                matched_selector: t.ready.matched_selector,
                step_index: t.ready.step,
                comment: t.ready.input.comment,
                created_at: t.now,
            },
            now: t.now,
            audit,
            event: self.event,
        }
    }
}

impl RejectCommit {
    /// Whether the transaction goes on after the request was marked. Where the
    /// request has left its status meanwhile nothing is recorded and nobody is
    /// notified.
    pub fn marked(&self, updated: bool) -> (r: Result<(), AppError>)
        ensures
            match r {
                Ok(_) => updated,
                Err(e) => !updated && e@ == ErrorView::Conflict("concurrent status change"@),
            },
    {
        if updated {
            Ok(())
        } else {
            Err(AppError::Conflict("concurrent status change".to_string()))
        }
    }

    /// The answer and the notification once the transaction is committed.
    pub fn committed(self) -> (r: (RejectRequestOutput, WebhookEvent))
        ensures
            r.0.id == self.approval.request_id,
            r.0.status == RequestStatus::Rejected,
            notifies(r.1, self.event),
    {
        let notice = build_webhook_event(&self.event);
        (
            RejectRequestOutput { id: self.approval.request_id, status: RequestStatus::Rejected },
            notice,
        )
    }
}

/// Whoever is neither the requester nor matches a group of the current step is
/// refused; whoever matches one is not.
pub proof fn rejection_needs_a_match(matches: Seq<bool>)
    ensures
        first_match(matches, 0) is Some <==> exists|i: int|
            0 <= i < matches.len() && #[trigger] matches[i],
{
    lemma_first_match(matches, 0);
    if first_match(matches, 0) is Some {
        let k = first_match(matches, 0)->0;
        assert(matches[k]);
    }
}

/// The requester may always reject the request; anybody else needs a workflow
/// with a step that is still open, and is then asked for a match with the
/// approvers of that very step.
pub proof fn requesters_reject_their_own(
    stage: RejectVotes,
    current_step: u32,
    r: Result<RejectStep, AppError>,
)
    requires
        call_ensures(RejectVotes::counted, (stage, current_step), r),
    ensures
        r is Ok && r->Ok_0 is Own <==> stage.user.subject_id@ == stage.request.requester@,
        r is Ok && r->Ok_0 is Eligibility <==> stage.user.subject_id@ != stage.request.requester@
            && stage.workflow is Some && current_step < stage.workflow->0.steps@.len(),
        r is Err ==> r->Err_0 is Conflict,
        r matches Ok(RejectStep::Own(s)) ==> {
            &&& s.request == stage.request
            &&& s.user == stage.user
            &&& s.input == stage.input
            &&& s.matched_selector@ == "requester"@
            &&& stage.workflow is Some ==> s.step == current_step
            &&& stage.workflow is None ==> s.step == 0
        },
        r matches Ok(RejectStep::Eligibility(s)) ==> {
            &&& s.request == stage.request
            &&& s.user == stage.user
            &&& s.input == stage.input
            &&& s.step == current_step
            &&& s.groups@ == stage.workflow->0.steps@[current_step as int].approvers@
        },
{
}

/// Anybody else may reject exactly if they match a group of the step, and do so
/// as the first one they match.
pub proof fn approvers_reject_by_their_first_match(
    stage: RejectEligibility,
    matches: Vec<bool>,
    r: Result<RejectReady, AppError>,
)
    requires
        matches@.len() == stage.groups@.len(),
        call_ensures(RejectEligibility::checked, (stage, &matches), r),
    ensures
        r is Ok <==> exists|i: int| 0 <= i < matches@.len() && #[trigger] matches@[i],
        r is Err ==> r->Err_0 is Forbidden,
        r matches Ok(s) ==> {
            &&& s.request == stage.request
            &&& s.user == stage.user
            &&& s.input == stage.input
            &&& s.step == stage.step
            &&& forall|k: int|
                0 <= k < matches@.len() && #[trigger] matches@[k] && (forall|j: int|
                    0 <= j < k ==> !#[trigger] matches@[j]) ==> s.matched_selector@
                    == stage.groups@[k].selector.text()
        },
{
    rejection_needs_a_match(matches@);
    lemma_first_match(matches@, 0);
    if let Ok(s) = r {
        let f = first_match(matches@, 0)->0;
        assert(matches@[f]);
        assert forall|k: int|
            0 <= k < matches@.len() && #[trigger] matches@[k] && (forall|j: int|
                0 <= j < k ==> !#[trigger] matches@[j]) implies s.matched_selector@
            == stage.groups@[k].selector.text() by {
            assert(!(k < f) && !(f < k));
        }
    }
}

/// A request is rejected in time: before it expires, or at any time if it does
/// not expire.
pub proof fn rejections_come_in_time(
    stage: RejectReady,
    now: Timestamp,
    r: Result<RejectTransition, AppError>,
)
    requires
        now.valid(),
        stage.request.expires_at matches Some(e) ==> e.valid(),
        call_ensures(RejectReady::at, (stage, now), r),
    ensures
        r is Ok <==> (stage.request.expires_at matches Some(e) ==> now.instant() < e.instant()),
        r is Err ==> r->Err_0 is Gone,
        r is Ok ==> r->Ok_0.ready == stage && r->Ok_0.now == now,
{
    if let Some(e) = stage.request.expires_at {
        crate::time::order_is_by_instant(now, e);
    }
}

/// A rejection is a vote of the caller against the request, on the step at hand,
/// and is recorded with it.
pub proof fn rejections_are_votes_against(
    stage: RejectTransition,
    reply: TransitionReply,
    decided: RejectDecided,
    id: String,
    r: RejectCommit,
)
    requires
        call_ensures(
            RejectTransition::transitioned,
            (stage, reply),
            Ok::<RejectDecided, AppError>(decided),
        ),
        call_ensures(RejectDecided::identified, (decided, id), r),
    ensures
        reply is Ok,
        r.event == reply->Ok_0,
        r.now == stage.now,
        r.approval.id == id,
        r.approval.action == ApprovalAction::Reject,
        r.approval.request_id == stage.ready.request.id,
        r.approval.actor_id == stage.ready.user.subject_id,
        r.approval.step_index == stage.ready.step,
        r.approval.matched_selector == stage.ready.matched_selector,
        r.approval.comment == stage.ready.input.comment,
        r.approval.created_at == stage.now,
{
}

/// What the status machine refuses is not rejected, nor is a request that has
/// left its status meanwhile.
pub proof fn refused_rejections_are_conflicts(
    stage: RejectTransition,
    reply: TransitionReply,
    r: Result<RejectDecided, AppError>,
    commit: RejectCommit,
    updated: bool,
    m: Result<(), AppError>,
)
    requires
        call_ensures(RejectTransition::transitioned, (stage, reply), r),
        call_ensures(RejectCommit::marked, (&commit, updated), m),
    ensures
        r is Ok <==> reply is Ok,
        r is Err ==> r->Err_0 is Conflict,
        m is Ok <==> updated,
        m is Err ==> m->Err_0 is Conflict,
{
}

/// The answer is about the request that the vote is on.
pub proof fn rejected_requests_are_answered(
    commit: RejectCommit,
    r: (RejectRequestOutput, WebhookEvent),
)
    requires
        call_ensures(RejectCommit::committed, (commit,), r),
    ensures
        r.0.status == RequestStatus::Rejected,
        r.0.id == commit.approval.request_id,
        r.1.request_id == Some(commit.event.request_id),
{
}

/// A rejection is the caller's, of a request that is found and whose workflow
/// can be read.
pub proof fn rejections_are_of_the_caller(
    uc: RejectRequest,
    input: RejectRequestInput,
    user: AuthUser,
    s: Result<RejectStart, AppError>,
    start: RejectStart,
    request: Option<Request>,
    f: Result<RejectParse, AppError>,
    stage: RejectParse,
    workflow: Result<Option<Workflow>, String>,
    p: Result<RejectVotes, AppError>,
)
    requires
        call_ensures(RejectRequest::execute, (&uc, input, user), s),
        call_ensures(RejectStart::found, (start, request), f),
        call_ensures(RejectParse::parsed, (stage, workflow), p),
    ensures
        s is Ok <==> input.comment is None || crate::text::utf8_len(input.comment->0@) <= 1024,
        s is Err ==> s->Err_0 is Validation,
        s is Ok ==> s->Ok_0.input == input && s->Ok_0.user == user,
        f is Ok <==> request is Some,
        f is Err ==> f->Err_0 is NotFound,
        f is Ok ==> f->Ok_0.input == start.input && f->Ok_0.user == start.user && f->Ok_0.request
            == request->0,
        p is Ok <==> workflow is Ok,
        p is Err ==> p->Err_0 is Internal,
        p is Ok ==> p->Ok_0.input == stage.input && p->Ok_0.user == stage.user && p->Ok_0.request
            == stage.request && p->Ok_0.workflow == workflow->Ok_0,
{
}

/// A rejection is told to the status machine as one of the caller, with the
/// comment.
pub proof fn rejections_tell_the_comment(stage: RejectTransition, c: TransitionContext)
    requires
        call_ensures(RejectTransition::context, (&stage,), c),
    ensures
        c.request_id == stage.ready.request.id,
        c.actor_id == stage.ready.user.subject_id,
        c.actor_type == stage.ready.user.subject_type,
        c.requester_id == stage.ready.request.requester,
        c.timestamp == stage.now,
        c.metadata == (EventMetadata::Rejected { comment: stage.ready.input.comment }),
{
}

/// A caller is told why a request is not rejected.
pub proof fn callers_are_told_why_nothing_is_rejected(
    stage: RejectVotes,
    current_step: u32,
    e: AppError,
    eligibility: RejectEligibility,
    matches: Vec<bool>,
    x: AppError,
)
    requires
        call_ensures(
            RejectVotes::counted,
            (stage, current_step),
            Err::<RejectStep, AppError>(e),
        ),
        matches@.len() == eligibility.groups@.len(),
        call_ensures(
            RejectEligibility::checked,
            (eligibility, &matches),
            Err::<RejectReady, AppError>(x),
        ),
    ensures
        stage.workflow is None ==> e@ == ErrorView::Conflict("request has no workflow snapshot"@),
        stage.workflow is Some ==> e@ == ErrorView::Conflict("all steps already satisfied"@),
        x@ == ErrorView::Forbidden(
            AuthzView::Forbidden {
                permission: Permission::RequestApprove,
                reason: "not eligible to reject this step"@,
            },
        ),
{
}

} // verus!
