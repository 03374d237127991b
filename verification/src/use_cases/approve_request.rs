//! Approving a request: one vote on its current step.
//!
//! Everything that decides is checked once before the transaction, to answer
//! early, and again inside it, where it counts.

use vstd::prelude::*;

use crate::domain::{
    Approval, ApprovalAction, ApproverGroup, AuditEvent, AuthUser, EventMetadata, Permission,
    Request, RequestStatus, RequestTrigger, ResourceContext, TransitionContext, TransitionEvent,
    TransitionReply, Workflow, copy_groups,
};
use crate::error::{AppError, AuthzError, AuthzView, ErrorView};
use crate::ports::WebhookEvent;
use crate::services::audit_event_builder::{
    build_webhook_event, notifies, plain_audit_event, plainly_records,
};
use crate::text::{
    byte_len, concat2, concat3, decimal, decimal_text, join, join_texts, lemma_holds_text,
    list_holds, same_text, texts, utf8_len,
};
use crate::time::Timestamp;

verus! {

/// Largest accepted comment, in bytes.
pub const MAX_COMMENT_BYTES: usize = 1024;

/// The use case.
pub struct ApproveRequest {}

/// What an approver submits.
pub struct ApproveRequestInput {
    pub request_id: String,
    pub comment: Option<String>,
    pub selector: Option<String>,
}

/// What the approver gets back.
pub struct ApproveRequestOutput {
    pub id: String,
    pub status: RequestStatus,
    pub approved_by: String,
    pub matched_selector: String,
    pub step_completed: u32,
    pub current_step: u32,
    pub total_steps: u32,
}

/// Due: find the request.
pub struct ApproveStart {
    pub input: ApproveRequestInput,
    pub user: AuthUser,
}

/// Why a comment is refused.
pub open spec fn comment_error(comment: Option<String>) -> Option<ErrorView> {
    if comment is Some && utf8_len(comment->0@) > MAX_COMMENT_BYTES {
        Some(ErrorView::Validation("comment too long (max 1024 bytes)"@))
    } else {
        None
    }
}

/// Refuses a comment that is too long.
pub fn check_comment(comment: &Option<String>) -> (r: Result<(), AppError>)
    ensures
        match r {
            Err(e) => comment_error(*comment) == Some(e@),
            Ok(_) => comment_error(*comment) is None,
        },
{
    match comment {
        Some(c) => {
            if byte_len(c.as_str()) > MAX_COMMENT_BYTES {
                return Err(AppError::Validation("comment too long (max 1024 bytes)".to_string()));
            }
        },
        None => {},
    }
    Ok(())
}

impl ApproveRequest {
    /// Starts a vote.
    pub fn execute(&self, input: ApproveRequestInput, user: AuthUser) -> (r: Result<
        ApproveStart,
        AppError,
    >)
        ensures
            match r {
                Err(e) => comment_error(input.comment) == Some(e@),
                Ok(s) => comment_error(input.comment) is None && s.input == input && s.user
                    == user,
            },
    {
        match check_comment(&input.comment) {
            Err(e) => Err(e),
            Ok(_) => Ok(ApproveStart { input, user }),
        }
    }
}

/// A vote on a request that is pending. Due: the current time.
pub struct ExpiryCheck {
    pub input: ApproveRequestInput,
    pub user: AuthUser,
    pub request: Request,
}

/// The conflict with a request that is not pending.
pub open spec fn not_pending(status: RequestStatus) -> ErrorView {
    ErrorView::Conflict("request is "@ + status.text() + ", expected pending"@)
}

fn not_pending_error(status: RequestStatus) -> (r: AppError)
    ensures
        r@ == not_pending(status),
{
    AppError::Conflict(concat3("request is ", status.as_str(), ", expected pending"))
}

impl ApproveStart {
    /// Takes the request.
    pub fn found(self, request: Option<Request>) -> (r: Result<ExpiryCheck, AppError>)
        ensures
            match request {
                None => r matches Err(e) && e@ == ErrorView::NotFound("request not found"@),
                Some(q) => if q.status != RequestStatus::Pending {
                    r matches Err(e) && e@ == not_pending(q.status)
                } else {
                    r matches Ok(s) && s.input == self.input && s.user == self.user && s.request
                        == q
                },
            },
    {
        match request {
            None => Err(AppError::NotFound("request not found".to_string())),
            Some(request) => {
                if request.status != RequestStatus::Pending {
                    return Err(not_pending_error(request.status));
                }
                Ok(ExpiryCheck { input: self.input, user: self.user, request })
            },
        }
    }
}

/// Whether a request has expired at `now`.
pub open spec fn expired(expires_at: Option<Timestamp>, now: Timestamp) -> bool {
    expires_at is Some && !now.precedes(expires_at->0)
}

/// Whether a request has expired at `now`.
pub fn is_expired(expires_at: &Option<Timestamp>, now: &Timestamp) -> (r: bool)
    ensures
        r == expired(*expires_at, *now),
{
    match expires_at {
        Some(e) => !now.before(e),
        None => false,
    }
}

/// What a voter is told of a request that has expired.
pub open spec fn expired_text() -> Seq<char> {
    "request has expired. Hint: set pending_ttl_secs in your workflow configuration to increase the approval window"@
}

/// The error for a request that has expired.
pub fn expired_error() -> (r: AppError)
    ensures
        r@ == ErrorView::Gone(expired_text()),
{
    AppError::Gone(
        "request has expired. Hint: set pending_ttl_secs in your workflow configuration to increase the approval window".to_string(),
    )
}

/// Due: read the workflow from `request.workflow_snapshot_json`.
pub struct SnapshotParse {
    pub input: ApproveRequestInput,
    pub user: AuthUser,
    pub request: Request,
}

impl ExpiryCheck {
    /// Takes the current time. A pending request without a workflow is not
    /// approved.
    pub fn at(self, now: Timestamp) -> (r: Result<SnapshotParse, AppError>)
        ensures
            if expired(self.request.expires_at, now) {
                r matches Err(e) && e@ == ErrorView::Gone(expired_text())
            } else if self.request.workflow_snapshot_json is None {
                r matches Err(e) && e@ == ErrorView::Conflict("request has no approval workflow"@)
            } else {
                r matches Ok(s) && s.input == self.input && s.user == self.user && s.request
                    == self.request
            },
    {
        if is_expired(&self.request.expires_at, &now) {
            return Err(expired_error());
        }
        if self.request.workflow_snapshot_json.is_none() {
            return Err(AppError::Conflict("request has no approval workflow".to_string()));
        }
        Ok(SnapshotParse { input: self.input, user: self.user, request: self.request })
    }
}

/// A vote with everything that is fixed: the voter, the request and its
/// workflow.
pub struct Ballot {
    pub input: ApproveRequestInput,
    pub user: AuthUser,
    pub request: Request,
    pub workflow: Workflow,
}

/// Due: the votes so far, and the step they lead to.
pub struct ApprovalsLookup {
    pub ballot: Ballot,
}

impl SnapshotParse {
    /// Takes the workflow, or why it cannot be read.
    pub fn parsed(self, workflow: Result<Workflow, String>) -> (r: Result<ApprovalsLookup, AppError>)
        ensures
            match workflow {
                Err(e) => r matches Err(x) && x@ == ErrorView::Internal(
                    "corrupt workflow snapshot: "@ + e@,
                ),
                Ok(wf) => r matches Ok(s) && {
                    &&& s.ballot.input == self.input
                    &&& s.ballot.user == self.user
                    &&& s.ballot.request == self.request
                    &&& s.ballot.workflow == wf
                },
            },
    {
        match workflow {
            Err(e) => Err(AppError::Internal(concat2("corrupt workflow snapshot: ", e.as_str()))),
            Ok(workflow) => Ok(
                ApprovalsLookup {
                    ballot: Ballot {
                        input: self.input,
                        user: self.user,
                        request: self.request,
                        workflow,
                    },
                },
            ),
        }
    }
}

/// Who approved the steps before `step`, in order.
pub open spec fn earlier_approvers(approvals: Seq<Approval>, step: u32) -> Seq<Seq<char>>
    decreases approvals.len(),
{
    if approvals.len() == 0 {
        Seq::empty()
    } else {
        let rest = earlier_approvers(approvals.drop_last(), step);
        if approvals.last().step_index < step && approvals.last().action == ApprovalAction::Approve {
            rest.push(approvals.last().actor_id@)
        } else {
            rest
        }
    }
}

/// Who approved the steps before `step`, in order.
pub fn collect_earlier_approvers(approvals: &Vec<Approval>, step: u32) -> (r: Vec<String>)
    ensures
        texts(r@) == earlier_approvers(approvals@, step),
{
    let mut out: Vec<String> = Vec::new();
    let n: usize = approvals.len();
    let mut i: usize = 0;
    assert(texts(out@) =~= earlier_approvers(approvals@.take(0), step));
    while i < n
        invariant
            i <= n,
            n == approvals@.len(),
            texts(out@) == earlier_approvers(approvals@.take(i as int), step),
        decreases n - i,
    {
        proof {
            assert(approvals@.take(i + 1).drop_last() =~= approvals@.take(i as int));
            assert(approvals@.take(i + 1).last() == approvals@[i as int]);
        }
        let ghost before = texts(out@);
        if approvals[i].step_index < step && approvals[i].action == ApprovalAction::Approve {
            out.push(approvals[i].actor_id.clone());
            assert(texts(out@) =~= before.push(approvals@[i as int].actor_id@));
        }
        i += 1;
    }
    assert(approvals@.take(n as int) =~= approvals@);
    out
}

/// Whether `actor` approved the step already.
pub open spec fn has_approved(approvals: Seq<Approval>, step: u32, actor: Seq<char>) -> bool {
    exists|i: int|
        0 <= i < approvals.len() && (#[trigger] approvals[i]).step_index == step
            && approvals[i].actor_id@ == actor && approvals[i].action == ApprovalAction::Approve
}

/// Whether `actor` approved the step already.
pub fn approved_already(approvals: &Vec<Approval>, step: u32, actor: &str) -> (r: bool)
    ensures
        r == has_approved(approvals@, step, actor@),
{
    let n: usize = approvals.len();
    let mut i: usize = 0;
    while i < n
        invariant
            i <= n,
            n == approvals@.len(),
            forall|k: int|
                0 <= k < i ==> !((#[trigger] approvals@[k]).step_index == step
                    && approvals@[k].actor_id@ == actor@ && approvals@[k].action
                    == ApprovalAction::Approve),
        decreases n - i,
    {
        if approvals[i].step_index == step && same_text(approvals[i].actor_id.as_str(), actor)
            && approvals[i].action == ApprovalAction::Approve {
            assert(approvals@[i as int].step_index == step);
            return true;
        }
        i += 1;
    }
    false
}

/// Due: authorize the voter on the step.
pub struct ApproveAuthorizing {
    pub ballot: Ballot,
    pub approvals: Vec<Approval>,
    pub step: u32,
}

/// Whether `c` is the step that an approval is asked for.
pub open spec fn step_context(c: ResourceContext, b: Ballot, approvals: Seq<Approval>, step: u32) -> bool {
    c matches ResourceContext::ApprovalStep {
        requester_id,
        step_index,
        approvers,
        allow_self_approve,
        allow_same_approver_across_steps,
        previous_approver_ids,
    } && {
        &&& requester_id == b.request.requester
        &&& step_index == step
        &&& approvers@ == b.workflow.steps@[step as int].approvers@
        &&& allow_self_approve == b.workflow.allow_self_approve
        &&& allow_same_approver_across_steps == b.workflow.allow_same_approver_across_steps
        &&& texts(previous_approver_ids@) == earlier_approvers(approvals, step)
    }
}

/// Whether the workflow has few enough steps to count them.
pub open spec fn countable(b: Ballot) -> bool {
    b.workflow.steps@.len() <= u32::MAX
}

impl ApprovalsLookup {
    /// Takes the votes and the step they lead to.
    pub fn loaded(self, approvals: Vec<Approval>, current_step: u32) -> (r: Result<
        ApproveAuthorizing,
        AppError,
    >)
        requires
            countable(self.ballot),
        ensures
            if current_step >= self.ballot.workflow.steps@.len() {
                r matches Err(e) && e@ == ErrorView::Conflict("all steps already satisfied"@)
            } else {
                r matches Ok(s) && s.ballot == self.ballot && s.approvals == approvals && s.step
                    == current_step
            },
    {
        if current_step >= self.ballot.workflow.steps.len() as u32 {
            return Err(AppError::Conflict("all steps already satisfied".to_string()));
        }
        Ok(ApproveAuthorizing { ballot: self.ballot, approvals, step: current_step })
    }
}

/// A vote that may be cast. Due: a fresh identifier, then in one transaction
/// the current time and the state of the request.
pub struct ApproveReady {
    pub ballot: Ballot,
}

impl ApproveAuthorizing {
    /// The step that the authorization is asked for.
    pub fn context(&self) -> (r: ResourceContext)
        requires
            self.step < self.ballot.workflow.steps@.len(),
        ensures
            step_context(r, self.ballot, self.approvals@, self.step),
    {
        ResourceContext::ApprovalStep {
            requester_id: self.ballot.request.requester.clone(),
            step_index: self.step,
            approvers: copy_groups(&self.ballot.workflow.steps[self.step as usize].approvers),
            allow_self_approve: self.ballot.workflow.allow_self_approve,
            allow_same_approver_across_steps: self.ballot.workflow.allow_same_approver_across_steps,
            previous_approver_ids: collect_earlier_approvers(&self.approvals, self.step),
        }
    }

    /// Takes the answer of the authorizer. Nobody approves a step twice.
    pub fn authorized(self, reply: Result<(), AuthzError>) -> (r: Result<ApproveReady, AppError>)
        ensures
            match reply {
                Err(e) => r matches Err(x) && x@ == ErrorView::Forbidden(e@),
                Ok(_) => if has_approved(
                    self.approvals@,
                    self.step,
                    self.ballot.user.subject_id@,
                ) {
                    r matches Err(x) && x@ == ErrorView::Conflict("already approved this step"@)
                } else {
                    r matches Ok(s) && s.ballot == self.ballot
                },
            },
    {
        match reply {
            Err(e) => Err(AppError::Forbidden(e)),
            Ok(_) => {
                if approved_already(
                    &self.approvals,
                    self.step,
                    self.ballot.user.subject_id.as_str(),
                ) {
                    return Err(AppError::Conflict("already approved this step".to_string()));
                }
                Ok(ApproveReady { ballot: self.ballot })
            },
        }
    }
}

/// In the transaction. Due: the votes so far, and the step they lead to.
pub struct TxApprovals {
    pub ballot: Ballot,
    pub approval_id: String,
    pub now: Timestamp,
}

/// Why the state of the request stops the vote inside the transaction.
pub open spec fn state_error(
    state: Option<(RequestStatus, Option<Timestamp>)>,
    now: Timestamp,
) -> Option<ErrorView> {
    match state {
        None => Some(ErrorView::NotFound("request not found"@)),
        Some((status, expires_at)) => if status != RequestStatus::Pending {
            Some(not_pending(status))
        } else if expired(expires_at, now) {
            Some(ErrorView::Gone("request has expired"@))
        } else {
            None
        },
    }
}

impl ApproveReady {
    /// Takes the identifier, and the time and the state of the request inside
    /// the transaction.
    pub fn begun(
        self,
        approval_id: String,
        now: Timestamp,
        state: Option<(RequestStatus, Option<Timestamp>)>,
    ) -> (r: Result<TxApprovals, AppError>)
        ensures
            match r {
                Err(e) => state_error(state, now) == Some(e@),
                Ok(s) => state_error(state, now) is None && s.ballot == self.ballot
                    && s.approval_id == approval_id && s.now == now,
            },
    {
        match state {
            None => Err(AppError::NotFound("request not found".to_string())),
            Some((status, expires_at)) => {
                if status != RequestStatus::Pending {
                    return Err(not_pending_error(status));
                }
                if is_expired(&expires_at, &now) {
                    return Err(AppError::Gone("request has expired".to_string()));
                }
                Ok(TxApprovals { ballot: self.ballot, approval_id, now })
            },
        }
    }
}

/// In the transaction. Due: whether the voter may approve the step, given who
/// approved before, and which selectors of the step the voter matches.
pub struct TxEligibility {
    pub ballot: Ballot,
    pub approval_id: String,
    pub now: Timestamp,
    pub approvals: Vec<Approval>,
    pub step: u32,
    pub previous_approver_ids: Vec<String>,
}

impl TxApprovals {
    /// Takes the votes and the step they lead to.
    pub fn loaded(self, approvals: Vec<Approval>, current_step: u32) -> (r: Result<
        TxEligibility,
        AppError,
    >)
        requires
            countable(self.ballot),
        ensures
            if current_step >= self.ballot.workflow.steps@.len() {
                r matches Err(e) && e@ == ErrorView::Conflict("all steps already satisfied"@)
            } else {
                r matches Ok(s) && {
                    &&& s.ballot == self.ballot
                    &&& s.approval_id == self.approval_id
                    &&& s.now == self.now
                    &&& s.approvals == approvals
                    &&& s.step == current_step
                    &&& texts(s.previous_approver_ids@) == earlier_approvers(
                        approvals@,
                        current_step,
                    )
                }
            },
    {
        if current_step >= self.ballot.workflow.steps.len() as u32 {
            return Err(AppError::Conflict("all steps already satisfied".to_string()));
        }
        let previous_approver_ids = collect_earlier_approvers(&approvals, current_step);
        Ok(
            TxEligibility {
                ballot: self.ballot,
                approval_id: self.approval_id,
                now: self.now,
                approvals,
                step: current_step,
                previous_approver_ids,
            },
        )
    }
}

/// How many approvals the selector `sel` has on the step.
pub open spec fn votes_for(approvals: Seq<Approval>, step: u32, sel: Seq<char>) -> nat
    decreases approvals.len(),
{
    if approvals.len() == 0 {
        0
    } else {
        let a = approvals.last();
        let rest = votes_for(approvals.drop_last(), step, sel);
        if a.step_index == step && a.action == ApprovalAction::Approve && a.matched_selector@ == sel {
            rest + 1
        } else {
            rest
        }
    }
}

/// How many approvals the selector `sel` needs: as its first group says, one
/// where no group has it.
pub open spec fn needed_for(groups: Seq<ApproverGroup>, sel: Seq<char>) -> u32
    decreases groups.len(),
{
    if groups.len() == 0 {
        1
    } else if groups[0].selector.text() == sel {
        groups[0].min
    } else {
        needed_for(groups.drop_first(), sel)
    }
}

/// Whether the selector `sel` has the approvals it needs on the step.
pub open spec fn satisfied(
    groups: Seq<ApproverGroup>,
    approvals: Seq<Approval>,
    step: u32,
    sel: Seq<char>,
) -> bool {
    votes_for(approvals, step, sel) >= needed_for(groups, sel)
}

/// The selectors that still need approvals, in order.
pub open spec fn unsatisfied(
    groups: Seq<ApproverGroup>,
    approvals: Seq<Approval>,
    step: u32,
    matched: Seq<Seq<char>>,
) -> Seq<Seq<char>>
    decreases matched.len(),
{
    if matched.len() == 0 {
        Seq::empty()
    } else {
        let rest = unsatisfied(groups, approvals, step, matched.drop_last());
        if satisfied(groups, approvals, step, matched.last()) {
            rest
        } else {
            rest.push(matched.last())
        }
    }
}

/// The selector that a vote counts for, or why there is none. A named selector
/// must be matched and still need approvals; otherwise exactly one of the
/// matched selectors must.
pub open spec fn selector_choice(
    groups: Seq<ApproverGroup>,
    approvals: Seq<Approval>,
    step: u32,
    requested: Option<String>,
    matched: Seq<Seq<char>>,
) -> Result<Seq<char>, ErrorView> {
    match requested {
        Some(sel) => if !matched.contains(sel@) {
            Err(ErrorView::Validation("you do not match selector '"@ + sel@ + "'"@))
        } else if satisfied(groups, approvals, step, sel@) {
            Err(
                ErrorView::Conflict(
                    "selector '"@ + sel@ + "' is already satisfied for this step ("@ + decimal(
                        votes_for(approvals, step, sel@),
                    ) + "/"@ + decimal(needed_for(groups, sel@) as nat) + ")"@,
                ),
            )
        } else {
            Ok(sel@)
        },
        None => if matched.len() == 0 {
            Err(
                ErrorView::Forbidden(
                    AuthzView::Forbidden {
                        permission: Permission::RequestView,
                        reason: "not eligible to approve this step"@,
                    },
                ),
            )
        } else {
            let open = unsatisfied(groups, approvals, step, matched);
            if open.len() == 0 {
                Err(
                    ErrorView::Conflict(
                        "all approver groups you match are already satisfied"@,
                    ),
                )
            } else if open.len() == 1 {
                Ok(open[0])
            } else {
                Err(
                    ErrorView::Validation(
                        "ambiguous: you match multiple unsatisfied approver groups: "@ + join(
                            open,
                            ", "@,
                        ) + ". Specify 'selector' parameter to choose."@,
                    ),
                )
            }
        },
    }
}

fn count_votes(approvals: &Vec<Approval>, step: u32, sel: &str) -> (r: u64)
    ensures
        r == votes_for(approvals@, step, sel@),
{
    let n: usize = approvals.len();
    let mut i: usize = 0;
    let mut count: u64 = 0;
    assert(approvals@.take(0) =~= Seq::empty());
    while i < n
        invariant
            i <= n,
            n == approvals@.len(),
            count <= i,
            count == votes_for(approvals@.take(i as int), step, sel@),
        decreases n - i,
    {
        proof {
            assert(approvals@.take(i + 1).drop_last() =~= approvals@.take(i as int));
            assert(approvals@.take(i + 1).last() == approvals@[i as int]);
        }
        if approvals[i].step_index == step && approvals[i].action == ApprovalAction::Approve
            && same_text(approvals[i].matched_selector.as_str(), sel) {
            count += 1;
        }
        i += 1;
    }
    assert(approvals@.take(n as int) =~= approvals@);
    count
}

fn count_needed(groups: &Vec<ApproverGroup>, sel: &str) -> (r: u32)
    ensures
        r == needed_for(groups@, sel@),
{
    let n: usize = groups.len();
    let mut i: usize = 0;
    assert(groups@.skip(0) =~= groups@);
    while i < n
        invariant
            i <= n,
            n == groups@.len(),
            needed_for(groups@, sel@) == needed_for(groups@.skip(i as int), sel@),
        decreases n - i,
    {
        let text = groups[i].selector.to_text();
        assert(groups@.skip(i as int)[0] == groups@[i as int]);
        if same_text(text.as_str(), sel) {
            return groups[i].min;
        }
        assert(groups@.skip(i as int).drop_first() =~= groups@.skip(i + 1));
        i += 1;
    }
    1
}

/// The selector that a vote counts for, or why there is none.
pub fn choose_selector(
    groups: &Vec<ApproverGroup>,
    approvals: &Vec<Approval>,
    step: u32,
    requested: &Option<String>,
    matched: &Vec<String>,
) -> (r: Result<String, AppError>)
    ensures
        match r {
            Ok(s) => selector_choice(
                groups@,
                approvals@,
                step,
                *requested,
                texts(matched@),
            ) == Ok::<Seq<char>, ErrorView>(s@),
            Err(e) => selector_choice(
                groups@,
                approvals@,
                step,
                *requested,
                texts(matched@),
            ) == Err::<Seq<char>, ErrorView>(e@),
        },
{
    match requested {
        Some(sel) => {
            let is_matched: bool = list_holds(matched, sel.as_str());
            proof {
                lemma_holds_text(matched@, sel@);
            }
            if !is_matched {
                return Err(
                    AppError::Validation(
                        concat3("you do not match selector '", sel.as_str(), "'"),
                    ),
                );
            }
            let count: u64 = count_votes(approvals, step, sel.as_str());
            let needed: u32 = count_needed(groups, sel.as_str());
            if count >= needed as u64 {
                let mut msg = concat3(
                    "selector '",
                    sel.as_str(),
                    "' is already satisfied for this step (",
                );
                msg.append(decimal_text(count).as_str());
                msg.append("/");
                msg.append(decimal_text(needed as u64).as_str());
                msg.append(")");
                return Err(AppError::Conflict(msg));
            }
            Ok(sel.clone())
        },
        None => {
            if matched.len() == 0 {
                return Err(
                    AppError::Forbidden(
                        AuthzError::Forbidden {
                            permission: Permission::RequestView,
                            reason: "not eligible to approve this step".to_string(),
                        },
                    ),
                );
            }
            let mut open: Vec<String> = Vec::new();
            let ghost all = texts(matched@);
            let n: usize = matched.len();
            let mut i: usize = 0;
            assert(texts(open@) =~= unsatisfied(groups@, approvals@, step, all.take(0)));
            while i < n
                invariant
                    i <= n,
                    n == matched@.len(),
                    all == texts(matched@),
                    texts(open@) == unsatisfied(groups@, approvals@, step, all.take(i as int)),
                decreases n - i,
            {
                proof {
                    assert(all.take(i + 1).drop_last() =~= all.take(i as int));
                    assert(all.take(i + 1).last() == matched@[i as int]@);
                }
                let ghost before = texts(open@);
                let count: u64 = count_votes(approvals, step, matched[i].as_str());
                let needed: u32 = count_needed(groups, matched[i].as_str());
                if count < needed as u64 {
                    open.push(matched[i].clone());
                    assert(texts(open@) =~= before.push(matched@[i as int]@));
                }
                i += 1;
            }
            assert(all.take(n as int) =~= all);
            assert(texts(open@).len() == open@.len());
            if open.len() == 0 {
                Err(
                    AppError::Conflict(
                        "all approver groups you match are already satisfied".to_string(),
                    ),
                )
            } else if open.len() == 1 {
                assert(texts(open@)[0] == open@[0]@);
                Ok(open[0].clone())
            } else {
                Err(
                    AppError::Validation(
                        concat3(
                            "ambiguous: you match multiple unsatisfied approver groups: ",
                            join_texts(&open, ", ").as_str(),
                            ". Specify 'selector' parameter to choose.",
                        ),
                    ),
                )
            }
        },
    }
}

/// The selectors of the groups that are matched, in order.
pub open spec fn matched_selectors(groups: Seq<ApproverGroup>, matched: Seq<bool>) -> Seq<Seq<char>>
    decreases groups.len(),
{
    if groups.len() == 0 {
        seq![]
    } else {
        let rest = matched_selectors(groups.drop_last(), matched);
        if matched[groups.len() - 1] {
            rest.push(groups.last().selector.text())
        } else {
            rest
        }
    }
}

fn collect_matched(groups: &Vec<ApproverGroup>, matched: &Vec<bool>) -> (r: Vec<String>)
    requires
        matched@.len() == groups@.len(),
    ensures
        texts(r@) == matched_selectors(groups@, matched@),
{
    let mut out: Vec<String> = Vec::new();
    let n: usize = groups.len();
    let mut i: usize = 0;
    assert(texts(out@) =~= matched_selectors(groups@.take(0), matched@));
    while i < n
        invariant
            i <= n,
            n == groups@.len(),
            n == matched@.len(),
            texts(out@) == matched_selectors(groups@.take(i as int), matched@),
        decreases n - i,
    {
        proof {
            assert(groups@.take(i + 1).drop_last() =~= groups@.take(i as int));
            assert(groups@.take(i + 1).last() == groups@[i as int]);
        }
        let ghost before = texts(out@);
        if matched[i] {
            let text = groups[i].selector.to_text();
            out.push(text);
            assert(texts(out@) =~= before.push(text@));
        }
        i += 1;
    }
    assert(groups@.take(n as int) =~= groups@);
    out
}

/// In the transaction. Due: whether all steps are satisfied with this vote,
/// and the step that the votes lead to.
pub struct TxVote {
    pub ballot: Ballot,
    pub now: Timestamp,
    pub step: u32,
    pub approval: Approval,
    pub all_approvals: Vec<Approval>,
}

/// Whether `a` is the vote of the voter on the step.
pub open spec fn vote_of(a: Approval, t: TxEligibility, selector: Seq<char>) -> bool {
    &&& a.id == t.approval_id
    &&& a.request_id == t.ballot.request.id
    &&& a.action == ApprovalAction::Approve
    &&& a.actor_id == t.ballot.user.subject_id
    &&& a.matched_selector@ == selector
    &&& a.step_index == t.step
    &&& a.comment == t.ballot.input.comment
    &&& a.created_at == t.now
}

/// Why the vote is refused inside the transaction, or the selector it counts
/// for, by which groups of the step the voter matches.
pub open spec fn vote_choice(t: TxEligibility, approvable: bool, matched: Seq<bool>) -> Result<
    Seq<char>,
    ErrorView,
> {
    if !approvable {
        Err(
            ErrorView::Forbidden(
                AuthzView::Forbidden {
                    permission: Permission::RequestView,
                    reason: "not eligible to approve this step (recheck)"@,
                },
            ),
        )
    } else if has_approved(t.approvals@, t.step, t.ballot.user.subject_id@) {
        Err(ErrorView::Conflict("already approved this step"@))
    } else {
        selector_choice(
            t.ballot.workflow.steps@[t.step as int].approvers@,
            t.approvals@,
            t.step,
            t.ballot.input.selector,
            matched_selectors(t.ballot.workflow.steps@[t.step as int].approvers@, matched),
        )
    }
}

impl TxEligibility {
    /// Takes whether the voter may approve the step and, for each of its groups,
    /// whether the voter matches it.
    pub fn checked(self, approvable: bool, matched: &Vec<bool>) -> (r: Result<TxVote, AppError>)
        requires
            self.step < self.ballot.workflow.steps@.len(),
            matched@.len() == self.ballot.workflow.steps@[self.step as int].approvers@.len(),
        ensures
            match r {
                Err(e) => vote_choice(self, approvable, matched@) == Err::<
                    Seq<char>,
                    ErrorView,
                >(e@),
                Ok(s) => {
                    &&& vote_choice(self, approvable, matched@) is Ok
                    &&& s.ballot == self.ballot
                    &&& s.now == self.now
                    &&& s.step == self.step
                    &&& vote_of(
                        s.approval,
                        self,
                        vote_choice(self, approvable, matched@)->Ok_0,
                    )
                    &&& s.all_approvals@ == self.approvals@.push(s.approval)
                },
            },
    {
        if !approvable {
            return Err(
                AppError::Forbidden(
                    AuthzError::Forbidden {
                        permission: Permission::RequestView,
                        reason: "not eligible to approve this step (recheck)".to_string(),
                    },
                ),
            );
        }
        if approved_already(&self.approvals, self.step, self.ballot.user.subject_id.as_str()) {
            return Err(AppError::Conflict("already approved this step".to_string()));
        }
        let groups = &self.ballot.workflow.steps[self.step as usize].approvers;
        let selectors = collect_matched(groups, matched);
        match choose_selector(
            groups,
            &self.approvals,
            self.step,
            &self.ballot.input.selector,
            &selectors,
        ) {
            Err(e) => Err(e),
            Ok(matched_selector) => {
                let approval = Approval {
                    id: self.approval_id,
                    request_id: self.ballot.request.id.clone(),
                    action: ApprovalAction::Approve,
                    actor_id: self.ballot.user.subject_id.clone(),
                    matched_selector,
                    step_index: self.step,
                    comment: self.ballot.input.comment.clone(),
                    created_at: self.now,
                };
                let mut all_approvals = self.approvals;
                all_approvals.push(approval.copy());
                Ok(
                    TxVote {
                        ballot: self.ballot,
                        now: self.now,
                        step: self.step,
                        approval,
                        all_approvals,
                    },
                )
            },
        }
    }
}

/// In the transaction. Due: the transition by the trigger.
pub struct TxTransition {
    pub ballot: Ballot,
    pub now: Timestamp,
    pub step: u32,
    pub approval: Approval,
    pub all_satisfied: bool,
    pub step_completed: u32,
}

impl TxVote {
    /// Takes whether all steps are satisfied now, and the step that the votes
    /// lead to.
    pub fn counted(self, all_satisfied: bool, next_step: u32) -> (r: TxTransition)
        requires
            countable(self.ballot),
        ensures
            r.ballot == self.ballot,
            r.now == self.now,
            r.step == self.step,
            r.approval == self.approval,
            r.all_satisfied == all_satisfied,
            r.step_completed == (if all_satisfied {
                self.ballot.workflow.steps@.len() as u32
            } else {
                next_step
            }),
    {
        let step_completed: u32 = if all_satisfied {
            self.ballot.workflow.steps.len() as u32
        } else {
            next_step
        };
        TxTransition {
            ballot: self.ballot,
            now: self.now,
            step: self.step,
            approval: self.approval,
            all_satisfied,
            step_completed,
        }
    }
}

/// What is written in the transaction: the vote, the approval of the request
/// where all steps are satisfied, and the record.
pub struct ApproveCommit {
    pub approval: Approval,
    pub mark_approved: bool,
    pub audit: AuditEvent,
    pub now: Timestamp,
    pub event: TransitionEvent,
    pub step_completed: u32,
    pub total_steps: u32,
}

impl TxTransition {
    /// What moves the request on.
    pub fn trigger(&self) -> (r: RequestTrigger)
        ensures
            r == (if self.all_satisfied {
                RequestTrigger::ApproveFinal
            } else {
                RequestTrigger::ApproveStep
            }),
    {
        if self.all_satisfied {
            RequestTrigger::ApproveFinal
        } else {
            RequestTrigger::ApproveStep
        }
    }

    /// What the transition is asked for with.
    pub fn context(&self) -> (r: TransitionContext)
        requires
            countable(self.ballot),
        ensures
            r.request_id == self.ballot.request.id,
            r.actor_id == self.ballot.user.subject_id,
            r.actor_type == self.ballot.user.subject_type,
            r.database == self.ballot.request.database,
            r.environment == self.ballot.request.environment,
            r.operation == self.ballot.request.operation,
            r.timestamp == self.now,
            r.metadata == (if self.all_satisfied {
                EventMetadata::Approved {
                    comment: self.ballot.input.comment,
                    matched_selector: self.approval.matched_selector,
                }
            } else {
                EventMetadata::StepApproved {
                    step_index: self.step,
                    total_steps: self.ballot.workflow.steps@.len() as u32,
                    comment: self.ballot.input.comment,
                    matched_selector: self.approval.matched_selector,
                }
            }),
            r.requester_id == self.ballot.request.requester,
    {
        let metadata = if self.all_satisfied {
            EventMetadata::Approved {
                comment: self.ballot.input.comment.clone(),
                matched_selector: self.approval.matched_selector.clone(),
            }
        } else {
            EventMetadata::StepApproved {
                step_index: self.step,
                total_steps: self.ballot.workflow.steps.len() as u32,
                comment: self.ballot.input.comment.clone(),
                matched_selector: self.approval.matched_selector.clone(),
            }
        };
        TransitionContext {
            request_id: self.ballot.request.id.clone(),
            actor_id: self.ballot.user.subject_id.clone(),
            actor_type: self.ballot.user.subject_type,
            database: self.ballot.request.database.clone(),
            environment: self.ballot.request.environment.clone(),
            operation: self.ballot.request.operation,
            timestamp: self.now,
            metadata,
            requester_id: self.ballot.request.requester.clone(),
        }
    }

    /// Takes the answer of the status machine.
    pub fn transitioned(self, reply: TransitionReply) -> (r: Result<ApproveCommit, AppError>)
        requires
            countable(self.ballot),
        ensures
            match reply {
                Err(e) => r matches Err(x) && x@ == ErrorView::Conflict(e@),
                Ok(event) => r matches Ok(c) && {
                    &&& c.approval == self.approval
                    &&& c.mark_approved == self.all_satisfied
                    &&& plainly_records(c.audit, event, self.now)
                    &&& c.now == self.now
                    &&& c.event == event
                    &&& c.step_completed == self.step_completed
                    &&& c.total_steps == self.ballot.workflow.steps@.len()
                },
            },
    {
        match reply {
            Err(e) => Err(AppError::Conflict(e)),
            Ok(event) => {
                let audit = plain_audit_event(&event, self.now);
                Ok(
                    ApproveCommit {
                        approval: self.approval,
                        mark_approved: self.all_satisfied,
                        audit,
                        now: self.now,
                        event,
                        step_completed: self.step_completed,
                        total_steps: self.ballot.workflow.steps.len() as u32,
                    },
                )
            },
        }
    }
}

/// A vote that was counted: the answer and the notification.
pub struct Approved {
    pub output: ApproveRequestOutput,
    pub notice: WebhookEvent,
}

impl ApproveCommit {
    /// Whether the transaction goes on after the request was marked approved.
    pub fn marked(&self, updated: bool) -> (r: Result<(), AppError>)
        ensures
            match r {
                Ok(_) => updated,
                Err(e) => !updated && e@ == ErrorView::Conflict(
                    "concurrent status change or expired"@,
                ),
            },
    {
        if updated {
            Ok(())
        } else {
            Err(AppError::Conflict("concurrent status change or expired".to_string()))
        }
    }

    /// The answer once the transaction is committed.
    pub fn committed(self) -> (r: Approved)
        ensures
            r.output.id == self.approval.request_id,
            r.output.status == self.event.new_status,
            r.output.approved_by == self.approval.actor_id,
            r.output.matched_selector == self.approval.matched_selector,
            r.output.step_completed == self.step_completed,
            r.output.current_step == self.step_completed,
            r.output.total_steps == self.total_steps,
            notifies(r.notice, self.event),
    {
        let notice = build_webhook_event(&self.event);
        Approved {
            output: ApproveRequestOutput {
                id: self.approval.request_id,
                status: self.event.new_status,
                approved_by: self.approval.actor_id,
                matched_selector: self.approval.matched_selector,
                step_completed: self.step_completed,
                current_step: self.step_completed,
                total_steps: self.total_steps,
            },
            notice,
        }
    }
}

/// The selectors that still need approvals are among the matched ones and do
/// need approvals.
proof fn lemma_unsatisfied(
    groups: Seq<ApproverGroup>,
    approvals: Seq<Approval>,
    step: u32,
    matched: Seq<Seq<char>>,
)
    ensures
        forall|i: int|
            0 <= i < unsatisfied(groups, approvals, step, matched).len() ==> matched.contains(
                #[trigger] unsatisfied(groups, approvals, step, matched)[i],
            ) && !satisfied(
                groups,
                approvals,
                step,
                unsatisfied(groups, approvals, step, matched)[i],
            ),
    decreases matched.len(),
{
    if matched.len() > 0 {
        let rest = matched.drop_last();
        lemma_unsatisfied(groups, approvals, step, rest);
        let u = unsatisfied(groups, approvals, step, matched);
        let v = unsatisfied(groups, approvals, step, rest);
        assert forall|i: int| 0 <= i < u.len() implies matched.contains(#[trigger] u[i])
            && !satisfied(groups, approvals, step, u[i]) by {
            if i < v.len() {
                assert(u[i] == v[i]);
                assert(rest.contains(v[i]));
                let j = choose|j: int| 0 <= j < rest.len() && rest[j] == v[i];
                assert(matched[j] == u[i]);
            } else {
                assert(u[i] == matched.last());
                assert(matched[matched.len() - 1] == u[i]);
            }
        }
    }
}

/// A vote only ever counts for a selector that the voter matches and that
/// still needs approvals, whether it was named or found.
pub proof fn chosen_selector_is_open(
    groups: Seq<ApproverGroup>,
    approvals: Seq<Approval>,
    step: u32,
    requested: Option<String>,
    matched: Seq<Seq<char>>,
)
    requires
        selector_choice(groups, approvals, step, requested, matched) is Ok,
    ensures
        matched.contains(selector_choice(groups, approvals, step, requested, matched)->Ok_0),
        !satisfied(
            groups,
            approvals,
            step,
            selector_choice(groups, approvals, step, requested, matched)->Ok_0,
        ),
{
    lemma_unsatisfied(groups, approvals, step, matched);
}

/// Counting a vote brings its selector one approval nearer and leaves every
/// other selector as it was.
pub proof fn vote_counts_once(approvals: Seq<Approval>, a: Approval, step: u32, sel: Seq<char>)
    requires
        a.step_index == step,
        a.action == ApprovalAction::Approve,
    ensures
        votes_for(approvals.push(a), step, sel) == votes_for(approvals, step, sel) + (
        if a.matched_selector@ == sel {
            1nat
        } else {
            0nat
        }),
{
    assert(approvals.push(a).drop_last() =~= approvals);
}

/// Once a vote is counted, its voter cannot vote on the step again.
pub proof fn voter_votes_once(t: TxEligibility, a: Approval, selector: Seq<char>)
    requires
        vote_of(a, t, selector),
    ensures
        has_approved(t.approvals@.push(a), t.step, t.ballot.user.subject_id@),
{
    let v = t.approvals@.push(a);
    assert(v[t.approvals@.len() as int] == a);
}

/// The approvals of a step that were given for a selector.
pub open spec fn approvals_given(approvals: Seq<Approval>, step: u32, sel: Seq<char>) -> Seq<
    Approval,
> {
    approvals.filter(
        |a: Approval|
            a.step_index == step && a.action == ApprovalAction::Approve && a.matched_selector@
                == sel,
    )
}

proof fn lemma_votes_are_approvals(approvals: Seq<Approval>, step: u32, sel: Seq<char>)
    ensures
        votes_for(approvals, step, sel) == approvals_given(approvals, step, sel).len(),
    decreases approvals.len(),
{
    reveal(Seq::filter);
    if approvals.len() > 0 {
        lemma_votes_are_approvals(approvals.drop_last(), step, sel);
    }
}

proof fn lemma_needed_for(groups: Seq<ApproverGroup>, sel: Seq<char>, g: int)
    requires
        0 <= g < groups.len(),
        groups[g].selector.text() == sel,
        forall|k: int| 0 <= k < g ==> (#[trigger] groups[k]).selector.text() != sel,
    ensures
        needed_for(groups, sel) == groups[g].min,
    decreases g,
{
    if g > 0 {
        assert(groups[0].selector.text() != sel);
        let rest = groups.drop_first();
        assert(rest[g - 1] == groups[g]);
        assert forall|k: int| 0 <= k < g - 1 implies (#[trigger] rest[k]).selector.text() != sel by {
            assert(rest[k] == groups[k + 1]);
        }
        lemma_needed_for(rest, sel, g - 1);
    }
}

/// Whether the group `g` is the first with its selector.
pub open spec fn first_listed(groups: Seq<ApproverGroup>, g: int) -> bool {
    &&& 0 <= g < groups.len()
    &&& forall|k: int|
        0 <= k < g ==> (#[trigger] groups[k]).selector.text() != groups[g].selector.text()
}

/// The vote of somebody who matches one group alone is taken for that group
/// until it has as many approvals on the step as it asks for, and refused from
/// then on, whether or not the voter names the selector.
pub proof fn groups_take_as_many_votes_as_they_ask_for(
    groups: Vec<ApproverGroup>,
    approvals: Vec<Approval>,
    step: u32,
    requested: Option<String>,
    matched: Vec<String>,
    g: int,
    r: Result<String, AppError>,
)
    requires
        first_listed(groups@, g),
        matched@.len() == 1,
        matched@[0]@ == groups@[g].selector.text(),
        requested matches Some(q) ==> q@ == groups@[g].selector.text(),
        call_ensures(choose_selector, (&groups, &approvals, step, &requested, &matched), r),
    ensures
        ({
            let sel = groups@[g].selector.text();
            let have = approvals_given(approvals@, step, sel).len();
            &&& have < groups@[g].min ==> r is Ok && r->Ok_0@ == sel
            &&& have >= groups@[g].min ==> r is Err && r->Err_0 is Conflict
        }),
{
    let sel = groups@[g].selector.text();
    lemma_votes_are_approvals(approvals@, step, sel);
    lemma_needed_for(groups@, sel, g);
    assert(texts(matched@)[0] == sel);
    assert(texts(matched@) =~= seq![sel]);
    assert(texts(matched@).drop_last() =~= Seq::empty());
    reveal_with_fuel(unsatisfied, 2);
    assert(texts(matched@).contains(sel));
}

/// A vote counts for a selector that the voter matches, for the one that the
/// voter names if one is named, and for none that has the approvals it asks for.
pub proof fn votes_count_where_they_are_wanted(
    groups: Vec<ApproverGroup>,
    approvals: Vec<Approval>,
    step: u32,
    requested: Option<String>,
    matched: Vec<String>,
    sel: String,
    g: int,
)
    requires
        call_ensures(
            choose_selector,
            (&groups, &approvals, step, &requested, &matched),
            Ok::<String, AppError>(sel),
        ),
    ensures
        exists|k: int| 0 <= k < matched@.len() && (#[trigger] matched@[k])@ == sel@,
        requested matches Some(q) ==> sel@ == q@,
        first_listed(groups@, g) && groups@[g].selector.text() == sel@ ==> approvals_given(
            approvals@,
            step,
            sel@,
        ).len() < groups@[g].min,
{
    chosen_selector_is_open(groups@, approvals@, step, requested, texts(matched@));
    lemma_holds_text(matched@, sel@);
    lemma_votes_are_approvals(approvals@, step, sel@);
    if first_listed(groups@, g) && groups@[g].selector.text() == sel@ {
        lemma_needed_for(groups@, sel@, g);
    }
}

/// Whoever matches no group of the step cannot vote, and whoever names a
/// selector they do not match cannot either.
pub proof fn votes_need_a_match(
    groups: Vec<ApproverGroup>,
    approvals: Vec<Approval>,
    step: u32,
    requested: Option<String>,
    matched: Vec<String>,
    r: Result<String, AppError>,
)
    requires
        call_ensures(choose_selector, (&groups, &approvals, step, &requested, &matched), r),
    ensures
        requested is None && matched@.len() == 0 ==> r is Err && r->Err_0 is Forbidden,
        requested matches Some(q) ==> (forall|k: int|
            0 <= k < matched@.len() ==> (#[trigger] matched@[k])@ != q@) ==> r is Err
            && r->Err_0 is Validation,
{
    if let Some(q) = requested {
        lemma_holds_text(matched@, q@);
    }
}

/// Whoever matches two groups that still want votes has to name one.
pub proof fn ambiguous_votes_are_refused(
    groups: Vec<ApproverGroup>,
    approvals: Vec<Approval>,
    step: u32,
    matched: Vec<String>,
    g: int,
    h: int,
    r: Result<String, AppError>,
)
    requires
        first_listed(groups@, g),
        first_listed(groups@, h),
        matched@.len() == 2,
        matched@[0]@ == groups@[g].selector.text(),
        matched@[1]@ == groups@[h].selector.text(),
        approvals_given(approvals@, step, groups@[g].selector.text()).len() < groups@[g].min,
        approvals_given(approvals@, step, groups@[h].selector.text()).len() < groups@[h].min,
        call_ensures(
            choose_selector,
            (&groups, &approvals, step, &None::<String>, &matched),
            r,
        ),
    ensures
        r is Err,
        r->Err_0 is Validation,
{
    let a = groups@[g].selector.text();
    let b = groups@[h].selector.text();
    lemma_votes_are_approvals(approvals@, step, a);
    lemma_votes_are_approvals(approvals@, step, b);
    lemma_needed_for(groups@, a, g);
    lemma_needed_for(groups@, b, h);
    let all = texts(matched@);
    assert(all =~= seq![a, b]);
    assert(all.drop_last() =~= seq![a]);
    assert(seq![a].drop_last() =~= Seq::empty());
    reveal_with_fuel(unsatisfied, 3);
}

/// A comment is taken up to 1024 bytes, and the voter and the input go on as
/// they are.
pub proof fn long_comments_are_refused(
    uc: ApproveRequest,
    input: ApproveRequestInput,
    user: AuthUser,
    r: Result<ApproveStart, AppError>,
)
    requires
        call_ensures(ApproveRequest::execute, (&uc, input, user), r),
    ensures
        r is Ok <==> (input.comment matches Some(c) ==> utf8_len(c@) <= 1024),
        r matches Ok(s) ==> s.input == input && s.user == user,
{
}

/// Only a pending request is voted on.
pub proof fn only_pending_requests_are_voted_on(
    stage: ApproveStart,
    request: Option<Request>,
    r: Result<ExpiryCheck, AppError>,
)
    requires
        call_ensures(ApproveStart::found, (stage, request), r),
    ensures
        r is Ok <==> request is Some && request->0.status == RequestStatus::Pending,
        request is None ==> r->Err_0 is NotFound,
        request is Some && r is Err ==> r->Err_0 is Conflict,
        r matches Ok(s) ==> s.request == request->0 && s.user == stage.user && s.input
            == stage.input,
{
}

/// A request is voted on strictly before its end, and only if it has a
/// workflow.
pub proof fn votes_come_in_time(
    stage: ExpiryCheck,
    now: Timestamp,
    r: Result<SnapshotParse, AppError>,
)
    requires
        now.valid(),
        stage.request.expires_at matches Some(e) ==> e.valid(),
        call_ensures(ExpiryCheck::at, (stage, now), r),
    ensures
        r is Ok <==> {
            &&& (stage.request.expires_at matches Some(e) ==> now.instant() < e.instant())
            &&& stage.request.workflow_snapshot_json is Some
        },
        r matches Ok(s) ==> s.request == stage.request && s.user == stage.user && s.input
            == stage.input,
        (stage.request.expires_at matches Some(e) && now.instant() >= e.instant())
            ==> r->Err_0 is Gone,
{
    if let Some(e) = stage.request.expires_at {
        crate::time::order_is_by_instant(now, e);
    }
}

/// Inside the transaction the request is looked at again: it has to be there,
/// pending and not over.
pub proof fn votes_are_checked_again(
    stage: ApproveReady,
    approval_id: String,
    now: Timestamp,
    state: Option<(RequestStatus, Option<Timestamp>)>,
    r: Result<TxApprovals, AppError>,
)
    requires
        now.valid(),
        state matches Some(x) ==> (x.1 matches Some(e) ==> e.valid()),
        call_ensures(ApproveReady::begun, (stage, approval_id, now, state), r),
    ensures
        r is Ok <==> (state matches Some(x) && x.0 == RequestStatus::Pending && (x.1 matches Some(
            e,
        ) ==> now.instant() < e.instant())),
        r matches Ok(s) ==> s.ballot == stage.ballot && s.now == now && s.approval_id
            == approval_id,
{
    if let Some(x) = state {
        if let Some(e) = x.1 {
            crate::time::order_is_by_instant(now, e);
        }
    }
}

/// The workflow that is voted on is the one stored with the request.
pub proof fn stored_workflows_are_voted_on(
    stage: SnapshotParse,
    workflow: Result<Workflow, String>,
    r: Result<ApprovalsLookup, AppError>,
)
    requires
        call_ensures(SnapshotParse::parsed, (stage, workflow), r),
    ensures
        r is Ok <==> workflow is Ok,
        r matches Ok(s) ==> s.ballot.workflow == workflow->Ok_0 && s.ballot.request
            == stage.request && s.ballot.user == stage.user && s.ballot.input == stage.input,
{
}

/// Nobody votes once all steps are satisfied.
pub proof fn satisfied_workflows_take_no_votes(
    stage: ApprovalsLookup,
    approvals: Vec<Approval>,
    current_step: u32,
    r: Result<ApproveAuthorizing, AppError>,
    tx: TxApprovals,
    q: Result<TxEligibility, AppError>,
)
    requires
        countable(stage.ballot),
        countable(tx.ballot),
        call_ensures(ApprovalsLookup::loaded, (stage, approvals, current_step), r),
        call_ensures(TxApprovals::loaded, (tx, approvals, current_step), q),
    ensures
        r is Ok <==> current_step < stage.ballot.workflow.steps@.len(),
        r matches Ok(s) ==> s.step == current_step && s.approvals == approvals && s.ballot
            == stage.ballot,
        q is Ok <==> current_step < tx.ballot.workflow.steps@.len(),
        q matches Ok(s) ==> s.step == current_step && s.approvals == approvals && s.ballot
            == tx.ballot && s.now == tx.now && s.approval_id == tx.approval_id,
{
}

proof fn lemma_earlier_approvers(approvals: Seq<Approval>, step: u32, actor: Seq<char>)
    ensures
        earlier_approvers(approvals, step).contains(actor) <==> exists|i: int|
            0 <= i < approvals.len() && (#[trigger] approvals[i]).step_index < step
                && approvals[i].action == ApprovalAction::Approve && approvals[i].actor_id@
                == actor,
    decreases approvals.len(),
{
    if approvals.len() > 0 {
        let rest = approvals.drop_last();
        let n = approvals.len() - 1;
        let a = earlier_approvers(rest, step);
        let b = earlier_approvers(approvals, step);
        lemma_earlier_approvers(rest, step, actor);
        assert(approvals[n] == approvals.last());
        if a.contains(actor) {
            let j = choose|j: int| 0 <= j < a.len() && a[j] == actor;
            assert(b[j] == actor);
            let i = choose|i: int|
                0 <= i < rest.len() && (#[trigger] rest[i]).step_index < step && rest[i].action
                    == ApprovalAction::Approve && rest[i].actor_id@ == actor;
            assert(approvals[i] == rest[i]);
        }
        if b.len() > a.len() {
            assert(b[a.len() as int] == approvals.last().actor_id@);
        }
        if b.contains(actor) && !a.contains(actor) {
            let j = choose|j: int| 0 <= j < b.len() && b[j] == actor;
            if j < a.len() {
                assert(a[j] == actor);
            }
            assert(approvals[n].actor_id@ == actor);
        }
        if exists|i: int|
            0 <= i < approvals.len() && (#[trigger] approvals[i]).step_index < step
                && approvals[i].action == ApprovalAction::Approve && approvals[i].actor_id@
                == actor {
            let i = choose|i: int|
                0 <= i < approvals.len() && (#[trigger] approvals[i]).step_index < step
                    && approvals[i].action == ApprovalAction::Approve && approvals[i].actor_id@
                    == actor;
            if i < n {
                assert(rest[i] == approvals[i]);
            }
        }
    }
}

/// Authorization is asked for with the step that is voted on, the requester, the
/// rules of the workflow and everybody who approved an earlier step.
pub proof fn authorization_knows_the_step(
    stage: ApproveAuthorizing,
    r: ResourceContext,
    actor: Seq<char>,
)
    requires
        stage.step < stage.ballot.workflow.steps@.len(),
        call_ensures(ApproveAuthorizing::context, (&stage,), r),
    ensures
        r is ApprovalStep,
        r->ApprovalStep_requester_id == stage.ballot.request.requester,
        r->step_index == stage.step,
        r->approvers@ == stage.ballot.workflow.steps@[stage.step as int].approvers@,
        r->allow_self_approve == stage.ballot.workflow.allow_self_approve,
        r->allow_same_approver_across_steps
            == stage.ballot.workflow.allow_same_approver_across_steps,
        texts(r->previous_approver_ids@).contains(actor) <==> exists|i: int|
            0 <= i < stage.approvals@.len() && (#[trigger] stage.approvals@[i]).step_index
                < stage.step && stage.approvals@[i].action == ApprovalAction::Approve
                && stage.approvals@[i].actor_id@ == actor,
{
    lemma_earlier_approvers(stage.approvals@, stage.step, actor);
}

/// Whoever is not authorized, or has approved the step, does not vote.
pub proof fn voters_are_authorized_and_vote_once(
    stage: ApproveAuthorizing,
    reply: Result<(), AuthzError>,
    r: Result<ApproveReady, AppError>,
)
    requires
        call_ensures(ApproveAuthorizing::authorized, (stage, reply), r),
    ensures
        r is Ok <==> reply is Ok && forall|i: int|
            0 <= i < stage.approvals@.len() && (#[trigger] stage.approvals@[i]).step_index
                == stage.step && stage.approvals@[i].action == ApprovalAction::Approve
                ==> stage.approvals@[i].actor_id@ != stage.ballot.user.subject_id@,
        reply matches Err(e) ==> r matches Err(AppError::Forbidden(f)) && f@ == e@,
        r matches Ok(s) ==> s.ballot == stage.ballot,
{
}

proof fn lemma_matched_selectors(groups: Seq<ApproverGroup>, matched: Seq<bool>, s: Seq<char>)
    requires
        matched.len() >= groups.len(),
        matched_selectors(groups, matched).contains(s),
    ensures
        exists|k: int|
            0 <= k < groups.len() && matched[k] && (#[trigger] groups[k]).selector.text() == s,
    decreases groups.len(),
{
    if groups.len() > 0 {
        let rest = groups.drop_last();
        let n = groups.len() - 1;
        let a = matched_selectors(rest, matched);
        let b = matched_selectors(groups, matched);
        let j = choose|j: int| 0 <= j < b.len() && b[j] == s;
        if j < a.len() {
            assert(a[j] == s);
            lemma_matched_selectors(rest, matched, s);
            let k = choose|k: int|
                0 <= k < rest.len() && matched[k] && (#[trigger] rest[k]).selector.text() == s;
            assert(groups[k] == rest[k]);
        } else {
            assert(groups[n].selector.text() == s);
        }
    }
}

/// A vote that is taken is the voter's, on the step, for the request, for the
/// selector of a group that the voter matches, and is added to those before it.
pub proof fn taken_votes_are_the_voters(
    stage: TxEligibility,
    approvable: bool,
    matched: Vec<bool>,
    r: Result<TxVote, AppError>,
)
    requires
        stage.step < stage.ballot.workflow.steps@.len(),
        matched@.len() == stage.ballot.workflow.steps@[stage.step as int].approvers@.len(),
        call_ensures(TxEligibility::checked, (stage, approvable, &matched), r),
    ensures
        !approvable ==> r is Err && r->Err_0 is Forbidden,
        r matches Ok(s) ==> {
            let groups = stage.ballot.workflow.steps@[stage.step as int].approvers@;
            &&& s.approval.actor_id == stage.ballot.user.subject_id
            &&& s.approval.action == ApprovalAction::Approve
            &&& s.approval.request_id == stage.ballot.request.id
            &&& s.approval.step_index == stage.step
            &&& s.approval.comment == stage.ballot.input.comment
            &&& s.approval.created_at == stage.now
            &&& s.approval.id == stage.approval_id
            &&& exists|k: int|
                0 <= k < groups.len() && matched@[k] && (#[trigger] groups[k]).selector.text()
                    == s.approval.matched_selector@
            &&& stage.ballot.input.selector matches Some(q) ==> s.approval.matched_selector@ == q@
            &&& s.all_approvals@ == stage.approvals@.push(s.approval)
            &&& s.ballot == stage.ballot
            &&& s.step == stage.step
        },
        (exists|i: int|
            0 <= i < stage.approvals@.len() && (#[trigger] stage.approvals@[i]).step_index
                == stage.step && stage.approvals@[i].action == ApprovalAction::Approve
                && stage.approvals@[i].actor_id@ == stage.ballot.user.subject_id@) ==> r is Err,
{
    let groups = stage.ballot.workflow.steps@[stage.step as int].approvers@;
    let all = matched_selectors(groups, matched@);
    if r is Ok {
        chosen_selector_is_open(
            groups,
            stage.approvals@,
            stage.step,
            stage.ballot.input.selector,
            all,
        );
        lemma_matched_selectors(groups, matched@, r->Ok_0.approval.matched_selector@);
    }
}

/// The request is approved with the vote that satisfies all steps, and only with
/// that one; until then a step is.
pub proof fn last_votes_approve(
    stage: TxVote,
    all_satisfied: bool,
    next_step: u32,
    t: TxTransition,
    trigger: RequestTrigger,
    context: TransitionContext,
)
    requires
        countable(stage.ballot),
        call_ensures(TxVote::counted, (stage, all_satisfied, next_step), t),
        call_ensures(TxTransition::trigger, (&t,), trigger),
        call_ensures(TxTransition::context, (&t,), context),
    ensures
        trigger == RequestTrigger::ApproveFinal <==> all_satisfied,
        trigger == RequestTrigger::ApproveStep <==> !all_satisfied,
        context.metadata is Approved <==> all_satisfied,
        context.metadata is StepApproved <==> !all_satisfied,
        context.actor_id == stage.ballot.user.subject_id,
        context.request_id == stage.ballot.request.id,
        context.requester_id == stage.ballot.request.requester,
        context.timestamp == stage.now,
        all_satisfied ==> t.step_completed == stage.ballot.workflow.steps@.len(),
        !all_satisfied ==> t.step_completed == next_step,
        t.approval == stage.approval,
{
}

/// The transaction writes the vote, and approves the request exactly with the
/// last one; a refused transition writes nothing.
pub proof fn transactions_write_the_vote(
    stage: TxTransition,
    reply: TransitionReply,
    r: Result<ApproveCommit, AppError>,
)
    requires
        countable(stage.ballot),
        call_ensures(TxTransition::transitioned, (stage, reply), r),
    ensures
        r is Ok <==> reply is Ok,
        r is Err ==> r->Err_0 is Conflict,
        r matches Ok(c) ==> {
            &&& c.approval == stage.approval
            &&& c.mark_approved <==> stage.all_satisfied
            &&& c.event == reply->Ok_0
            &&& c.total_steps == stage.ballot.workflow.steps@.len()
            &&& c.audit.actor_id@ == reply->Ok_0.actor_id@
            &&& c.audit.request_id == Some(reply->Ok_0.request_id)
            &&& c.audit.created_at == stage.now
        },
{
}

/// A request that left its status meanwhile is not approved, and the answer is
/// about the vote that was written.
pub proof fn answers_are_about_the_vote(
    c: ApproveCommit,
    updated: bool,
    marked: Result<(), AppError>,
    done: Approved,
)
    requires
        call_ensures(ApproveCommit::marked, (&c, updated), marked),
        call_ensures(ApproveCommit::committed, (c,), done),
    ensures
        marked is Ok <==> updated,
        marked is Err ==> marked->Err_0 is Conflict,
        done.output.id == c.approval.request_id,
        done.output.approved_by == c.approval.actor_id,
        done.output.matched_selector == c.approval.matched_selector,
        done.output.status == c.event.new_status,
        done.output.current_step == c.step_completed,
        done.output.step_completed == c.step_completed,
        done.output.total_steps == c.total_steps,
        done.notice.request_id == Some(c.event.request_id),
{
}

/// A comment has at most 1024 bytes.
pub proof fn comments_are_short(comment: Option<String>, r: Result<(), AppError>)
    requires
        call_ensures(check_comment, (&comment,), r),
    ensures
        r is Ok <==> comment is None || crate::text::utf8_len(comment->0@) <= 1024,
        r is Err ==> r->Err_0 is Validation,
{
}

/// Somebody approved a step exactly if an approval of that step is theirs; a
/// rejection or a vote on another step does not count.
pub proof fn only_approvals_of_the_step_count(
    approvals: Vec<Approval>,
    step: u32,
    actor: &str,
    r: bool,
)
    requires
        call_ensures(approved_already, (&approvals, step, actor), r),
    ensures
        r <==> exists|k: int|
            0 <= k < approvals@.len() && (#[trigger] approvals@[k]).step_index == step
                && approvals@[k].actor_id@ == actor@ && approvals@[k].action
                == ApprovalAction::Approve,
{
}

proof fn lemma_earlier(approvals: Seq<Approval>, step: u32, who: Seq<char>)
    ensures
        earlier_approvers(approvals, step).contains(who) <==> exists|k: int|
            0 <= k < approvals.len() && (#[trigger] approvals[k]).step_index < step
                && approvals[k].action == ApprovalAction::Approve && approvals[k].actor_id@ == who,
    decreases approvals.len(),
{
    if approvals.len() > 0 {
        let before = approvals.drop_last();
        let rest = earlier_approvers(before, step);
        let all = earlier_approvers(approvals, step);
        lemma_earlier(before, step, who);
        if all.contains(who) {
            let i = choose|i: int| 0 <= i < all.len() && all[i] == who;
            if i < rest.len() {
                assert(rest[i] == who);
                let k = choose|k: int|
                    0 <= k < before.len() && (#[trigger] before[k]).step_index < step
                        && before[k].action == ApprovalAction::Approve && before[k].actor_id@
                        == who;
                assert(approvals[k] == before[k]);
            } else {
                assert(approvals[approvals.len() - 1].actor_id@ == who);
            }
        }
        if exists|k: int|
            0 <= k < approvals.len() && (#[trigger] approvals[k]).step_index < step
                && approvals[k].action == ApprovalAction::Approve && approvals[k].actor_id@ == who {
            let k = choose|k: int|
                0 <= k < approvals.len() && (#[trigger] approvals[k]).step_index < step
                    && approvals[k].action == ApprovalAction::Approve && approvals[k].actor_id@
                    == who;
            if k < before.len() {
                assert(before[k] == approvals[k]);
                let i = choose|i: int| 0 <= i < rest.len() && rest[i] == who;
                assert(all[i] == who);
            } else {
                assert(all[all.len() - 1] == who);
            }
        }
    }
}

/// The earlier approvers are those who approved a step before this one.
pub proof fn earlier_approvers_approved_earlier_steps(
    approvals: Vec<Approval>,
    step: u32,
    r: Vec<String>,
    who: Seq<char>,
)
    requires
        call_ensures(collect_earlier_approvers, (&approvals, step), r),
    ensures
        texts(r@).contains(who) <==> exists|k: int|
            0 <= k < approvals@.len() && (#[trigger] approvals@[k]).step_index < step
                && approvals@[k].action == ApprovalAction::Approve && approvals@[k].actor_id@
                == who,
{
    lemma_earlier(approvals@, step, who);
}

/// A vote that is taken stands on the step and at the time of its ballot, and
/// joins the votes before it.
pub proof fn taken_votes_join_the_others(
    stage: TxEligibility,
    approvable: bool,
    matched: Vec<bool>,
    s: TxVote,
)
    requires
        stage.step < stage.ballot.workflow.steps@.len(),
        matched@.len() == stage.ballot.workflow.steps@[stage.step as int].approvers@.len(),
        call_ensures(
            TxEligibility::checked,
            (stage, approvable, &matched),
            Ok::<TxVote, AppError>(s),
        ),
    ensures
        s.ballot == stage.ballot,
        s.now == stage.now,
        s.step == stage.step,
        s.approval.step_index == stage.step,
        s.all_approvals@ == stage.approvals@.push(s.approval),
{
}

} // verus!
