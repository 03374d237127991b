//! Reading a request. An approver of its current step sees it with the
//! statement left out.

use vstd::prelude::*;

use crate::domain::{AuthUser, Request, RequestStatus, ResourceContext};
use crate::error::{AppError, AuthzError, ErrorView};
use crate::text::same_text;

verus! {

/// The use case.
pub struct GetRequest {}

/// What the caller gets back, with the progress of the approval in the form `P`.
pub struct GetRequestOutput<P> {
    pub request: Request,
    pub detail: String,
    pub is_approver_view: bool,
    pub approval_progress: Option<P>,
}

/// Due: find the request.
pub struct ViewStart {
    pub user: AuthUser,
}

/// Due: authorize the caller for `RequestView` on the request.
pub struct ViewScoped {
    pub user: AuthUser,
    pub request: Request,
}

/// What the answer of the authorizer leads to.
pub enum ViewStep {
    /// The request is shown.
    Granted(ViewProgress),
    /// Due: whether the caller approves its current step.
    AskApprover(ViewApprover),
}

/// Due: whether the caller, by identity, groups or roles, approves the current
/// step of the request.
pub struct ViewApprover {
    pub user: AuthUser,
    pub request: Request,
    pub refusal: AuthzError,
}

/// Due: the progress of the approval, where the workflow of the request and its
/// votes can be read.
pub struct ViewProgress {
    pub request: Request,
    pub detail: String,
    pub is_approver_view: bool,
}

impl GetRequest {
    /// Starts a read.
    pub fn execute(&self, user: AuthUser) -> (r: ViewStart)
        ensures
            r.user == user,
    {
        ViewStart { user }
    }
}

impl ViewStart {
    /// Takes the request.
    pub fn found(self, request: Option<Request>) -> (r: Result<ViewScoped, AppError>)
        ensures
            match request {
                None => r matches Err(e) && e@ == ErrorView::NotFound("request not found"@),
                Some(q) => r matches Ok(s) && s.user == self.user && s.request == q,
            },
    {
        match request {
            None => Err(AppError::NotFound("request not found".to_string())),
            Some(request) => Ok(ViewScoped { user: self.user, request }),
        }
    }
}

/// The text that an approver sees in place of the statement.
pub open spec fn redacted() -> Seq<char> {
    "[redacted - approve to view]"@
}

impl ViewScoped {
    /// The resource that the authorization is asked for.
    pub fn context(&self) -> (r: ResourceContext)
        ensures
            r == (ResourceContext::Request { requester_id: self.request.requester }),
    {
        ResourceContext::Request { requester_id: self.request.requester.clone() }
    }

    /// Takes the answer of the authorizer. A refused caller may still see a
    /// pending request as an approver.
    pub fn authorized(self, reply: Result<(), AuthzError>) -> (r: Result<ViewStep, AppError>)
        ensures
            match reply {
                Ok(_) => r matches Ok(ViewStep::Granted(s)) && s.request == self.request
                    && s.detail == self.request.detail && !s.is_approver_view,
                Err(e) => if self.request.status is Pending {
                    r matches Ok(ViewStep::AskApprover(s)) && s.user == self.user && s.request
                        == self.request && s.refusal == e
                } else {
                    r matches Err(x) && x@ == ErrorView::Forbidden(e@)
                },
            },
    {
        match reply {
            Ok(_) => {
                let detail = self.request.detail.clone();
                Ok(
                    ViewStep::Granted(
                        ViewProgress { request: self.request, detail, is_approver_view: false },
                    ),
                )
            },
            Err(e) => {
                if self.request.status == RequestStatus::Pending {
                    Ok(
                        ViewStep::AskApprover(
                            ViewApprover { user: self.user, request: self.request, refusal: e },
                        ),
                    )
                } else {
                    Err(AppError::Forbidden(e))
                }
            },
        }
    }
}

impl ViewApprover {
    /// Takes whether the caller approves the current step.
    pub fn approver(self, is_approver: bool) -> (r: Result<ViewProgress, AppError>)
        ensures
            if is_approver {
                r matches Ok(s) && {
                    &&& s.request == self.request
                    &&& s.is_approver_view
                    &&& s.detail@ == if self.user.subject_id@ != self.request.requester@ {
                        redacted()
                    } else {
                        self.request.detail@
                    }
                }
            } else {
                r matches Err(x) && x@ == ErrorView::Forbidden(self.refusal@)
            },
    {
        if !is_approver {
            return Err(AppError::Forbidden(self.refusal));
        }
        let detail: String = if !same_text(
            self.user.subject_id.as_str(),
            self.request.requester.as_str(),
        ) {
            "[redacted - approve to view]".to_string()
        } else {
            self.request.detail.clone()
        };
        Ok(ViewProgress { request: self.request, detail, is_approver_view: true })
    }
}

impl ViewProgress {
    /// Takes the progress of the approval.
    pub fn viewed<P>(self, approval_progress: Option<P>) -> (r: GetRequestOutput<P>)
        ensures
            r.request == self.request,
            r.detail == self.detail,
            r.is_approver_view == self.is_approver_view,
            r.approval_progress == approval_progress,
    {
        GetRequestOutput {
            request: self.request,
            detail: self.detail,
            is_approver_view: self.is_approver_view,
            approval_progress,
        }
    }
}

/// Whoever may view a request sees all of it; of the others only who approves its
/// pending step sees it at all.
pub proof fn viewers_see_the_statement(
    stage: ViewScoped,
    context: ResourceContext,
    reply: Result<(), AuthzError>,
    r: Result<ViewStep, AppError>,
)
    requires
        call_ensures(ViewScoped::context, (&stage,), context),
        call_ensures(ViewScoped::authorized, (stage, reply), r),
    ensures
        context == (ResourceContext::Request { requester_id: stage.request.requester }),
        r is Ok && r->Ok_0 is Granted <==> reply is Ok,
        r is Ok && r->Ok_0 is AskApprover <==> reply is Err && stage.request.status
            == RequestStatus::Pending,
        r is Err ==> r->Err_0 is Forbidden,
        r matches Ok(ViewStep::Granted(s)) ==> s.request == stage.request && s.detail
            == stage.request.detail && !s.is_approver_view,
        r matches Ok(ViewStep::AskApprover(s)) ==> s.request == stage.request && s.user
            == stage.user && s.refusal == reply->Err_0,
{
}

/// An approver who may not view a request sees it without its statement, unless
/// it is their own; who does not approve it sees nothing.
pub proof fn approvers_see_no_statement(
    stage: ViewApprover,
    is_approver: bool,
    r: Result<ViewProgress, AppError>,
)
    requires
        call_ensures(ViewApprover::approver, (stage, is_approver), r),
    ensures
        r is Ok <==> is_approver,
        r is Err ==> r->Err_0 is Forbidden && r->Err_0->Forbidden_0@ == stage.refusal@,
        r matches Ok(s) ==> {
            &&& s.is_approver_view
            &&& s.request == stage.request
            &&& stage.user.subject_id@ != stage.request.requester@ ==> s.detail@
                == "[redacted - approve to view]"@
            &&& stage.user.subject_id@ == stage.request.requester@ ==> s.detail@
                == stage.request.detail@
        },
{
}

/// A request that is not there is not found, and one that is comes as it is.
pub proof fn unknown_requests_are_not_viewed(
    stage: ViewStart,
    request: Option<Request>,
    r: Result<ViewScoped, AppError>,
)
    requires
        call_ensures(ViewStart::found, (stage, request), r),
    ensures
        r is Ok <==> request is Some,
        r is Err ==> r->Err_0 is NotFound,
        r matches Ok(s) ==> s.user == stage.user && s.request == request->0,
{
}

} // verus!
