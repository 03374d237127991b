//! Waiting for the result of a request.

use vstd::prelude::*;

use crate::domain::{Request, RequestStatus, ResourceContext, ResultPolicy};
use crate::error::{AppError, AuthzError, ErrorView};
use crate::text::{concat2, copy_texts, texts};
use crate::use_cases::agent_submit_result::ResultSummary;
use crate::use_cases::get_result::{policy_access, policy_selectors};

verus! {

/// How many seconds a reader waits where it does not say.
pub const DEFAULT_STREAM_TIMEOUT_SECS: u64 = 300;

/// The use case.
pub struct StreamResult {}

/// What a reader asks for.
pub struct StreamResultInput {
    pub request_id: String,
    pub timeout_secs: Option<u64>,
}

/// What a reader gets.
pub enum StreamResultData {
    /// The complete result.
    Result(ResultSummary),
    /// The request has run; its result is read from storage.
    TerminalPlaceholder { success: bool },
    /// No result came in time.
    Timeout,
}

/// What the reader gets back.
pub struct StreamResultOutput {
    pub data: StreamResultData,
}

/// Due: find the request.
pub struct StreamStart {
    pub input: StreamResultInput,
}

/// Due: the result policy of the request.
pub struct StreamAccess {
    pub input: StreamResultInput,
    pub request: Request,
}

/// Due: authorize the caller for `ResultView` on the request.
pub struct StreamScoped {
    pub input: StreamResultInput,
    pub request: Request,
    pub access_selectors: Vec<String>,
}

/// Due: whether the status of the request is final.
pub struct StreamState {
    pub input: StreamResultInput,
    pub request: Request,
}

/// What happens next.
pub enum StreamStep {
    /// There is nothing to wait for.
    Done(StreamResultOutput),
    /// Due: wait for the result.
    Subscribe(StreamSubscribe),
}

/// Due: wait for the result of the request, `timeout_secs` at most.
pub struct StreamSubscribe {
    pub request_id: String,
    pub timeout_secs: u64,
}

impl StreamResult {
    /// Starts to wait.
    pub fn execute(&self, input: StreamResultInput) -> (r: StreamStart)
        ensures
            r.input == input,
    {
        StreamStart { input }
    }
}

impl StreamStart {
    /// Takes the request.
    pub fn found(self, request: Option<Request>) -> (r: Result<StreamAccess, AppError>)
        ensures
            match request {
                None => r matches Err(e) && e@ == ErrorView::NotFound("request not found"@),
                Some(q) => r matches Ok(s) && s.input == self.input && s.request == q,
            },
    {
        match request {
            None => Err(AppError::NotFound("request not found".to_string())),
            Some(request) => Ok(StreamAccess { input: self.input, request }),
        }
    }
}

impl StreamAccess {
    /// Takes the result policy. Whom the policy names may wait; whom the request
    /// is shared with may not.
    pub fn access(self, policy: &Result<Option<ResultPolicy>, AppError>) -> (r: StreamScoped)
        ensures
            r.input == self.input,
            r.request == self.request,
            texts(r.access_selectors@) == policy_access(*policy),
    {
        let access_selectors = policy_selectors(policy);
        StreamScoped { input: self.input, request: self.request, access_selectors }
    }
}

impl StreamScoped {
    /// The resource that the authorization is asked for.
    pub fn context(&self) -> (r: ResourceContext)
        ensures
            r matches ResourceContext::Result { requester_id, access_selectors } && requester_id
                == self.request.requester && texts(access_selectors@) == texts(
                self.access_selectors@,
            ),
    {
        ResourceContext::Result {
            requester_id: self.request.requester.clone(),
            access_selectors: copy_texts(&self.access_selectors),
        }
    }

    /// Takes the answer of the authorizer.
    pub fn authorized(self, reply: Result<(), AuthzError>) -> (r: Result<StreamState, AppError>)
        ensures
            match reply {
                Err(e) => r matches Err(x) && x@ == ErrorView::Forbidden(e@),
                Ok(_) => r matches Ok(s) && s.input == self.input && s.request == self.request,
            },
    {
        match reply {
            Err(e) => Err(AppError::Forbidden(e)),
            Ok(_) => Ok(StreamState { input: self.input, request: self.request }),
        }
    }
}

/// What a reader gets of a request that never ran: no data, and its status as
/// the reason.
pub open spec fn never_ran(s: ResultSummary, status: RequestStatus) -> bool {
    &&& s.execution_id@ == ""@
    &&& !s.success
    &&& s.rows_affected is None
    &&& !s.truncated
    &&& s.error_message is Some
    &&& s.error_message->0@ == "request "@ + status.text()
    &&& s.result_data is None
}

impl StreamState {
    /// Takes whether the status of the request is final.
    pub fn state(self, terminal: bool) -> (r: StreamStep)
        ensures
            if !terminal {
                r matches StreamStep::Subscribe(s) && s.request_id == self.input.request_id
                    && s.timeout_secs == match self.input.timeout_secs {
                    Some(t) => t,
                    None => DEFAULT_STREAM_TIMEOUT_SECS,
                }
            } else if self.request.status is Executed || self.request.status is Failed {
                r matches StreamStep::Done(out) && out.data
                    == (StreamResultData::TerminalPlaceholder {
                    success: self.request.status is Executed,
                })
            } else {
                r matches StreamStep::Done(out) && out.data matches StreamResultData::Result(s)
                    && never_ran(s, self.request.status)
            },
    {
        if terminal {
            let data: StreamResultData = match self.request.status {
                RequestStatus::Executed => StreamResultData::TerminalPlaceholder { success: true },
                RequestStatus::Failed => StreamResultData::TerminalPlaceholder { success: false },
                status => StreamResultData::Result(
                    ResultSummary {
                        execution_id: "".to_string(),
                        success: false,
                        rows_affected: None,
                        truncated: false,
                        error_message: Some(concat2("request ", status.as_str())),
                        result_data: None,
                    },
                ),
            };
            return StreamStep::Done(StreamResultOutput { data });
        }
        let timeout_secs: u64 = match self.input.timeout_secs {
            Some(t) => t,
            None => DEFAULT_STREAM_TIMEOUT_SECS,
        };
        StreamStep::Subscribe(
            StreamSubscribe { request_id: self.input.request_id, timeout_secs },
        )
    }
}

impl StreamSubscribe {
    /// Takes what came in time.
    pub fn received(self, summary: Option<ResultSummary>) -> (r: StreamResultOutput)
        ensures
            r.data == match summary {
                Some(s) => StreamResultData::Result(s),
                None => StreamResultData::Timeout,
            },
    {
        StreamResultOutput {
            data: match summary {
                Some(s) => StreamResultData::Result(s),
                None => StreamResultData::Timeout,
            },
        }
    }
}

/// Whom the policy names may wait for a result, and the authorizer is asked with
/// exactly those.
pub proof fn waiting_readers_are_named(
    stage: StreamAccess,
    policy: Result<Option<ResultPolicy>, AppError>,
    scoped: StreamScoped,
    context: ResourceContext,
    reply: Result<(), AuthzError>,
    r: Result<StreamState, AppError>,
)
    requires
        call_ensures(StreamAccess::access, (stage, &policy), scoped),
        call_ensures(StreamScoped::context, (&scoped,), context),
        call_ensures(StreamScoped::authorized, (scoped, reply), r),
    ensures
        scoped.request == stage.request,
        context matches ResourceContext::Result { requester_id, access_selectors } && {
            &&& requester_id == stage.request.requester
            &&& policy matches Ok(Some(p)) ==> access_selectors@.len() == p.access@.len() && forall|
                i: int,
            |
                0 <= i < p.access@.len() ==> (#[trigger] access_selectors@[i])@
                    == p.access@[i].text()
            &&& policy is Err || policy->Ok_0 is None ==> access_selectors@.len() == 0
        },
        r is Ok <==> reply is Ok,
        r is Err ==> r->Err_0 is Forbidden,
        r matches Ok(s) ==> s.input == stage.input && s.request == stage.request,
{
    if let ResourceContext::Result { requester_id, access_selectors } = context {
        assert(texts(access_selectors@).len() == access_selectors@.len());
        if let Ok(Some(p)) = policy {
            assert forall|i: int| 0 <= i < p.access@.len() implies (
            #[trigger] access_selectors@[i])@ == p.access@[i].text() by {
                assert(texts(access_selectors@)[i] == policy_access(policy)[i]);
            }
        }
    }
}

/// Nobody waits for a request that has come to its end: of one that ran it is
/// told whether it succeeded, of any other that it will not; otherwise the reader
/// waits, five minutes where nothing is said.
pub proof fn finished_requests_are_not_waited_for(stage: StreamState, terminal: bool, r: StreamStep)
    requires
        call_ensures(StreamState::state, (stage, terminal), r),
    ensures
        r is Subscribe <==> !terminal,
        r matches StreamStep::Subscribe(s) ==> {
            &&& s.request_id == stage.input.request_id
            &&& stage.input.timeout_secs is None ==> s.timeout_secs == 300
            &&& stage.input.timeout_secs matches Some(t) ==> s.timeout_secs == t
        },
        r matches StreamStep::Done(out) ==> {
            &&& stage.request.status == RequestStatus::Executed ==> out.data == (
            StreamResultData::TerminalPlaceholder { success: true })
            &&& stage.request.status == RequestStatus::Failed ==> out.data == (
            StreamResultData::TerminalPlaceholder { success: false })
            &&& stage.request.status != RequestStatus::Executed && stage.request.status
                != RequestStatus::Failed ==> (out.data matches StreamResultData::Result(s)
                && !s.success && s.result_data is None && s.rows_affected is None
                && s.error_message is Some && s.error_message->0@ == "request "@
                + stage.request.status.text())
        },
{
}

/// What comes in time is handed on as it is.
pub proof fn results_that_come_are_handed_on(
    stage: StreamSubscribe,
    summary: Option<ResultSummary>,
    r: StreamResultOutput,
)
    requires
        call_ensures(StreamSubscribe::received, (stage, summary), r),
    ensures
        r.data is Timeout <==> summary is None,
        summary matches Some(s) ==> r.data == StreamResultData::Result(s),
{
}

/// A request that is not there is not found.
pub proof fn unknown_requests_are_not_waited_for(
    stage: StreamStart,
    request: Option<Request>,
    r: Result<StreamAccess, AppError>,
)
    requires
        call_ensures(StreamStart::found, (stage, request), r),
    ensures
        r is Ok <==> request is Some,
        r is Err ==> r->Err_0 is NotFound,
        r matches Ok(s) ==> s.input == stage.input && s.request == request->0,
{
}

} // verus!
