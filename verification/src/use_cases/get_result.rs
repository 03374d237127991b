//! Reading the stored result of a request.

use vstd::prelude::*;

use crate::domain::{
    access_texts, selectors_to_texts, DeliveryMode, Execution, ExecutionStatus, Request,
    RequestStatus, ResourceContext, ResultPolicy,
};
use crate::error::{AppError, AuthzError, ErrorView};
use crate::text::{concat2, concat4, copy_texts, lemma_holds_text, list_holds, same_text, texts};
use crate::time::Timestamp;

verus! {

/// How long a result is kept where no policy says.
pub const DEFAULT_RETENTION_DAYS: u32 = 30;

/// The use case.
pub struct GetResult {}

/// What a caller asks for.
pub struct GetResultInput {
    pub request_id: String,
    pub execution_id: Option<String>,
}

/// What the caller gets back beside the stored bytes.
pub struct GetResultOutput {
    pub execution_id: String,
    pub success: bool,
}

/// Due: find the request.
pub struct ResultStart {
    pub input: GetResultInput,
}

/// Due: where `needs_policy` says so, the result policy of the request.
pub struct ResultDelivery {
    pub input: GetResultInput,
    pub request: Request,
}

/// Due: the result policy of the request.
pub struct ResultAccess {
    pub input: GetResultInput,
    pub request: Request,
}

/// Due: authorize the caller for `ResultView` on the request.
pub struct ResultScoped {
    pub input: GetResultInput,
    pub request: Request,
    pub access_selectors: Vec<String>,
}

/// Due: the executions of the request, oldest first.
pub struct ResultExecutions {
    pub input: GetResultInput,
    pub request: Request,
}

/// Due: the result policy of the request, and the current time.
pub struct ResultRetention {
    pub input: GetResultInput,
    pub request: Request,
    pub execution: Execution,
}

/// Due: read the bytes stored under the key.
pub struct ResultFetch {
    pub key: String,
    pub output: GetResultOutput,
}

impl GetResult {
    /// Starts a read.
    pub fn execute(&self, input: GetResultInput) -> (r: ResultStart)
        ensures
            r.input == input,
    {
        ResultStart { input }
    }
}

/// Whether a request has come to an end that may have a result.
pub open spec fn has_result(status: RequestStatus) -> bool {
    status is Executed || status is Failed || status is ExecutionLost
}

/// Why a request has no result to read.
pub open spec fn unavailable(request: Request) -> Option<ErrorView> {
    if !has_result(request.status) {
        Some(ErrorView::NotFound("result not available"@))
    } else if request.no_result_store && !(request.status is Failed) {
        Some(ErrorView::Gone("result was not stored (no_store)"@))
    } else {
        None
    }
}

impl ResultStart {
    /// Takes the request.
    pub fn found(self, request: Option<Request>) -> (r: Result<ResultDelivery, AppError>)
        ensures
            match request {
                None => r matches Err(e) && e@ == ErrorView::NotFound("request not found"@),
                Some(q) => match r {
                    Err(e) => unavailable(q) == Some(e@),
                    Ok(s) => unavailable(q) is None && s.input == self.input && s.request == q,
                },
            },
    {
        match request {
            None => Err(AppError::NotFound("request not found".to_string())),
            Some(request) => {
                let ended: bool = match request.status {
                    RequestStatus::Executed | RequestStatus::Failed
                    | RequestStatus::ExecutionLost => true,
                    _ => false,
                };
                if !ended {
                    return Err(AppError::NotFound("result not available".to_string()));
                }
                if request.no_result_store && request.status != RequestStatus::Failed {
                    return Err(AppError::Gone("result was not stored (no_store)".to_string()));
                }
                Ok(ResultDelivery { input: self.input, request })
            },
        }
    }
}

/// Whether the policy only streams results. One that cannot be found stores.
pub open spec fn only_streams(policy: Result<Option<ResultPolicy>, AppError>) -> bool {
    policy matches Ok(Some(p)) && p.delivery_mode is Stream
}

impl ResultDelivery {
    /// Whether the policy decides: failures are always stored.
    pub fn needs_policy(&self) -> (r: bool)
        ensures
            r == !(self.request.status is Failed),
    {
        self.request.status != RequestStatus::Failed
    }

    /// Takes the result policy.
    pub fn delivered(self, policy: &Result<Option<ResultPolicy>, AppError>) -> (r: Result<
        ResultAccess,
        AppError,
    >)
        ensures
            if !(self.request.status is Failed) && only_streams(*policy) {
                r matches Err(e) && e@ == ErrorView::Gone(
                    "result not stored by policy (stream-only delivery)"@,
                )
            } else {
                r matches Ok(s) && s.input == self.input && s.request == self.request
            },
    {
        if self.needs_policy() {
            let streams: bool = match policy {
                Ok(Some(p)) => p.delivery_mode == DeliveryMode::Stream,
                _ => false,
            };
            if streams {
                return Err(
                    AppError::Gone("result not stored by policy (stream-only delivery)".to_string()),
                );
            }
        }
        Ok(ResultAccess { input: self.input, request: self.request })
    }
}

/// `more` added to `base`, leaving out what is already there.
pub open spec fn merged(base: Seq<Seq<char>>, more: Seq<Seq<char>>) -> Seq<Seq<char>>
    decreases more.len(),
{
    if more.len() == 0 {
        base
    } else {
        let rest = merged(base, more.drop_last());
        if rest.contains(more.last()) {
            rest
        } else {
            rest.push(more.last())
        }
    }
}

/// The selectors of a policy; none where there is no policy.
pub open spec fn policy_access(policy: Result<Option<ResultPolicy>, AppError>) -> Seq<Seq<char>> {
    match policy {
        Ok(Some(p)) => access_texts(p.access@),
        _ => Seq::<Seq<char>>::empty(),
    }
}

/// The selectors of a policy; none where there is no policy.
pub fn policy_selectors(policy: &Result<Option<ResultPolicy>, AppError>) -> (r: Vec<String>)
    ensures
        texts(r@) == policy_access(*policy),
{
    match policy {
        Ok(Some(p)) => selectors_to_texts(&p.access),
        _ => {
            let out: Vec<String> = Vec::new();
            assert(texts(out@) =~= Seq::<Seq<char>>::empty());
            out
        },
    }
}

impl ResultAccess {
    /// Takes the result policy: whoever the request is shared with or the
    /// policy names may read.
    pub fn merge(self, policy: &Result<Option<ResultPolicy>, AppError>) -> (r: ResultScoped)
        ensures
            r.input == self.input,
            r.request == self.request,
            texts(r.access_selectors@) == merged(
                texts(self.request.share_with@),
                policy_access(*policy),
            ),
    {
        let more: Vec<String> = policy_selectors(policy);
        let mut out: Vec<String> = copy_texts(&self.request.share_with);
        let n: usize = more.len();
        let mut i: usize = 0;
        assert(texts(more@).take(0) =~= Seq::<Seq<char>>::empty());
        while i < n
            invariant
                i <= n,
                n == more@.len(),
                texts(out@) == merged(
                    texts(self.request.share_with@),
                    texts(more@).take(i as int),
                ),
            decreases n - i,
        {
            let ghost before = texts(out@);
            proof {
                assert(texts(more@).take(i + 1).drop_last() =~= texts(more@).take(i as int));
                assert(texts(more@).take(i + 1).last() == more@[i as int]@);
                lemma_holds_text(out@, more@[i as int]@);
            }
            if !list_holds(&out, more[i].as_str()) {
                out.push(more[i].clone());
                assert(texts(out@) =~= before.push(more@[i as int]@));
            }
            i += 1;
        }
        assert(texts(more@).take(n as int) =~= texts(more@));
        ResultScoped { input: self.input, request: self.request, access_selectors: out }
    }
}

impl ResultScoped {
    /// The resource that the authorization is asked for.
    pub fn context(&self) -> (r: ResourceContext)
        ensures
            r matches ResourceContext::Result { requester_id, access_selectors } && requester_id
                == self.request.requester && texts(access_selectors@) == texts(
                self.access_selectors@,
            ),
    {
        ResourceContext::Result {
            requester_id: self.request.requester.clone(),
            access_selectors: copy_texts(&self.access_selectors),
        }
    }

    /// Takes the answer of the authorizer.
    pub fn authorized(self, reply: Result<(), AuthzError>) -> (r: Result<
        ResultExecutions,
        AppError,
    >)
        ensures
            match reply {
                Err(e) => r matches Err(x) && x@ == ErrorView::Forbidden(e@),
                Ok(_) => r matches Ok(s) && s.input == self.input && s.request == self.request,
            },
    {
        match reply {
            Err(e) => Err(AppError::Forbidden(e)),
            Ok(_) => Ok(ResultExecutions { input: self.input, request: self.request }),
        }
    }
}

/// Whether an execution has come to an end.
pub open spec fn ended(e: Execution) -> bool {
    e.status is Completed || e.status is Failed
}

fn has_ended(e: &Execution) -> (r: bool)
    ensures
        r == ended(*e),
{
    match e.status {
        ExecutionStatus::Completed | ExecutionStatus::Failed => true,
        _ => false,
    }
}

/// The place of the first execution with the identifier.
pub open spec fn first_with_id(executions: Seq<Execution>, id: Seq<char>, k: int) -> bool {
    &&& 0 <= k < executions.len()
    &&& executions[k].id@ == id
    &&& forall|j: int| 0 <= j < k ==> (#[trigger] executions[j]).id@ != id
}

/// The place of the last execution that has come to an end.
pub open spec fn last_ended(executions: Seq<Execution>, k: int) -> bool {
    &&& 0 <= k < executions.len()
    &&& ended(executions[k])
    &&& forall|j: int| k < j < executions.len() ==> !ended(#[trigger] executions[j])
}

/// What the choice among the executions leads to.
pub open spec fn choice(
    wanted: Option<String>,
    executions: Seq<Execution>,
    r: Result<Execution, ErrorView>,
) -> bool {
    match wanted {
        Some(id) => {
            ||| (forall|j: int| 0 <= j < executions.len() ==> (#[trigger] executions[j]).id@ != id@)
                && r == Err::<Execution, ErrorView>(ErrorView::NotFound("execution not found"@))
            ||| exists|k: int|
                #![trigger executions[k]]
                first_with_id(executions, id@, k) && r == if ended(executions[k]) {
                    Ok::<Execution, ErrorView>(executions[k])
                } else {
                    Err(ErrorView::Conflict("execution still in progress"@))
                }
        },
        None => {
            ||| (forall|j: int| 0 <= j < executions.len() ==> !ended(#[trigger] executions[j]))
                && r == Err::<Execution, ErrorView>(
                ErrorView::NotFound("no terminal execution found"@),
            )
            ||| exists|k: int|
                #![trigger executions[k]]
                last_ended(executions, k) && r == Ok::<Execution, ErrorView>(executions[k])
        },
    }
}

fn copy_execution(e: &Execution) -> (r: Execution)
    ensures
        r == *e,
{
    Execution {
        id: e.id.clone(),
        request_id: e.request_id.clone(),
        agent_id: e.agent_id.clone(),
        status: e.status,
        token: e.token.clone(),
        lease_expires_at: e.lease_expires_at,
        started_at: e.started_at,
        finished_at: e.finished_at,
        error_message: e.error_message.clone(),
        created_at: e.created_at,
    }
}

/// The execution whose result is read: the one asked for, if it has come to an
/// end, or else the latest that has.
fn choose_execution(wanted: &Option<String>, executions: &Vec<Execution>) -> (r: Result<
    Execution,
    AppError,
>)
    ensures
        choice(
            *wanted,
            executions@,
            match r {
                Ok(e) => Ok(e),
                Err(e) => Err(e@),
            },
        ),
{
    let n: usize = executions.len();
    match wanted {
        Some(id) => {
            let mut i: usize = 0;
            while i < n
                invariant
                    i <= n,
                    n == executions@.len(),
                    *wanted == Some(*id),
                    forall|j: int| 0 <= j < i ==> (#[trigger] executions@[j]).id@ != id@,
                decreases n - i,
            {
                if same_text(executions[i].id.as_str(), id.as_str()) {
                    assert(first_with_id(executions@, id@, i as int));
                    if has_ended(&executions[i]) {
                        let e = copy_execution(&executions[i]);
                        assert(e == executions@[i as int]);
                        return Ok(e);
                    }
                    return Err(AppError::Conflict("execution still in progress".to_string()));
                }
                i += 1;
            }
            Err(AppError::NotFound("execution not found".to_string()))
        },
        None => {
            let mut i: usize = n;
            while i > 0
                invariant
                    i <= n,
                    n == executions@.len(),
                    *wanted is None,
                    forall|j: int| i <= j < n ==> !ended(#[trigger] executions@[j]),
                decreases i,
            {
                i -= 1;
                if has_ended(&executions[i]) {
                    assert(last_ended(executions@, i as int));
                    let e = copy_execution(&executions[i]);
                    assert(e == executions@[i as int]);
                    return Ok(e);
                }
            }
            Err(AppError::NotFound("no terminal execution found".to_string()))
        },
    }
}

impl ResultExecutions {
    /// Takes the executions.
    pub fn chosen(self, executions: &Vec<Execution>) -> (r: Result<ResultRetention, AppError>)
        ensures
            choice(
                self.input.execution_id,
                executions@,
                match r {
                    Ok(s) => Ok(s.execution),
                    Err(e) => Err(e@),
                },
            ),
            r matches Ok(s) ==> s.input == self.input && s.request == self.request,
    {
        match choose_execution(&self.input.execution_id, executions) {
            Err(e) => Err(e),
            Ok(execution) => Ok(
                ResultRetention { input: self.input, request: self.request, execution },
            ),
        }
    }
}

/// How many days the result is kept.
pub open spec fn retention_days(policy: Option<ResultPolicy>) -> u32 {
    match policy {
        Some(p) => p.retention_days,
        None => DEFAULT_RETENTION_DAYS,
    }
}

/// The seconds that the result is kept.
pub open spec fn retention_secs(policy: Option<ResultPolicy>) -> int {
    retention_days(policy) * 86_400
}

/// Whether the result is no longer kept: its execution ended longer ago.
pub open spec fn outlived(execution: Execution, policy: Option<ResultPolicy>, now: Timestamp) -> bool {
    execution.finished_at matches Some(at) && now.instant() > at.instant() + retention_secs(policy)
        * 1_000_000_000
}

impl ResultRetention {
    /// Whether the keeping of the result ends within the range of dates, where
    /// it is asked for at all.
    pub open spec fn end_in_range(self, policy: Result<Option<ResultPolicy>, AppError>) -> bool {
        (policy is Ok && self.execution.finished_at is Some)
            ==> self.execution.finished_at->0.shiftable(retention_secs(policy->Ok_0))
    }

    /// Whether the keeping of the result ends within the range of dates, where
    /// it is asked for at all.
    pub fn ends_in_range(&self, policy: &Result<Option<ResultPolicy>, AppError>) -> (r: bool)
        ensures
            r == self.end_in_range(*policy),
    {
        let days: u32 = match policy {
            Err(_) => {
                return true;
            },
            Ok(Some(p)) => p.retention_days,
            Ok(None) => DEFAULT_RETENTION_DAYS,
        };
        match &self.execution.finished_at {
            Some(at) => at.is_shiftable(days as i64 * 86_400),
            None => true,
        }
    }

    /// Takes the result policy and the current time.
    pub fn retained(self, policy: Result<Option<ResultPolicy>, AppError>, now: Timestamp) -> (r:
        Result<ResultFetch, AppError>)
        requires
            now.valid(),
            self.end_in_range(policy),
        ensures
            match policy {
                Err(e) => r matches Err(x) && x@ == e@,
                Ok(p) => if outlived(self.execution, p, now) {
                    r matches Err(x) && x@ == ErrorView::Gone(
                        "result expired (retention period exceeded)"@,
                    )
                } else {
                    r matches Ok(s) && {
                        &&& s.key@ == "results/"@ + self.input.request_id@ + "/"@
                            + self.execution.id@
                        &&& s.output.execution_id == self.execution.id
                        &&& s.output.success == (self.execution.status is Completed)
                    }
                },
            },
    {
        let days: u32 = match policy {
            Err(e) => {
                return Err(e);
            },
            Ok(Some(p)) => p.retention_days,
            Ok(None) => DEFAULT_RETENTION_DAYS,
        };
        match &self.execution.finished_at {
            Some(at) => {
                let until = at.plus_secs(days as i64 * 86_400);
                proof {
                    crate::time::order_is_by_instant(until, now);
                }
                if until.before(&now) {
                    return Err(
                        AppError::Gone("result expired (retention period exceeded)".to_string()),
                    );
                }
            },
            None => {},
        }
        let success: bool = self.execution.status == ExecutionStatus::Completed;
        let key = concat4(
            "results/",
            self.input.request_id.as_str(),
            "/",
            self.execution.id.as_str(),
        );
        Ok(
            ResultFetch {
                key,
                output: GetResultOutput { execution_id: self.execution.id, success },
            },
        )
    }
}

impl ResultFetch {
    /// The error for bytes that could not be read. What was not found stays so;
    /// anything else is a failure of the storage. `permission` names the
    /// refused permission of a `Forbidden` error.
    pub fn failed(&self, e: AppError, permission: &str) -> (r: AppError)
        ensures
            r@ == if e is NotFound {
                e@
            } else {
                ErrorView::Internal(
                    "failed to read result from storage: "@ + e.message_text(permission@),
                )
            },
    {
        match e {
            AppError::NotFound(m) => AppError::NotFound(m),
            e => AppError::Internal(
                concat2("failed to read result from storage: ", e.message(permission).as_str()),
            ),
        }
    }
}

/// Everyone whom a request is shared with or whom the policy names is among the
/// merged selectors, and no one else is.
pub proof fn merging_keeps_everyone(base: Seq<Seq<char>>, more: Seq<Seq<char>>, s: Seq<char>)
    ensures
        merged(base, more).contains(s) <==> base.contains(s) || more.contains(s),
    decreases more.len(),
{
    if more.len() > 0 {
        let rest = merged(base, more.drop_last());
        merging_keeps_everyone(base, more.drop_last(), s);
        assert(more =~= more.drop_last().push(more.last()));
        if more.contains(s) {
            let i = choose|i: int| 0 <= i < more.len() && more[i] == s;
            if i < more.len() - 1 {
                assert(more.drop_last()[i] == s);
            }
        }
        if more.drop_last().contains(s) {
            let i = choose|i: int| 0 <= i < more.drop_last().len() && more.drop_last()[i] == s;
            assert(more[i] == s);
        }
        assert(more[more.len() - 1] == more.last());
        if !rest.contains(more.last()) {
            let all = rest.push(more.last());
            assert(all[all.len() - 1] == more.last());
            if rest.contains(s) {
                let i = choose|i: int| 0 <= i < rest.len() && rest[i] == s;
                assert(all[i] == s);
            }
            if all.contains(s) {
                let i = choose|i: int| 0 <= i < all.len() && all[i] == s;
                if i < rest.len() {
                    assert(rest[i] == s);
                }
            }
        }
    }
}

/// Merging brings in no selector twice.
pub proof fn merging_repeats_nothing(base: Seq<Seq<char>>, more: Seq<Seq<char>>)
    requires
        base.no_duplicates(),
    ensures
        merged(base, more).no_duplicates(),
    decreases more.len(),
{
    if more.len() > 0 {
        merging_repeats_nothing(base, more.drop_last());
    }
}

/// A failure is never withheld because results are not stored: whatever the
/// request and the policy say, reading goes on to the stored failure.
pub proof fn failures_can_be_read(request: Request)
    requires
        request.status is Failed,
    ensures
        unavailable(request) is None,
{
}

/// A request has a result to read once it was executed, failed or was lost;
/// where it keeps no results, only a failure.
pub proof fn results_are_there_when_the_request_ended(
    stage: ResultStart,
    request: Option<Request>,
    r: Result<ResultDelivery, AppError>,
)
    requires
        call_ensures(ResultStart::found, (stage, request), r),
    ensures
        r is Ok <==> request is Some && {
            ||| request->0.status == RequestStatus::Failed
            ||| request->0.status == RequestStatus::Executed && !request->0.no_result_store
            ||| request->0.status == RequestStatus::ExecutionLost && !request->0.no_result_store
        },
        request is None ==> r->Err_0 is NotFound,
        request matches Some(q) ==> q.status != RequestStatus::Executed && q.status
            != RequestStatus::Failed && q.status != RequestStatus::ExecutionLost
            ==> r->Err_0 is NotFound,
        request matches Some(q) ==> (q.status == RequestStatus::Executed || q.status
            == RequestStatus::ExecutionLost) && q.no_result_store ==> r->Err_0 is Gone,
        r matches Ok(s) ==> s.input == stage.input && s.request == request->0,
{
}

/// A result that was only streamed is gone, unless it is a failure.
pub proof fn streamed_results_are_gone(
    stage: ResultDelivery,
    needed: bool,
    policy: Result<Option<ResultPolicy>, AppError>,
    r: Result<ResultAccess, AppError>,
)
    requires
        call_ensures(ResultDelivery::needs_policy, (&stage,), needed),
        call_ensures(ResultDelivery::delivered, (stage, &policy), r),
    ensures
        needed <==> stage.request.status != RequestStatus::Failed,
        r is Err <==> needed && policy is Ok && policy->Ok_0 is Some
            && policy->Ok_0->0.delivery_mode == DeliveryMode::Stream,
        r is Err ==> r->Err_0 is Gone,
        r matches Ok(s) ==> s.input == stage.input && s.request == stage.request,
{
}

/// Whether a policy names the selector `s`.
pub open spec fn policy_names(policy: Result<Option<ResultPolicy>, AppError>, s: Seq<char>) -> bool {
    policy is Ok && policy->Ok_0 is Some && exists|i: int|
        0 <= i < policy->Ok_0->0.access@.len() && (
        #[trigger] policy->Ok_0->0.access@[i]).text() == s
}

/// A result may be read by whom the request is shared with and whom the policy
/// names, and the authorizer is asked with all of them.
pub proof fn readers_are_shared_with_or_named(
    stage: ResultAccess,
    policy: Result<Option<ResultPolicy>, AppError>,
    scoped: ResultScoped,
    context: ResourceContext,
    s: Seq<char>,
)
    requires
        call_ensures(ResultAccess::merge, (stage, &policy), scoped),
        call_ensures(ResultScoped::context, (&scoped,), context),
    ensures
        scoped.request == stage.request,
        scoped.input == stage.input,
        context matches ResourceContext::Result { requester_id, access_selectors } && {
            &&& requester_id == stage.request.requester
            &&& texts(access_selectors@).contains(s) <==> texts(
                stage.request.share_with@,
            ).contains(s) || policy_names(policy, s)
        },
{
    merging_keeps_everyone(texts(stage.request.share_with@), policy_access(policy), s);
    if let Ok(Some(p)) = policy {
        let all = access_texts(p.access@);
        if all.contains(s) {
            let i = choose|i: int| 0 <= i < all.len() && all[i] == s;
            assert(p.access@[i].text() == s);
        }
        if policy_names(policy, s) {
            let i = choose|i: int|
                0 <= i < p.access@.len() && (#[trigger] p.access@[i]).text() == s;
            assert(all[i] == s);
        }
    }
}

/// Only the authorized read.
pub proof fn readers_are_authorized(
    stage: ResultScoped,
    reply: Result<(), AuthzError>,
    r: Result<ResultExecutions, AppError>,
)
    requires
        call_ensures(ResultScoped::authorized, (stage, reply), r),
    ensures
        r is Ok <==> reply is Ok,
        r is Err ==> r->Err_0 is Forbidden,
        r matches Ok(s) ==> s.input == stage.input && s.request == stage.request,
{
}

/// Without a wish the latest execution that completed or failed is read.
pub proof fn the_latest_finished_execution_is_read(
    stage: ResultExecutions,
    executions: Vec<Execution>,
    r: Result<ResultRetention, AppError>,
)
    requires
        call_ensures(ResultExecutions::chosen, (stage, &executions), r),
        stage.input.execution_id is None,
    ensures
        r is Err <==> forall|j: int|
            0 <= j < executions@.len() ==> (#[trigger] executions@[j]).status
                == ExecutionStatus::Claimed,
        r is Err ==> r->Err_0 is NotFound,
        r matches Ok(s) ==> s.input == stage.input && s.request == stage.request && exists|k: int|
            #![trigger executions@[k]]
            0 <= k < executions@.len() && s.execution == executions@[k] && executions@[k].status
                != ExecutionStatus::Claimed && forall|j: int|
                k < j < executions@.len() ==> (#[trigger] executions@[j]).status
                    == ExecutionStatus::Claimed,
{
    let v = executions@;
    assert forall|j: int| 0 <= j < v.len() implies (ended(#[trigger] v[j]) <==> v[j].status
        != ExecutionStatus::Claimed) by {
        match v[j].status {
            ExecutionStatus::Claimed => {},
            ExecutionStatus::Completed => {},
            ExecutionStatus::Failed => {},
        }
    }
    if r is Ok {
        let k = choose|k: int|
            #![trigger v[k]]
            last_ended(v, k) && Ok::<Execution, ErrorView>(r->Ok_0.execution) == Ok::<
                Execution,
                ErrorView,
            >(v[k]);
        assert(r->Ok_0.execution == v[k]);
        assert(v[k].status != ExecutionStatus::Claimed);
        assert forall|j: int| k < j < v.len() implies (#[trigger] v[j]).status
            == ExecutionStatus::Claimed by {
            assert(!ended(v[j]));
        }
    } else {
        assert forall|j: int| 0 <= j < v.len() implies (#[trigger] v[j]).status
            == ExecutionStatus::Claimed by {
            assert(!ended(v[j]));
        }
    }
}

/// The execution that is asked for is read if it completed or failed, and waited
/// for if it is running.
pub proof fn the_wanted_execution_is_read(
    stage: ResultExecutions,
    executions: Vec<Execution>,
    r: Result<ResultRetention, AppError>,
    k: int,
)
    requires
        call_ensures(ResultExecutions::chosen, (stage, &executions), r),
        stage.input.execution_id is Some,
        0 <= k < executions@.len(),
        executions@[k].id@ == stage.input.execution_id->0@,
        forall|j: int| 0 <= j < k ==> (#[trigger] executions@[j]).id@ != executions@[k].id@,
    ensures
        r is Ok <==> executions@[k].status != ExecutionStatus::Claimed,
        r is Ok ==> r->Ok_0.execution == executions@[k],
        r is Err ==> r->Err_0 is Conflict,
{
    let v = executions@;
    match v[k].status {
        ExecutionStatus::Claimed => {},
        ExecutionStatus::Completed => {},
        ExecutionStatus::Failed => {},
    }
    let id = stage.input.execution_id->0@;
    let x = choose|x: int|
        #![trigger v[x]]
        first_with_id(v, id, x) && (match r {
            Ok(s) => Ok(s.execution),
            Err(e) => Err(e@),
        }) == if ended(v[x]) {
            Ok::<Execution, ErrorView>(v[x])
        } else {
            Err(ErrorView::Conflict("execution still in progress"@))
        };
    assert(first_with_id(v, id, x));
    if x < k {
        assert(v[x].id@ != v[k].id@);
    } else if k < x {
        assert(v[k].id@ != id);
    }
}

/// An execution that is asked for and not there is not found.
pub proof fn unknown_executions_are_not_read(
    stage: ResultExecutions,
    executions: Vec<Execution>,
    r: Result<ResultRetention, AppError>,
)
    requires
        call_ensures(ResultExecutions::chosen, (stage, &executions), r),
        stage.input.execution_id is Some,
        forall|j: int|
            0 <= j < executions@.len() ==> (#[trigger] executions@[j]).id@
                != stage.input.execution_id->0@,
    ensures
        r is Err && r->Err_0 is NotFound,
{
}

/// A result is kept for the days that the policy says, thirty without one,
/// counted from the end of its execution, and read from under its request and
/// execution.
pub proof fn results_are_kept_for_their_days(
    stage: ResultRetention,
    policy: Result<Option<ResultPolicy>, AppError>,
    now: Timestamp,
    r: Result<ResultFetch, AppError>,
)
    requires
        now.valid(),
        call_ensures(ResultRetention::retained, (stage, policy, now), r),
        policy is Ok,
    ensures
        ({
            let days = if policy->Ok_0 is Some {
                policy->Ok_0->0.retention_days
            } else {
                30
            };
            r is Ok <==> (stage.execution.finished_at matches Some(at) ==> now.instant()
                - at.instant() <= days * 86_400 * 1_000_000_000)
        }),
        r is Err ==> r->Err_0 is Gone,
        r matches Ok(f) ==> {
            &&& f.key@ == "results/"@ + stage.input.request_id@ + "/"@ + stage.execution.id@
            &&& f.output.execution_id == stage.execution.id
            &&& f.output.success <==> stage.execution.status == ExecutionStatus::Completed
        },
{
}

/// What the storage does not have is not found; any other trouble with it is a
/// failure of ours.
pub proof fn storage_trouble_is_internal(stage: ResultFetch, e: AppError, p: &str, r: AppError)
    requires
        call_ensures(ResultFetch::failed, (&stage, e, p), r),
    ensures
        r is NotFound <==> e is NotFound,
        r is Internal <==> !(e is NotFound),
        e is NotFound ==> r@ == e@,
{
}

/// The end of the keeping is in range exactly if the days that the policy says,
/// thirty without one, can be counted from the end of the execution.
pub proof fn keeping_ends_in_range(
    stage: ResultRetention,
    policy: Result<Option<ResultPolicy>, AppError>,
    r: bool,
)
    requires
        call_ensures(ResultRetention::ends_in_range, (&stage, &policy), r),
    ensures
        policy is Err || stage.execution.finished_at is None ==> r,
        policy is Ok && policy->Ok_0 is None && stage.execution.finished_at is Some ==> r
            == stage.execution.finished_at->0.shiftable(30int * 86_400),
        policy is Ok && policy->Ok_0 is Some && stage.execution.finished_at is Some ==> r
            == stage.execution.finished_at->0.shiftable(policy->Ok_0->0.retention_days * 86_400),
{
}

/// A reader is told why there is no result.
pub proof fn readers_are_told_why_there_is_no_result(
    start: ResultStart,
    q: Request,
    e: AppError,
    stage: ResultDelivery,
    policy: Result<Option<ResultPolicy>, AppError>,
    x: AppError,
    kept: ResultRetention,
    p: Option<ResultPolicy>,
    now: Timestamp,
    y: AppError,
)
    requires
        call_ensures(ResultStart::found, (start, Some(q)), Err::<ResultDelivery, AppError>(e)),
        call_ensures(
            ResultDelivery::delivered,
            (stage, &policy),
            Err::<ResultAccess, AppError>(x),
        ),
        now.valid(),
        call_ensures(
            ResultRetention::retained,
            (kept, Ok::<Option<ResultPolicy>, AppError>(p), now),
            Err::<ResultFetch, AppError>(y),
        ),
    ensures
        e is NotFound ==> e@ == ErrorView::NotFound("result not available"@),
        e is Gone ==> e@ == ErrorView::Gone("result was not stored (no_store)"@),
        e is NotFound || e is Gone,
        x@ == ErrorView::Gone("result not stored by policy (stream-only delivery)"@),
        y@ == ErrorView::Gone("result expired (retention period exceeded)"@),
{
    assert(e@ is NotFound || e@ is Gone);
}

} // verus!
