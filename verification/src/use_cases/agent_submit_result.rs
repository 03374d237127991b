//! An agent reports the result of an execution: the result is stored, the
//! execution and its request are completed, and readers are told.

use vstd::prelude::*;

use crate::digest::{hex_text, sha256, sha256_hex};
use crate::domain::{
    AuditEvent, AuthUser, DeliveryMode, EventMetadata, Execution, ExecutionStatus, Request,
    RequestStatus, ResultPolicy, Selector, SubjectType, TransitionContext, TransitionEvent,
    TransitionReply,
};
use crate::error::{AppError, AuthzError, ErrorView};
use crate::json::{rendered_json, uint_number, Json, JsonObject, JsonTree};
use crate::ports::{CompletionOutcome, WebhookEvent};
use crate::services::audit_event_builder::{
    build_webhook_event, metadata_members, notifies, parse_metadata_object,
};
use crate::text::{
    bytes_of, concat2, concat3, concat4, decimal, decimal_text, has_prefix, lossy_text,
    strip_prefix, truncate_utf8, truncated, utf8_lossy,
};
use crate::time::Timestamp;
use vstd::utf8::encode_utf8;

verus! {

/// The use case with its settings.
pub struct AgentSubmitResult {
    pub max_persist_bytes: usize,
    pub storage_backend: String,
}

/// What an agent reports.
pub struct AgentSubmitResultInput {
    pub execution_id: String,
    pub success: bool,
    pub result_data: Option<Vec<u8>>,
    pub error_message: Option<String>,
    pub rows_affected: Option<u64>,
    pub duration_ms: Option<u64>,
}

/// What the agent gets back.
pub struct AgentSubmitResultOutput {
    pub request_id: String,
    pub status: RequestStatus,
}

/// The state of a stored result.
#[derive(Clone, Copy, Debug, PartialEq, Eq, Structural)]
pub enum ResultStatus {
    Stored,
}

/// The description of a stored result.
pub struct ExecutionResult {
    pub id: String,
    pub request_id: String,
    pub execution_id: String,
    pub storage_backend: String,
    pub storage_key: String,
    pub content_length: u64,
    pub checksum_sha256: String,
    pub retention_days: u32,
    pub status: ResultStatus,
    pub truncated: bool,
    pub truncation_reason: Option<String>,
    pub stored_at: Timestamp,
    pub expires_at: Timestamp,
}

/// The kind of a selector.
#[derive(Clone, Copy, Debug, PartialEq, Eq, Structural)]
pub enum SelectorType {
    Role,
    Group,
    User,
}

/// Who may read a stored result.
pub struct ResultAccess {
    pub id: String,
    pub result_id: String,
    pub selector_type: SelectorType,
    pub selector_value: String,
}

/// What readers that wait for a result are told.
pub struct ResultSummary {
    pub execution_id: String,
    pub success: bool,
    pub rows_affected: Option<u64>,
    pub truncated: bool,
    pub error_message: Option<String>,
    pub result_data: Option<String>,
}

/// A report on its way.
pub struct Report {
    pub input: AgentSubmitResultInput,
    pub caller_id: String,
    pub caller_type: SubjectType,
    pub max_persist_bytes: usize,
    pub storage_backend: String,
}

/// Due: authorize the caller for `AgentOperate`.
pub struct SubmitStart {
    pub report: Report,
}

/// Due: find the execution.
pub struct ExecutionLookup {
    pub report: Report,
}

/// Due: authorize the caller for `AgentOperate` on the agent of the execution,
/// whatever the database and environment.
pub struct ResourceCheck {
    pub report: Report,
    pub execution: Execution,
}

/// Due: find the request of the execution.
pub struct RequestLookup {
    pub report: Report,
    pub execution: Execution,
}

/// Due: the current time, then the transition by `Complete`.
pub struct Completing {
    pub report: Report,
    pub execution: Execution,
    pub request: Request,
}

impl AgentSubmitResult {
    /// Starts a report.
    pub fn execute(&self, input: AgentSubmitResultInput, user: &AuthUser) -> (r: SubmitStart)
        ensures
            r.report.input == input,
            r.report.caller_id == user.subject_id,
            r.report.caller_type == user.subject_type,
            r.report.max_persist_bytes == self.max_persist_bytes,
            r.report.storage_backend == self.storage_backend,
    {
        SubmitStart {
            report: Report {
                input,
                caller_id: user.subject_id.clone(),
                caller_type: user.subject_type,
                max_persist_bytes: self.max_persist_bytes,
                storage_backend: self.storage_backend.clone(),
            },
        }
    }
}

impl SubmitStart {
    /// Takes the answer of the authorizer.
    pub fn authorized(self, reply: Result<(), AuthzError>) -> (r: Result<ExecutionLookup, AppError>)
        ensures
            match reply {
                Err(e) => r matches Err(x) && x@ == ErrorView::Forbidden(e@),
                Ok(_) => r matches Ok(s) && s.report == self.report,
            },
    {
        match reply {
            Err(e) => Err(AppError::Forbidden(e)),
            Ok(_) => Ok(ExecutionLookup { report: self.report }),
        }
    }
}

impl ExecutionLookup {
    /// Takes the execution.
    pub fn found(self, execution: Option<Execution>) -> (r: Result<ResourceCheck, AppError>)
        ensures
            match execution {
                None => r matches Err(x) && x@ == ErrorView::NotFound("execution not found"@),
                Some(e) => r matches Ok(s) && s.report == self.report && s.execution == e,
            },
    {
        match execution {
            None => Err(AppError::NotFound("execution not found".to_string())),
            Some(execution) => Ok(ResourceCheck { report: self.report, execution }),
        }
    }
}

impl ResourceCheck {
    /// Takes the answer of the authorizer.
    pub fn authorized(self, reply: Result<(), AuthzError>) -> (r: Result<RequestLookup, AppError>)
        ensures
            match reply {
                Err(e) => r matches Err(x) && x@ == ErrorView::Forbidden(e@),
                Ok(_) => r matches Ok(s) && s.report == self.report && s.execution
                    == self.execution,
            },
    {
        match reply {
            Err(e) => Err(AppError::Forbidden(e)),
            Ok(_) => Ok(RequestLookup { report: self.report, execution: self.execution }),
        }
    }
}

/// Whether an execution still takes a result: it runs, or it was given up as
/// lost and the agent answers after all.
pub open spec fn takes_result(execution: ExecutionStatus, request: RequestStatus) -> bool {
    execution is Claimed || execution is Failed && request is ExecutionLost
}

impl RequestLookup {
    /// Takes the request of the execution.
    pub fn found(self, request: Option<Request>) -> (r: Result<Completing, AppError>)
        ensures
            match request {
                None => r matches Err(x) && x@ == ErrorView::Internal(
                    "request not found for execution"@,
                ),
                Some(q) => if takes_result(self.execution.status, q.status) {
                    r matches Ok(s) && s.report == self.report && s.execution == self.execution
                        && s.request == q
                } else {
                    r matches Err(x) && x@ == ErrorView::Conflict(
                        "execution is "@ + self.execution.status.text()
                            + ", cannot submit result"@,
                    )
                },
            },
    {
        match request {
            None => Err(AppError::Internal("request not found for execution".to_string())),
            Some(request) => {
                let late: bool = self.execution.status == ExecutionStatus::Failed && request.status
                    == RequestStatus::ExecutionLost;
                if self.execution.status != ExecutionStatus::Claimed && !late {
                    return Err(
                        AppError::Conflict(
                            concat3(
                                "execution is ",
                                self.execution.status.as_str(),
                                ", cannot submit result",
                            ),
                        ),
                    );
                }
                Ok(Completing { report: self.report, execution: self.execution, request })
            },
        }
    }
}

/// A report whose transition is known. Due: the result policy of the database
/// and environment.
pub struct PolicyLookup {
    pub report: Report,
    pub execution: Execution,
    pub request: Request,
    pub event: TransitionEvent,
}

impl Completing {
    /// What the transition is asked for with.
    pub fn context(&self, now: Timestamp) -> (r: TransitionContext)
        ensures
            r.request_id == self.request.id,
            r.actor_id == self.report.caller_id,
            r.actor_type == self.report.caller_type,
            r.database == self.request.database,
            r.environment == self.request.environment,
            r.operation == self.request.operation,
            r.timestamp == now,
            r.metadata == (EventMetadata::Completed {
                success: self.report.input.success,
                execution_id: self.execution.id,
            }),
            r.requester_id == self.request.requester,
    {
        TransitionContext {
            request_id: self.request.id.clone(),
            actor_id: self.report.caller_id.clone(),
            actor_type: self.report.caller_type,
            database: self.request.database.clone(),
            environment: self.request.environment.clone(),
            operation: self.request.operation,
            timestamp: now,
            metadata: EventMetadata::Completed {
                success: self.report.input.success,
                execution_id: self.execution.id.clone(),
            },
            requester_id: self.request.requester.clone(),
        }
    }

    /// Takes the answer of the status machine.
    pub fn transitioned(self, reply: TransitionReply) -> (r: Result<PolicyLookup, AppError>)
        ensures
            match reply {
                Err(e) => r matches Err(x) && x@ == ErrorView::Conflict(e@),
                Ok(event) => r matches Ok(s) && {
                    &&& s.report == self.report
                    &&& s.execution == self.execution
                    &&& s.request == self.request
                    &&& s.event == event
                },
            },
    {
        match reply {
            Err(e) => Err(AppError::Conflict(e)),
            Ok(event) => Ok(
                PolicyLookup {
                    report: self.report,
                    execution: self.execution,
                    request: self.request,
                    event,
                },
            ),
        }
    }
}

/// How many days a result is kept.
pub open spec fn retention(policy: Option<ResultPolicy>) -> u32 {
    match policy {
        Some(p) => p.retention_days,
        None => 30,
    }
}

/// Whether a result is stored: a failure always is.
pub open spec fn stores(policy: Option<ResultPolicy>, success: bool) -> bool {
    !(policy is Some && policy->0.delivery_mode is Stream) || !success
}

/// Whether readers that wait are told: of a failure always.
pub open spec fn streams(policy: Option<ResultPolicy>, success: bool) -> bool {
    !(policy is Some && policy->0.delivery_mode is StoreOnly) || !success
}

/// What is kept of a report: the data where there is any and it may be kept,
/// else a note of the failure.
pub ghost enum Kept {
    Nothing,
    Data(Seq<u8>),
    Failure(Seq<u8>),
}

/// The note that is kept of a failure without data.
pub open spec fn failure_note(error_message: Option<String>) -> Seq<u8> {
    encode_utf8(
        rendered_json(
            JsonTree::Object(
                Map::<Seq<char>, JsonTree>::empty().insert(
                    "success"@,
                    JsonTree::Bool(false),
                ).insert(
                    "error"@,
                    JsonTree::Text(
                        truncated(
                            match error_message {
                                Some(m) => m@,
                                None => "unknown error"@,
                            },
                            4096,
                        ),
                    ),
                ),
            ),
        ),
    )
}

/// What is kept of a report.
pub open spec fn kept(input: AgentSubmitResultInput, no_result_store: bool) -> Kept {
    if !no_result_store && input.result_data is Some {
        Kept::Data(input.result_data->0@)
    } else if !input.success {
        Kept::Failure(failure_note(input.error_message))
    } else {
        Kept::Nothing
    }
}

/// What the report leads to once its result policy is known.
pub struct Delivery {
    pub report: Report,
    pub execution: Execution,
    pub request: Request,
    pub event: TransitionEvent,
    pub retention_days: u32,
    pub should_store: bool,
    pub should_stream: bool,
    pub access: Vec<Selector>,
}

/// What is to be stored.
pub enum StoreStep {
    /// Nothing is kept. Due: the current time.
    Skip(Recording),
    /// Due: the current time, then write the data under the key.
    PutData(PuttingData),
    /// The data is described but not stored. Due: the current time.
    Describe(Describing),
    /// Due: the current time, then write the note under the key.
    PutFailure(PuttingFailure),
}

/// Due: write `delivery.report.input.result_data` under the key.
pub struct PuttingData {
    pub delivery: Delivery,
    pub data: Vec<u8>,
    pub key: String,
}

/// Due: the current time, for the description of the data.
pub struct Describing {
    pub delivery: Delivery,
    pub data: Vec<u8>,
    pub key: String,
}

/// Due: write the note under the key.
pub struct PuttingFailure {
    pub delivery: Delivery,
    pub note: Vec<u8>,
    pub key: String,
}

/// Due: the current time, for the transaction.
pub struct Recording {
    pub delivery: Delivery,
    pub manifest: Option<ExecutionResult>,
}

/// Where the result of an execution is stored.
pub open spec fn storage_key_of(e: Execution) -> Seq<char> {
    e.request_id@ + "/"@ + e.id@
}

/// Whether `d` is the delivery of a report under a policy. The data of the
/// report moves on separately.
pub open spec fn delivers(d: Delivery, p: PolicyLookup, policy: Option<ResultPolicy>) -> bool {
    &&& d.report.input.execution_id == p.report.input.execution_id
    &&& d.report.input.success == p.report.input.success
    &&& d.report.input.error_message == p.report.input.error_message
    &&& d.report.input.rows_affected == p.report.input.rows_affected
    &&& d.report.input.duration_ms == p.report.input.duration_ms
    &&& d.report.input.result_data is None == p.report.input.result_data is None
    &&& p.report.input.result_data is Some ==> d.report.input.result_data->0@
        == p.report.input.result_data->0@
    &&& d.report.caller_id == p.report.caller_id
    &&& d.report.caller_type == p.report.caller_type
    &&& d.report.max_persist_bytes == p.report.max_persist_bytes
    &&& d.report.storage_backend == p.report.storage_backend
    &&& d.execution == p.execution
    &&& d.request == p.request
    &&& d.event == p.event
    &&& d.retention_days == retention(policy)
    &&& d.should_store == stores(policy, p.report.input.success)
    &&& d.should_stream == streams(policy, p.report.input.success)
    &&& d.access@ == (match policy {
        Some(x) => x.access@,
        None => Seq::empty(),
    })
}

fn note_of(error_message: &Option<String>) -> (r: Vec<u8>)
    ensures
        r@ == failure_note(*error_message),
{
    let message = match error_message {
        Some(m) => truncate_utf8(m.as_str(), 4096).to_string(),
        None => truncate_utf8("unknown error", 4096).to_string(),
    };
    let text = JsonObject::new().with("success", Json::Bool(false)).with(
        "error",
        Json::Text(message),
    ).build().render();
    bytes_of(text.as_str())
}

fn copy_bytes(v: &Vec<u8>) -> (r: Vec<u8>)
    ensures
        r@ == v@,
{
    let r = v.clone();
    assert(r@ =~= v@);
    r
}

impl PolicyLookup {
    /// Takes the result policy. Data that may be kept must fit the limit.
    pub fn policy(self, policy: Option<ResultPolicy>) -> (r: Result<StoreStep, AppError>)
        ensures
            match kept(self.report.input, self.request.no_result_store) {
                Kept::Data(data) => if data.len() > self.report.max_persist_bytes {
                    r matches Err(x) && x@ == ErrorView::PayloadTooLarge(
                        "result size "@ + decimal(data.len()) + " exceeds limit "@ + decimal(
                            self.report.max_persist_bytes as nat,
                        ),
                    )
                } else if stores(policy, self.report.input.success) {
                    r matches Ok(StoreStep::PutData(s)) && delivers(s.delivery, self, policy)
                        && s.data@ == data && s.key@ == storage_key_of(self.execution)
                } else {
                    r matches Ok(StoreStep::Describe(s)) && delivers(s.delivery, self, policy)
                        && s.data@ == data && s.key@ == ""@
                },
                Kept::Failure(note) => r matches Ok(StoreStep::PutFailure(s)) && delivers(
                    s.delivery,
                    self,
                    policy,
                ) && s.note@ == note && s.key@ == storage_key_of(self.execution),
                Kept::Nothing => r matches Ok(StoreStep::Skip(s)) && delivers(
                    s.delivery,
                    self,
                    policy,
                ) && s.manifest is None,
            },
    {
        let success: bool = self.report.input.success;
        let mut retention_days: u32 = 30;
        let mut should_store: bool = true;
        let mut should_stream: bool = true;
        let mut access: Vec<Selector> = Vec::new();
        match policy {
            Some(p) => {
                retention_days = p.retention_days;
                should_store = p.delivery_mode != DeliveryMode::Stream || !success;
                should_stream = p.delivery_mode != DeliveryMode::StoreOnly || !success;
                access = p.access;
            },
            None => {},
        }
        let key = concat3(self.execution.request_id.as_str(), "/", self.execution.id.as_str());
        let limit: usize = self.report.max_persist_bytes;
        let no_store: bool = self.request.no_result_store;
        let data: Option<Vec<u8>> = match &self.report.input.result_data {
            Some(d) => {
                if no_store {
                    None
                } else {
                    if d.len() > limit {
                        return Err(
                            AppError::PayloadTooLarge(
                                concat4(
                                    "result size ",
                                    decimal_text(d.len() as u64).as_str(),
                                    " exceeds limit ",
                                    decimal_text(limit as u64).as_str(),
                                ),
                            ),
                        );
                    }
                    Some(copy_bytes(d))
                }
            },
            None => None,
        };
        let note: Option<Vec<u8>> = if success {
            None
        } else {
            Some(note_of(&self.report.input.error_message))
        };
        let delivery = Delivery {
            report: self.report,
            execution: self.execution,
            request: self.request,
            event: self.event,
            retention_days,
            should_store,
            should_stream,
            access,
        };
        match data {
            Some(data) => {
                if should_store {
                    Ok(StoreStep::PutData(PuttingData { delivery, data, key }))
                } else {
                    Ok(StoreStep::Describe(Describing { delivery, data, key: "".to_string() }))
                }
            },
            None => match note {
                Some(note) => Ok(StoreStep::PutFailure(PuttingFailure { delivery, note, key })),
                None => Ok(StoreStep::Skip(Recording { delivery, manifest: None })),
            },
        }
    }
}

/// How long a result is kept, in seconds.
pub open spec fn retention_secs(days: u32) -> int {
    days * 86_400
}

/// Whether a result that is stored at `at` expires within the range of dates.
pub fn expiry_in_range(at: &Timestamp, days: u32) -> (r: bool)
    ensures
        r == at.shiftable(retention_secs(days)),
{
    at.is_shiftable(days as i64 * 86_400)
}

/// When a result that is stored at `at` expires.
pub fn result_expiry(at: &Timestamp, days: u32) -> (r: Timestamp)
    requires
        at.shiftable(retention_secs(days)),
    ensures
        r == (Timestamp { secs: (at.secs + retention_secs(days)) as i64, nanos: at.nanos }),
        r.instant() == at.instant() + retention_secs(days) * 1_000_000_000,
{
    at.plus_secs(days as i64 * 86_400)
}

/// Whether `m` describes the stored bytes of a delivery.
pub open spec fn describes(
    m: ExecutionResult,
    d: Delivery,
    bytes: Seq<u8>,
    key: Seq<char>,
    at: Timestamp,
) -> bool {
    &&& m.id@ == "res-"@ + d.execution.id@
    &&& m.request_id == d.execution.request_id
    &&& m.execution_id == d.execution.id
    &&& m.storage_backend == d.report.storage_backend
    &&& m.storage_key@ == key
    &&& m.content_length == bytes.len()
    &&& m.checksum_sha256@ == hex_text(sha256(bytes))
    &&& m.retention_days == d.retention_days
    &&& m.status == ResultStatus::Stored
    &&& !m.truncated
    &&& m.truncation_reason is None
    &&& m.stored_at == at
    &&& m.expires_at == (Timestamp {
        secs: (at.secs + retention_secs(d.retention_days)) as i64,
        nanos: at.nanos,
    })
}

impl Delivery {
    fn describe(&self, bytes: &Vec<u8>, key: String, at: Timestamp) -> (r: ExecutionResult)
        requires
            at.shiftable(retention_secs(self.retention_days)),
        ensures
            describes(r, *self, bytes@, key@, at),
    {
        ExecutionResult {
            id: concat2("res-", self.execution.id.as_str()),
            request_id: self.execution.request_id.clone(),
            execution_id: self.execution.id.clone(),
            storage_backend: self.report.storage_backend.clone(),
            storage_key: key,
            content_length: bytes.len() as u64,
            checksum_sha256: sha256_hex(bytes.as_slice()),
            retention_days: self.retention_days,
            status: ResultStatus::Stored,
            truncated: false,
            truncation_reason: None,
            stored_at: at,
            expires_at: result_expiry(&at, self.retention_days),
        }
    }
}

impl PuttingData {
    /// The data is written; what remains is to describe it.
    pub fn stored(self) -> (r: Describing)
        ensures
            r.delivery == self.delivery,
            r.data == self.data,
            r.key == self.key,
    {
        Describing { delivery: self.delivery, data: self.data, key: self.key }
    }
}

impl Describing {
    /// Takes the time of the description.
    pub fn described(self, at: Timestamp) -> (r: Recording)
        requires
            at.shiftable(retention_secs(self.delivery.retention_days)),
        ensures
            r.delivery == self.delivery,
            r.manifest is Some,
            describes(r.manifest->0, self.delivery, self.data@, self.key@, at),
    {
        let manifest = self.delivery.describe(&self.data, self.key, at);
        Recording { delivery: self.delivery, manifest: Some(manifest) }
    }
}

impl PuttingFailure {
    /// The note is written at the given time.
    pub fn stored(self, at: Timestamp) -> (r: Recording)
        requires
            at.shiftable(retention_secs(self.delivery.retention_days)),
        ensures
            r.delivery == self.delivery,
            r.manifest is Some,
            describes(r.manifest->0, self.delivery, self.note@, self.key@, at),
    {
        let manifest = self.delivery.describe(&self.note, self.key, at);
        Recording { delivery: self.delivery, manifest: Some(manifest) }
    }
}

/// The kind and value of a selector given as text; a text without a known kind
/// names a user.
pub open spec fn selector_parts(sel: Seq<char>) -> (SelectorType, Seq<char>) {
    if has_prefix(sel, "role:"@) {
        (SelectorType::Role, sel.skip("role:"@.len() as int))
    } else if has_prefix(sel, "group:"@) {
        (SelectorType::Group, sel.skip("group:"@.len() as int))
    } else if has_prefix(sel, "user:"@) {
        (SelectorType::User, sel.skip("user:"@.len() as int))
    } else {
        (SelectorType::User, sel)
    }
}

/// The kind and value of a selector given as text.
pub fn parse_selector_for_access(sel: &str) -> (r: (SelectorType, String))
    ensures
        (r.0, r.1@) == selector_parts(sel@),
{
    match strip_prefix(sel, "role:") {
        Some(v) => {
            return (SelectorType::Role, v);
        },
        None => {},
    }
    match strip_prefix(sel, "group:") {
        Some(v) => {
            return (SelectorType::Group, v);
        },
        None => {},
    }
    match strip_prefix(sel, "user:") {
        Some(v) => {
            return (SelectorType::User, v);
        },
        None => {},
    }
    (SelectorType::User, sel.to_string())
}

/// Whether `a` lets the selector `sel` read the result `result_id`.
pub open spec fn grants(a: ResultAccess, result_id: Seq<char>, sel: Seq<char>, id: Seq<char>) -> bool {
    &&& a.id@ == id
    &&& a.result_id@ == result_id
    &&& (a.selector_type, a.selector_value@) == selector_parts(sel)
}

/// Whether `v` lets everyone read the result whom the request shares it with,
/// then everyone whom the policy names.
pub open spec fn access_records(v: Seq<ResultAccess>, result_id: Seq<char>, d: Delivery) -> bool {
    let shared = d.request.share_with@;
    &&& v.len() == shared.len() + d.access@.len()
    &&& forall|i: int|
        0 <= i < shared.len() ==> grants(
            #[trigger] v[i],
            result_id,
            shared[i]@,
            result_id + "-ra-"@ + decimal(i as nat),
        )
    &&& forall|i: int|
        shared.len() <= i < v.len() ==> grants(
            #[trigger] v[i],
            result_id,
            d.access@[i - shared.len()].text(),
            result_id + "-pa-"@ + decimal(i as nat),
        )
}

/// The metadata of the audit record of a completion.
pub open spec fn completion_metadata(input: AgentSubmitResultInput) -> Seq<char> {
    let rows = if input.success {
        input.rows_affected
    } else {
        None
    };
    if rows is None && input.duration_ms is None {
        "{}"@
    } else {
        let m0 = metadata_members("{}"@);
        let m1 = match rows {
            Some(n) => m0.insert("rows_affected"@, JsonTree::Number(uint_number(n))),
            None => m0,
        };
        let m2 = match input.duration_ms {
            Some(n) => m1.insert("duration_ms"@, JsonTree::Number(uint_number(n))),
            None => m1,
        };
        rendered_json(JsonTree::Object(m2))
    }
}

/// Whether `a` is the audit record of a completion.
pub open spec fn records_completion(a: AuditEvent, d: Delivery, now: Timestamp) -> bool {
    &&& a.event_type@ == (if d.report.input.success {
        "execution.completed"@
    } else {
        "execution.failed"@
    })
    &&& a.event_category@ == "execution"@
    &&& a.actor_id@ == d.report.caller_id@
    &&& a.resource_id == Some(d.execution.id)
    &&& a.created_at == now
    &&& a.request_id is None
    &&& a.database_name == Some(d.request.database)
    &&& a.environment == Some(d.request.environment)
    &&& a.operation is Some
    &&& a.operation->0@ == d.request.operation.text()
    &&& a.reason is None
    &&& a.detail_fingerprint is None
    &&& a.detail_raw is None
    &&& a.metadata_json@ == completion_metadata(d.report.input)
}

/// One transaction: complete the execution, complete the request, insert the
/// description with its access records where there is one, write the record.
/// It is given up where the execution is completed already.
pub struct CompletionCommit {
    pub delivery: Delivery,
    pub now: Timestamp,
    pub manifest: Option<ExecutionResult>,
    pub access: Vec<ResultAccess>,
    pub audit: AuditEvent,
}

impl Recording {
    fn access_for(&self, result_id: &String) -> (r: Vec<ResultAccess>)
        ensures
            access_records(r@, result_id@, self.delivery),
    {
        let ghost shared = self.delivery.request.share_with@;
        let mut out: Vec<ResultAccess> = Vec::new();
        let n: usize = self.delivery.request.share_with.len();
        let mut i: usize = 0;
        while i < n
            invariant
                i <= n,
                shared == self.delivery.request.share_with@,
                n == shared.len(),
                out@.len() == i,
                forall|k: int|
                    0 <= k < i ==> grants(
                        #[trigger] out@[k],
                        result_id@,
                        shared[k]@,
                        result_id@ + "-ra-"@ + decimal(k as nat),
                    ),
            decreases n - i,
        {
            let (selector_type, selector_value) = parse_selector_for_access(
                self.delivery.request.share_with[i].as_str(),
            );
            out.push(
                ResultAccess {
                    id: concat3(result_id.as_str(), "-ra-", decimal_text(i as u64).as_str()),
                    result_id: result_id.clone(),
                    selector_type,
                    selector_value,
                },
            );
            i += 1;
        }
        let m: usize = self.delivery.access.len();
        let mut j: usize = 0;
        while j < m
            invariant
                j <= m,
                m == self.delivery.access@.len(),
                shared == self.delivery.request.share_with@,
                n == shared.len(),
                out@.len() == n + j,
                forall|k: int|
                    0 <= k < n ==> grants(
                        #[trigger] out@[k],
                        result_id@,
                        shared[k]@,
                        result_id@ + "-ra-"@ + decimal(k as nat),
                    ),
                forall|k: int|
                    n <= k < n + j ==> grants(
                        #[trigger] out@[k],
                        result_id@,
                        self.delivery.access@[k - n].text(),
                        result_id@ + "-pa-"@ + decimal(k as nat),
                    ),
            decreases m - j,
        {
            let at: usize = out.len();
            let sel = self.delivery.access[j].to_text();
            let (selector_type, selector_value) = parse_selector_for_access(sel.as_str());
            out.push(
                ResultAccess {
                    id: concat3(result_id.as_str(), "-pa-", decimal_text(at as u64).as_str()),
                    result_id: result_id.clone(),
                    selector_type,
                    selector_value,
                },
            );
            j += 1;
        }
        out
    }

    /// Takes the time of the transaction.
    pub fn record(self, now: Timestamp) -> (r: CompletionCommit)
        ensures
            r.delivery == self.delivery,
            r.now == now,
            r.manifest == self.manifest,
            match self.manifest {
                Some(m) => access_records(r.access@, m.id@, self.delivery),
                None => r.access@.len() == 0,
            },
            records_completion(r.audit, self.delivery, now),
    {
        let access = match &self.manifest {
            Some(m) => self.access_for(&m.id),
            None => Vec::new(),
        };
        let success: bool = self.delivery.report.input.success;
        let mut audit = AuditEvent::simple(
            if success {
                "execution.completed"
            } else {
                "execution.failed"
            },
            "execution",
            self.delivery.report.caller_id.as_str(),
            Some(self.delivery.execution.id.clone()),
            now,
        );
        audit.database_name = Some(self.delivery.request.database.clone());
        audit.environment = Some(self.delivery.request.environment.clone());
        audit.operation = Some(self.delivery.request.operation.as_str().to_string());
        let rows: Option<u64> = if success {
            self.delivery.report.input.rows_affected
        } else {
            None
        };
        let duration: Option<u64> = self.delivery.report.input.duration_ms;
        if rows.is_some() || duration.is_some() {
            let mut meta = parse_metadata_object(audit.metadata_json.as_str());
            match rows {
                Some(n) => {
                    meta = meta.with("rows_affected", Json::unsigned(n));
                },
                None => {},
            }
            match duration {
                Some(n) => {
                    meta = meta.with("duration_ms", Json::unsigned(n));
                },
                None => {},
            }
            audit.metadata_json = meta.build().render();
        }
        CompletionCommit {
            delivery: self.delivery,
            now,
            manifest: self.manifest,
            access,
            audit,
        }
    }
}

/// Whether the transaction goes on after the execution was marked.
pub fn execution_marked(updated: bool) -> (r: Result<(), AppError>)
    ensures
        match r {
            Ok(_) => updated,
            Err(e) => !updated && e@ == ErrorView::Conflict("execution already completed"@),
        },
{
    if updated {
        Ok(())
    } else {
        Err(AppError::Conflict("execution already completed".to_string()))
    }
}

/// How the transaction ends, by whether the request was marked.
pub fn completion_outcome(updated: bool) -> (r: CompletionOutcome)
    ensures
        r == (if updated {
            CompletionOutcome::Normal
        } else {
            CompletionOutcome::RequestCancelled
        }),
{
    if updated {
        CompletionOutcome::Normal
    } else {
        CompletionOutcome::RequestCancelled
    }
}

/// What the transaction leads to.
pub enum SubmitStep {
    /// Completed; readers are told as far as the stage says.
    Done(Submitted),
    /// Given up; the stored object is deleted where the stage names one.
    Failed(SubmitFailure),
}

/// A completed report: the answer, what waiting readers are told, and the
/// notification.
pub struct Submitted {
    pub output: AgentSubmitResultOutput,
    pub publish: Option<ResultSummary>,
    pub notice: Option<WebhookEvent>,
}

/// A failed transaction: the error, and the stored object that no record
/// describes.
pub struct SubmitFailure {
    pub error: AppError,
    pub delete_key: Option<String>,
}

/// Whether `s` is what waiting readers are told of a delivery.
pub open spec fn summarizes(s: ResultSummary, d: Delivery) -> bool {
    &&& s.execution_id == d.execution.id
    &&& s.success == d.report.input.success
    &&& s.rows_affected == (if d.report.input.success {
        d.report.input.rows_affected
    } else {
        None
    })
    &&& !s.truncated
    &&& s.error_message == d.report.input.error_message
    &&& match d.report.input.result_data {
        Some(data) => if d.report.input.success {
            s.result_data is Some && s.result_data->0@ == lossy_text(data@)
        } else {
            s.result_data is None
        },
        None => s.result_data is None,
    }
}

/// Which stored object is deleted when the transaction fails: the described
/// one, or the note of a failure. A lost race deletes nothing, for the object
/// under the key may be the winner's.
pub open spec fn orphaned(c: CompletionCommit, e: AppError) -> Option<Seq<char>> {
    if e is Conflict {
        None
    } else {
        match c.manifest {
            Some(m) => Some(m.storage_key@),
            None => if c.delivery.report.input.success {
                None
            } else {
                Some(storage_key_of(c.delivery.execution))
            },
        }
    }
}

impl CompletionCommit {
    /// Takes how the transaction ended.
    pub fn committed(self, outcome: Result<CompletionOutcome, AppError>) -> (r: SubmitStep)
        ensures
            match outcome {
                Ok(CompletionOutcome::Normal) => r matches SubmitStep::Done(s) && {
                    &&& s.output.request_id == self.delivery.execution.request_id
                    &&& s.output.status == self.delivery.event.new_status
                    &&& s.publish is Some <==> self.delivery.should_stream
                    &&& s.publish is Some ==> summarizes(s.publish->0, self.delivery)
                    &&& s.notice is Some
                    &&& notifies(s.notice->0, self.delivery.event)
                },
                Ok(CompletionOutcome::RequestCancelled) => r matches SubmitStep::Done(s) && {
                    &&& s.output.request_id == self.delivery.execution.request_id
                    &&& s.output.status == RequestStatus::Cancelled
                    &&& s.publish is None
                    &&& s.notice is None
                },
                Err(e) => r matches SubmitStep::Failed(f) && {
                    &&& if e is Conflict {
                        f.error@ == ErrorView::Conflict("execution already completed"@)
                    } else {
                        f.error == e
                    }
                    &&& match f.delete_key {
                        Some(k) => orphaned(self, e) == Some(k@),
                        None => orphaned(self, e) is None,
                    }
                },
            },
    {
        match outcome {
            Ok(CompletionOutcome::Normal) => {
                let d = self.delivery;
                let notice = build_webhook_event(&d.event);
                let publish = if d.should_stream {
                    let success: bool = d.report.input.success;
                    Some(
                        ResultSummary {
                            execution_id: d.execution.id.clone(),
                            success,
                            rows_affected: if success {
                                d.report.input.rows_affected
                            } else {
                                None
                            },
                            truncated: false,
                            error_message: d.report.input.error_message.clone(),
                            result_data: if success {
                                match &d.report.input.result_data {
                                    Some(data) => Some(utf8_lossy(data)),
                                    None => None,
                                }
                            } else {
                                None
                            },
                        },
                    )
                } else {
                    None
                };
                SubmitStep::Done(
                    Submitted {
                        output: AgentSubmitResultOutput {
                            request_id: d.execution.request_id,
                            status: d.event.new_status,
                        },
                        publish,
                        notice: Some(notice),
                    },
                )
            },
            Ok(CompletionOutcome::RequestCancelled) => SubmitStep::Done(
                Submitted {
                    output: AgentSubmitResultOutput {
                        request_id: self.delivery.execution.request_id,
                        status: RequestStatus::Cancelled,
                    },
                    publish: None,
                    notice: None,
                },
            ),
            Err(e) => {
                let lost: bool = match &e {
                    AppError::Conflict(_) => true,
                    _ => false,
                };
                if lost {
                    return SubmitStep::Failed(
                        SubmitFailure {
                            error: AppError::Conflict("execution already completed".to_string()),
                            delete_key: None,
                        },
                    );
                }
                let delete_key = match self.manifest {
                    Some(m) => Some(m.storage_key),
                    None => {
                        if self.delivery.report.input.success {
                            None
                        } else {
                            Some(
                                concat3(
                                    self.delivery.execution.request_id.as_str(),
                                    "/",
                                    self.delivery.execution.id.as_str(),
                                ),
                            )
                        }
                    },
                };
                SubmitStep::Failed(SubmitFailure { error: e, delete_key })
            },
        }
    }
}

/// A failure is always kept and always told, whatever the result policy says
/// and whether or not results may be stored.
pub proof fn failures_are_kept_and_told(input: AgentSubmitResultInput, no_result_store: bool, policy:
    Option<ResultPolicy>)
    requires
        !input.success,
    ensures
        !(kept(input, no_result_store) is Nothing),
        stores(policy, false),
        streams(policy, false),
{
}

/// A request that keeps no results never has its data stored.
pub proof fn unstored_requests_keep_no_data(input: AgentSubmitResultInput)
    ensures
        !(kept(input, true) is Data),
{
}

/// Losing the race to complete an execution never deletes what the winner
/// stored.
pub proof fn lost_race_deletes_nothing(c: CompletionCommit, e: AppError)
    requires
        e is Conflict,
    ensures
        orphaned(c, e) is None,
{
}

/// The textual form of a selector gives back its kind and value, so a policy
/// grants access to exactly whom it names.
pub proof fn selector_text_parses_back(s: Selector)
    ensures
        selector_parts(s.text()) == (match s {
            Selector::Role(v) => (SelectorType::Role, v@),
            Selector::Group(v) => (SelectorType::Group, v@),
            Selector::User(v) => (SelectorType::User, v@),
        }),
{
    reveal_strlit("role:");
    reveal_strlit("group:");
    reveal_strlit("user:");
    match s {
        Selector::Role(v) => {
            let t = "role:"@ + v@;
            assert(t.subrange(0, 5) =~= "role:"@);
            assert(t.skip(5) =~= v@);
        },
        Selector::Group(v) => {
            let t = "group:"@ + v@;
            assert(t[0] == 'g');
            assert(has_prefix(t, "role:"@) ==> t.subrange(0, 5)[0] == 'r');
            assert(t.subrange(0, 6) =~= "group:"@);
            assert(t.skip(6) =~= v@);
        },
        Selector::User(v) => {
            let t = "user:"@ + v@;
            assert(t[0] == 'u');
            assert(has_prefix(t, "role:"@) ==> t.subrange(0, 5)[0] == 'r');
            assert(has_prefix(t, "group:"@) ==> t.subrange(0, 6)[0] == 'g');
            assert(t.subrange(0, 5) =~= "user:"@);
            assert(t.skip(5) =~= v@);
        },
    }
}

/// A report goes on only with authorization, of an execution that is found.
pub proof fn reports_are_authorized(
    start: SubmitStart,
    reply: Result<(), AuthzError>,
    a: Result<ExecutionLookup, AppError>,
    lookup: ExecutionLookup,
    execution: Option<Execution>,
    f: Result<ResourceCheck, AppError>,
    check: ResourceCheck,
    r: Result<RequestLookup, AppError>,
)
    requires
        call_ensures(SubmitStart::authorized, (start, reply), a),
        call_ensures(ExecutionLookup::found, (lookup, execution), f),
        call_ensures(ResourceCheck::authorized, (check, reply), r),
    ensures
        a is Ok <==> reply is Ok,
        a is Err ==> a->Err_0 is Forbidden,
        a is Ok ==> a->Ok_0.report == start.report,
        f is Ok <==> execution is Some,
        f is Err ==> f->Err_0 is NotFound,
        f is Ok ==> f->Ok_0.report == lookup.report && f->Ok_0.execution == execution->0,
        r is Ok <==> reply is Ok,
        r is Err ==> r->Err_0 is Forbidden,
        r is Ok ==> r->Ok_0.report == check.report && r->Ok_0.execution == check.execution,
{
}

/// A result is taken of a running execution, and of one that failed because it
/// was lost, as long as its request still is; of no other.
pub proof fn finished_executions_take_no_result(
    stage: RequestLookup,
    request: Option<Request>,
    r: Result<Completing, AppError>,
)
    requires
        call_ensures(RequestLookup::found, (stage, request), r),
    ensures
        r is Ok <==> request is Some && (stage.execution.status == ExecutionStatus::Claimed
            || stage.execution.status == ExecutionStatus::Failed && request->0.status
            == RequestStatus::ExecutionLost),
        request is None ==> r->Err_0 is Internal,
        request is Some && r is Err ==> r->Err_0 is Conflict,
        r matches Ok(s) ==> s.report == stage.report && s.execution == stage.execution && s.request
            == request->0,
{
}

/// The transition is asked for with how the execution ended.
pub proof fn completions_tell_how_it_ended(
    stage: Completing,
    now: Timestamp,
    context: TransitionContext,
    reply: TransitionReply,
    r: Result<PolicyLookup, AppError>,
)
    requires
        call_ensures(Completing::context, (&stage, now), context),
        call_ensures(Completing::transitioned, (stage, reply), r),
    ensures
        context.metadata == (EventMetadata::Completed {
            success: stage.report.input.success,
            execution_id: stage.execution.id,
        }),
        context.request_id == stage.request.id,
        context.actor_id == stage.report.caller_id,
        r is Ok <==> reply is Ok,
        r is Err ==> r->Err_0 is Conflict,
        r matches Ok(s) ==> s.report == stage.report && s.execution == stage.execution && s.request
            == stage.request && s.event == reply->Ok_0,
{
}

/// Data is refused exactly if it may be kept and is larger than the limit.
pub proof fn large_results_are_refused(
    stage: PolicyLookup,
    policy: Option<ResultPolicy>,
    r: Result<StoreStep, AppError>,
)
    requires
        call_ensures(PolicyLookup::policy, (stage, policy), r),
    ensures
        r is Err <==> !stage.request.no_result_store && stage.report.input.result_data is Some
            && stage.report.input.result_data->0@.len() > stage.report.max_persist_bytes,
        r is Err ==> r->Err_0 is PayloadTooLarge,
{
}

/// Data is written unless a success is only streamed, under the request and the
/// execution; of a request that keeps no results nothing but failures is.
pub proof fn results_are_stored_as_the_policy_says(
    stage: PolicyLookup,
    policy: Option<ResultPolicy>,
    step: StoreStep,
)
    requires
        call_ensures(
            PolicyLookup::policy,
            (stage, policy),
            Ok::<StoreStep, AppError>(step),
        ),
    ensures
        ({
            let input = stage.report.input;
            let has_data = !stage.request.no_result_store && input.result_data is Some;
            let only_streamed = input.success && policy is Some && policy->0.delivery_mode
                == DeliveryMode::Stream;
            &&& step is PutData <==> has_data && !only_streamed
            &&& step is Describe <==> has_data && only_streamed
            &&& step is PutFailure <==> !has_data && !input.success
            &&& step is Skip <==> !has_data && input.success
        }),
        step matches StoreStep::PutData(s) ==> s.data@ == stage.report.input.result_data->0@
            && s.key@ == stage.execution.request_id@ + "/"@ + stage.execution.id@,
        step matches StoreStep::Describe(s) ==> s.data@ == stage.report.input.result_data->0@
            && s.key@ == ""@,
        step matches StoreStep::PutFailure(s) ==> s.key@ == stage.execution.request_id@ + "/"@
            + stage.execution.id@,
        step matches StoreStep::Skip(s) ==> s.manifest is None,
{
}

/// The delivery of a step.
pub open spec fn delivery_of(step: StoreStep) -> Delivery {
    match step {
        StoreStep::Skip(s) => s.delivery,
        StoreStep::PutData(s) => s.delivery,
        StoreStep::Describe(s) => s.delivery,
        StoreStep::PutFailure(s) => s.delivery,
    }
}

/// A delivery keeps what the policy says for the days that it says, thirty
/// without one, shares it with whom it names, and tells waiting readers unless
/// a success is only stored.
pub proof fn deliveries_follow_the_policy(
    stage: PolicyLookup,
    policy: Option<ResultPolicy>,
    step: StoreStep,
)
    requires
        call_ensures(
            PolicyLookup::policy,
            (stage, policy),
            Ok::<StoreStep, AppError>(step),
        ),
    ensures
        ({
            let d = delivery_of(step);
            &&& d.execution == stage.execution
            &&& d.request == stage.request
            &&& d.event == stage.event
            &&& d.report.caller_id == stage.report.caller_id
            &&& d.report.input.success == stage.report.input.success
            &&& d.report.input.error_message == stage.report.input.error_message
            &&& d.report.input.rows_affected == stage.report.input.rows_affected
            &&& policy matches Some(p) ==> d.retention_days == p.retention_days && d.access@
                == p.access@
            &&& policy is None ==> d.retention_days == 30 && d.access@.len() == 0
                && d.should_stream
            &&& policy matches Some(p) ==> (d.should_stream <==> p.delivery_mode
                != DeliveryMode::StoreOnly || !stage.report.input.success)
        }),
{
}

/// A note of a failure says that it is one and why, in at most 4096 bytes.
pub proof fn failure_notes_say_why(
    stage: PolicyLookup,
    policy: Option<ResultPolicy>,
    note: PuttingFailure,
)
    requires
        call_ensures(
            PolicyLookup::policy,
            (stage, policy),
            Ok::<StoreStep, AppError>(StoreStep::PutFailure(note)),
        ),
    ensures
        exists|m: Map<Seq<char>, JsonTree>|
            note.note@ == encode_utf8(#[trigger] rendered_json(JsonTree::Object(m)))
                && m.dom().contains("success"@) && m["success"@] == JsonTree::Bool(false)
                && m.dom().contains("error"@) && m["error"@] == JsonTree::Text(
                truncated(
                    if stage.report.input.error_message is Some {
                        stage.report.input.error_message->0@
                    } else {
                        "unknown error"@
                    },
                    4096,
                ),
            ),
{
    reveal_strlit("success");
    reveal_strlit("error");
    assert("success"@.len() != "error"@.len());
    let m = Map::<Seq<char>, JsonTree>::empty().insert("success"@, JsonTree::Bool(false)).insert(
        "error"@,
        JsonTree::Text(
            truncated(
                match stage.report.input.error_message {
                    Some(m) => m@,
                    None => "unknown error"@,
                },
                4096,
            ),
        ),
    );
    assert(note.note@ == encode_utf8(rendered_json(JsonTree::Object(m))));
}

/// A stored result is described by its length and its digest, and expires after
/// the days that it is kept.
pub proof fn stored_results_are_described(
    put: PuttingData,
    stage: Describing,
    at: Timestamp,
    r: Recording,
)
    requires
        call_ensures(PuttingData::stored, (put,), stage),
        at.shiftable(stage.delivery.retention_days * 86_400),
        call_ensures(Describing::described, (stage, at), r),
    ensures
        r.delivery == put.delivery,
        r.manifest matches Some(m) && {
            &&& m.content_length == put.data@.len()
            &&& m.checksum_sha256@ == hex_text(sha256(put.data@))
            &&& m.storage_key@ == put.key@
            &&& m.storage_backend == put.delivery.report.storage_backend
            &&& m.request_id == put.delivery.execution.request_id
            &&& m.execution_id == put.delivery.execution.id
            &&& m.retention_days == put.delivery.retention_days
            &&& m.stored_at == at
            &&& m.expires_at.instant() - at.instant() == put.delivery.retention_days * 86_400
                * 1_000_000_000
            &&& !m.truncated
        },
{
}

/// A stored note is described by its length and its digest too.
pub proof fn stored_notes_are_described(stage: PuttingFailure, at: Timestamp, r: Recording)
    requires
        at.shiftable(stage.delivery.retention_days * 86_400),
        call_ensures(PuttingFailure::stored, (stage, at), r),
    ensures
        r.delivery == stage.delivery,
        r.manifest matches Some(m) && {
            &&& m.content_length == stage.note@.len()
            &&& m.checksum_sha256@ == hex_text(sha256(stage.note@))
            &&& m.storage_key@ == stage.key@
            &&& m.expires_at.instant() - at.instant() == stage.delivery.retention_days * 86_400
                * 1_000_000_000
        },
{
}

/// A selector text names a role, a group or a user by its prefix, and a user
/// without one.
pub proof fn selectors_are_told_apart(sel: &str, r: (SelectorType, String), v: Seq<char>)
    requires
        call_ensures(parse_selector_for_access, (sel,), r),
    ensures
        sel@ == "role:"@ + v ==> r.0 == SelectorType::Role && r.1@ == v,
        sel@ == "group:"@ + v ==> r.0 == SelectorType::Group && r.1@ == v,
        sel@ == "user:"@ + v ==> r.0 == SelectorType::User && r.1@ == v,
        r.0 == SelectorType::Role ==> sel@ == "role:"@ + r.1@,
        r.0 == SelectorType::Group ==> sel@ == "group:"@ + r.1@,
        r.0 == SelectorType::User ==> sel@ == "user:"@ + r.1@ || sel@ == r.1@,
{
    reveal_strlit("role:");
    reveal_strlit("group:");
    reveal_strlit("user:");
    let s = sel@;
    if s == "role:"@ + v {
        assert(s.subrange(0, 5) =~= "role:"@);
        assert(s.skip(5) =~= v);
    }
    if s == "group:"@ + v {
        assert(s[0] == 'g');
        assert(has_prefix(s, "role:"@) ==> s.subrange(0, 5)[0] == 'r');
        assert(s.subrange(0, 6) =~= "group:"@);
        assert(s.skip(6) =~= v);
    }
    if s == "user:"@ + v {
        assert(s[0] == 'u');
        assert(has_prefix(s, "role:"@) ==> s.subrange(0, 5)[0] == 'r');
        assert(has_prefix(s, "group:"@) ==> s.subrange(0, 6)[0] == 'g');
        assert(s.subrange(0, 5) =~= "user:"@);
        assert(s.skip(5) =~= v);
    }
    if has_prefix(s, "role:"@) {
        assert(s =~= "role:"@ + s.skip(5));
    } else if has_prefix(s, "group:"@) {
        assert(s =~= "group:"@ + s.skip(6));
    } else if has_prefix(s, "user:"@) {
        assert(s =~= "user:"@ + s.skip(5));
    }
}

/// Everyone whom the policy names, and nobody but them and those whom the
/// request shares it with, may read a described result; one that is not
/// described nobody.
pub proof fn policies_grant_access_to_whom_they_name(
    stage: Recording,
    now: Timestamp,
    r: CompletionCommit,
    i: int,
)
    requires
        call_ensures(Recording::record, (stage, now), r),
        0 <= i < stage.delivery.access@.len(),
    ensures
        r.manifest == stage.manifest,
        stage.manifest is None ==> r.access@.len() == 0,
        stage.manifest matches Some(m) ==> {
            let n = stage.delivery.request.share_with@.len();
            let a = r.access@[n + i];
            &&& r.access@.len() == n + stage.delivery.access@.len()
            &&& a.result_id@ == m.id@
            &&& stage.delivery.access@[i] matches Selector::Role(v) ==> a.selector_type
                == SelectorType::Role && a.selector_value@ == v@
            &&& stage.delivery.access@[i] matches Selector::Group(v) ==> a.selector_type
                == SelectorType::Group && a.selector_value@ == v@
            &&& stage.delivery.access@[i] matches Selector::User(v) ==> a.selector_type
                == SelectorType::User && a.selector_value@ == v@
        },
{
    selector_text_parses_back(stage.delivery.access@[i]);
    if let Some(m) = stage.manifest {
        let n = stage.delivery.request.share_with@.len();
        assert(access_records(r.access@, m.id@, stage.delivery));
        assert(grants(
            r.access@[n + i],
            m.id@,
            stage.delivery.access@[n + i - n].text(),
            m.id@ + "-pa-"@ + decimal((n + i) as nat),
        ));
    }
}

/// The record of a completion says whether it succeeded, who reported it, and
/// on what it ran.
pub proof fn completions_are_recorded(stage: Recording, now: Timestamp, r: CompletionCommit)
    requires
        call_ensures(Recording::record, (stage, now), r),
    ensures
        r.audit.event_type@ == "execution.completed"@ <==> stage.delivery.report.input.success,
        r.audit.event_type@ == "execution.failed"@ <==> !stage.delivery.report.input.success,
        r.audit.event_category@ == "execution"@,
        r.audit.actor_id@ == stage.delivery.report.caller_id@,
        r.audit.resource_id == Some(stage.delivery.execution.id),
        r.audit.created_at == now,
        r.audit.database_name == Some(stage.delivery.request.database),
        r.audit.environment == Some(stage.delivery.request.environment),
        r.audit.operation matches Some(o) && o@ == stage.delivery.request.operation.text(),
        r.delivery == stage.delivery,
        r.now == now,
{
    reveal_strlit("execution.completed");
    reveal_strlit("execution.failed");
    assert("execution.completed"@.len() != "execution.failed"@.len());
}

/// An execution is completed once, and a request that was cancelled meanwhile
/// stays so.
pub proof fn executions_are_completed_once(
    updated: bool,
    m: Result<(), AppError>,
    o: CompletionOutcome,
)
    requires
        call_ensures(execution_marked, (updated,), m),
        call_ensures(completion_outcome, (updated,), o),
    ensures
        m is Ok <==> updated,
        m is Err ==> m->Err_0 is Conflict,
        o is Normal <==> updated,
{
}

/// A completed report is answered with the status that the request has now, and
/// told to readers where they are to be told; a cancelled request is told to
/// nobody.
pub proof fn completed_reports_are_told(
    stage: CompletionCommit,
    outcome: CompletionOutcome,
    r: SubmitStep,
)
    requires
        call_ensures(
            CompletionCommit::committed,
            (stage, Ok::<CompletionOutcome, AppError>(outcome)),
            r,
        ),
    ensures
        r matches SubmitStep::Done(s) && {
            let d = stage.delivery;
            &&& s.output.request_id == d.execution.request_id
            &&& outcome is RequestCancelled ==> s.output.status == RequestStatus::Cancelled
                && s.publish is None && s.notice is None
            &&& outcome is Normal ==> s.output.status == d.event.new_status && s.notice is Some && (
            s.publish is Some <==> d.should_stream)
            &&& s.publish matches Some(p) ==> {
                &&& p.execution_id == d.execution.id
                &&& p.success == d.report.input.success
                &&& p.error_message == d.report.input.error_message
                &&& !p.success ==> p.rows_affected is None && p.result_data is None
                &&& p.success ==> p.rows_affected == d.report.input.rows_affected
                &&& p.success ==> (p.result_data is Some <==> d.report.input.result_data is Some)
                &&& p.result_data matches Some(t) ==> t@ == lossy_text(
                    d.report.input.result_data->0@,
                )
            }
        },
{
}

/// A report whose transaction fails leaves nothing behind that it stored, and
/// takes nothing away from one that was quicker.
pub proof fn failed_reports_leave_nothing_behind(stage: CompletionCommit, e: AppError, r: SubmitStep)
    requires
        call_ensures(
            CompletionCommit::committed,
            (stage, Err::<CompletionOutcome, AppError>(e)),
            r,
        ),
    ensures
        r matches SubmitStep::Failed(f) && {
            &&& e is Conflict ==> f.error is Conflict && f.delete_key is None
            &&& !(e is Conflict) ==> f.error == e
            &&& !(e is Conflict) && stage.manifest is Some ==> f.delete_key is Some
                && f.delete_key->0@ == stage.manifest->0.storage_key@
            &&& !(e is Conflict) && stage.manifest is None
                && !stage.delivery.report.input.success ==> f.delete_key is Some && f.delete_key->0@
                == stage.delivery.execution.request_id@ + "/"@ + stage.delivery.execution.id@
            &&& stage.manifest is None && stage.delivery.report.input.success
                ==> f.delete_key is None
        },
{
}

/// A report is the caller's, kept within the limit and where the settings say.
pub proof fn reports_are_of_the_caller(
    uc: AgentSubmitResult,
    input: AgentSubmitResultInput,
    user: AuthUser,
    r: SubmitStart,
)
    requires
        call_ensures(AgentSubmitResult::execute, (&uc, input, &user), r),
    ensures
        r.report.input == input,
        r.report.caller_id == user.subject_id,
        r.report.caller_type == user.subject_type,
        r.report.max_persist_bytes == uc.max_persist_bytes,
        r.report.storage_backend == uc.storage_backend,
{
}

/// A result expires a day after it was stored for each day that it is kept.
pub proof fn results_expire_after_their_days(at: Timestamp, days: u32, ok: bool, r: Timestamp)
    requires
        call_ensures(expiry_in_range, (&at, days), ok),
        ok ==> call_ensures(result_expiry, (&at, days), r),
    ensures
        ok <==> at.shiftable(days * 86_400),
        ok ==> r.instant() - at.instant() == days * 86_400 * 1_000_000_000,
{
}

/// The record of a completion holds how long it took, and of a success how many
/// rows it touched; where neither is known it holds nothing.
pub proof fn completions_tell_rows_and_time(stage: Recording, now: Timestamp, r: CompletionCommit)
    requires
        call_ensures(Recording::record, (stage, now), r),
    ensures
        ({
            let input = stage.delivery.report.input;
            let rows = input.success && input.rows_affected is Some;
            &&& !rows && input.duration_ms is None ==> r.audit.metadata_json@ == "{}"@
            &&& rows || input.duration_ms is Some ==> exists|m: Map<Seq<char>, JsonTree>|
                r.audit.metadata_json@ == #[trigger] rendered_json(JsonTree::Object(m)) && {
                    &&& rows ==> m.dom().contains("rows_affected"@) && m["rows_affected"@]
                        == JsonTree::Number(uint_number(input.rows_affected->0))
                    &&& input.duration_ms matches Some(d) ==> m.dom().contains("duration_ms"@)
                        && m["duration_ms"@] == JsonTree::Number(uint_number(d))
                    &&& !rows ==> (m.dom().contains("rows_affected"@) <==> metadata_members(
                        "{}"@,
                    ).dom().contains("rows_affected"@))
                }
        }),
{
    reveal_strlit("rows_affected");
    reveal_strlit("duration_ms");
    assert("rows_affected"@.len() != "duration_ms"@.len());
    let input = stage.delivery.report.input;
    let rows = if input.success {
        input.rows_affected
    } else {
        None
    };
    let m0 = metadata_members("{}"@);
    let m1 = match rows {
        Some(n) => m0.insert("rows_affected"@, JsonTree::Number(uint_number(n))),
        None => m0,
    };
    let m2 = match input.duration_ms {
        Some(n) => m1.insert("duration_ms"@, JsonTree::Number(uint_number(n))),
        None => m1,
    };
    if rows is Some || input.duration_ms is Some {
        assert(r.audit.metadata_json@ == rendered_json(JsonTree::Object(m2)));
    }
}

/// Whom a request is shared with may read its described result, each as the text
/// says: a role, a group or a user.
pub proof fn requests_grant_access_to_whom_they_are_shared_with(
    stage: Recording,
    now: Timestamp,
    r: CompletionCommit,
    i: int,
    v: Seq<char>,
)
    requires
        call_ensures(Recording::record, (stage, now), r),
        stage.manifest is Some,
        0 <= i < stage.delivery.request.share_with@.len(),
    ensures
        ({
            let shared = stage.delivery.request.share_with@[i]@;
            let a = r.access@[i];
            &&& a.result_id@ == stage.manifest->0.id@
            &&& a.id@ == stage.manifest->0.id@ + "-ra-"@ + decimal(i as nat)
            &&& shared == "role:"@ + v ==> a.selector_type == SelectorType::Role
                && a.selector_value@ == v
            &&& shared == "group:"@ + v ==> a.selector_type == SelectorType::Group
                && a.selector_value@ == v
            &&& shared == "user:"@ + v ==> a.selector_type == SelectorType::User
                && a.selector_value@ == v
        }),
{
    reveal_strlit("role:");
    reveal_strlit("group:");
    reveal_strlit("user:");
    let s = stage.delivery.request.share_with@[i]@;
    let m = stage.manifest->0;
    assert(grants(r.access@[i], m.id@, s, m.id@ + "-ra-"@ + decimal(i as nat)));
    if s == "role:"@ + v {
        assert(s.subrange(0, 5) =~= "role:"@);
        assert(s.skip(5) =~= v);
    }
    if s == "group:"@ + v {
        assert(s[0] == 'g');
        assert(has_prefix(s, "role:"@) ==> s.subrange(0, 5)[0] == 'r');
        assert(s.subrange(0, 6) =~= "group:"@);
        assert(s.skip(6) =~= v);
    }
    if s == "user:"@ + v {
        assert(s[0] == 'u');
        assert(has_prefix(s, "role:"@) ==> s.subrange(0, 5)[0] == 'r');
        assert(has_prefix(s, "group:"@) ==> s.subrange(0, 6)[0] == 'g');
        assert(s.subrange(0, 5) =~= "user:"@);
        assert(s.skip(5) =~= v);
    }
}

} // verus!
