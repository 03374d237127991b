//! Audit records and notifications made from status changes.

use vstd::prelude::*;

use crate::domain::{AuditEvent, EventMetadata, RequestStatus, TransitionEvent};
use crate::json::{
    collect_texts, parsed_json, rendered_json, texts_in, uint_number, Json, JsonObject, JsonTree,
};
use crate::ports::WebhookEvent;
use crate::text::{
    byte_len, chars_of, concat2, concat3, decimal, decimal_text, join, join_texts, same_text, texts,
    utf8_len,
};
use crate::time::Timestamp;

verus! {

/// How much of a statement an audit record keeps.
#[derive(Clone, Copy, Debug, PartialEq, Eq, Structural)]
pub enum RedactionMode {
    Off,
    Literals,
    Full,
}

impl Default for RedactionMode {
    fn default() -> (r: Self)
        ensures
            r == RedactionMode::Literals,
    {
        RedactionMode::Literals
    }
}

/// The type and category under which an event is recorded.
pub open spec fn event_kind(e: TransitionEvent) -> (Seq<char>, Seq<char>) {
    match e.metadata {
        EventMetadata::Created { emergency, .. } => if emergency {
            ("request.break_glass"@, "approval"@)
        } else if e.new_status == RequestStatus::AutoApproved {
            ("request.auto_approved"@, "approval"@)
        } else {
            ("request.created"@, "approval"@)
        },
        EventMetadata::StepApproved { .. } => ("step.approved"@, "approval"@),
        EventMetadata::Approved { .. } => ("request.approved"@, "approval"@),
        EventMetadata::Rejected { .. } => ("request.rejected"@, "approval"@),
        EventMetadata::Cancelled { .. } => ("request.cancelled"@, "approval"@),
        EventMetadata::Dispatched => ("request.dispatched"@, "approval"@),
        EventMetadata::Claimed { .. } => ("execution.started"@, "execution"@),
        EventMetadata::Completed { success, .. } => if success {
            ("execution.completed"@, "execution"@)
        } else {
            ("execution.failed"@, "execution"@)
        },
        EventMetadata::ExecutionLost { .. } => ("execution.lost"@, "agent"@),
        EventMetadata::Expired => ("request.expired"@, "approval"@),
    }
}

/// The type and category under which an event is recorded.
pub fn event_type_and_category(event: &TransitionEvent) -> (r: (&'static str, &'static str))
    ensures
        (r.0@, r.1@) == event_kind(*event),
{
    match &event.metadata {
        EventMetadata::Created { emergency, .. } => {
            if *emergency {
                ("request.break_glass", "approval")
            } else if event.new_status == RequestStatus::AutoApproved {
                ("request.auto_approved", "approval")
            } else {
                ("request.created", "approval")
            }
        },
        EventMetadata::StepApproved { .. } => ("step.approved", "approval"),
        EventMetadata::Approved { .. } => ("request.approved", "approval"),
        EventMetadata::Rejected { .. } => ("request.rejected", "approval"),
        EventMetadata::Cancelled { .. } => ("request.cancelled", "approval"),
        EventMetadata::Dispatched => ("request.dispatched", "approval"),
        EventMetadata::Claimed { .. } => ("execution.started", "execution"),
        EventMetadata::Completed { success, .. } => {
            if *success {
                ("execution.completed", "execution")
            } else {
                ("execution.failed", "execution")
            }
        },
        EventMetadata::ExecutionLost { .. } => ("execution.lost", "agent"),
        EventMetadata::Expired => ("request.expired", "approval"),
    }
}

/// The members of the object that a text denotes; none where it denotes no
/// object.
pub open spec fn metadata_members(text: Seq<char>) -> Map<Seq<char>, JsonTree> {
    match parsed_json(text) {
        Some(JsonTree::Object(m)) => m,
        _ => Map::empty(),
    }
}

/// The members of the object that a text denotes; none where it denotes no
/// object.
pub fn parse_metadata_object(text: &str) -> (r: JsonObject)
    ensures
        r@ == metadata_members(text@),
{
    match Json::parse(text) {
        Some(j) => JsonObject::of(j),
        None => JsonObject::new(),
    }
}

/// The execution that an event is about.
pub open spec fn event_execution(m: EventMetadata) -> Option<String> {
    match m {
        EventMetadata::Claimed { execution_id, .. } => Some(execution_id),
        EventMetadata::Completed { execution_id, .. } => Some(execution_id),
        EventMetadata::ExecutionLost { execution_id } => Some(execution_id),
        _ => None,
    }
}

/// `m` with the member `key` where there is a text for it.
pub open spec fn with_text(m: Map<Seq<char>, JsonTree>, key: Seq<char>, v: Option<String>) -> Map<
    Seq<char>,
    JsonTree,
> {
    match v {
        Some(s) => m.insert(key, JsonTree::Text(s@)),
        None => m,
    }
}

/// The metadata text of the record of `e`.
pub open spec fn event_metadata(e: TransitionEvent) -> Seq<char> {
    let base = metadata_members("{}"@);
    match e.metadata {
        EventMetadata::Approved { comment, matched_selector } => rendered_json(
            JsonTree::Object(
                with_text(
                    with_text(base, "approval_comment"@, comment).insert(
                        "matched_selector"@,
                        JsonTree::Text(matched_selector@),
                    ),
                    "auth_token_id"@,
                    e.auth_token_id,
                ),
            ),
        ),
        EventMetadata::StepApproved { step_index, total_steps, comment, matched_selector } =>
        rendered_json(
            JsonTree::Object(
                with_text(
                    with_text(base, "approval_comment"@, comment).insert(
                        "step_number"@,
                        JsonTree::Number(uint_number((step_index + 1) as u64)),
                    ).insert(
                        "total_steps"@,
                        JsonTree::Number(uint_number(total_steps as u64)),
                    ).insert("matched_selector"@, JsonTree::Text(matched_selector@)),
                    "auth_token_id"@,
                    e.auth_token_id,
                ),
            ),
        ),
        _ => if e.auth_token_id is Some {
            rendered_json(
                JsonTree::Object(with_text(base, "auth_token_id"@, e.auth_token_id)),
            )
        } else {
            "{}"@
        },
    }
}

fn put_text(o: JsonObject, key: &str, v: &Option<String>) -> (r: JsonObject)
    ensures
        r@ == with_text(o@, key@, *v),
{
    match v {
        Some(s) => o.with(key, Json::text(s.as_str())),
        None => o,
    }
}

/// Whether `r` is the audit record of the event `e` at `now`, the kept text of
/// a created request aside.
pub open spec fn records(r: AuditEvent, e: TransitionEvent, now: Timestamp) -> bool {
    &&& (r.event_type@, r.event_category@) == event_kind(e)
    &&& r.actor_id@ == e.actor_id@
    &&& r.created_at == now
    &&& r.request_id == Some(e.request_id)
    &&& r.resource_id == (match event_execution(e.metadata) {
        Some(x) => Some(x),
        None => Some(e.request_id),
    })
    &&& r.database_name == Some(e.database)
    &&& r.environment == Some(e.environment)
    &&& r.operation is Some
    &&& r.operation->0@ == e.operation.text()
    &&& r.reason == (match e.metadata {
        EventMetadata::Rejected { comment } => comment,
        _ => None,
    })
    &&& r.metadata_json@ == event_metadata(e)
}

/// The audit record of a status change. The statement of a created request is
/// kept as `redact` leaves it, as it is, or not at all, by `redaction_mode`;
/// its fingerprint is always what `redact` makes of it.
pub fn build_audit_event<F: Fn(&str) -> String>(
    event: &TransitionEvent,
    now: Timestamp,
    redaction_mode: RedactionMode,
    redact: F,
) -> (r: AuditEvent)
    requires
        forall|s: &str| call_requires(redact, (s,)),
    ensures
        records(r, *event, now),
        match event.metadata {
            EventMetadata::Created { detail, .. } => {
                &&& r.detail_fingerprint is Some
                &&& exists|s: &str|
                    s@ == detail@ && call_ensures(redact, (s,), r.detail_fingerprint->0)
                &&& match redaction_mode {
                    RedactionMode::Off => r.detail_raw == Some(detail),
                    RedactionMode::Literals => r.detail_raw is Some && exists|s: &str|
                        s@ == detail@ && call_ensures(redact, (s,), r.detail_raw->0),
                    RedactionMode::Full => r.detail_raw is None,
                }
            },
            _ => r.detail_fingerprint is None && r.detail_raw is None,
        },
{
    let (event_type, category) = event_type_and_category(event);
    let mut audit_event = AuditEvent::simple(
        event_type,
        category,
        event.actor_id.as_str(),
        Some(event.request_id.clone()),
        now,
    );
    audit_event.request_id = Some(event.request_id.clone());
    audit_event.database_name = Some(event.database.clone());
    audit_event.environment = Some(event.environment.clone());
    audit_event.operation = Some(event.operation.as_str().to_string());
    match &event.metadata {
        EventMetadata::Claimed { execution_id, .. } => {
            audit_event.resource_id = Some(execution_id.clone());
        },
        EventMetadata::Completed { execution_id, .. } => {
            audit_event.resource_id = Some(execution_id.clone());
        },
        EventMetadata::ExecutionLost { execution_id } => {
            audit_event.resource_id = Some(execution_id.clone());
        },
        _ => {},
    }
    match &event.metadata {
        EventMetadata::Created { detail, .. } => {
            audit_event.detail_fingerprint = Some(redact(detail.as_str()));
            match redaction_mode {
                RedactionMode::Off => {
                    audit_event.detail_raw = Some(detail.clone());
                },
                RedactionMode::Literals => {
                    audit_event.detail_raw = Some(redact(detail.as_str()));
                },
                RedactionMode::Full => {},
            }
        },
        EventMetadata::Rejected { comment } => {
            audit_event.reason = comment.clone();
        },
        _ => {},
    }
    match &event.metadata {
        EventMetadata::Approved { comment, matched_selector } => {
            let meta = parse_metadata_object(audit_event.metadata_json.as_str());
            let meta = put_text(meta, "approval_comment", comment);
            let meta = meta.with("matched_selector", Json::text(matched_selector.as_str()));
            let meta = put_text(meta, "auth_token_id", &event.auth_token_id);
            audit_event.metadata_json = meta.build().render();
        },
        EventMetadata::StepApproved { step_index, total_steps, comment, matched_selector } => {
            let meta = parse_metadata_object(audit_event.metadata_json.as_str());
            let meta = put_text(meta, "approval_comment", comment);
            let meta = meta.with("step_number", Json::unsigned(*step_index as u64 + 1));
            let meta = meta.with("total_steps", Json::unsigned(*total_steps as u64));
            let meta = meta.with("matched_selector", Json::text(matched_selector.as_str()));
            let meta = put_text(meta, "auth_token_id", &event.auth_token_id);
            audit_event.metadata_json = meta.build().render();
        },
        _ => {
            if event.auth_token_id.is_some() {
                let meta = parse_metadata_object(audit_event.metadata_json.as_str());
                let meta = put_text(meta, "auth_token_id", &event.auth_token_id);
                audit_event.metadata_json = meta.build().render();
            }
        },
    }
    audit_event
}

/// Leaves a statement as it is.
pub fn noop_redact(s: &str) -> (r: String)
    ensures
        r@ == s@,
{
    s.to_string()
}

/// Whether `r` is the audit record of the event `e` at `now` under `mode`, where
/// nothing of the statement of a created request is redacted: it is kept as it
/// is, or not at all.
pub open spec fn records_unredacted(
    r: AuditEvent,
    e: TransitionEvent,
    now: Timestamp,
    mode: RedactionMode,
) -> bool {
    &&& records(r, e, now)
    &&& match e.metadata {
        EventMetadata::Created { detail, .. } => {
            &&& r.detail_fingerprint is Some
            &&& r.detail_fingerprint->0@ == detail@
            &&& match mode {
                RedactionMode::Full => r.detail_raw is None,
                _ => r.detail_raw is Some && r.detail_raw->0@ == detail@,
            }
        },
        _ => r.detail_fingerprint is None && r.detail_raw is None,
    }
}

/// Whether `r` is the audit record of the event `e` at `now`, with the
/// statement of a created request kept as it is.
pub open spec fn plainly_records(r: AuditEvent, e: TransitionEvent, now: Timestamp) -> bool {
    records_unredacted(r, e, now, RedactionMode::Literals)
}

/// The audit record of a status change under the default mode, nothing
/// redacted.
pub fn plain_audit_event(event: &TransitionEvent, now: Timestamp) -> (r: AuditEvent)
    ensures
        plainly_records(r, *event, now),
{
    build_audit_event(event, now, RedactionMode::default(), noop_redact)
}

/// Whether `c` may stand in a migration version.
pub open spec fn version_char(c: char) -> bool {
    ||| '0' <= c <= '9'
    ||| 'a' <= c <= 'z'
    ||| 'A' <= c <= 'Z'
    ||| c == '_'
    ||| c == '-'
    ||| c == '.'
}

/// Whether a text is a plain migration version.
pub open spec fn plain_version(v: Seq<char>) -> bool {
    utf8_len(v) <= 64 && forall|i: int| 0 <= i < v.len() ==> version_char(#[trigger] v[i])
}

/// A version as it may be shown: itself if it is plain, else only its size.
pub open spec fn sanitized_version(v: Seq<char>) -> Seq<char> {
    if plain_version(v) {
        v
    } else {
        "<invalid:"@ + decimal(utf8_len(v)) + ">"@
    }
}

/// A version as it may be shown: itself if it is plain, else only its size.
pub fn sanitize_version(v: &str) -> (r: String)
    ensures
        r@ == sanitized_version(v@),
{
    let cs = chars_of(v);
    let size: usize = byte_len(v);
    let mut plain: bool = size <= 64;
    let n: usize = cs.len();
    let mut i: usize = 0;
    while i < n
        invariant
            i <= n,
            n == cs@.len(),
            cs@ == v@,
            size == utf8_len(v@),
            plain == (size <= 64 && forall|k: int|
                0 <= k < i ==> version_char(#[trigger] v@[k])),
        decreases n - i,
    {
        let c: char = cs[i];
        let ok: bool = ('0' <= c && c <= '9') || ('a' <= c && c <= 'z') || ('A' <= c && c <= 'Z')
            || c == '_' || c == '-' || c == '.';
        if !ok {
            plain = false;
        }
        i += 1;
    }
    if plain {
        v.to_string()
    } else {
        concat3("<invalid:", decimal_text(size as u64).as_str(), ">")
    }
}

/// The versions of a list as they may be shown, in order.
pub open spec fn sanitized_versions(s: Seq<Seq<char>>) -> Seq<Seq<char>> {
    s.map_values(|v: Seq<char>| sanitized_version(v))
}

/// The summary of a migration request: its operation, versions and limit.
pub open spec fn migrate_summary_text(operation: Seq<char>, doc: JsonTree) -> Seq<char> {
    let versions = match doc.at("versions"@).as_array() {
        Some(items) => join(sanitized_versions(texts_in(items)), ","@),
        None => Seq::empty(),
    };
    match doc.at("max_count"@).as_uint() {
        Some(n) => operation + ": versions=["@ + versions + "] max_count="@ + decimal(n as nat),
        None => operation + ": versions=["@ + versions + "]"@,
    }
}

/// The summary of a migration request: its operation, versions and limit.
pub fn migrate_summary(operation: &str, doc: &Json) -> (r: String)
    ensures
        r@ == migrate_summary_text(operation@, doc@),
{
    let versions = match doc.get("versions") {
        Some(j) => match j.as_array() {
            Some(items) => {
                let found = collect_texts(items);
                let mut shown: Vec<String> = Vec::new();
                let n: usize = found.len();
                let mut i: usize = 0;
                while i < n
                    invariant
                        i <= n,
                        n == found@.len(),
                        shown@.len() == i,
                        forall|k: int|
                            0 <= k < i ==> (#[trigger] shown@[k])@ == sanitized_version(
                                found@[k]@,
                            ),
                    decreases n - i,
                {
                    shown.push(sanitize_version(found[i].as_str()));
                    i += 1;
                }
                assert(texts(shown@) =~= sanitized_versions(texts(found@)));
                join_texts(&shown, ",")
            },
            None => String::new(),
        },
        None => String::new(),
    };
    let max_count = match doc.get("max_count") {
        Some(j) => j.as_u64(),
        None => None,
    };
    let mut out = concat3(operation, ": versions=[", versions.as_str());
    match max_count {
        Some(n) => {
            out.append("] max_count=");
            out.append(decimal_text(n).as_str());
        },
        None => {
            out.append("]");
        },
    }
    out
}

/// The detail of a request as a notification shows it: a summary without
/// statements for migrations, the detail itself otherwise.
pub open spec fn webhook_detail(operation: Seq<char>, detail: Seq<char>) -> Seq<char> {
    if operation == "migrate_up"@ || operation == "migrate_down"@ {
        match parsed_json(detail) {
            Some(doc) => migrate_summary_text(operation, doc),
            None => operation + ": <parse error>"@,
        }
    } else {
        detail
    }
}

/// The summary of the detail of a migration request.
pub fn summarize_migrate_detail(operation: &str, detail: &str) -> (r: String)
    ensures
        r@ == (match parsed_json(detail@) {
            Some(doc) => migrate_summary_text(operation@, doc),
            None => operation@ + ": <parse error>"@,
        }),
{
    match Json::parse(detail) {
        Some(doc) => migrate_summary(operation, &doc),
        None => concat2(operation, ": <parse error>"),
    }
}

/// The detail of a request as a notification shows it.
pub fn redact_webhook_detail(operation: &str, detail: &str) -> (r: String)
    ensures
        r@ == webhook_detail(operation@, detail@),
{
    if same_text(operation, "migrate_up") || same_text(operation, "migrate_down") {
        summarize_migrate_detail(operation, detail)
    } else {
        detail.to_string()
    }
}

/// Whether `w` is the notification of the event `e`.
pub open spec fn notifies(w: WebhookEvent, e: TransitionEvent) -> bool {
    &&& w.event_type@ == event_kind(e).0
    &&& w.request_id == Some(e.request_id)
    &&& w.database == Some(e.database)
    &&& w.environment == Some(e.environment)
    &&& w.actor == Some(e.actor_id)
    &&& w.detail is None
    &&& w.requester == Some(e.requester_id)
    &&& w.operation is Some
    &&& w.operation->0@ == e.operation.text()
    &&& w.reason == (match e.metadata {
        EventMetadata::Rejected { comment } => comment,
        EventMetadata::Cancelled { reason } => reason,
        _ => None,
    })
    &&& match e.metadata {
        EventMetadata::Created { detail, .. } => w.redacted_detail is Some
            && w.redacted_detail->0@ == webhook_detail(e.operation.text(), detail@),
        _ => w.redacted_detail is None,
    }
    &&& match e.metadata {
        EventMetadata::Completed { success: false, execution_id } => w.error_summary is Some
            && w.error_summary->0@ == "execution "@ + execution_id@ + " failed"@,
        EventMetadata::ExecutionLost { execution_id } => w.error_summary is Some
            && w.error_summary->0@ == "execution "@ + execution_id@ + " lost"@,
        _ => w.error_summary is None,
    }
    &&& w.approval_hint is None
    &&& w.step_index == (match e.metadata {
        EventMetadata::StepApproved { step_index, .. } => Some(step_index),
        _ => None,
    })
    &&& w.total_steps == (match e.metadata {
        EventMetadata::StepApproved { total_steps, .. } => Some(total_steps),
        _ => None,
    })
    &&& w.expires_at is None
    &&& w.approvers is None
    &&& w.matched_selector == (match e.metadata {
        EventMetadata::StepApproved { matched_selector, .. } => Some(matched_selector),
        EventMetadata::Approved { matched_selector, .. } => Some(matched_selector),
        _ => None,
    })
}

/// The notification of a status change.
pub fn build_webhook_event(event: &TransitionEvent) -> (r: WebhookEvent)
    ensures
        notifies(r, *event),
{
    let (event_type, _) = event_type_and_category(event);
    let reason = match &event.metadata {
        EventMetadata::Rejected { comment } => comment.clone(),
        EventMetadata::Cancelled { reason } => reason.clone(),
        _ => None,
    };
    let redacted_detail = match &event.metadata {
        EventMetadata::Created { detail, .. } => Some(
            redact_webhook_detail(event.operation.as_str(), detail.as_str()),
        ),
        _ => None,
    };
    let error_summary = match &event.metadata {
        EventMetadata::Completed { success, execution_id } => {
            if *success {
                None
            } else {
                Some(concat3("execution ", execution_id.as_str(), " failed"))
            }
        },
        EventMetadata::ExecutionLost { execution_id } => Some(
            concat3("execution ", execution_id.as_str(), " lost"),
        ),
        _ => None,
    };
    let steps = match &event.metadata {
        EventMetadata::StepApproved { step_index, total_steps, .. } => (
            Some(*step_index),
            Some(*total_steps),
        ),
        _ => (None, None),
    };
    let matched_selector = match &event.metadata {
        EventMetadata::StepApproved { matched_selector, .. } => Some(matched_selector.clone()),
        EventMetadata::Approved { matched_selector, .. } => Some(matched_selector.clone()),
        _ => None,
    };
    WebhookEvent {
        event_type: event_type.to_string(),
        request_id: Some(event.request_id.clone()),
        database: Some(event.database.clone()),
        environment: Some(event.environment.clone()),
        actor: Some(event.actor_id.clone()),
        detail: None,
        requester: Some(event.requester_id.clone()),
        reason,
        redacted_detail,
        error_summary,
        approval_hint: None,
        operation: Some(event.operation.as_str().to_string()),
        step_index: steps.0,
        total_steps: steps.1,
        expires_at: None,
        approvers: None,
        matched_selector,
    }
}

/// Whether `c` may stand in a version as it is shown.
pub open spec fn shown_char(c: char) -> bool {
    version_char(c) || c == '<' || c == ':' || c == '>'
}

/// A version as it is shown holds letters, digits and a few marks only,
/// whatever the version holds: no space, quote, bracket or semicolon of a
/// statement gets through.
pub proof fn sanitized_version_is_inert(v: Seq<char>)
    ensures
        forall|i: int|
            0 <= i < sanitized_version(v).len() ==> shown_char(#[trigger] sanitized_version(v)[i]),
{
    if !plain_version(v) {
        reveal_strlit("<invalid:");
        reveal_strlit(">");
        crate::text::lemma_decimal_digits(utf8_len(v));
        let s = sanitized_version(v);
        assert forall|i: int| 0 <= i < s.len() implies shown_char(#[trigger] s[i]) by {
            if i < "<invalid:"@.len() {
                assert(s[i] == "<invalid:"@[i]);
            } else if i < s.len() - 1 {
                assert(s[i] == decimal(utf8_len(v))[i - "<invalid:"@.len()]);
            } else {
                assert(s[i] == ">"@[0]);
            }
        }
    }
}

/// A plain version is shown as it is.
pub proof fn sanitizing_keeps_plain_versions(v: Seq<char>)
    requires
        plain_version(v),
    ensures
        sanitized_version(v) == v,
{
}

/// A notification of a migration tells nothing of its statements: two details
/// that agree on their versions and their limit are shown alike, and so are
/// any two details that are no JSON.
pub proof fn migration_notice_hides_statements(operation: Seq<char>, a: Seq<char>, b: Seq<char>)
    requires
        operation == "migrate_up"@ || operation == "migrate_down"@,
        match (parsed_json(a), parsed_json(b)) {
            (Some(x), Some(y)) => x.at("versions"@) == y.at("versions"@) && x.at("max_count"@)
                == y.at("max_count"@),
            (None, None) => true,
            _ => false,
        },
    ensures
        webhook_detail(operation, a) == webhook_detail(operation, b),
{
}

/// A record of an execution is found by the execution, every other record by
/// its request, and each is tied to its request.
pub proof fn record_names_its_subject(r: AuditEvent, e: TransitionEvent, now: Timestamp)
    requires
        records(r, e, now),
    ensures
        r.request_id == Some(e.request_id),
        r.resource_id == Some(e.request_id) <==> (event_execution(e.metadata) is None
            || event_execution(e.metadata) == Some(e.request_id)),
        event_execution(e.metadata) is Some ==> r.resource_id == event_execution(e.metadata),
{
}

/// Every change is recorded under its own name.
pub proof fn changes_go_by_their_names(e: TransitionEvent, r: (&'static str, &'static str))
    requires
        call_ensures(event_type_and_category, (&e,), r),
    ensures
        e.metadata matches EventMetadata::Created { emergency, .. } ==> {
            &&& emergency ==> r.0@ == "request.break_glass"@
            &&& !emergency && e.new_status == RequestStatus::AutoApproved ==> r.0@
                == "request.auto_approved"@
            &&& !emergency && e.new_status != RequestStatus::AutoApproved ==> r.0@
                == "request.created"@
        },
        e.metadata is StepApproved ==> r.0@ == "step.approved"@,
        e.metadata is Approved ==> r.0@ == "request.approved"@,
        e.metadata is Rejected ==> r.0@ == "request.rejected"@,
        e.metadata is Cancelled ==> r.0@ == "request.cancelled"@,
        e.metadata is Dispatched ==> r.0@ == "request.dispatched"@,
        e.metadata is Claimed ==> r.0@ == "execution.started"@,
        e.metadata matches EventMetadata::Completed { success, .. } ==> (success ==> r.0@
            == "execution.completed"@) && (!success ==> r.0@ == "execution.failed"@),
        e.metadata is ExecutionLost ==> r.0@ == "execution.lost"@,
        e.metadata is Expired ==> r.0@ == "request.expired"@,
        e.metadata is Claimed || e.metadata is Completed ==> r.1@ == "execution"@,
        e.metadata is ExecutionLost ==> r.1@ == "agent"@,
        !(e.metadata is Claimed) && !(e.metadata is Completed) && !(e.metadata is ExecutionLost)
            ==> r.1@ == "approval"@,
{
}

/// A record says who changed what, when, on which database; an execution is
/// named where there is one, and only a rejection has a reason.
pub proof fn records_say_who_and_what<F: Fn(&str) -> String>(
    e: TransitionEvent,
    now: Timestamp,
    mode: RedactionMode,
    redact: F,
    r: AuditEvent,
)
    requires
        call_ensures(build_audit_event::<F>, (&e, now, mode, redact), r),
    ensures
        r.actor_id@ == e.actor_id@,
        r.created_at == now,
        r.request_id == Some(e.request_id),
        r.database_name == Some(e.database),
        r.environment == Some(e.environment),
        r.operation matches Some(o) && o@ == e.operation.text(),
        e.metadata matches EventMetadata::Claimed { execution_id, .. } ==> r.resource_id == Some(
            execution_id,
        ),
        e.metadata matches EventMetadata::Completed { execution_id, .. } ==> r.resource_id == Some(
            execution_id,
        ),
        e.metadata matches EventMetadata::ExecutionLost { execution_id } ==> r.resource_id == Some(
            execution_id,
        ),
        !(e.metadata is Claimed) && !(e.metadata is Completed) && !(e.metadata is ExecutionLost)
            ==> r.resource_id == Some(e.request_id),
        e.metadata matches EventMetadata::Rejected { comment } ==> r.reason == comment,
        !(e.metadata is Rejected) ==> r.reason is None,
{
}

/// The statement of a created request is kept as the mode says: as it is, as it
/// is redacted, or not at all; of nothing else is a statement kept.
pub proof fn statements_are_kept_as_the_mode_says<F: Fn(&str) -> String>(
    e: TransitionEvent,
    now: Timestamp,
    mode: RedactionMode,
    redact: F,
    r: AuditEvent,
)
    requires
        call_ensures(build_audit_event::<F>, (&e, now, mode, redact), r),
    ensures
        !(e.metadata is Created) ==> r.detail_raw is None && r.detail_fingerprint is None,
        e.metadata matches EventMetadata::Created { detail, .. } ==> {
            &&& mode == RedactionMode::Off ==> r.detail_raw == Some(detail)
            &&& mode == RedactionMode::Full ==> r.detail_raw is None
            &&& mode == RedactionMode::Literals ==> r.detail_raw is Some && exists|s: &str|
                s@ == detail@ && call_ensures(redact, (s,), r.detail_raw->0)
            &&& r.detail_fingerprint is Some && exists|s: &str|
                s@ == detail@ && call_ensures(redact, (s,), r.detail_fingerprint->0)
        },
{
}

/// The metadata of a record is an object that holds the token of the caller if
/// they had one, and of an approval the selector and the comment.
pub proof fn approvals_are_recorded_with_their_selector(e: TransitionEvent, now: Timestamp, r: AuditEvent)
    requires
        call_ensures(plain_audit_event, (&e, now), r),
        e.metadata is Approved || e.metadata is StepApproved,
    ensures
        exists|m: Map<Seq<char>, JsonTree>|
            r.metadata_json@ == #[trigger] rendered_json(JsonTree::Object(m)) && {
                &&& m.dom().contains("matched_selector"@)
                &&& e.metadata matches EventMetadata::Approved { comment, matched_selector } ==> {
                    &&& m["matched_selector"@] == JsonTree::Text(matched_selector@)
                    &&& comment matches Some(c) ==> m.dom().contains("approval_comment"@)
                        && m["approval_comment"@] == JsonTree::Text(c@)
                }
                &&& e.metadata matches EventMetadata::StepApproved {
                    step_index,
                    total_steps,
                    comment,
                    matched_selector,
                } ==> {
                    &&& m["matched_selector"@] == JsonTree::Text(matched_selector@)
                    &&& comment matches Some(c) ==> m.dom().contains("approval_comment"@)
                        && m["approval_comment"@] == JsonTree::Text(c@)
                    &&& m.dom().contains("step_number"@) && m["step_number"@] == JsonTree::Number(
                        uint_number((step_index + 1) as u64),
                    )
                    &&& m.dom().contains("total_steps"@) && m["total_steps"@] == JsonTree::Number(
                        uint_number(total_steps as u64),
                    )
                }
                &&& e.auth_token_id matches Some(t) ==> m.dom().contains("auth_token_id"@)
                    && m["auth_token_id"@] == JsonTree::Text(t@)
            },
{
    reveal_strlit("approval_comment");
    reveal_strlit("matched_selector");
    reveal_strlit("auth_token_id");
    reveal_strlit("step_number");
    reveal_strlit("total_steps");
    assert("approval_comment"@[0] == 'a' && "matched_selector"@[0] == 'm');
    assert("auth_token_id"@.len() == 13 && "approval_comment"@.len() == 16
        && "matched_selector"@.len() == 16);
    assert("step_number"@.len() == 11 && "total_steps"@.len() == 11);
    assert("step_number"@[0] == 's' && "total_steps"@[0] == 't');
    let base = metadata_members("{}"@);
    match e.metadata {
        EventMetadata::Approved { comment, matched_selector } => {
            let m = with_text(
                with_text(base, "approval_comment"@, comment).insert(
                    "matched_selector"@,
                    JsonTree::Text(matched_selector@),
                ),
                "auth_token_id"@,
                e.auth_token_id,
            );
            assert(r.metadata_json@ == rendered_json(JsonTree::Object(m)));
        },
        EventMetadata::StepApproved { step_index, total_steps, comment, matched_selector } => {
            let m = with_text(
                with_text(base, "approval_comment"@, comment).insert(
                    "step_number"@,
                    JsonTree::Number(uint_number((step_index + 1) as u64)),
                ).insert("total_steps"@, JsonTree::Number(uint_number(total_steps as u64))).insert(
                    "matched_selector"@,
                    JsonTree::Text(matched_selector@),
                ),
                "auth_token_id"@,
                e.auth_token_id,
            );
            assert(r.metadata_json@ == rendered_json(JsonTree::Object(m)));
        },
        _ => {},
    }
}

/// A version is shown as it is exactly if it is short and made of letters,
/// digits, underscores, hyphens and dots; of any other only its size is shown.
pub proof fn odd_versions_are_not_shown(v: &str, r: String)
    requires
        call_ensures(sanitize_version, (v,), r),
    ensures
        ({
            let plain = utf8_len(v@) <= 64 && forall|i: int|
                0 <= i < v@.len() ==> {
                    ||| '0' <= #[trigger] v@[i] <= '9'
                    ||| 'a' <= v@[i] <= 'z'
                    ||| 'A' <= v@[i] <= 'Z'
                    ||| v@[i] == '_'
                    ||| v@[i] == '-'
                    ||| v@[i] == '.'
                };
            &&& plain ==> r@ == v@
            &&& !plain ==> r@ == "<invalid:"@ + decimal(utf8_len(v@)) + ">"@
        }),
{
    if plain_version(v@) {
        assert forall|i: int| 0 <= i < v@.len() implies {
            ||| '0' <= #[trigger] v@[i] <= '9'
            ||| 'a' <= v@[i] <= 'z'
            ||| 'A' <= v@[i] <= 'Z'
            ||| v@[i] == '_'
            ||| v@[i] == '-'
            ||| v@[i] == '.'
        } by {
            assert(version_char(v@[i]));
        }
    } else if utf8_len(v@) <= 64 {
        let i = choose|i: int| 0 <= i < v@.len() && !version_char(#[trigger] v@[i]);
        assert(!('0' <= v@[i] <= '9'));
    }
}

/// Statements are shown in notifications, migrations up and down are not; where
/// a migration cannot be read that is said.
pub proof fn migrations_are_summarized(operation: &str, detail: &str, r: String)
    requires
        call_ensures(redact_webhook_detail, (operation, detail), r),
    ensures
        operation@ != "migrate_up"@ && operation@ != "migrate_down"@ ==> r@ == detail@,
        (operation@ == "migrate_up"@ || operation@ == "migrate_down"@) && parsed_json(
            detail@,
        ) is None ==> r@ == operation@ + ": <parse error>"@,
        (operation@ == "migrate_up"@ || operation@ == "migrate_down"@) && parsed_json(
            detail@,
        ) is Some && parsed_json(detail@)->0.at("versions"@).as_array() is None && parsed_json(
            detail@,
        )->0.at("max_count"@).as_uint() is None ==> r@ == operation@ + ": versions=[]"@,
{
    reveal_strlit(": versions=[");
    reveal_strlit("]");
    reveal_strlit(": versions=[]");
    let o = operation@;
    assert(o + ": versions=["@ + Seq::<char>::empty() + "]"@ =~= o + ": versions=[]"@);
}

/// A notification says who changed what, why, and what went wrong, and shows the
/// statement of a created request alone, summarized where it migrates.
pub proof fn notifications_say_who_and_what(e: TransitionEvent, r: WebhookEvent)
    requires
        call_ensures(build_webhook_event, (&e,), r),
    ensures
        r.request_id == Some(e.request_id),
        r.database == Some(e.database),
        r.environment == Some(e.environment),
        r.actor == Some(e.actor_id),
        r.requester == Some(e.requester_id),
        r.operation matches Some(o) && o@ == e.operation.text(),
        r.detail is None,
        r.redacted_detail is Some <==> e.metadata is Created,
        e.metadata matches EventMetadata::Rejected { comment } ==> r.reason == comment,
        e.metadata matches EventMetadata::Cancelled { reason } ==> r.reason == reason,
        !(e.metadata is Rejected) && !(e.metadata is Cancelled) ==> r.reason is None,
        e.metadata matches EventMetadata::Completed { success, execution_id } ==> (success
            ==> r.error_summary is None) && (!success ==> r.error_summary is Some
            && r.error_summary->0@ == "execution "@ + execution_id@ + " failed"@),
        e.metadata matches EventMetadata::ExecutionLost { execution_id } ==> r.error_summary is Some
            && r.error_summary->0@ == "execution "@ + execution_id@ + " lost"@,
        !(e.metadata is Completed) && !(e.metadata is ExecutionLost) ==> r.error_summary is None,
        e.metadata matches EventMetadata::StepApproved {
            step_index,
            total_steps,
            matched_selector,
            ..
        } ==> r.step_index == Some(step_index) && r.total_steps == Some(total_steps)
            && r.matched_selector == Some(matched_selector),
        e.metadata matches EventMetadata::Approved { matched_selector, .. } ==> r.matched_selector
            == Some(matched_selector) && r.step_index is None,
{
}

/// A notification shows a statement as it is unless it migrates up or down.
pub proof fn created_statements_are_notified(e: TransitionEvent, r: WebhookEvent)
    requires
        call_ensures(build_webhook_event, (&e,), r),
        e.operation.text() != "migrate_up"@,
        e.operation.text() != "migrate_down"@,
    ensures
        e.metadata matches EventMetadata::Created { detail, .. } ==> r.redacted_detail is Some
            && r.redacted_detail->0@ == detail@,
{
}

/// A migration is summarized by its versions and its limit.
pub proof fn migrations_are_told_by_versions_and_limit(operation: &str, doc: Json, r: String)
    requires
        call_ensures(migrate_summary, (operation, &doc), r),
    ensures
        ({
            let versions = match doc@.at("versions"@).as_array() {
                Some(items) => join(
                    texts_in(items).map_values(|v: Seq<char>| sanitized_version(v)),
                    ","@,
                ),
                None => Seq::empty(),
            };
            &&& doc@.at("max_count"@).as_uint() is None ==> r@ == operation@ + ": versions=["@
                + versions + "]"@
            &&& doc@.at("max_count"@).as_uint() matches Some(n) ==> r@ == operation@
                + ": versions=["@ + versions + "] max_count="@ + decimal(n as nat)
        }),
{
}

} // verus!
