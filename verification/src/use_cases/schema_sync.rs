//! An agent hands in the schema of a database.

use vstd::prelude::*;

use crate::domain::{Agent, AuditEvent, DatabaseCapability, Permission};
use crate::error::{AppError, AuthzError, AuthzView, ErrorView};
use crate::json::{rendered_json, Json};
use crate::ports::SchemaSnapshotRecord;
use crate::text::same_text;
use crate::time::{rfc3339, rfc3339_text, Timestamp};

verus! {

/// The use case.
pub struct SchemaSync {}

/// What an agent hands in.
pub struct SchemaSyncInput {
    pub agent_id: String,
    pub database: String,
    pub environment: String,
    pub dialect: String,
    pub status: String,
    pub snapshot: Option<Json>,
    pub error_message: Option<String>,
}

/// Due: find the agent.
pub struct SchemaSyncAgent {
    pub input: SchemaSyncInput,
}

/// Due: whether the database and environment, if they are proper names, are
/// registered.
pub struct SchemaSyncRegistry {
    pub input: SchemaSyncInput,
}

/// Due: the current time.
pub struct SchemaSyncReady {
    pub input: SchemaSyncInput,
}

/// Due: store the record; then record the event at the current time. A failure
/// to record the event stops nothing.
pub struct SchemaSyncStore {
    pub record: SchemaSnapshotRecord,
}

/// Why what an agent hands in is refused.
pub open spec fn sync_input_error(input: SchemaSyncInput) -> Option<ErrorView> {
    if input.dialect@ != "postgresql"@ && input.dialect@ != "mysql"@ {
        Some(ErrorView::Validation("invalid dialect"@))
    } else if input.status@ != "ready"@ && input.status@ != "failed"@ && input.status@
        != "partial"@ {
        Some(ErrorView::Validation("invalid status"@))
    } else if input.status@ == "ready"@ && input.snapshot is None {
        Some(ErrorView::Validation("snapshot required when status=ready"@))
    } else {
        None
    }
}

impl SchemaSync {
    /// Starts a hand-in.
    pub fn execute(&self, input: SchemaSyncInput) -> (r: Result<SchemaSyncAgent, AppError>)
        ensures
            match r {
                Err(e) => sync_input_error(input) == Some(e@),
                Ok(s) => sync_input_error(input) is None && s.input == input,
            },
    {
        if !same_text(input.dialect.as_str(), "postgresql") && !same_text(
            input.dialect.as_str(),
            "mysql",
        ) {
            return Err(AppError::Validation("invalid dialect".to_string()));
        }
        if !same_text(input.status.as_str(), "ready") && !same_text(
            input.status.as_str(),
            "failed",
        ) && !same_text(input.status.as_str(), "partial") {
            return Err(AppError::Validation("invalid status".to_string()));
        }
        if same_text(input.status.as_str(), "ready") && input.snapshot.is_none() {
            return Err(AppError::Validation("snapshot required when status=ready".to_string()));
        }
        Ok(SchemaSyncAgent { input })
    }
}

/// Whether an agent is registered for exactly the database and environment.
pub open spec fn registered_for(
    caps: Seq<DatabaseCapability>,
    database: Seq<char>,
    environment: Seq<char>,
) -> bool {
    exists|i: int|
        0 <= i < caps.len() && (#[trigger] caps[i]).database@ == database && caps[i].environment@
            == environment
}

/// Whether an agent is registered for exactly the database and environment.
pub fn is_registered_for(caps: &Vec<DatabaseCapability>, database: &str, environment: &str) -> (r:
    bool)
    ensures
        r == registered_for(caps@, database@, environment@),
{
    let n: usize = caps.len();
    let mut i: usize = 0;
    while i < n
        invariant
            i <= n,
            n == caps@.len(),
            forall|k: int|
                0 <= k < i ==> !((#[trigger] caps@[k]).database@ == database@
                    && caps@[k].environment@ == environment@),
        decreases n - i,
    {
        if same_text(caps[i].database.as_str(), database) && same_text(
            caps[i].environment.as_str(),
            environment,
        ) {
            return true;
        }
        i += 1;
    }
    false
}

/// A refusal of an agent.
pub open spec fn agent_refused(reason: Seq<char>) -> ErrorView {
    ErrorView::Forbidden(AuthzView::Forbidden { permission: Permission::AgentOperate, reason })
}

impl SchemaSyncAgent {
    /// Takes the agent.
    pub fn found(self, agent: Option<Agent>) -> (r: Result<SchemaSyncRegistry, AppError>)
        ensures
            match agent {
                None => r matches Err(e) && e@ == agent_refused("agent not registered"@),
                Some(a) => if registered_for(
                    a.databases@,
                    self.input.database@,
                    self.input.environment@,
                ) {
                    r matches Ok(s) && s.input == self.input
                } else {
                    r matches Err(e) && e@ == agent_refused(
                        "agent not authorized for this database/environment"@,
                    )
                },
            },
    {
        match agent {
            None => Err(
                AppError::Forbidden(
                    AuthzError::Forbidden {
                        permission: Permission::AgentOperate,
                        reason: "agent not registered".to_string(),
                    },
                ),
            ),
            Some(a) => {
                if !is_registered_for(
                    &a.databases,
                    self.input.database.as_str(),
                    self.input.environment.as_str(),
                ) {
                    return Err(
                        AppError::Forbidden(
                            AuthzError::Forbidden {
                                permission: Permission::AgentOperate,
                                reason:
                                    "agent not authorized for this database/environment".to_string(),
                            },
                        ),
                    );
                }
                Ok(SchemaSyncRegistry { input: self.input })
            },
        }
    }
}

impl SchemaSyncRegistry {
    /// Takes whether the database and environment are registered; `None` where
    /// they are no proper names, which is let through.
    pub fn registered(self, known: Option<bool>) -> (r: Result<SchemaSyncReady, AppError>)
        ensures
            if known == Some(false) {
                r matches Err(e) && e@ == ErrorView::Validation(
                    "database/environment not registered"@,
                )
            } else {
                r matches Ok(s) && s.input == self.input
            },
    {
        match known {
            Some(false) => Err(
                AppError::Validation("database/environment not registered".to_string()),
            ),
            _ => Ok(SchemaSyncReady { input: self.input }),
        }
    }
}

/// Whether a record holds what was handed in.
pub open spec fn snapshot_of(record: SchemaSnapshotRecord, input: SchemaSyncInput, now: Timestamp) -> bool {
    &&& record.database_name == input.database
    &&& record.environment == input.environment
    &&& record.status == input.status
    &&& match input.snapshot {
        Some(v) => record.snapshot_json is Some && record.snapshot_json->0@ == rendered_json(v@),
        None => record.snapshot_json is None,
    }
    &&& record.error_message == input.error_message
    &&& record.dialect == input.dialect
    &&& record.collected_at@ == rfc3339_text(now.secs as int, now.nanos as int)
    &&& record.agent_id == input.agent_id
}

impl SchemaSyncReady {
    /// Takes the current time.
    pub fn at(self, now: Timestamp) -> (r: SchemaSyncStore)
        requires
            now.valid(),
        ensures
            snapshot_of(r.record, self.input, now),
    {
        let snapshot_json: Option<String> = match self.input.snapshot {
            Some(v) => Some(v.render()),
            None => None,
        };
        SchemaSyncStore {
            record: SchemaSnapshotRecord {
                database_name: self.input.database,
                environment: self.input.environment,
                status: self.input.status,
                snapshot_json,
                error_message: self.input.error_message,
                dialect: self.input.dialect,
                collected_at: rfc3339(&now),
                agent_id: self.input.agent_id,
            },
        }
    }
}

/// Whether `e` records the hand-in.
pub open spec fn records_sync(e: AuditEvent, record: SchemaSnapshotRecord, now: Timestamp) -> bool {
    &&& e.event_type@ == if record.status@ == "ready"@ {
        "schema_snapshot_updated"@
    } else {
        "schema_snapshot_failed"@
    }
    &&& e.event_category@ == "agent"@
    &&& e.actor_id@ == record.agent_id@
    &&& e.resource_id is None
    &&& e.created_at == now
    &&& e.request_id is None
    &&& e.database_name == Some(record.database_name)
    &&& e.environment == Some(record.environment)
    &&& e.operation is None
    &&& e.reason is None
    &&& e.detail_fingerprint is None
    &&& e.detail_raw is None
    &&& e.metadata_json@ == "{}"@
}

impl SchemaSyncStore {
    /// The event that records the hand-in, at the current time.
    pub fn recorded(&self, now: Timestamp) -> (r: AuditEvent)
        ensures
            records_sync(r, self.record, now),
    {
        let event_type: &str = if same_text(self.record.status.as_str(), "ready") {
            "schema_snapshot_updated"
        } else {
            "schema_snapshot_failed"
        };
        let mut event = AuditEvent::simple(
            event_type,
            "agent",
            self.record.agent_id.as_str(),
            None,
            now,
        );
        event.database_name = Some(self.record.database_name.clone());
        event.environment = Some(self.record.environment.clone());
        event
    }
}

/// A snapshot that is stored as ready has content.
pub proof fn ready_snapshot_has_content(
    input: SchemaSyncInput,
    record: SchemaSnapshotRecord,
    now: Timestamp,
)
    requires
        sync_input_error(input) is None,
        snapshot_of(record, input, now),
        record.status@ == "ready"@,
    ensures
        record.snapshot_json is Some,
{
}

/// A hand-in is of a known dialect and state, and holds a schema where it is
/// said to be ready.
pub proof fn hand_ins_are_complete(
    uc: SchemaSync,
    input: SchemaSyncInput,
    r: Result<SchemaSyncAgent, AppError>,
)
    requires
        call_ensures(SchemaSync::execute, (&uc, input), r),
    ensures
        r is Ok <==> {
            &&& input.dialect@ == "postgresql"@ || input.dialect@ == "mysql"@
            &&& input.status@ == "ready"@ || input.status@ == "failed"@ || input.status@
                == "partial"@
            &&& input.status@ == "ready"@ ==> input.snapshot is Some
        },
        r is Err ==> r->Err_0 is Validation,
        r is Ok ==> r->Ok_0.input == input,
{
}

/// Only an agent that is registered for exactly the database and environment
/// hands in its schema; a wildcard does not count.
pub proof fn agents_hand_in_what_they_are_registered_for(
    stage: SchemaSyncAgent,
    agent: Option<Agent>,
    r: Result<SchemaSyncRegistry, AppError>,
)
    requires
        call_ensures(SchemaSyncAgent::found, (stage, agent), r),
    ensures
        r is Ok <==> agent is Some && exists|i: int|
            0 <= i < agent->0.databases@.len() && (#[trigger] agent->0.databases@[i]).database@
                == stage.input.database@ && agent->0.databases@[i].environment@
                == stage.input.environment@,
        r is Err ==> r->Err_0 is Forbidden,
        r is Ok ==> r->Ok_0.input == stage.input,
{
}

/// The schema of a database that is known not to be registered is refused.
pub proof fn unregistered_schemas_are_refused(
    stage: SchemaSyncRegistry,
    known: Option<bool>,
    r: Result<SchemaSyncReady, AppError>,
)
    requires
        call_ensures(SchemaSyncRegistry::registered, (stage, known), r),
    ensures
        r is Err <==> known == Some(false),
        r is Err ==> r->Err_0 is Validation,
        r is Ok ==> r->Ok_0.input == stage.input,
{
}

/// What is stored is what was handed in, with when and by whom; and it is
/// recorded as an update exactly if it was ready.
pub proof fn hand_ins_are_stored(
    stage: SchemaSyncReady,
    now: Timestamp,
    store: SchemaSyncStore,
    later: Timestamp,
    e: AuditEvent,
)
    requires
        now.valid(),
        call_ensures(SchemaSyncReady::at, (stage, now), store),
        call_ensures(SchemaSyncStore::recorded, (&store, later), e),
    ensures
        store.record.database_name == stage.input.database,
        store.record.environment == stage.input.environment,
        store.record.status == stage.input.status,
        store.record.dialect == stage.input.dialect,
        store.record.error_message == stage.input.error_message,
        store.record.agent_id == stage.input.agent_id,
        store.record.collected_at@ == rfc3339_text(now.secs as int, now.nanos as int),
        store.record.snapshot_json is Some <==> stage.input.snapshot is Some,
        stage.input.snapshot matches Some(v) ==> store.record.snapshot_json->0@ == rendered_json(
            v@,
        ),
        stage.input.status@ == "ready"@ ==> e.event_type@ == "schema_snapshot_updated"@,
        stage.input.status@ != "ready"@ ==> e.event_type@ == "schema_snapshot_failed"@,
        e.event_category@ == "agent"@,
        e.actor_id@ == stage.input.agent_id@,
        e.database_name == Some(stage.input.database),
        e.environment == Some(stage.input.environment),
        e.created_at == later,
{
}

/// An agent is told what is wrong with its hand-in.
pub proof fn agents_are_told_what_is_wrong(
    uc: SchemaSync,
    input: SchemaSyncInput,
    e: AppError,
    stage: SchemaSyncAgent,
    agent: Option<Agent>,
    x: AppError,
)
    requires
        call_ensures(SchemaSync::execute, (&uc, input), Err::<SchemaSyncAgent, AppError>(e)),
        call_ensures(
            SchemaSyncAgent::found,
            (stage, agent),
            Err::<SchemaSyncRegistry, AppError>(x),
        ),
    ensures
        input.dialect@ != "postgresql"@ && input.dialect@ != "mysql"@ ==> e@
            == ErrorView::Validation("invalid dialect"@),
        (input.dialect@ == "postgresql"@ || input.dialect@ == "mysql"@) && input.status@
            == "ready"@ ==> e@ == ErrorView::Validation("snapshot required when status=ready"@),
        (input.dialect@ == "postgresql"@ || input.dialect@ == "mysql"@) && input.status@
            != "ready"@ ==> e@ == ErrorView::Validation("invalid status"@),
        x@ == ErrorView::Forbidden(
            AuthzView::Forbidden {
                permission: Permission::AgentOperate,
                reason: if agent is None {
                    "agent not registered"@
                } else {
                    "agent not authorized for this database/environment"@
                },
            },
        ),
{
}

} // verus!
