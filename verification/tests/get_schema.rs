use dbward_app::error::AppError;
use dbward_app::json::Json;
use dbward_app::ports::repos::SchemaSnapshotRecord;
use dbward_app::use_cases::get_schema::{
    summarize_table, AskStep, GetSchema, GetSchemaInput, SchemaBody, SchemaOutput, SearchStep,
};

fn snapshot_record() -> SchemaSnapshotRecord {
    SchemaSnapshotRecord {
        database_name: "app".to_string(),
        environment: "production".to_string(),
        status: "ready".to_string(),
        snapshot_json: Some(
            r#"{"tables":[{"name":"users","schema_name":"public","estimated_rows":100,"columns":[{"name":"id"}],"constraints":[],"indexes":[]}]}"#
                .to_string(),
        ),
        error_message: None,
        dialect: "postgresql".to_string(),
        collected_at: "2026-01-01T00:00:00Z".to_string(),
        agent_id: "agent-1".to_string(),
    }
}

fn input(database: &str, table: Option<&str>, summary: bool) -> GetSchemaInput {
    GetSchemaInput {
        database: database.to_string(),
        environment: None,
        table: table.map(|t| t.to_string()),
        summary,
    }
}

fn pair(environment: &str) -> (String, String) {
    ("app".to_string(), environment.to_string())
}

fn search(
    input: GetSchemaInput,
    pairs: Vec<(String, String)>,
    ready: bool,
    allowed: bool,
) -> Result<SchemaOutput, AppError> {
    let mut search = GetSchema {}.execute(input).registered(&pairs)?;
    loop {
        if search.current().is_none() {
            return Err(search.exhausted());
        }
        let snapshot = if ready { Some(snapshot_record()) } else { None };
        search = match search.seen(snapshot) {
            SearchStep::Next(s) => s,
            SearchStep::Ask(s) => match s.asked(Ok(()), allowed)? {
                AskStep::Next(s) => s,
                AskStep::Found(s) => return s.show(),
            },
        };
    }
}

fn text(j: &Json, key: &str) -> Option<String> {
    j.get(key).and_then(|v| v.as_str()).map(|s| s.to_string())
}

#[test]
fn db_not_found() {
    let r = search(input("nope", None, true), vec![], true, true);
    assert!(matches!(r, Err(AppError::NotFound(_))));
}

#[test]
fn summary_mode() {
    let out = search(input("app", None, true), vec![pair("production")], true, true)
        .unwrap_or_else(|_| panic!("refused"));
    assert_eq!(out.environment, "production");
    match out.body {
        SchemaBody::TableList { ref tables } => {
            assert_eq!(tables.len(), 1);
            assert_eq!(text(&tables[0], "name"), Some("users".to_string()));
            assert_eq!(tables[0].get("column_count").and_then(|v| v.as_u64()), Some(1));
        },
        _ => panic!("expected TableList"),
    }
}

#[test]
fn single_table_filter() {
    let out = search(input("app", Some("users"), false), vec![pair("production")], true, true)
        .unwrap_or_else(|_| panic!("refused"));
    match out.body {
        SchemaBody::SingleTable { ref table } => {
            assert_eq!(text(table, "name"), Some("users".to_string()));
        },
        _ => panic!("expected SingleTable"),
    }
}

#[test]
fn forbidden_returns_error() {
    let r = search(input("app", None, true), vec![pair("production")], true, false);
    assert!(matches!(r, Err(AppError::Forbidden(_))));
}

#[test]
fn unknown_table_is_not_found() {
    let r = search(input("app", Some("nope"), false), vec![pair("production")], true, true);
    assert!(matches!(r, Err(AppError::NotFound(_))));
}

#[test]
fn every_environment_is_searched() {
    let r = search(
        input("app", None, true),
        vec![pair("production"), pair("staging")],
        false,
        true,
    );
    assert!(matches!(r, Err(AppError::NotFound(_))));
    let found = GetSchema {}
        .execute(input("app", None, true))
        .registered(&vec![pair("production"), pair("staging")])
        .unwrap_or_else(|_| panic!("refused"));
    assert_eq!(found.candidates.len(), 2);
}

#[test]
fn summary_counts_columns() {
    let t = Json::parse(r#"{"name":"t","columns":[{"name":"a"},{"name":"b"}]}"#).unwrap();
    let s = summarize_table(&t);
    assert_eq!(s.get("column_count").and_then(|v| v.as_u64()), Some(2));
    assert_eq!(text(&s, "name"), Some("t".to_string()));
}
