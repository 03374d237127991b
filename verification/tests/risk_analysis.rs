use dbward_app::domain::{AutoApproveMode, AutoApproveSettings, Operation, Workflow};
use dbward_app::error::AppError;
use dbward_app::ports::repos::SchemaSnapshotRecord;
use dbward_app::use_cases::decision_trace::SchemaStatus;
use dbward_app::use_cases::risk_analysis::{
    build_cascade_graph, canonical_key, compute_allow_read_only, compute_safe_ddl,
    enrich_with_cascade_children, lookup_entry, max_estimated_rows, parse_table_risk_info,
    resolve_schema_status, resolve_table_risk, TableRef, TableRiskInfo,
};

fn make_workflow(allow_read_only: bool) -> Workflow {
    Workflow {
        id: "wf-test".to_string(),
        database: "*".to_string(),
        environment: "*".to_string(),
        operations: vec![],
        auto_approve: Some(AutoApproveSettings {
            mode: AutoApproveMode::Always,
            max_risk_level: None,
            allow_read_only,
            allow_safe_ddl: true,
            max_estimated_rows: 1000,
        }),
        steps: vec![],
        require_reason: false,
        allow_self_approve: false,
        allow_same_approver_across_steps: false,
        explain: true,
        pending_ttl_secs: None,
        statement_timeout_secs: None,
        approval_ttl_secs: None,
        created_at: None,
        updated_at: None,
    }
}

#[test]
fn parse_table_risk_info_with_cascade() {
    let json = r#"[
        {
            "name": "orders",
            "estimated_rows": 50000,
            "constraints": [
                {
                    "name": "fk_order_user",
                    "on_delete": "CASCADE",
                    "referenced_table": "users"
                },
                {
                    "name": "fk_order_product",
                    "on_delete": "SET NULL",
                    "referenced_table": "products"
                }
            ]
        }
    ]"#;

    let info = parse_table_risk_info(json);
    assert_eq!(info.len(), 1);
    assert_eq!(info[0].name, "orders");
    assert_eq!(info[0].estimated_rows, 50000);
    assert!(info[0].has_cascade_fk);
    assert_eq!(info[0].cascade_targets, vec!["users".to_string()]);
}

#[test]
fn parse_table_risk_info_empty_json() {
    let info = parse_table_risk_info("[]");
    assert!(info.is_empty());
}

#[test]
fn parse_table_risk_info_invalid_json() {
    let info = parse_table_risk_info("not json");
    assert!(info.is_empty());
}

#[test]
fn parse_table_risk_info_no_constraints() {
    let json = r#"[{"name": "simple", "estimated_rows": 100}]"#;
    let info = parse_table_risk_info(json);
    assert_eq!(info.len(), 1);
    assert_eq!(info[0].name, "simple");
    assert_eq!(info[0].estimated_rows, 100);
    assert!(!info[0].has_cascade_fk);
    assert!(info[0].cascade_targets.is_empty());
}

#[test]
fn compute_allow_read_only_query_with_allow() {
    let wf = make_workflow(true);
    assert!(compute_allow_read_only(Operation::ExecuteSelect, &wf));
}

#[test]
fn compute_allow_read_only_query_without_allow() {
    let wf = make_workflow(false);
    assert!(!compute_allow_read_only(Operation::ExecuteSelect, &wf));
}

#[test]
fn compute_allow_read_only_execute_always_false() {
    let wf = make_workflow(true);
    assert!(!compute_allow_read_only(Operation::ExecuteDml, &wf));
}

#[test]
fn compute_allow_read_only_no_auto_approve() {
    let mut wf = make_workflow(true);
    wf.auto_approve = None;
    assert!(!compute_allow_read_only(Operation::ExecuteSelect, &wf));
}

#[test]
fn max_estimated_rows_from_workflow() {
    let wf = make_workflow(true);
    assert_eq!(max_estimated_rows(&wf), 1000);
}

#[test]
fn max_estimated_rows_no_auto_approve() {
    let mut wf = make_workflow(true);
    wf.auto_approve = None;
    assert_eq!(max_estimated_rows(&wf), 1000); // default
}

fn make_snapshot(tables_json: &str) -> String {
    format!(r#"{{"tables": {}}}"#, tables_json)
}

#[test]
fn cascade_graph_basic_chain() {
    let snap = make_snapshot(
        r#"[
        {"name": "users", "schema_name": "public", "estimated_rows": 1000, "constraints": []},
        {"name": "orders", "schema_name": "public", "estimated_rows": 5000, "constraints": [
            {"name": "fk", "on_delete": "CASCADE", "referenced_table": "users"}
        ]},
        {"name": "items", "schema_name": "public", "estimated_rows": 20000, "constraints": [
            {"name": "fk", "on_delete": "CASCADE", "referenced_table": "orders"}
        ]}
    ]"#,
    );
    let targets = vec![TableRef {
        schema: Some("public".to_string()),
        name: "users".to_string(),
    }];
    let result = build_cascade_graph(&snap, &targets);
    let entry = lookup_entry(&result, "public.users").unwrap();
    let children = &entry.children;
    let truncated = entry.truncated;
    assert!(!truncated);
    assert_eq!(children.len(), 2);
    assert!(
        children
            .iter()
            .any(|c| c.table_name == "orders" && c.depth == 1)
    );
    assert!(
        children
            .iter()
            .any(|c| c.table_name == "items" && c.depth == 2)
    );
}

#[test]
fn cascade_graph_circular_reference() {
    let snap = make_snapshot(
        r#"[
        {"name": "a", "schema_name": "public", "estimated_rows": 100, "constraints": [
            {"name": "fk", "on_delete": "CASCADE", "referenced_table": "b"}
        ]},
        {"name": "b", "schema_name": "public", "estimated_rows": 200, "constraints": [
            {"name": "fk", "on_delete": "CASCADE", "referenced_table": "a"}
        ]}
    ]"#,
    );
    let targets = vec![TableRef {
        schema: Some("public".to_string()),
        name: "a".to_string(),
    }];
    let result = build_cascade_graph(&snap, &targets);
    let entry = lookup_entry(&result, "public.a").unwrap();
    let children = &entry.children;
    let truncated = entry.truncated;
    assert!(!truncated);
    assert_eq!(children.len(), 1);
    assert_eq!(children[0].table_name, "b");
}

#[test]
fn cascade_graph_self_referencing_fk() {
    let snap = make_snapshot(
        r#"[
        {"name": "categories", "schema_name": "public", "estimated_rows": 500, "constraints": [
            {"name": "fk_parent", "on_delete": "CASCADE", "referenced_table": "categories"}
        ]}
    ]"#,
    );
    let targets = vec![TableRef {
        schema: Some("public".to_string()),
        name: "categories".to_string(),
    }];
    let result = build_cascade_graph(&snap, &targets);
    let entry = lookup_entry(&result, "public.categories").unwrap();
    let children = &entry.children;
    let truncated = entry.truncated;
    assert!(!truncated);
    assert_eq!(children.len(), 1);
    assert_eq!(children[0].table_name, "categories");
    assert_eq!(children[0].depth, 1);
}

#[test]
fn cascade_graph_depth_truncation() {
    // Chain: a → b → c → d → e (depth 4, exceeds max 3)
    let snap = make_snapshot(
        r#"[
        {"name": "a", "schema_name": "public", "estimated_rows": 10, "constraints": []},
        {"name": "b", "schema_name": "public", "estimated_rows": 20, "constraints": [
            {"name": "fk", "on_delete": "CASCADE", "referenced_table": "a"}
        ]},
        {"name": "c", "schema_name": "public", "estimated_rows": 30, "constraints": [
            {"name": "fk", "on_delete": "CASCADE", "referenced_table": "b"}
        ]},
        {"name": "d", "schema_name": "public", "estimated_rows": 40, "constraints": [
            {"name": "fk", "on_delete": "CASCADE", "referenced_table": "c"}
        ]},
        {"name": "e", "schema_name": "public", "estimated_rows": 50, "constraints": [
            {"name": "fk", "on_delete": "CASCADE", "referenced_table": "d"}
        ]}
    ]"#,
    );
    let targets = vec![TableRef {
        schema: Some("public".to_string()),
        name: "a".to_string(),
    }];
    let result = build_cascade_graph(&snap, &targets);
    let entry = lookup_entry(&result, "public.a").unwrap();
    let children = &entry.children;
    let truncated = entry.truncated;
    assert!(truncated);
    assert_eq!(children.len(), 3); // b, c, d (depth 1,2,3)
    assert!(children.iter().all(|c| c.depth <= 3));
}

#[test]
fn cascade_graph_ambiguous_target_skipped() {
    let snap = make_snapshot(
        r#"[
        {"name": "users", "schema_name": "public", "estimated_rows": 100, "constraints": []},
        {"name": "users", "schema_name": "tenant", "estimated_rows": 200, "constraints": []}
    ]"#,
    );
    // Unqualified "users" matches both schemas → ambiguous → skipped
    let targets = vec![TableRef {
        schema: None,
        name: "users".to_string(),
    }];
    let result = build_cascade_graph(&snap, &targets);
    assert!(result.is_empty());
}

#[test]
fn cascade_graph_referenced_schema_none_uses_child_schema() {
    // referenced_schema not in constraint → fallback to child's schema
    let snap = make_snapshot(
        r#"[
        {"name": "users", "schema_name": "app", "estimated_rows": 1000, "constraints": []},
        {"name": "orders", "schema_name": "app", "estimated_rows": 5000, "constraints": [
            {"name": "fk", "on_delete": "CASCADE", "referenced_table": "users"}
        ]}
    ]"#,
    );
    let targets = vec![TableRef {
        schema: Some("app".to_string()),
        name: "users".to_string(),
    }];
    let result = build_cascade_graph(&snap, &targets);
    let entry = lookup_entry(&result, "app.users").unwrap();
    let children = &entry.children;
    assert_eq!(children.len(), 1);
    assert_eq!(children[0].table_name, "orders");
}

#[test]
fn cascade_graph_dedup_multiple_fks() {
    let snap = make_snapshot(
        r#"[
        {"name": "users", "schema_name": "public", "estimated_rows": 1000, "constraints": []},
        {"name": "orders", "schema_name": "public", "estimated_rows": 5000, "constraints": [
            {"name": "fk_user", "on_delete": "CASCADE", "referenced_table": "users"},
            {"name": "fk_created_by", "on_delete": "CASCADE", "referenced_table": "users"}
        ]}
    ]"#,
    );
    let targets = vec![TableRef {
        schema: Some("public".to_string()),
        name: "users".to_string(),
    }];
    let result = build_cascade_graph(&snap, &targets);
    let entry = lookup_entry(&result, "public.users").unwrap();
    let children = &entry.children;
    assert_eq!(children.len(), 1); // deduped
}

#[test]
fn cascade_graph_truncation_false_when_only_cycles() {
    let snap = make_snapshot(
        r#"[
        {"name": "a", "schema_name": "public", "estimated_rows": 10, "constraints": []},
        {"name": "b", "schema_name": "public", "estimated_rows": 20, "constraints": [
            {"name": "fk", "on_delete": "CASCADE", "referenced_table": "a"}
        ]},
        {"name": "c", "schema_name": "public", "estimated_rows": 30, "constraints": [
            {"name": "fk", "on_delete": "CASCADE", "referenced_table": "b"}
        ]},
        {"name": "d", "schema_name": "public", "estimated_rows": 40, "constraints": [
            {"name": "fk_cycle", "on_delete": "CASCADE", "referenced_table": "c"},
            {"name": "fk_back", "on_delete": "CASCADE", "referenced_table": "a"}
        ]}
    ]"#,
    );
    let targets = vec![TableRef {
        schema: Some("public".to_string()),
        name: "a".to_string(),
    }];
    let result = build_cascade_graph(&snap, &targets);
    let entry = lookup_entry(&result, "public.a").unwrap();
    let children = &entry.children;
    let truncated = entry.truncated;
    assert_eq!(children.len(), 3); // b(1), c(2), d(3)
    // Nothing references d.
    assert!(!truncated);
}

#[test]
fn enrich_populates_cascade_children() {
    let snap = make_snapshot(
        r#"[
        {"name": "users", "schema_name": "public", "estimated_rows": 1000, "constraints": []},
        {"name": "orders", "schema_name": "public", "estimated_rows": 5000, "constraints": [
            {"name": "fk", "on_delete": "CASCADE", "referenced_table": "users"}
        ]}
    ]"#,
    );
    let targets = vec![TableRef {
        schema: Some("public".to_string()),
        name: "users".to_string(),
    }];
    let cascade_map = build_cascade_graph(&snap, &targets);

    let tables_raw = r#"[{"name": "users", "schema_name": "public", "estimated_rows": 1000, "constraints": []}]"#;
    let mut risk_info = vec![TableRiskInfo {
        name: "users".to_string(),
        estimated_rows: 1000,
        has_cascade_fk: false,
        cascade_targets: vec![],
        cascade_children: vec![],
        cascade_children_truncated: false,
    }];
    enrich_with_cascade_children(&mut risk_info, tables_raw, &cascade_map);
    assert_eq!(risk_info[0].cascade_children.len(), 1);
    assert_eq!(risk_info[0].cascade_children[0].table_name, "orders");
    assert!(!risk_info[0].cascade_children_truncated);
}

#[test]
fn depth_is_the_distance_from_the_target() {
    let snap = make_snapshot(
        r#"[
        {"name": "a", "schema_name": "public", "estimated_rows": 10, "constraints": []},
        {"name": "b", "schema_name": "public", "estimated_rows": 20, "constraints": [
            {"name": "fk", "on_delete": "CASCADE", "referenced_table": "a"}
        ]},
        {"name": "c", "schema_name": "public", "estimated_rows": 30, "constraints": [
            {"name": "fk1", "on_delete": "CASCADE", "referenced_table": "b"},
            {"name": "fk2", "on_delete": "CASCADE", "referenced_table": "a"}
        ]}
    ]"#,
    );
    let targets = vec![TableRef { schema: None, name: "a".to_string() }];
    let result = build_cascade_graph(&snap, &targets);
    let entry = lookup_entry(&result, "public.a").unwrap();
    assert_eq!(entry.children.len(), 2);
    assert!(entry.children.iter().all(|c| c.depth == 1));
    assert!(!entry.truncated);
    assert_eq!(
        entry.children.iter().find(|c| c.table_name == "c").map(|c| c.estimated_rows),
        Some(30)
    );
}

#[test]
fn key_is_schema_and_name() {
    assert_eq!(canonical_key("public", "users"), "public.users");
}

fn record(status: &str) -> SchemaSnapshotRecord {
    SchemaSnapshotRecord {
        database_name: "app".to_string(),
        environment: "production".to_string(),
        status: status.to_string(),
        snapshot_json: None,
        error_message: None,
        dialect: "postgresql".to_string(),
        collected_at: "2024-01-01T00:00:00Z".to_string(),
        agent_id: "agent-1".to_string(),
    }
}

#[test]
fn schema_status_follows_the_snapshot() {
    let (status, at) = resolve_schema_status(&Ok(Some(record("ready"))));
    assert_eq!(status, SchemaStatus::Ready);
    assert_eq!(at, Some("2024-01-01T00:00:00Z".to_string()));
    let (status, _) = resolve_schema_status(&Ok(Some(record("failed"))));
    assert_eq!(status, SchemaStatus::Failed);
    let (status, at) = resolve_schema_status(&Ok(None));
    assert_eq!(status, SchemaStatus::NotSynced);
    assert_eq!(at, None);
    let (status, _) = resolve_schema_status(&Err(AppError::Internal("x".to_string())));
    assert_eq!(status, SchemaStatus::NotSynced);
}

#[test]
fn table_risk_needs_named_tables() {
    let found = Ok(Some(r#"[{"name": "simple", "estimated_rows": 100}]"#.to_string()));
    assert!(resolve_table_risk(&vec![], &found).is_empty());
    let named = vec![TableRef { schema: None, name: "simple".to_string() }];
    assert_eq!(resolve_table_risk(&named, &found).len(), 1);
    assert!(resolve_table_risk(&named, &Ok(None)).is_empty());
}

#[test]
fn safe_schema_change_needs_all_three() {
    let wf = make_workflow(true);
    assert!(compute_safe_ddl(&wf, true, true));
    assert!(!compute_safe_ddl(&wf, false, true));
    assert!(!compute_safe_ddl(&wf, true, false));
    let mut wf = make_workflow(true);
    wf.auto_approve = None;
    assert!(!compute_safe_ddl(&wf, true, true));
}

#[test]
fn the_first_foreign_key_of_the_search_gives_the_entry() {
    let snap = make_snapshot(
        r#"[
        {"name": "Items", "schema_name": "public", "estimated_rows": 5, "constraints": [
            {"name": "fk", "on_delete": "CASCADE", "referenced_table": "lines"}
        ]},
        {"name": "ITEMS", "schema_name": "public", "estimated_rows": 6, "constraints": [
            {"name": "fk", "on_delete": "CASCADE", "referenced_table": "orders"}
        ]},
        {"name": "items", "schema_name": "public", "estimated_rows": 7, "constraints": [
            {"name": "fk", "on_delete": "CASCADE", "referenced_table": "orders"}
        ]},
        {"name": "lines", "schema_name": "public", "estimated_rows": 8, "constraints": [
            {"name": "fk", "on_delete": "CASCADE", "referenced_table": "orders"}
        ]},
        {"name": "orders", "schema_name": "public", "estimated_rows": 9, "constraints": [
            {"name": "fk", "on_delete": "CASCADE", "referenced_table": "orders"}
        ]},
        {"name": "orders", "schema_name": "public", "estimated_rows": 10, "constraints": [
            {"name": "fk", "on_delete": "CASCADE", "referenced_table": "orders"}
        ]}
    ]"#,
    );
    let targets = vec![TableRef {
        schema: Some("public".to_string()),
        name: "orders".to_string(),
    }];
    let result = build_cascade_graph(&snap, &targets);
    let entry = lookup_entry(&result, "public.orders").unwrap();
    let found: Vec<(&str, i64, u8)> = entry
        .children
        .iter()
        .map(|c| (c.table_name.as_str(), c.estimated_rows, c.depth))
        .collect();
    assert_eq!(found, vec![("ITEMS", 6, 1), ("lines", 8, 1), ("orders", 9, 1)]);
}
