use dbward_app::services::tables_display::{
    format_table_names, names_json, parse_tables_json, TableEntry,
};

#[test]
fn parse_legacy_string_array() {
    let json = r#"["users", "orders"]"#;
    let entries = parse_tables_json(Some(json));
    assert_eq!(entries.len(), 2);
    assert_eq!(entries[0].name, "users");
    assert_eq!(entries[1].name, "orders");
    assert_eq!(entries[0].estimated_rows, None);
    assert!(!entries[0].has_cascade_fk);
}

#[test]
fn parse_legacy_schema_qualified() {
    let json = r#"["public.users", "billing.invoices"]"#;
    let entries = parse_tables_json(Some(json));
    assert_eq!(entries[0].name, "public.users");
    assert_eq!(entries[1].name, "billing.invoices");
}

#[test]
fn parse_rich_schema_snapshot() {
    let json = r#"[{
            "name": "orders",
            "schema_name": "public",
            "estimated_rows": 50000,
            "columns": [],
            "constraints": [
                {"name": "fk_items", "on_delete": "CASCADE", "referenced_table": "order_items"},
                {"name": "fk_pay", "on_delete": "SET NULL", "referenced_table": "payments"}
            ],
            "indexes": []
        }]"#;
    let entries = parse_tables_json(Some(json));
    assert_eq!(entries.len(), 1);
    assert_eq!(entries[0].name, "orders");
    assert_eq!(entries[0].schema_name, Some("public".to_string()));
    assert_eq!(entries[0].estimated_rows, Some(50000));
    assert!(entries[0].has_cascade_fk);
    assert_eq!(entries[0].cascade_targets, vec!["order_items"]);
}

#[test]
fn parse_rich_no_constraints() {
    let json = r#"[{
            "name": "users",
            "schema_name": "public",
            "estimated_rows": 10000,
            "constraints": []
        }]"#;
    let entries = parse_tables_json(Some(json));
    assert!(!entries[0].has_cascade_fk);
    assert!(entries[0].cascade_targets.is_empty());
}

#[test]
fn parse_intermediate_format() {
    let json = r#"[{
            "name": "orders",
            "estimated_rows": 50000,
            "has_cascade_fk": true,
            "cascade_targets": ["order_items", "payments"]
        }]"#;
    let entries = parse_tables_json(Some(json));
    assert_eq!(entries[0].name, "orders");
    assert_eq!(entries[0].estimated_rows, Some(50000));
    assert!(entries[0].has_cascade_fk);
    assert_eq!(entries[0].cascade_targets, vec!["order_items", "payments"]);
}

#[test]
fn parse_none() {
    let entries = parse_tables_json(None);
    assert!(entries.is_empty());
}

#[test]
fn parse_invalid_json() {
    let entries = parse_tables_json(Some("not json at all"));
    assert!(entries.is_empty());
}

#[test]
fn format_table_names_with_schema() {
    let entries = vec![
        TableEntry {
            name: "users".to_string(),
            schema_name: Some("public".to_string()),
            estimated_rows: Some(1000),
            has_cascade_fk: false,
            cascade_targets: vec![],
            cascade_children: vec![],
            cascade_children_truncated: false,
        },
        TableEntry {
            name: "invoices".to_string(),
            schema_name: Some("billing".to_string()),
            estimated_rows: Some(500),
            has_cascade_fk: false,
            cascade_targets: vec![],
            cascade_children: vec![],
            cascade_children_truncated: false,
        },
    ];
    let result = format_table_names(&entries);
    assert_eq!(result, "users, billing.invoices");
}

#[test]
fn a_json_object_is_no_list_of_tables() {
    assert!(parse_tables_json(Some(r#"{"name": "users"}"#)).is_empty());
}

#[test]
fn a_table_of_another_kind_has_no_name() {
    let entries = parse_tables_json(Some("[7]"));
    assert_eq!(entries.len(), 1);
    assert_eq!(entries[0].name, "?");
    assert_eq!(entries[0].schema_name, None);
    assert!(entries[0].cascade_children.is_empty());
}

#[test]
fn dependent_tables_are_shown_with_their_depth() {
    let json = r#"[{
        "name": "orders",
        "cascade_children": [
            {"table_name": "items", "schema_name": "public", "estimated_rows": 12, "depth": 2},
            {"estimated_rows": 1.5, "depth": 258},
            {}
        ],
        "cascade_children_truncated": true
    }]"#;
    let entries = parse_tables_json(Some(json));
    let children = &entries[0].cascade_children;
    assert_eq!(children.len(), 3);
    assert_eq!(children[0].table_name, "items");
    assert_eq!(children[0].schema_name, Some("public".to_string()));
    assert_eq!(children[0].estimated_rows, Some(12));
    assert_eq!(children[0].depth, 2);
    assert_eq!(children[1].table_name, "?");
    assert_eq!(children[1].estimated_rows, None);
    assert_eq!(children[1].depth, 2);
    assert_eq!(children[2].depth, 1);
    assert!(entries[0].cascade_children_truncated);
}

#[test]
fn derived_and_snapshot_forms_agree_on_cascades() {
    let snapshot = r#"[{"name": "a", "constraints": [
        {"on_delete": "CASCADE", "referenced_table": "b"},
        {"on_delete": "CASCADE"}]}]"#;
    let derived = r#"[{"name": "a", "has_cascade_fk": true, "cascade_targets": ["b"]}]"#;
    let x = parse_tables_json(Some(snapshot));
    let y = parse_tables_json(Some(derived));
    assert_eq!(x[0].has_cascade_fk, y[0].has_cascade_fk);
    assert_eq!(x[0].cascade_targets, y[0].cascade_targets);
}

#[test]
fn no_tables_have_no_names() {
    assert_eq!(format_table_names(&[]), "");
}

#[test]
fn plain_names_are_shown_joined() {
    let json = r#"["users", "public.orders", "", "a, b"]"#;
    assert_eq!(format_table_names(&parse_tables_json(Some(json))), "users, public.orders, , a, b");
    assert_eq!(format_table_names(&parse_tables_json(Some("[]"))), "");
}

#[test]
fn stored_names_are_read_back_and_shown() {
    let names: Vec<String> = ["users", "public.orders", "", "a\"b\\c", "l\n\t\u{1}\u{7f}", "\u{e9}\u{1f600}"]
        .iter()
        .map(|s| s.to_string())
        .collect();
    let json = names_json(&names);
    assert!(json.starts_with(r#"["users","public.orders","","a\"b\\c","#));
    let entries = parse_tables_json(Some(&json));
    assert_eq!(entries.len(), names.len());
    assert_eq!(format_table_names(&entries), names.join(", "));
    assert_eq!(names_json(&vec![]), "[]");
}
