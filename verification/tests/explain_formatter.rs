use dbward_app::json::Json;
use dbward_app::services::explain_formatter::{apply_max_lines, format_explain_tree, FormatOptions};

fn entry(text: &str) -> Json {
    Json::parse(text).unwrap()
}

#[test]
fn pg_plan_with_children() {
    let entry = entry(
        r#"{
            "sql": "DELETE FROM orders WHERE id < 100",
            "plan": [{"Plan": {
                "Node Type": "ModifyTable",
                "Plan Rows": 0,
                "Total Cost": 150.0,
                "Plans": [{
                    "Node Type": "Seq Scan",
                    "Relation Name": "orders",
                    "Plan Rows": 50000,
                    "Total Cost": 120.0,
                    "Filter": "(id < 100)"
                }]
            }}]
        }"#,
    );
    let lines = format_explain_tree(&entry, &FormatOptions::cli());
    assert_eq!(lines.len(), 2);
    assert!(lines[0].contains("ModifyTable"));
    assert!(lines[1].contains("Seq Scan on orders"));
    assert!(lines[1].contains("rows=50000"));
    assert!(lines[1].contains("Filter: (id < 100)"));
    assert_eq!(lines[0], "ModifyTable (rows=0, cost=150)");
    assert_eq!(lines[1], "  Seq Scan on orders (rows=50000, cost=120)  Filter: (id < 100)");
}

#[test]
fn pg_plan_single_node() {
    let entry = entry(
        r#"{
            "plan": [{"Plan": {
                "Node Type": "Seq Scan",
                "Relation Name": "users",
                "Plan Rows": 1000,
                "Total Cost": 50.0
            }}]
        }"#,
    );
    let lines = format_explain_tree(&entry, &FormatOptions::cli());
    assert_eq!(lines.len(), 1);
    assert!(lines[0].contains("Seq Scan on users"));
    assert!(lines[0].contains("rows=1000"));
}

#[test]
fn pg_plan_direct_object() {
    let entry = entry(
        r#"{
            "plan": {"Plan": {
                "Node Type": "Index Scan",
                "Relation Name": "users",
                "Plan Rows": 1,
                "Total Cost": 8.0
            }}
        }"#,
    );
    let lines = format_explain_tree(&entry, &FormatOptions::cli());
    assert_eq!(lines.len(), 1);
    assert!(lines[0].contains("Index Scan on users"));
}

#[test]
fn mysql_query_block() {
    let entry = entry(
        r#"{
            "plan": {"query_block": {
                "cost_info": {"query_cost": "45.20"},
                "nested_loop": [
                    {"table": {
                        "table_name": "orders",
                        "access_type": "ALL",
                        "rows_examined_per_scan": 50000,
                        "filtered": 30.0,
                        "attached_condition": "orders.created_at < '2024-01-01'"
                    }},
                    {"table": {
                        "table_name": "users",
                        "access_type": "eq_ref",
                        "rows_examined_per_scan": 1,
                        "filtered": 100.0
                    }}
                ]
            }}
        }"#,
    );
    let lines = format_explain_tree(&entry, &FormatOptions::cli());
    assert_eq!(lines.len(), 4);
    assert!(lines[0].contains("query_block (cost=45.20)"));
    assert!(lines[1].contains("nested_loop"));
    assert!(lines[2].contains("ALL on orders"));
    assert!(lines[2].contains("rows=50000"));
    assert!(lines[3].contains("eq_ref on users"));
    assert_eq!(
        lines[2],
        "    ALL on orders (rows=50000, filtered=30%)  WHERE: orders.created_at < '2024-01-01'"
    );
}

#[test]
fn mysql_ordering_operation() {
    let entry = entry(
        r#"{
            "plan": {"query_block": {
                "cost_info": {"query_cost": "10.00"},
                "ordering_operation": {
                    "using_filesort": true,
                    "table": {
                        "table_name": "products",
                        "access_type": "ALL",
                        "rows_examined_per_scan": 200,
                        "filtered": 100.0
                    }
                }
            }}
        }"#,
    );
    let lines = format_explain_tree(&entry, &FormatOptions::cli());
    assert!(lines.iter().any(|l| l.contains("ordering_operation (filesort)")));
    assert!(lines.iter().any(|l| l.contains("ALL on products")));
}

#[test]
fn text_format() {
    let entry = entry(r#"{"plan": "Seq Scan on users\n  Filter: (id > 10)\nRows: 100"}"#);
    let lines = format_explain_tree(&entry, &FormatOptions::cli());
    assert_eq!(lines.len(), 3);
    assert_eq!(lines[0], "Seq Scan on users");
}

#[test]
fn unknown_format() {
    let entry = entry(r#"{"plan": 42}"#);
    let lines = format_explain_tree(&entry, &FormatOptions::cli());
    assert_eq!(lines, vec!["(plan format unknown)"]);
}

#[test]
fn compact_truncation() {
    let entry = entry(
        r#"{
            "plan": [{"Plan": {
                "Node Type": "Append",
                "Plan Rows": 1000,
                "Total Cost": 500.0,
                "Plans": [
                    {"Node Type": "Seq Scan", "Relation Name": "t1", "Plan Rows": 100, "Total Cost": 50.0},
                    {"Node Type": "Seq Scan", "Relation Name": "t2", "Plan Rows": 100, "Total Cost": 50.0},
                    {"Node Type": "Seq Scan", "Relation Name": "t3", "Plan Rows": 100, "Total Cost": 50.0},
                    {"Node Type": "Seq Scan", "Relation Name": "t4", "Plan Rows": 100, "Total Cost": 50.0},
                    {"Node Type": "Seq Scan", "Relation Name": "t5", "Plan Rows": 100, "Total Cost": 50.0},
                    {"Node Type": "Seq Scan", "Relation Name": "t6", "Plan Rows": 100, "Total Cost": 50.0},
                    {"Node Type": "Seq Scan", "Relation Name": "t7", "Plan Rows": 100, "Total Cost": 50.0}
                ]
            }}]
        }"#,
    );
    let lines = format_explain_tree(&entry, &FormatOptions::slack());
    assert_eq!(lines.len(), 7);
    assert!(lines.last().unwrap().contains("(+"));
    assert!(lines.last().unwrap().contains("more nodes"));
    assert_eq!(lines.last().unwrap(), "... (+2 more nodes)");
}

#[test]
fn depth_limit() {
    let entry = entry(
        r#"{
            "plan": [{"Plan": {
                "Node Type": "Nested Loop",
                "Plan Rows": 10,
                "Total Cost": 100.0,
                "Plans": [{
                    "Node Type": "Nested Loop",
                    "Plan Rows": 5,
                    "Total Cost": 80.0,
                    "Plans": [{
                        "Node Type": "Nested Loop",
                        "Plan Rows": 3,
                        "Total Cost": 60.0,
                        "Plans": [{
                            "Node Type": "Nested Loop",
                            "Plan Rows": 2,
                            "Total Cost": 40.0,
                            "Plans": [{
                                "Node Type": "Seq Scan",
                                "Relation Name": "deep_table",
                                "Plan Rows": 1,
                                "Total Cost": 10.0
                            }]
                        }]
                    }]
                }]
            }}]
        }"#,
    );
    let lines = format_explain_tree(&entry, &FormatOptions::slack());
    assert!(lines.iter().any(|l| l.contains("...")));
    assert!(!lines.iter().any(|l| l.contains("deep_table")));
}

#[test]
fn a_long_text_is_cut_with_a_hint() {
    let text: Vec<String> = (0..14).map(|i| format!("line {i}")).collect();
    let entry = Json::parse(&format!("{{\"plan\": \"{}\"}}", text.join("\\n"))).unwrap();
    let lines = format_explain_tree(&entry, &FormatOptions::cli());
    assert_eq!(lines.len(), 11);
    assert_eq!(lines[9], "line 9");
    assert_eq!(lines[10], "... (use --json for full plan) (+4 more lines)");
    let short = format_explain_tree(&entry, &FormatOptions::slack());
    assert_eq!(short.len(), 7);
    assert_eq!(short[6], "... (+4 more nodes)");
}

#[test]
fn line_ends_are_taken_off() {
    let entry = entry(r#"{"plan": "a\r\nb\r\n\nc\r"}"#);
    let lines = format_explain_tree(&entry, &FormatOptions::cli());
    assert_eq!(lines, vec!["a", "b", "", "c\r"]);
    assert!(format_explain_tree(&Json::parse(r#"{"plan": ""}"#).unwrap(), &FormatOptions::cli()).is_empty());
}

#[test]
fn numbers_and_names_have_defaults() {
    let entry = entry(r#"{"plan": {"Plan": {}}}"#);
    assert_eq!(format_explain_tree(&entry, &FormatOptions::cli()), vec!["? (rows=0, cost=0)"]);
    let block = Json::parse(r#"{"plan": {"query_block": {"table": {"rows_produced_per_join": 3, "filtered": 12.5}}}}"#).unwrap();
    assert_eq!(
        format_explain_tree(&block, &FormatOptions::cli()),
        vec!["query_block (cost=?)", "  ? on ? (rows=3, filtered=12%)"]
    );
}

#[test]
fn costs_are_rounded() {
    let entry = entry(r#"{"plan": {"Plan": {"Node Type": "X", "Total Cost": 99.6}}}"#);
    assert_eq!(format_explain_tree(&entry, &FormatOptions::cli()), vec!["X (rows=0, cost=100)"]);
}

#[test]
fn long_conditions_are_cut() {
    let cond = "c".repeat(80);
    let text = format!(
        "{{\"plan\": {{\"query_block\": {{\"grouping_operation\": {{\"nested_loop\": [{{\"table\": {{\"attached_condition\": \"{cond}\"}}}}, {{}}]}}}}}}}}"
    );
    let lines = format_explain_tree(&Json::parse(&text).unwrap(), &FormatOptions::cli());
    assert_eq!(lines[1], "  grouping_operation");
    assert_eq!(lines[2], format!("    ? on ? (rows=0, filtered=100%)  WHERE: {}", "c".repeat(50)));
    assert_eq!(lines.len(), 3);
}

#[test]
fn tables_below_the_limit_are_hinted() {
    let opts = FormatOptions { max_depth: 1, max_lines: None, truncation_hint: "~" };
    let entry = entry(r#"{"plan": {"query_block": {"table": {}, "nested_loop": [{"table": {}}]}}}"#);
    assert_eq!(
        format_explain_tree(&entry, &opts),
        vec!["query_block (cost=?)", "  ? on ? (rows=0, filtered=100%)", "  nested_loop", "    ~"]
    );
    let shallow = FormatOptions { max_depth: 0, max_lines: None, truncation_hint: "~" };
    let sorted = Json::parse(
        r#"{"plan": {"query_block": {"table": {}, "ordering_operation": {"table": {}, "nested_loop": [{"table": {}}]}, "grouping_operation": {"nested_loop": [{"table": {}}]}}}}"#,
    )
    .unwrap();
    assert_eq!(
        format_explain_tree(&sorted, &shallow),
        vec![
            "query_block (cost=?)",
            "  ~",
            "  ordering_operation",
            "    ~",
            "    ~",
            "  grouping_operation",
            "    ~",
        ]
    );
}

#[test]
fn the_largest_depth_shows_the_whole_plan() {
    let opts = FormatOptions { max_depth: usize::MAX, max_lines: None, truncation_hint: "~" };
    let tree = entry(r#"{"plan": {"Plan": {"Node Type": "A", "Plans": [{"Node Type": "B", "Plans": [{"Node Type": "C"}]}]}}}"#);
    assert_eq!(
        format_explain_tree(&tree, &opts),
        vec!["A (rows=0, cost=0)", "  B (rows=0, cost=0)", "    C (rows=0, cost=0)"]
    );
    let none = FormatOptions { max_depth: 0, max_lines: None, truncation_hint: "~" };
    assert_eq!(format_explain_tree(&tree, &none), vec!["A (rows=0, cost=0)", "  ~"]);
}

#[test]
fn lines_up_to_the_limit_stay_as_they_are() {
    let opts = FormatOptions { max_depth: 1, max_lines: Some(2), truncation_hint: "~" };
    let two = vec!["a".to_string(), "b".to_string()];
    assert_eq!(apply_max_lines(two.clone(), &opts), two);
    let three = vec!["a".to_string(), "b".to_string(), "c".to_string()];
    assert_eq!(apply_max_lines(three, &opts), vec!["a", "b", "~ (+1 more nodes)"]);
}
