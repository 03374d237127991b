use dbward_app::json::Json;
use dbward_app::services::risk_display::{
    capitalize_snake, format_legacy_factor, format_number, format_risk_factors, format_unsigned,
    serialize_factors, RiskFactor,
};

fn factor(text: &str) -> Json {
    Json::parse(text).unwrap()
}

#[test]
fn structured_cascade_delete() {
    let factors = vec![factor(r#"{"name": "cascade_delete", "targets": ["order_items", "payments"]}"#)];
    let result = format_risk_factors(&factors);
    assert_eq!(result, vec!["Cascade delete affects: order_items, payments"]);
}

#[test]
fn structured_large_table() {
    let factors = vec![factor(r#"{"name": "large_table", "rows": 100000}"#)];
    let result = format_risk_factors(&factors);
    assert_eq!(result, vec!["Large table: 100,000 rows"]);
}

#[test]
fn structured_many_warnings() {
    let factors = vec![factor(r#"{"name": "many_warnings", "count": 5}"#)];
    let result = format_risk_factors(&factors);
    assert_eq!(result, vec!["5 review warnings"]);
}

#[test]
fn structured_simple_factors() {
    let factors = vec![
        factor(r#"{"name": "drop_operation"}"#),
        factor(r#"{"name": "multi_statement"}"#),
        factor(r#"{"name": "schema_not_synced"}"#),
        factor(r#"{"name": "read_only"}"#),
        factor(r#"{"name": "safe_ddl"}"#),
    ];
    let result = format_risk_factors(&factors);
    assert_eq!(
        result,
        vec![
            "DROP/TRUNCATE operation",
            "Multiple DML statements",
            "Schema not available",
            "Read-only query",
            "Safe DDL operation",
        ]
    );
}

#[test]
fn structured_unknown_factor_uses_capitalize_snake() {
    let factors = vec![factor(r#"{"name": "new_future_factor"}"#)];
    let result = format_risk_factors(&factors);
    assert_eq!(result, vec!["New Future Factor"]);
}

#[test]
fn legacy_cascade_delete() {
    let factors = vec![Json::text("CascadeDelete { targets: [\"order_items\", \"payments\"] }")];
    let result = format_risk_factors(&factors);
    assert_eq!(result, vec!["Cascade delete affects: order_items, payments"]);
}

#[test]
fn legacy_large_table() {
    let factors = vec![Json::text("LargeTable { rows: 100000 }")];
    let result = format_risk_factors(&factors);
    assert_eq!(result, vec!["Large table: 100,000 rows"]);
}

#[test]
fn legacy_many_warnings() {
    let factors = vec![Json::text("ManyWarnings { count: 4 }")];
    let result = format_risk_factors(&factors);
    assert_eq!(result, vec!["4 review warnings"]);
}

#[test]
fn legacy_simple_factors() {
    let factors = vec![
        Json::text("DropOperation"),
        Json::text("MultiStatement"),
        Json::text("SchemaNotSynced"),
        Json::text("ReadOnly"),
        Json::text("SafeDdl"),
    ];
    let result = format_risk_factors(&factors);
    assert_eq!(
        result,
        vec![
            "DROP/TRUNCATE operation",
            "Multiple DML statements",
            "Schema not available",
            "Read-only query",
            "Safe DDL operation",
        ]
    );
}

#[test]
fn legacy_unparseable_string_shows_raw() {
    let factors = vec![Json::text("SomethingCompletelyNew { x: 42 }")];
    let result = format_risk_factors(&factors);
    assert_eq!(result, vec!["SomethingCompletelyNew { x: 42 }"]);
}

#[test]
fn empty_factors() {
    let factors: Vec<Json> = vec![];
    let result = format_risk_factors(&factors);
    assert!(result.is_empty());
}

#[test]
fn mixed_v1_and_v2() {
    let factors = vec![
        factor(r#"{"name": "cascade_delete", "targets": ["items"]}"#),
        Json::text("LargeTable { rows: 50000 }"),
    ];
    let result = format_risk_factors(&factors);
    assert_eq!(result, vec!["Cascade delete affects: items", "Large table: 50,000 rows"]);
}

#[test]
fn format_number_basic() {
    assert_eq!(format_number(0), "0");
    assert_eq!(format_number(999), "999");
    assert_eq!(format_number(1000), "1,000");
    assert_eq!(format_number(100000), "100,000");
    assert_eq!(format_number(1000000), "1,000,000");
    assert_eq!(format_number(12345678), "12,345,678");
}

#[test]
fn format_number_negative() {
    assert_eq!(format_number(-1000), "-1,000");
}

#[test]
fn format_number_i64_min_does_not_panic() {
    let result = format_number(i64::MIN);
    assert_eq!(result, "-9,223,372,036,854,775,808");
}

#[test]
fn cascade_delete_empty_targets() {
    let factors = vec![factor(r#"{"name": "cascade_delete", "targets": []}"#)];
    let result = format_risk_factors(&factors);
    assert_eq!(result, vec!["Cascade delete"]);
}

#[test]
fn grouping_keeps_the_digits_of_the_largest_number() {
    let grouped = format_unsigned(u64::MAX);
    assert_eq!(grouped, "18,446,744,073,709,551,615");
    assert_eq!(grouped.replace(',', ""), u64::MAX.to_string());
}

#[test]
fn stored_factors_tell_what_they_describe() {
    let factors = vec![
        RiskFactor::CascadeDelete { targets: vec!["a".to_string(), "b".to_string()] },
        RiskFactor::LargeTable { rows: -1234567 },
        RiskFactor::ManyWarnings { count: u64::MAX },
        RiskFactor::DropOperation,
        RiskFactor::MultiStatement,
        RiskFactor::SchemaNotSynced,
        RiskFactor::ReadOnly,
        RiskFactor::SafeDdl,
    ];
    let stored = serialize_factors(&factors);
    assert_eq!(
        format_risk_factors(&stored),
        vec![
            "Cascade delete affects: a, b",
            "Large table: -1,234,567 rows",
            "18446744073709551615 review warnings",
            "DROP/TRUNCATE operation",
            "Multiple DML statements",
            "Schema not available",
            "Read-only query",
            "Safe DDL operation",
        ]
    );
    let texts: Vec<String> = stored.into_iter().map(|j| j.render()).collect();
    assert_eq!(texts[0], r#"{"name":"cascade_delete","targets":["a","b"]}"#);
    assert_eq!(texts[1], r#"{"name":"large_table","rows":-1234567}"#);
    assert_eq!(texts[3], r#"{"name":"drop_operation"}"#);
}

#[test]
fn a_factor_of_another_kind_is_unknown() {
    assert_eq!(format_risk_factors(&[Json::unsigned(3), Json::Null]), vec!["Unknown factor", "Unknown factor"]);
}

#[test]
fn a_stored_factor_without_a_name_is_unknown() {
    assert_eq!(format_risk_factors(&[factor("{}")]), vec!["Unknown"]);
}

#[test]
fn missing_numbers_count_as_zero() {
    assert_eq!(
        format_risk_factors(&[factor(r#"{"name":"large_table"}"#), factor(r#"{"name":"many_warnings","count":-1}"#)]),
        vec!["Large table: 0 rows", "0 review warnings"]
    );
}

#[test]
fn older_texts_are_read_as_far_as_possible() {
    assert_eq!(format_legacy_factor("CascadeDelete"), "Cascade delete");
    assert_eq!(format_legacy_factor("CascadeDelete { targets: [] }"), "Cascade delete");
    assert_eq!(format_legacy_factor("CascadeDelete [ \u{a0}\"x\"\u{2003}, ,\"\"]"), "Cascade delete affects: x");
    assert_eq!(format_legacy_factor("CascadeDelete [\\a\\,\"\\b\\\"]"), "Cascade delete affects: a, b");
    assert_eq!(format_legacy_factor("CascadeDelete]["), "Cascade delete");
    assert_eq!(format_legacy_factor("CascadeDelete ] x ["), "Cascade delete");
    assert_eq!(format_risk_factors(&[Json::text("CascadeDelete][")]), vec!["Cascade delete"]);
    assert_eq!(format_legacy_factor("LargeTable"), "Large table");
    assert_eq!(format_legacy_factor("LargeTable { rows:\t007 }"), "Large table: 7 rows");
    assert_eq!(format_legacy_factor("LargeTable { rows: -1 }"), "Large table");
    assert_eq!(format_legacy_factor("LargeTable { rows: 9223372036854775807 }"), "Large table: 9,223,372,036,854,775,807 rows");
    assert_eq!(format_legacy_factor("LargeTable { rows: 9223372036854775808 }"), "Large table");
    assert_eq!(format_legacy_factor("ManyWarnings { count: 18446744073709551615 }"), "18446744073709551615 review warnings");
    assert_eq!(format_legacy_factor("ManyWarnings { count: 18446744073709551616 }"), "Many warnings");
    assert_eq!(format_legacy_factor("ManyWarnings"), "Many warnings");
}

#[test]
fn words_get_capital_initials() {
    assert_eq!(capitalize_snake("a_b"), "A B");
    assert_eq!(capitalize_snake("_x"), " X");
    assert_eq!(capitalize_snake("stra\u{df}e_\u{df}"), "Stra\u{df}e SS");
    assert_eq!(capitalize_snake(""), "");
}

#[test]
fn older_and_stored_factors_are_shown_alike() {
    let named = |v: &[&str]| RiskFactor::CascadeDelete {
        targets: v.iter().map(|s| s.to_string()).collect(),
    };
    let factors = vec![
        named(&[]),
        named(&["orders"]),
        named(&["public.orders", "order_items2", "T"]),
        named(&["order items", "[odd]"]),
        RiskFactor::LargeTable { rows: 0 },
        RiskFactor::LargeTable { rows: 1_234_567 },
        RiskFactor::LargeTable { rows: i64::MAX },
        RiskFactor::ManyWarnings { count: 0 },
        RiskFactor::ManyWarnings { count: u64::MAX },
        RiskFactor::DropOperation,
        RiskFactor::MultiStatement,
        RiskFactor::SchemaNotSynced,
        RiskFactor::ReadOnly,
        RiskFactor::SafeDdl,
    ];
    let older: Vec<Json> = factors.iter().map(|f| Json::text(&format!("{f:?}"))).collect();
    assert_eq!(format_risk_factors(&serialize_factors(&factors)), format_risk_factors(&older));
}

#[test]
fn white_space_is_the_unicode_property() {
    for c in '\0'..='\u{ffff}' {
        if c == ',' || c == '"' || c == '\\' || c == '[' || c == ']' {
            continue;
        }
        let shown = format_legacy_factor(&format!("CascadeDelete [{c}x{c}]"));
        let name = format!("{c}x{c}");
        assert_eq!(shown, format!("Cascade delete affects: {}", name.trim()));
    }
}
