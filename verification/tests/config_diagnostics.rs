use dbward_app::config_diagnostics::{
    convert_step_def_to_domain, diagnose_server_config, steps_to_check, ApproverDef,
    ApproverSelectorType, DiagnosticsResult, Severity, StepCheck, StepIssue, ValidationIssue,
    WorkflowDef, WorkflowStepDef,
};
use dbward_app::domain::{Selector, WorkflowStepMode};

fn step(kind: ApproverSelectorType, value: &str, min: Option<u32>) -> WorkflowStepDef {
    WorkflowStepDef {
        supported: true,
        mode: WorkflowStepMode::All,
        approvers: vec![ApproverDef { selector_type: kind, value: value.to_string(), min }],
    }
}

fn parsed(steps: Vec<WorkflowStepDef>, same_approver: bool) -> DiagnosticsResult {
    DiagnosticsResult {
        workflows: Some(vec![WorkflowDef {
            steps,
            allow_same_approver_across_steps: same_approver,
        }]),
        issues: vec![],
    }
}

/// The rules on steps, as far as these tests go.
fn validate(check: &StepCheck) -> Vec<StepIssue> {
    let mut out = vec![];
    let mut seen: Vec<String> = vec![];
    for s in check.steps.iter() {
        for a in s.approvers.iter() {
            if a.min == 0 {
                out.push(StepIssue {
                    severity: Severity::Error,
                    message: "approver has min=0".to_string(),
                });
            }
            if let Selector::User(u) = &a.selector {
                if seen.contains(u) && !check.allow_same_approver_across_steps {
                    out.push(StepIssue {
                        severity: Severity::Error,
                        message: format!("user {u} is required twice: deadlock"),
                    });
                }
                seen.push(u.clone());
            }
        }
    }
    out
}

fn diagnose(found: DiagnosticsResult) -> DiagnosticsResult {
    let checks = match &found.workflows {
        Some(w) => steps_to_check(w),
        None => vec![],
    };
    let issues: Vec<Vec<StepIssue>> = checks.iter().map(validate).collect();
    diagnose_server_config(found, &checks, &issues)
}

#[test]
fn diagnose_catches_domain_level_min_zero_error() {
    let result = diagnose(parsed(vec![step(ApproverSelectorType::Role, "dba", Some(0))], true));
    assert!(result.workflows.is_some(), "Config should parse");
    assert!(result
        .issues
        .iter()
        .filter(|i| i.severity == Severity::Error)
        .any(|i| i.id == "workflow_step_validity" && i.message.contains("min=0")));
}

#[test]
fn diagnose_catches_cross_step_deadlock() {
    let result = diagnose(parsed(
        vec![
            step(ApproverSelectorType::User, "alice", None),
            step(ApproverSelectorType::User, "alice", None),
        ],
        false,
    ));
    assert!(result.workflows.is_some(), "Config should parse");
    assert!(result.issues.iter().filter(|i| i.severity == Severity::Error).any(|i| {
        i.id == "workflow_step_validity"
            && i.message.contains("alice")
            && i.message.contains("deadlock")
    }));
}

#[test]
fn diagnose_valid_config_has_no_errors() {
    let result = diagnose(parsed(vec![step(ApproverSelectorType::Role, "dba", Some(1))], true));
    assert!(result.workflows.is_some(), "Config should parse");
    assert!(!result.has_errors(), "Should have no errors");
}

#[test]
fn diagnose_includes_config_level_issues() {
    let result = diagnose(DiagnosticsResult {
        workflows: None,
        issues: vec![ValidationIssue {
            severity: Severity::Error,
            id: "toml_parse".to_string(),
            message: "invalid toml [[[".to_string(),
        }],
    });
    assert!(result.workflows.is_none(), "Config should fail to parse");
    assert!(result.has_errors(), "Should have parse error");
    assert!(result.issues.iter().any(|i| i.id == "toml_parse"), "Should have toml_parse error");
}

#[test]
fn step_keeps_its_approvers() {
    let s = convert_step_def_to_domain(&step(ApproverSelectorType::Group, "ops", None));
    assert!(s.mode == WorkflowStepMode::All);
    assert_eq!(s.approvers[0].selector.to_text(), "group:ops");
    assert_eq!(s.approvers[0].min, 1);
}
