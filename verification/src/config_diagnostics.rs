//! Diagnostics of a server configuration: what a check of its text found, and
//! what a check of its workflow steps adds.

use vstd::prelude::*;

use crate::domain::{ApproverGroup, Selector, WorkflowStep, WorkflowStepMode};
use crate::text::{concat4, decimal, decimal_text};

verus! {

/// How bad an issue is.
#[derive(Clone, Copy, Debug, PartialEq, Eq, Structural)]
pub enum Severity {
    Error,
    Warning,
}

/// An issue of a configuration.
pub struct ValidationIssue {
    pub severity: Severity,
    pub id: String,
    pub message: String,
}

/// Whom a configured approver names.
#[derive(Clone, Copy, Debug, PartialEq, Eq, Structural)]
pub enum ApproverSelectorType {
    Role,
    Group,
    User,
}

/// An approver in the configuration.
pub struct ApproverDef {
    pub selector_type: ApproverSelectorType,
    pub value: String,
    pub min: Option<u32>,
}

/// A step of a workflow in the configuration. A step of a type that is not
/// supported is reported elsewhere.
pub struct WorkflowStepDef {
    pub supported: bool,
    pub mode: WorkflowStepMode,
    pub approvers: Vec<ApproverDef>,
}

/// A workflow in the configuration.
pub struct WorkflowDef {
    pub steps: Vec<WorkflowStepDef>,
    pub allow_same_approver_across_steps: bool,
}

/// What diagnostics give: the workflows of the configuration, where it could be
/// read, and the issues.
pub struct DiagnosticsResult {
    pub workflows: Option<Vec<WorkflowDef>>,
    pub issues: Vec<ValidationIssue>,
}

/// Whether some issue is an error.
pub open spec fn any_error(issues: Seq<ValidationIssue>) -> bool {
    exists|i: int| 0 <= i < issues.len() && (#[trigger] issues[i]).severity is Error
}

impl DiagnosticsResult {
    /// Whether some issue is an error.
    pub fn has_errors(&self) -> (r: bool)
        ensures
            r == any_error(self.issues@),
    {
        let n: usize = self.issues.len();
        let mut i: usize = 0;
        while i < n
            invariant
                i <= n,
                n == self.issues@.len(),
                forall|k: int| 0 <= k < i ==> !((#[trigger] self.issues@[k]).severity is Error),
            decreases n - i,
        {
            if self.issues[i].severity == Severity::Error {
                assert(self.issues@[i as int].severity is Error);
                return true;
            }
            i += 1;
        }
        false
    }
}

/// Whether `g` is the approver that the configuration names; one approval is
/// needed where it does not say.
pub open spec fn approver_of(g: ApproverGroup, a: ApproverDef) -> bool {
    &&& g.selector == match a.selector_type {
        ApproverSelectorType::Role => Selector::Role(a.value),
        ApproverSelectorType::Group => Selector::Group(a.value),
        ApproverSelectorType::User => Selector::User(a.value),
    }
    &&& g.min == match a.min {
        Some(m) => m,
        None => 1,
    }
}

/// Whether `s` is the step that the configuration describes.
pub open spec fn step_of(s: WorkflowStep, d: WorkflowStepDef) -> bool {
    &&& s.mode == d.mode
    &&& s.approvers@.len() == d.approvers@.len()
    &&& forall|k: int|
        0 <= k < s.approvers@.len() ==> approver_of(#[trigger] s.approvers@[k], d.approvers@[k])
}

/// Turns a step of the configuration into one that can be checked.
pub fn convert_step_def_to_domain(step: &WorkflowStepDef) -> (r: WorkflowStep)
    ensures
        step_of(r, *step),
{
    let mut approvers: Vec<ApproverGroup> = Vec::new();
    let n: usize = step.approvers.len();
    let mut i: usize = 0;
    while i < n
        invariant
            i <= n,
            n == step.approvers@.len(),
            approvers@.len() == i,
            forall|k: int| 0 <= k < i ==> approver_of(#[trigger] approvers@[k], step.approvers@[k]),
        decreases n - i,
    {
        let a = &step.approvers[i];
        let selector: Selector = match a.selector_type {
            ApproverSelectorType::Role => Selector::Role(a.value.clone()),
            ApproverSelectorType::Group => Selector::Group(a.value.clone()),
            ApproverSelectorType::User => Selector::User(a.value.clone()),
        };
        let min: u32 = match a.min {
            Some(m) => m,
            None => 1,
        };
        approvers.push(ApproverGroup { selector, min });
        i += 1;
    }
    WorkflowStep { approvers, mode: step.mode }
}

/// Due: check the steps of the workflow at the place.
pub struct StepCheck {
    pub workflow: usize,
    pub steps: Vec<WorkflowStep>,
    pub allow_same_approver_across_steps: bool,
}

/// The supported steps, in order.
pub open spec fn supported_steps(steps: Seq<WorkflowStepDef>) -> Seq<WorkflowStepDef>
    decreases steps.len(),
{
    if steps.len() == 0 {
        seq![]
    } else {
        let rest = supported_steps(steps.drop_last());
        if steps.last().supported {
            rest.push(steps.last())
        } else {
            rest
        }
    }
}

/// Whether `steps` are the steps that the configuration describes.
pub open spec fn steps_of(steps: Seq<WorkflowStep>, defs: Seq<WorkflowStepDef>) -> bool {
    &&& steps.len() == defs.len()
    &&& forall|k: int| 0 <= k < steps.len() ==> step_of(#[trigger] steps[k], defs[k])
}

/// The places of the workflows with steps, in order; one without passes every
/// request and has nothing to check.
pub open spec fn workflows_with_steps(workflows: Seq<WorkflowDef>) -> Seq<int>
    decreases workflows.len(),
{
    if workflows.len() == 0 {
        seq![]
    } else {
        let rest = workflows_with_steps(workflows.drop_last());
        if workflows.last().steps@.len() > 0 {
            rest.push(workflows.len() - 1)
        } else {
            rest
        }
    }
}

/// Whether `c` checks the supported steps of the workflow at a place.
pub open spec fn checks_workflow(c: StepCheck, workflows: Seq<WorkflowDef>, place: int) -> bool {
    &&& c.workflow == place
    &&& steps_of(c.steps@, supported_steps(workflows[place].steps@))
    &&& c.allow_same_approver_across_steps == workflows[place].allow_same_approver_across_steps
}

/// Whether `checks` check every workflow with steps, in order.
pub open spec fn checks_all(checks: Seq<StepCheck>, workflows: Seq<WorkflowDef>) -> bool {
    &&& checks.len() == workflows_with_steps(workflows).len()
    &&& forall|k: int|
        0 <= k < checks.len() ==> checks_workflow(
            #[trigger] checks[k],
            workflows,
            workflows_with_steps(workflows)[k],
        )
}

fn convert_steps(defs: &Vec<WorkflowStepDef>) -> (r: Vec<WorkflowStep>)
    ensures
        steps_of(r@, supported_steps(defs@)),
{
    let mut steps: Vec<WorkflowStep> = Vec::new();
    let n: usize = defs.len();
    let mut i: usize = 0;
    while i < n
        invariant
            i <= n,
            n == defs@.len(),
            steps_of(steps@, supported_steps(defs@.take(i as int))),
        decreases n - i,
    {
        proof {
            assert(defs@.take(i + 1).drop_last() =~= defs@.take(i as int));
            assert(defs@.take(i + 1).last() == defs@[i as int]);
        }
        if defs[i].supported {
            steps.push(convert_step_def_to_domain(&defs[i]));
        }
        i += 1;
    }
    assert(defs@.take(n as int) =~= defs@);
    steps
}

/// The steps that are to be checked, workflow by workflow.
pub fn steps_to_check(workflows: &Vec<WorkflowDef>) -> (r: Vec<StepCheck>)
    ensures
        checks_all(r@, workflows@),
{
    let mut checks: Vec<StepCheck> = Vec::new();
    let n: usize = workflows.len();
    let mut i: usize = 0;
    while i < n
        invariant
            i <= n,
            n == workflows@.len(),
            checks@.len() == workflows_with_steps(workflows@.take(i as int)).len(),
            forall|k: int|
                0 <= k < checks@.len() ==> checks_workflow(
                    #[trigger] checks@[k],
                    workflows@,
                    workflows_with_steps(workflows@.take(i as int))[k],
                ),
        decreases n - i,
    {
        proof {
            assert(workflows@.take(i + 1).drop_last() =~= workflows@.take(i as int));
            assert(workflows@.take(i + 1).last() == workflows@[i as int]);
        }
        if workflows[i].steps.len() > 0 {
            checks.push(
                StepCheck {
                    workflow: i,
                    steps: convert_steps(&workflows[i].steps),
                    allow_same_approver_across_steps: workflows[i].allow_same_approver_across_steps,
                },
            );
        }
        i += 1;
    }
    assert(workflows@.take(n as int) =~= workflows@);
    checks
}

/// An issue of the steps of one workflow.
pub struct StepIssue {
    pub severity: Severity,
    pub message: String,
}

/// Whether `v` reports the issue of the workflow at a place.
pub open spec fn reports(v: ValidationIssue, issue: StepIssue, place: int) -> bool {
    &&& v.severity == issue.severity
    &&& v.id@ == "workflow_step_validity"@
    &&& v.message@ == "workflows["@ + decimal(place as nat) + "]: "@ + issue.message@
}

/// The issues of the checks in order, each with the place of its workflow.
pub open spec fn located(places: Seq<int>, issues: Seq<Vec<StepIssue>>) -> Seq<(int, StepIssue)>
    decreases issues.len(),
{
    if issues.len() == 0 {
        seq![]
    } else {
        located(places, issues.drop_last()) + issues.last()@.map_values(
            |s: StepIssue| (places[issues.len() - 1], s),
        )
    }
}

/// Whether `more` reports the issues in order.
pub open spec fn reports_all(more: Seq<ValidationIssue>, issues: Seq<(int, StepIssue)>) -> bool {
    &&& more.len() == issues.len()
    &&& forall|k: int|
        0 <= k < more.len() ==> reports(#[trigger] more[k], issues[k].1, issues[k].0)
}

/// Adds what the checks of the steps found to what the check of the text found.
/// Where the configuration could not be read, nothing is added.
pub fn diagnose_server_config(
    found: DiagnosticsResult,
    checks: &Vec<StepCheck>,
    step_issues: &Vec<Vec<StepIssue>>,
) -> (r: DiagnosticsResult)
    requires
        step_issues@.len() == checks@.len(),
        found.workflows matches Some(w) ==> checks_all(checks@, w@),
    ensures
        r.workflows == found.workflows,
        if found.workflows is Some {
            &&& found.issues@.len() <= r.issues@.len()
            &&& r.issues@.take(found.issues@.len() as int) == found.issues@
            &&& reports_all(
                r.issues@.skip(found.issues@.len() as int),
                located(checks@.map_values(|c: StepCheck| c.workflow as int), step_issues@),
            )
        } else {
            r.issues@ == found.issues@
        },
{
    let mut result = found;
    if result.workflows.is_none() {
        return result;
    }
    let ghost old_issues = result.issues@;
    let ghost base = old_issues.len() as int;
    let ghost places = checks@.map_values(|c: StepCheck| c.workflow as int);
    let mut issues = result.issues;
    let n: usize = step_issues.len();
    let mut i: usize = 0;
    assert(issues@.take(base) =~= old_issues);
    while i < n
        invariant
            i <= n,
            n == step_issues@.len(),
            n == checks@.len(),
            base == old_issues.len(),
            base <= issues@.len(),
            issues@.take(base) == old_issues,
            places == checks@.map_values(|c: StepCheck| c.workflow as int),
            reports_all(issues@.skip(base), located(places, step_issues@.take(i as int))),
        decreases n - i,
    {
        let list = &step_issues[i];
        let place: usize = checks[i].workflow;
        let ghost before = located(places, step_issues@.take(i as int));
        let ghost here = list@.map_values(|s: StepIssue| (places[i as int], s));
        let m: usize = list.len();
        let mut j: usize = 0;
        assert(before + here.take(0) =~= before);
        while j < m
            invariant
                j <= m,
                m == list@.len(),
                i < n,
                n == checks@.len(),
                base == old_issues.len(),
                base <= issues@.len(),
                issues@.take(base) == old_issues,
                places[i as int] == place,
                here == list@.map_values(|s: StepIssue| (places[i as int], s)),
                reports_all(issues@.skip(base), before + here.take(j as int)),
            decreases m - j,
        {
            let at = decimal_text(place as u64);
            let v = ValidationIssue {
                severity: list[j].severity,
                id: "workflow_step_validity".to_string(),
                message: concat4("workflows[", at.as_str(), "]: ", list[j].message.as_str()),
            };
            let ghost shown = issues@.skip(base);
            let ghost known = before + here.take(j as int);
            assert(reports(v, list@[j as int], place as int));
            issues.push(v);
            j += 1;
            proof {
                assert(issues@.take(base) =~= old_issues);
                assert(issues@.skip(base) =~= shown.push(v));
                assert(before + here.take(j as int) =~= known.push(here[j - 1]));
            }
        }
        proof {
            assert(here.take(m as int) =~= here);
            assert(step_issues@.take(i + 1).drop_last() =~= step_issues@.take(i as int));
            assert(step_issues@.take(i + 1).last() == step_issues@[i as int]);
            assert(located(places, step_issues@.take(i + 1)) =~= before + here);
        }
        i += 1;
    }
    assert(step_issues@.take(n as int) =~= step_issues@);
    result.issues = issues;
    result
}

/// Diagnostics add to what was found and take nothing away: an error that was
/// found stays.
pub proof fn found_errors_stay(found: Seq<ValidationIssue>, all: Seq<ValidationIssue>)
    requires
        found.len() <= all.len(),
        all.take(found.len() as int) == found,
        any_error(found),
    ensures
        any_error(all),
{
    let i = choose|i: int| 0 <= i < found.len() && (#[trigger] found[i]).severity is Error;
    assert(all.take(found.len() as int)[i] == all[i]);
    assert(all[i].severity is Error);
}

/// A configuration has errors exactly if an issue is one; warnings are none.
pub proof fn warnings_are_no_errors(d: DiagnosticsResult, r: bool)
    requires
        call_ensures(DiagnosticsResult::has_errors, (&d,), r),
    ensures
        r <==> exists|i: int|
            0 <= i < d.issues@.len() && (#[trigger] d.issues@[i]).severity == Severity::Error,
{
    if any_error(d.issues@) {
        let i = choose|i: int|
            0 <= i < d.issues@.len() && (#[trigger] d.issues@[i]).severity is Error;
        assert(d.issues@[i].severity == Severity::Error);
    }
}

/// A step is checked as it is configured: with its mode, and with each approver
/// of its kind, one approval where it does not say how many.
pub proof fn steps_are_checked_as_configured(d: WorkflowStepDef, r: WorkflowStep, k: int)
    requires
        call_ensures(convert_step_def_to_domain, (&d,), r),
        0 <= k < d.approvers@.len(),
    ensures
        r.mode == d.mode,
        r.approvers@.len() == d.approvers@.len(),
        d.approvers@[k].min is None ==> r.approvers@[k].min == 1,
        d.approvers@[k].min matches Some(m) ==> r.approvers@[k].min == m,
        r.approvers@[k].selector is Role <==> d.approvers@[k].selector_type
            == ApproverSelectorType::Role,
        r.approvers@[k].selector is Group <==> d.approvers@[k].selector_type
            == ApproverSelectorType::Group,
        r.approvers@[k].selector is User <==> d.approvers@[k].selector_type
            == ApproverSelectorType::User,
        r.approvers@[k].selector matches Selector::Role(v) ==> v == d.approvers@[k].value,
        r.approvers@[k].selector matches Selector::Group(v) ==> v == d.approvers@[k].value,
        r.approvers@[k].selector matches Selector::User(v) ==> v == d.approvers@[k].value,
{
    assert(approver_of(r.approvers@[k], d.approvers@[k]));
}

proof fn lemma_places(workflows: Seq<WorkflowDef>, i: int)
    ensures
        workflows_with_steps(workflows).contains(i) <==> 0 <= i < workflows.len()
            && workflows[i].steps@.len() > 0,
    decreases workflows.len(),
{
    if workflows.len() > 0 {
        let before = workflows.drop_last();
        let rest = workflows_with_steps(before);
        let all = workflows_with_steps(workflows);
        lemma_places(before, i);
        if rest.contains(i) {
            let k = choose|k: int| 0 <= k < rest.len() && rest[k] == i;
            assert(all[k] == i);
            assert(before[i] == workflows[i]);
        }
        if all.contains(i) {
            let k = choose|k: int| 0 <= k < all.len() && all[k] == i;
            if k < rest.len() {
                assert(rest[k] == i);
            }
        }
        if 0 <= i < workflows.len() && workflows[i].steps@.len() > 0 {
            if i < before.len() {
                assert(before[i] == workflows[i]);
            } else {
                assert(all[all.len() - 1] == i);
            }
        }
    }
}

proof fn lemma_all_supported(steps: Seq<WorkflowStepDef>)
    requires
        forall|k: int| 0 <= k < steps.len() ==> (#[trigger] steps[k]).supported,
    ensures
        supported_steps(steps) == steps,
    decreases steps.len(),
{
    if steps.len() > 0 {
        let before = steps.drop_last();
        assert forall|k: int| 0 <= k < before.len() implies (#[trigger] before[k]).supported by {
            assert(before[k] == steps[k]);
        }
        lemma_all_supported(before);
        assert(steps[steps.len() - 1].supported);
        assert(supported_steps(steps) =~= steps);
    } else {
        assert(supported_steps(steps) =~= steps);
    }
}

/// Every workflow with steps is checked, and no other; where all its steps are
/// supported, all are checked.
pub proof fn every_workflow_with_steps_is_checked(
    workflows: Vec<WorkflowDef>,
    r: Vec<StepCheck>,
    i: int,
)
    requires
        call_ensures(steps_to_check, (&workflows,), r),
        0 <= i < workflows@.len(),
    ensures
        (exists|k: int| 0 <= k < r@.len() && (#[trigger] r@[k]).workflow == i)
            <==> workflows@[i].steps@.len() > 0,
        forall|k: int|
            0 <= k < r@.len() && (#[trigger] r@[k]).workflow == i ==> {
                &&& r@[k].allow_same_approver_across_steps
                    == workflows@[i].allow_same_approver_across_steps
                &&& (forall|s: int|
                    0 <= s < workflows@[i].steps@.len() ==> (
                    #[trigger] workflows@[i].steps@[s]).supported) ==> r@[k].steps@.len()
                    == workflows@[i].steps@.len()
            },
{
    let places = workflows_with_steps(workflows@);
    lemma_places(workflows@, i);
    if places.contains(i) {
        let k = choose|k: int| 0 <= k < places.len() && places[k] == i;
        assert(checks_workflow(r@[k], workflows@, places[k]));
        assert(r@[k].workflow == i);
    }
    assert forall|k: int| 0 <= k < r@.len() && (#[trigger] r@[k]).workflow == i implies {
        &&& r@[k].allow_same_approver_across_steps
            == workflows@[i].allow_same_approver_across_steps
        &&& (forall|s: int|
            0 <= s < workflows@[i].steps@.len() ==> (
            #[trigger] workflows@[i].steps@[s]).supported) ==> r@[k].steps@.len()
            == workflows@[i].steps@.len()
    } by {
        assert(checks_workflow(r@[k], workflows@, places[k]));
        if forall|s: int|
            0 <= s < workflows@[i].steps@.len() ==> (
            #[trigger] workflows@[i].steps@[s]).supported {
            lemma_all_supported(workflows@[i].steps@);
        }
    }
    if exists|k: int| 0 <= k < r@.len() && (#[trigger] r@[k]).workflow == i {
        let k = choose|k: int| 0 <= k < r@.len() && (#[trigger] r@[k]).workflow == i;
        assert(checks_workflow(r@[k], workflows@, places[k]));
        assert(places[k] == i);
    }
}

proof fn lemma_located(places: Seq<int>, issues: Seq<Vec<StepIssue>>, c: int, i: int)
    requires
        0 <= c < issues.len(),
        0 <= i < issues[c]@.len(),
    ensures
        located(places, issues).contains((places[c], issues[c]@[i])),
    decreases issues.len(),
{
    let before = located(places, issues.drop_last());
    let here = issues.last()@.map_values(|s: StepIssue| (places[issues.len() - 1], s));
    let all = located(places, issues);
    if c < issues.len() - 1 {
        assert(issues.drop_last()[c] == issues[c]);
        lemma_located(places, issues.drop_last(), c, i);
        let k = choose|k: int| 0 <= k < before.len() && before[k] == (places[c], issues[c]@[i]);
        assert(all[k] == before[k]);
    } else {
        assert(here[i] == (places[c], issues[c]@[i]));
        assert(all[before.len() + i] == here[i]);
    }
}

/// Every issue of a step is reported, with its severity and the place of its
/// workflow; nothing that was found before is lost.
pub proof fn every_step_issue_is_reported(
    found: DiagnosticsResult,
    checks: Vec<StepCheck>,
    step_issues: Vec<Vec<StepIssue>>,
    r: DiagnosticsResult,
    c: int,
    i: int,
)
    requires
        step_issues@.len() == checks@.len(),
        call_ensures(diagnose_server_config, (found, &checks, &step_issues), r),
        found.workflows is Some,
        0 <= c < step_issues@.len(),
        0 <= i < step_issues@[c]@.len(),
    ensures
        exists|k: int|
            found.issues@.len() <= k < r.issues@.len() && (#[trigger] r.issues@[k]).severity
                == step_issues@[c]@[i].severity && r.issues@[k].message@ == "workflows["@ + decimal(
                checks@[c].workflow as nat,
            ) + "]: "@ + step_issues@[c]@[i].message@,
        forall|k: int|
            0 <= k < found.issues@.len() ==> #[trigger] r.issues@[k] == found.issues@[k],
        r.workflows == found.workflows,
{
    let places = checks@.map_values(|c: StepCheck| c.workflow as int);
    let base = found.issues@.len() as int;
    let all = located(places, step_issues@);
    let shown = r.issues@.skip(base);
    lemma_located(places, step_issues@, c, i);
    let k = choose|k: int| 0 <= k < all.len() && all[k] == (places[c], step_issues@[c]@[i]);
    assert(reports(shown[k], all[k].1, all[k].0));
    assert(r.issues@[base + k] == shown[k]);
    assert(places[c] == checks@[c].workflow);
    assert forall|k: int| 0 <= k < found.issues@.len() implies #[trigger] r.issues@[k]
        == found.issues@[k] by {
        assert(r.issues@.take(base)[k] == r.issues@[k]);
    }
}

/// Where the configuration could not be read nothing is added.
pub proof fn unread_configurations_keep_their_issues(
    found: DiagnosticsResult,
    checks: Vec<StepCheck>,
    step_issues: Vec<Vec<StepIssue>>,
    r: DiagnosticsResult,
)
    requires
        step_issues@.len() == checks@.len(),
        call_ensures(diagnose_server_config, (found, &checks, &step_issues), r),
        found.workflows is None,
    ensures
        r.issues@ == found.issues@,
        r.workflows is None,
{
}

} // verus!
