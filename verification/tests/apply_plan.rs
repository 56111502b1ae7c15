use bulk_rename::apply::{plan_from_text, plan_renames, plan_step, Fault, Report, Step};
use bulk_rename::registry::Registry;

fn registry_from(paths: &[&str]) -> Registry {
    let mut registry = Registry::new();
    for path in paths {
        registry.push(path.to_string());
    }
    registry
}

fn rename(index: usize, from: &str, to: &str) -> Step {
    Step::Rename { index, from: from.to_string(), to: to.to_string() }
}

fn faults_of(plan: &[Step]) -> Vec<Fault> {
    plan.iter().filter_map(|step| step.settle(None)).collect()
}

fn faults_in(report: &Report) -> Vec<&Fault> {
    (0..report.len()).map(|i| report.get(i).unwrap()).collect()
}

#[test]
fn correlated_rename() {
    let registry = registry_from(&["a", "b", "c"]);
    let plan = plan_from_text(&registry, "a2\nb\nc3");
    assert_eq!(plan, vec![rename(0, "a", "a2"), Step::Keep { index: 1 }, rename(2, "c", "c3")]);
    assert_eq!(faults_of(&plan), Vec::<Fault>::new());
}

#[test]
fn fewer_lines_than_entries() {
    let registry = registry_from(&["a", "b", "c"]);
    let plan = plan_from_text(&registry, "a2");
    assert_eq!(plan, vec![rename(0, "a", "a2")]);
    assert!(plan.iter().all(|step| step.index() != 1 && step.index() != 2));
}

#[test]
fn more_lines_than_entries() {
    let registry = registry_from(&["a"]);
    let plan = plan_from_text(&registry, "a2\nb2");
    assert_eq!(plan, vec![rename(0, "a", "a2"), Step::OutOfRange { index: 1 }]);
    assert_eq!(faults_of(&plan), vec![Fault::OutOfRange { index: 1 }]);
}

#[test]
fn unedited_text_renames_nothing() {
    let registry = registry_from(&["./a b", "./été", "./c"]);
    let plan = plan_from_text(&registry, &registry.serialize());
    assert_eq!(
        plan,
        vec![Step::Keep { index: 0 }, Step::Keep { index: 1 }, Step::Keep { index: 2 }]
    );
    assert!(plan.iter().all(|step| !step.is_rename()));
}

#[test]
fn empty_text_plans_nothing() {
    let registry = registry_from(&["a", "b"]);
    assert_eq!(plan_from_text(&registry, ""), Vec::<Step>::new());
}

#[test]
fn empty_registry_and_empty_text_plan_nothing() {
    let registry = Registry::new();
    assert_eq!(plan_from_text(&registry, &registry.serialize()), Vec::<Step>::new());
}

#[test]
fn every_line_past_the_registry_is_out_of_range() {
    let registry = Registry::new();
    let plan = plan_from_text(&registry, "x\ny\nz");
    assert_eq!(
        plan,
        vec![
            Step::OutOfRange { index: 0 },
            Step::OutOfRange { index: 1 },
            Step::OutOfRange { index: 2 }
        ]
    );
}

#[test]
fn trailing_newline_is_one_more_line() {
    let registry = registry_from(&["a", "b"]);
    let plan = plan_from_text(&registry, "a\nb\n");
    assert_eq!(
        plan,
        vec![Step::Keep { index: 0 }, Step::Keep { index: 1 }, Step::OutOfRange { index: 2 }]
    );
}

#[test]
fn blank_line_does_not_shift_later_lines() {
    let registry = registry_from(&["a", "b", "c"]);
    let plan = plan_from_text(&registry, "a\n\nc");
    assert_eq!(plan, vec![Step::Keep { index: 0 }, rename(1, "b", ""), Step::Keep { index: 2 }]);
}

#[test]
fn swapped_lines_are_taken_by_position() {
    let registry = registry_from(&["a", "b"]);
    let plan = plan_from_text(&registry, "b\na");
    assert_eq!(plan, vec![rename(0, "a", "b"), rename(1, "b", "a")]);
}

#[test]
fn plan_renames_takes_lines_as_given() {
    let registry = registry_from(&["a", "b"]);
    let lines = vec!["a".to_string(), "b\nc".to_string(), "d".to_string()];
    let plan = plan_renames(&registry, &lines);
    assert_eq!(
        plan,
        vec![Step::Keep { index: 0 }, rename(1, "b", "b\nc"), Step::OutOfRange { index: 2 }]
    );
}

#[test]
fn plan_step_by_index() {
    let registry = registry_from(&["a", "b"]);
    assert_eq!(plan_step(&registry, 1, &"b".to_string()), Step::Keep { index: 1 });
    assert_eq!(plan_step(&registry, 1, &"a".to_string()), rename(1, "b", "a"));
    assert_eq!(plan_step(&registry, 2, &"b".to_string()), Step::OutOfRange { index: 2 });
}

#[test]
fn step_index_and_kind() {
    assert_eq!(rename(4, "x", "y").index(), 4);
    assert_eq!(Step::Keep { index: 5 }.index(), 5);
    assert_eq!(Step::OutOfRange { index: 6 }.index(), 6);
    assert!(rename(4, "x", "y").is_rename());
    assert!(!Step::Keep { index: 5 }.is_rename());
    assert!(!Step::OutOfRange { index: 6 }.is_rename());
}

#[test]
fn settle_reports_a_failed_rename() {
    let step = rename(3, "x", "y");
    assert_eq!(
        step.settle(Some("permission denied".to_string())),
        Some(Fault::RenameFailed { index: 3, reason: "permission denied".to_string() })
    );
}

#[test]
fn settle_is_silent_on_a_rename_that_succeeded() {
    assert_eq!(rename(3, "x", "y").settle(None), None);
}

#[test]
fn settle_never_faults_a_kept_line() {
    assert_eq!(Step::Keep { index: 0 }.settle(None), None);
    assert_eq!(Step::Keep { index: 0 }.settle(Some("same file".to_string())), None);
}

#[test]
fn settle_always_faults_a_line_out_of_range() {
    assert_eq!(Step::OutOfRange { index: 7 }.settle(None), Some(Fault::OutOfRange { index: 7 }));
    assert_eq!(
        Step::OutOfRange { index: 7 }.settle(Some("ignored".to_string())),
        Some(Fault::OutOfRange { index: 7 })
    );
}

#[test]
fn one_failed_rename_leaves_the_others_unreported() {
    let registry = registry_from(&["a", "b", "c"]);
    let plan = plan_from_text(&registry, "a2\nb2\nc2\nd2");
    let outcomes = vec![None, Some("destination exists".to_string()), None, None];
    let faults: Vec<Fault> = plan
        .iter()
        .zip(outcomes)
        .filter_map(|(step, outcome)| step.settle(outcome))
        .collect();
    assert_eq!(
        faults,
        vec![
            Fault::RenameFailed { index: 1, reason: "destination exists".to_string() },
            Fault::OutOfRange { index: 3 }
        ]
    );
}

#[test]
fn new_report_is_clean() {
    let report = Report::new();
    assert!(report.is_clean());
    assert_eq!(report.len(), 0);
    assert_eq!(report.get(0), None);
}

#[test]
fn report_stays_clean_without_faults() {
    let registry = registry_from(&["a", "b", "c"]);
    let plan = plan_from_text(&registry, "a2\nb\nc3");
    let mut report = Report::new();
    for step in &plan {
        report.record(step, None);
    }
    assert!(report.is_clean());
}

#[test]
fn report_gathers_faults_in_the_order_recorded() {
    let registry = registry_from(&["a", "b"]);
    let plan = plan_from_text(&registry, "a2\nb2\nc2");
    let mut report = Report::new();
    report.record(&plan[2], None);
    report.record(&plan[0], Some("source vanished".to_string()));
    report.record(&plan[1], None);
    assert!(!report.is_clean());
    assert_eq!(report.len(), 2);
    assert_eq!(
        faults_in(&report),
        vec![
            &Fault::OutOfRange { index: 2 },
            &Fault::RenameFailed { index: 0, reason: "source vanished".to_string() }
        ]
    );
    assert_eq!(report.get(2), None);
}

#[test]
fn report_of_more_lines_than_entries() {
    let registry = registry_from(&["a"]);
    let plan = plan_from_text(&registry, "a2\nb2");
    let mut report = Report::new();
    for step in &plan {
        report.record(step, None);
    }
    assert_eq!(faults_in(&report), vec![&Fault::OutOfRange { index: 1 }]);
    assert_eq!(plan[0], rename(0, "a", "a2"));
}
