use dotdeploy::cli::{messages_shown, sync_selection, SyncComponent};
use dotdeploy::steps::{
    deployed_gate, diverged_gate, first_sync_step, next_sync_step, obsolete_gate, yes_no_answer, GateDecision,
    ObsoleteDecision, SyncStep,
};

fn run_order(components: Vec<SyncComponent>, skip_pkg_install: bool) -> Vec<SyncStep> {
    let selection = sync_selection(&components);
    let mut steps = Vec::new();
    let mut step = first_sync_step(&selection, skip_pkg_install);
    while step != SyncStep::Done {
        steps.push(step);
        step = next_sync_step(step, &selection, skip_pkg_install);
    }
    steps
}

#[test]
fn deployment_runs_the_phases_in_order() {
    assert_eq!(
        run_order(vec![SyncComponent::All], false),
        vec![
            SyncStep::SetupPre,
            SyncStep::SetupFiles,
            SyncStep::SetupPost,
            SyncStep::Packages,
            SyncStep::ConfigPre,
            SyncStep::ConfigFiles,
            SyncStep::ConfigPost,
            SyncStep::Regenerate,
        ]
    );
}

#[test]
fn unselected_parts_are_skipped() {
    assert_eq!(
        run_order(vec![SyncComponent::Files], false),
        vec![SyncStep::SetupFiles, SyncStep::ConfigFiles, SyncStep::Regenerate]
    );
    assert_eq!(run_order(vec![SyncComponent::Packages], false), vec![SyncStep::Packages, SyncStep::Regenerate]);
    assert_eq!(run_order(vec![SyncComponent::Packages], true), vec![SyncStep::Regenerate]);
    assert_eq!(
        run_order(vec![SyncComponent::Tasks], false),
        vec![SyncStep::SetupPre, SyncStep::SetupPost, SyncStep::ConfigPre, SyncStep::ConfigPost, SyncStep::Regenerate]
    );
    let selection = sync_selection(&vec![SyncComponent::All]);
    assert_eq!(next_sync_step(SyncStep::Done, &selection, false), SyncStep::Done);
}

#[test]
fn gates_before_deploying() {
    assert_eq!(deployed_gate(false, 2), GateDecision::Abort);
    assert_eq!(deployed_gate(false, 0), GateDecision::Proceed);
    assert_eq!(deployed_gate(true, 2), GateDecision::Proceed);
    assert_eq!(obsolete_gate(0, false, false), ObsoleteDecision::Nothing);
    assert_eq!(obsolete_gate(1, true, false), ObsoleteDecision::Remove);
    assert_eq!(obsolete_gate(1, false, true), ObsoleteDecision::Remove);
    assert_eq!(obsolete_gate(1, false, false), ObsoleteDecision::Ask);
    assert_eq!(diverged_gate(true, 1, false), GateDecision::Ask);
    assert_eq!(diverged_gate(true, 1, true), GateDecision::Proceed);
    assert_eq!(diverged_gate(false, 1, false), GateDecision::Proceed);
    assert_eq!(diverged_gate(true, 0, false), GateDecision::Proceed);
}

#[test]
fn yes_no_answers() {
    assert_eq!(yes_no_answer("y\n"), Some(true));
    assert_eq!(yes_no_answer("Yes please\n"), Some(true));
    assert_eq!(yes_no_answer("No\n"), Some(false));
    assert_eq!(yes_no_answer(""), Some(false));
    assert_eq!(yes_no_answer("\n"), Some(false));
    assert_eq!(yes_no_answer("\r\n"), Some(false));
    assert_eq!(yes_no_answer(" \n"), None);
    assert_eq!(yes_no_answer("maybe\n"), None);
}

#[test]
fn messages_are_shown_with_all_or_when_asked() {
    assert!(messages_shown(false, &vec![SyncComponent::All]));
    assert!(messages_shown(true, &vec![SyncComponent::Files]));
    assert!(!messages_shown(false, &vec![SyncComponent::Files, SyncComponent::Tasks]));
}
