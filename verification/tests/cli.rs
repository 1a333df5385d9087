use dotdeploy::cli::{dashed_flag, flag_is_enabled, sync_selection, SyncComponent};

fn args(v: &[&str]) -> Vec<String> {
    v.iter().map(|s| s.to_string()).collect()
}

#[test]
fn sync_components_parse_ignoring_case() {
    assert_eq!("files".parse::<SyncComponent>(), Ok(SyncComponent::Files));
    assert_eq!("TASKS".parse::<SyncComponent>(), Ok(SyncComponent::Tasks));
    assert_eq!(SyncComponent::parse("Packages"), Ok(SyncComponent::Packages));
    assert_eq!(SyncComponent::parse("all"), Ok(SyncComponent::All));
    assert_eq!(SyncComponent::parse("nope"), Err("Unknown sync component: nope".to_string()));
    assert!(SyncComponent::All.is_all());
    assert!(SyncComponent::Files.is_files() && !SyncComponent::Files.is_tasks());
    assert!(SyncComponent::Tasks.is_tasks() && SyncComponent::Packages.is_packages());
}

#[test]
fn selection_of_components() {
    let s = sync_selection(&vec![SyncComponent::Files]);
    assert!(s.files && !s.tasks && !s.packages);
    let s = sync_selection(&vec![SyncComponent::All]);
    assert!(s.files && s.tasks && s.packages);
    let s = sync_selection(&vec![]);
    assert!(!s.files && !s.tasks && !s.packages);
}

#[test]
fn last_flag_wins() {
    assert_eq!(dashed_flag("use_sudo"), "--use-sudo");
    let a = args(&["dotdeploy", "--use-sudo", "--no-use-sudo"]);
    assert_eq!(flag_is_enabled(&a, "use_sudo", "no_use_sudo", 0), Some(false));
    let a = args(&["dotdeploy", "--no-use-sudo", "--use-sudo"]);
    assert_eq!(flag_is_enabled(&a, "use_sudo", "no_use_sudo", 0), Some(true));
    let a = args(&["dotdeploy", "deploy"]);
    assert_eq!(flag_is_enabled(&a, "use_sudo", "no_use_sudo", 0), None);
    assert_eq!(flag_is_enabled(&a, "use_sudo", "no_use_sudo", 1), Some(true));
}

#[test]
fn sync_all_selects_what_deploy_selects() {
    let all = sync_selection(&vec![SyncComponent::All]);
    let deploy = sync_selection(&vec![SyncComponent::Files, SyncComponent::Tasks, SyncComponent::Packages]);
    assert_eq!((all.files, all.tasks, all.packages), (deploy.files, deploy.tasks, deploy.packages));
}
