use dotdeploy::deployed::{
    backup_action, lookup_source, copy_due, link_up_to_date, copy_up_to_date, generated_module_name, is_dynamic_operation, keep_cached_tasks,
    obsolete_modules, obsolete_task_ids, operation_changed, operation_name, plan_removal, removal_set, route_message,
    target_modified, task_ids, undeployed_modules, BackupAction, Destination, MessageRoute, RemovalPlan, StoredModule,
};
use dotdeploy::module::FileOperation;

fn stored(name: &str, reason: &str, deps: &[&str]) -> StoredModule {
    StoredModule {
        name: name.to_string(),
        reason: reason.to_string(),
        depends: if deps.is_empty() { None } else { Some(deps.iter().map(|s| s.to_string()).collect()) },
    }
}

fn names(v: &[&str]) -> Vec<String> {
    v.iter().map(|s| s.to_string()).collect()
}

fn sorted(mut v: Vec<String>) -> Vec<String> {
    v.sort();
    v
}

#[test]
fn removal_takes_dependencies_along() {
    let store = vec![
        stored("app", "manual", &["lib"]),
        stored("lib", "automatic", &["base", "missing"]),
        stored("base", "automatic", &[]),
        stored("other", "manual", &[]),
    ];
    let r = removal_set(&names(&["app"]), &store);
    assert_eq!(sorted(r), names(&["app", "base", "lib"]));
    let r = removal_set(&names(&["nothing"]), &store);
    assert!(r.is_empty());
}

#[test]
fn removal_plans() {
    let store = vec![
        stored("app", "manual", &["lib"]),
        stored("lib", "manual", &[]),
        stored("tool", "manual", &["util"]),
        stored("util", "automatic", &[]),
    ];
    assert!(matches!(plan_removal(&names(&["ghost"]), &store), RemovalPlan::NothingDeployed));
    match plan_removal(&names(&["app"]), &store) {
        RemovalPlan::ExplicitlyInstalled(v) => assert_eq!(v, names(&["lib"])),
        other => panic!("unexpected {:?}", other),
    }
    match plan_removal(&names(&["app", "lib"]), &store) {
        RemovalPlan::Remove(v) => {
            assert_eq!(sorted(v.clone()), sorted(names(&["app", "lib", "__dotdeploy_generated"])));
            assert_eq!(v.last().unwrap(), generated_module_name());
        }
        other => panic!("unexpected {:?}", other),
    }
    match plan_removal(&names(&["tool"]), &store) {
        RemovalPlan::Remove(v) => assert_eq!(sorted(v), sorted(names(&["tool", "util", "__dotdeploy_generated"]))),
        other => panic!("unexpected {:?}", other),
    }
}

#[test]
fn obsolete_and_undeployed_modules() {
    let store = vec![
        stored("app", "manual", &["lib"]),
        stored("lib", "automatic", &[]),
        stored("old", "automatic", &[]),
        stored("__dotdeploy_generated", "automatic", &[]),
    ];
    assert_eq!(obsolete_modules(&store), names(&["old"]));
    assert_eq!(undeployed_modules(&names(&["app", "new", "lib", "x"]), &store), names(&["new", "x"]));
}

#[test]
fn obsolete_tasks_by_identifier() {
    let recorded = vec![1u128, 2, 3, 2];
    let current = vec![2u128, 5];
    assert_eq!(obsolete_task_ids(&recorded, &current), vec![1, 3]);
    let ids = task_ids(&vec![b"{\"a\":1}".to_vec(), b"{\"a\":2}".to_vec(), b"{\"a\":1}".to_vec()]);
    assert_eq!(ids.len(), 3);
    assert_eq!(ids[0], ids[2]);
    assert_ne!(ids[0], ids[1]);
    // Version 5 (name based, SHA-1) in the RFC variant.
    assert_eq!((ids[0] >> 76) & 0xf, 5);
    assert_eq!((ids[0] >> 62) & 0x3, 2);
    assert_eq!(ids[0], 0x171fb8c7_a826_5398_b15d_7b84d868613c);
}

#[test]
fn file_state_decisions() {
    assert!(is_dynamic_operation("create") && is_dynamic_operation("generate") && !is_dynamic_operation("copy"));
    assert!(target_modified("new", &Some("old".to_string())));
    assert!(!target_modified("same", &Some("same".to_string())));
    assert!(!target_modified("x", &None));
    assert_eq!(operation_name(FileOperation::Create), "create");
    assert!(operation_changed(&Some("copy".to_string()), FileOperation::Link));
    assert!(!operation_changed(&Some("link".to_string()), FileOperation::Link));
    assert!(!operation_changed(&None, FileOperation::Copy));
    let a = Some("a".to_string());
    let b = Some("b".to_string());
    assert!(copy_up_to_date(&a, &a, &b, &b));
    assert!(!copy_up_to_date(&a, &b, &b, &b));
    assert!(!copy_up_to_date(&a, &a, &b, &None));
    assert_eq!(backup_action(true, true), BackupAction::Keep);
    assert_eq!(backup_action(false, true), BackupAction::Backup);
    assert_eq!(backup_action(false, false), BackupAction::Placeholder);
    assert!(copy_due(true, &a, &a));
    assert!(copy_due(false, &None, &a));
    assert!(copy_due(false, &a, &b));
    assert!(!copy_due(false, &a, &a));
}

#[test]
fn test_destination_path() {
    let home_dest = Destination::Home("/home/user/file.txt".to_string());
    let root_dest = Destination::Root("/etc/file.txt".to_string());
    assert_eq!(home_dest.path(), "/home/user/file.txt");
    assert_eq!(root_dest.path(), "/etc/file.txt");
}

#[test]
fn messages_and_cached_tasks() {
    assert_eq!(route_message(&Some("deploy".to_string())), MessageRoute::Deploy);
    assert_eq!(route_message(&Some("update".to_string())), MessageRoute::Update);
    assert_eq!(route_message(&Some("remove".to_string())), MessageRoute::Remove);
    assert_eq!(keep_cached_tasks(&names(&["a", "b", "c"]), &names(&["b"])), vec![true, false, true]);
}

#[test]
fn removal_keeps_dependencies_still_needed() {
    let store = vec![
        stored("editor", "manual", &["fonts"]),
        stored("desktop", "manual", &["fonts"]),
        stored("fonts", "automatic", &["base"]),
        stored("base", "automatic", &[]),
    ];
    match plan_removal(&names(&["editor"]), &store) {
        RemovalPlan::Remove(v) => assert_eq!(v, names(&["editor", "__dotdeploy_generated"])),
        other => panic!("unexpected {:?}", other),
    }
    match plan_removal(&names(&["editor", "desktop"]), &store) {
        RemovalPlan::Remove(v) => {
            assert_eq!(sorted(v), sorted(names(&["editor", "desktop", "fonts", "base", "__dotdeploy_generated"])))
        }
        other => panic!("unexpected {:?}", other),
    }
    // A dependency needed by an explicitly installed module outside the
    // removal stays, and so does not block the removal.
    let store = vec![
        stored("app", "manual", &["lib"]),
        stored("tool", "manual", &["lib"]),
        stored("lib", "manual", &[]),
    ];
    match plan_removal(&names(&["app"]), &store) {
        RemovalPlan::Remove(v) => assert_eq!(v, names(&["app", "__dotdeploy_generated"])),
        other => panic!("unexpected {:?}", other),
    }
}

#[test]
fn lookup_gives_the_recorded_source() {
    assert_eq!(
        lookup_source("/myfile.txt".to_string(), Some("/home/user/.dotfiles/modules/module1/myfile.txt".to_string())),
        "/home/user/.dotfiles/modules/module1/myfile.txt"
    );
    assert_eq!(lookup_source("/myfile.txt".to_string(), None), "/myfile.txt");
}

#[test]
fn link_is_up_to_date_only_when_it_points_at_the_source() {
    let to = Some("/src/a".to_string());
    assert!(link_up_to_date(true, &to, "/src/a", true));
    assert!(!link_up_to_date(true, &to, "/src/b", true));
    assert!(!link_up_to_date(false, &to, "/src/a", true));
    assert!(!link_up_to_date(true, &to, "/src/a", false));
    assert!(!link_up_to_date(true, &None, "/src/a", true));
}
