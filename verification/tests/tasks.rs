use dotdeploy::module::{DeployPhase, ModuleTask, TaskDefinition};
use dotdeploy::tasks::{
    banner, exec_display, expands_args, phase_definition, phase_task, shell_display, task_command, PhaseHook, PhaseTask,
    PhaseTaskDefinition, TaskCommand, TaskError,
};

fn def(hook: &str) -> TaskDefinition {
    TaskDefinition {
        description: None,
        shell: None,
        executable: Some("$DOD_CURRENT_MODULE/run.sh".to_string()),
        args: Some(vec!["a".to_string()]),
        expand_args: Some(true),
        sudo: Some(false),
        hook: Some(hook.to_string()),
        condition: None,
    }
}

#[test]
fn phase_definitions() {
    let d = phase_definition(def("pre"), Some("/m/run.sh".to_string())).unwrap();
    assert_eq!(d.hook, PhaseHook::Pre);
    assert_eq!(d.executable.as_deref(), Some("/m/run.sh"));
    assert!(d.expand_args && !d.sudo);
    let d = phase_definition(def("post"), None).unwrap();
    assert_eq!(d.hook, PhaseHook::Post);
    let mut t = def("post");
    t.expand_args = None;
    assert_eq!(phase_definition(t, None).unwrap_err(), TaskError::ExpandArgsMissing);
    let mut t = def("post");
    t.sudo = None;
    assert_eq!(phase_definition(t, None).unwrap_err(), TaskError::SudoMissing);
    assert_eq!(PhaseHook::default(), PhaseHook::Post);
}

fn phase_def(hook: PhaseHook, shell: Option<&str>) -> PhaseTaskDefinition {
    PhaseTaskDefinition {
        description: None,
        shell: shell.map(|s| s.to_string()),
        executable: Some("/bin/true".to_string()),
        args: None,
        expand_args: true,
        sudo: true,
        hook,
    }
}

#[test]
fn commands_per_phase_and_hook() {
    let task = PhaseTask {
        module_name: "m".to_string(),
        setup: vec![phase_def(PhaseHook::Pre, None), phase_def(PhaseHook::Post, None), phase_def(PhaseHook::Pre, None)],
        config: vec![],
        update: vec![],
        remove: vec![phase_def(PhaseHook::Post, None)],
        description: None,
    };
    assert_eq!(task.commands_for(DeployPhase::Setup, PhaseHook::Pre), vec![0, 2]);
    assert_eq!(task.commands_for(DeployPhase::Setup, PhaseHook::Post), vec![1]);
    assert!(task.commands_for(DeployPhase::Config, PhaseHook::Post).is_empty());
    assert_eq!(task.commands_for(DeployPhase::Remove, PhaseHook::Post), vec![0]);
}

#[test]
fn announcements_and_displays() {
    let t = Some("Build".to_string());
    assert_eq!(banner(&t, &Some("compile".to_string()), DeployPhase::Setup).as_deref(), Some("Build: compile"));
    assert_eq!(banner(&t, &None, DeployPhase::Update).as_deref(), Some("Build: Running update task"));
    assert_eq!(banner(&None, &Some("x".to_string()), DeployPhase::Setup).as_deref(), Some("x"));
    assert_eq!(banner(&None, &None, DeployPhase::Setup), None);
    assert_eq!(shell_display("echo a\necho b"), "echo a echo b...");
    let long = "x".repeat(60);
    assert_eq!(shell_display(&long), format!("{}...", "x".repeat(50)));
    assert_eq!(exec_display("/bin/ls", &vec!["-l".to_string(), "/tmp".to_string()]), "/bin/ls -l /tmp");
    assert_eq!(exec_display("/bin/ls", &vec![]), "/bin/ls ");
}

#[test]
fn how_commands_start() {
    let d = phase_def(PhaseHook::Post, Some("echo hi"));
    assert!(matches!(task_command(&d, vec![]), TaskCommand::Shell(s) if s == "echo hi"));
    let d = phase_def(PhaseHook::Post, None);
    match task_command(&d, vec!["x".to_string()]) {
        TaskCommand::Exec { program, args, sudo } => {
            assert_eq!(program, "/bin/true");
            assert_eq!(args, vec!["x".to_string()]);
            assert!(sudo);
        }
        _ => panic!("expected an executable"),
    }
    let mut d = phase_def(PhaseHook::Post, None);
    d.executable = None;
    assert!(matches!(task_command(&d, vec![]), TaskCommand::Nothing));
    assert!(!expands_args(&d));
    d.args = Some(vec!["$HOME".to_string()]);
    assert!(expands_args(&d));
}

#[test]
fn task_groups_become_phase_tasks() {
    let group = |config: Vec<TaskDefinition>| ModuleTask {
        description: Some("group".to_string()),
        condition: None,
        setup: vec![def("pre")],
        config,
        update: Vec::new(),
        remove: vec![def("post")],
    };
    let t = phase_task(
        &"m".to_string(),
        group(vec![def("post"), def("pre")]),
        vec![Some("/m/a".to_string())],
        vec![None, Some("/m/b".to_string())],
        Vec::new(),
        vec![None],
    )
    .unwrap();
    assert_eq!(t.module_name, "m");
    assert_eq!(t.description.as_deref(), Some("group"));
    assert_eq!((t.setup.len(), t.config.len(), t.update.len(), t.remove.len()), (1, 2, 0, 1));
    assert_eq!(t.setup[0].executable.as_deref(), Some("/m/a"));
    assert_eq!(t.config[1].executable.as_deref(), Some("/m/b"));
    assert_eq!(t.config[1].hook, PhaseHook::Pre);

    let mut bad = def("post");
    bad.sudo = None;
    let e = phase_task(&"m".to_string(), group(vec![def("post"), bad]), vec![None], vec![None, None], Vec::new(), vec![None]);
    assert_eq!(e.unwrap_err(), TaskError::SudoMissing);
}
