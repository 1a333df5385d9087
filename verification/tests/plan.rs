use dotdeploy::module::{DeployPhase, FileOperation, ModuleFile};
use dotdeploy::paths::PathError;
use dotdeploy::plan::{plan_module_files, PlanError};

fn file(source: Option<&str>, target: &str, phase: DeployPhase) -> ModuleFile {
    ModuleFile {
        source: source.map(|s| s.to_string()),
        target: target.to_string(),
        content: None,
        phase,
        operation: FileOperation::Link,
        condition: None,
        template: Some(false),
        owner: None,
        group: None,
        permissions: None,
    }
}

fn run(
    files: &Vec<ModuleFile>,
    listings: Vec<Vec<String>>,
    recorded: &[&str],
    seen: &mut Vec<String>,
) -> Result<dotdeploy::plan::FilePlan, PlanError> {
    let expanded: Vec<(Option<String>, String)> = files.iter().map(|f| (f.source.clone(), f.target.clone())).collect();
    let recorded: Vec<String> = recorded.iter().map(|s| s.to_string()).collect();
    plan_module_files(&"m".to_string(), &"/mods/m".to_string(), files, &expanded, &listings, "/home/u", false, &recorded, seen)
}

#[test]
fn files_go_to_their_phase() {
    let files = vec![
        file(Some("bashrc"), "/home/u/##dot##bashrc", DeployPhase::Config),
        file(Some("/abs/init"), "/home/u/init", DeployPhase::Setup),
    ];
    let mut seen = vec![];
    let plan = run(&files, vec![vec![], vec![]], &["/home/u/##dot##bashrc", "/home/u/old"], &mut seen).unwrap();
    assert_eq!(plan.config.len(), 1);
    assert_eq!(plan.config[0].source.as_deref(), Some("/mods/m/bashrc"));
    assert_eq!(plan.config[0].target, "/home/u/.bashrc");
    assert_eq!(plan.setup[0].source.as_deref(), Some("/abs/init"));
    assert_eq!(plan.stale, vec!["/home/u/old".to_string()]);
    assert_eq!(seen.len(), 2);
}

#[test]
fn wildcard_entries_expand() {
    let files = vec![file(Some("conf/*"), "/home/u/.config/app/*", DeployPhase::Config)];
    let listing = vec!["/mods/m/conf/a.toml".to_string(), "/mods/m/conf/##dot##b".to_string()];
    let mut seen = vec![];
    let plan = run(&files, vec![listing], &["/home/u/.config/app/a.toml"], &mut seen).unwrap();
    let targets: Vec<&str> = plan.config.iter().map(|f| f.target.as_str()).collect();
    assert_eq!(targets, vec!["/home/u/.config/app/a.toml", "/home/u/.config/app/.b"]);
    assert!(plan.stale.is_empty());
}

#[test]
fn errors_leave_the_claimed_targets_alone() {
    let mut seen = vec!["/home/u/x".to_string()];
    let files = vec![file(Some("x"), "/home/u/x", DeployPhase::Config)];
    assert_eq!(run(&files, vec![vec![]], &[], &mut seen).unwrap_err(), PlanError::DeclaredTwice);
    assert_eq!(seen, vec!["/home/u/x".to_string()]);

    let files = vec![file(Some("x"), "relative", DeployPhase::Config)];
    assert_eq!(run(&files, vec![vec![]], &[], &mut seen).unwrap_err(), PlanError::Path(PathError::InvalidTarget));
    let files = vec![file(Some("x"), "/etc/x", DeployPhase::Config)];
    assert_eq!(run(&files, vec![vec![]], &[], &mut seen).unwrap_err(), PlanError::Path(PathError::OutsideHome));
    let files = vec![file(Some("x"), "/home/u/y", DeployPhase::Update)];
    assert_eq!(run(&files, vec![vec![]], &[], &mut seen).unwrap_err(), PlanError::InvalidPhase);
    let mut f = file(Some("x"), "/home/u/z", DeployPhase::Config);
    f.template = None;
    assert_eq!(run(&vec![f], vec![vec![]], &[], &mut seen).unwrap_err(), PlanError::TemplateMissing);
    let files = vec![file(Some("x"), "/home/u/dir/*", DeployPhase::Config)];
    assert_eq!(run(&files, vec![vec![]], &[], &mut seen).unwrap_err(), PlanError::Path(PathError::WildcardMismatch));
    assert_eq!(seen, vec!["/home/u/x".to_string()]);
}
