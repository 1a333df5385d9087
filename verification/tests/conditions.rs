use dotdeploy::actions::{ModuleAction, RunExec};
use dotdeploy::conditions::{
    condition_flags, eval_condition, generate_content, join_rendered, keep_flags, retain_by_outcomes, retain_met,
    ConditionError, ConfigOutcomes, ModuleOutcomes, TaskOutcomes,
};
use dotdeploy::module::{
    DeployPhase, DotdeployModule, FileOperation, Generate, ModuleFile, ModuleMessage, ModuleTask, TaskDefinition,
};
use dotdeploy::module_config::{FileConfig, ModuleConfig, Packages};
use dotdeploy::resolver::Reason;
use handlebars::Handlebars;
use serde_json::Value;

fn context(entries: &[(&str, Value)]) -> Value {
    let mut m = serde_json::Map::new();
    for (k, v) in entries {
        m.insert(k.to_string(), v.clone());
    }
    Value::Object(m)
}

fn file_config(eval_when: Option<&str>) -> FileConfig {
    FileConfig {
        source: None,
        content: None,
        phase: None,
        action: None,
        eval_when: eval_when.map(|s| s.to_string()),
        permissions: None,
        template: None,
    }
}

fn action(eval_when: &str) -> ModuleAction {
    ModuleAction { run: RunExec::Code("true".to_string()), sudo: false, args: None, eval_when: Some(eval_when.to_string()) }
}

#[test]
fn test_eval_condition() {
    let hb = Handlebars::new();
    let ctx = context(&[("foo", Value::Bool(true)), ("bar", Value::Bool(false)), ("num", Value::from(42))]);
    assert!(eval_condition("foo", &ctx, &hb).unwrap());
    assert!(!eval_condition("bar", &ctx, &hb).unwrap());
    assert!(eval_condition("(gt num 40)", &ctx, &hb).unwrap());
    assert!(!eval_condition("(lt num 40)", &ctx, &hb).unwrap());
    assert!(eval_condition("(and foo (gt num 40))", &ctx, &hb).unwrap());
}

#[test]
fn config_test_eval_conditionals() {
    let mut config = ModuleConfig::new();
    config.insert_file("/test1".to_string(), file_config(Some("condition_met")));
    config.insert_file("/test2".to_string(), file_config(Some("condition_not_met")));
    let ctx = context(&[("condition_met", Value::Bool(true)), ("condition_not_met", Value::Bool(false))]);
    let hb = Handlebars::new();
    config.eval_conditionals(&ctx, &hb);
    assert!(config.files.is_some());
    assert!(config.files.as_ref().unwrap().iter().any(|(k, _)| k == "/test1"));
    assert!(!config.files.as_ref().unwrap().iter().any(|(k, _)| k == "/test2"));
}

#[test]
fn read_module_test_eval_conditionals() {
    let mut config = ModuleConfig::new();
    config.depends = Some(vec!["foo".to_string()]);
    config.packages = Some(vec![Packages { install: vec![], eval_when: Some("condition_not_met".to_string()) }]);
    let mut f = file_config(Some("condition_not_met"));
    f.source = Some("source1".to_string());
    f.phase = Some("deploy".to_string());
    f.action = Some("link".to_string());
    config.insert_file("file1.txt".to_string(), f);
    config.actions = Some(vec![("setup".to_string(), vec![("pre".to_string(), vec![action("condition_met")])])]);

    let ctx = context(&[("condition_met", Value::Bool(true)), ("condition_not_met", Value::Bool(false))]);
    let mut hb = Handlebars::new();
    hb.set_strict_mode(true);
    config.eval_conditionals(&ctx, &hb);
    assert!(config.packages.is_none());
    assert!(config.files.is_none());
    assert!(config.actions.is_some());
}

#[test]
fn test_eval_conditional_map() {
    let hb = Handlebars::new();
    let ctx = context(&[("include", Value::Bool(true))]);
    let mut config = ModuleConfig::new();
    config.insert_file("/test1".to_string(), file_config(Some("include")));
    config.insert_file("/test2".to_string(), file_config(Some("not_include")));
    config.insert_file("/test3".to_string(), file_config(None));
    config.eval_conditionals(&ctx, &hb);
    let files = config.files.unwrap();
    assert_eq!(files.len(), 2);
    assert!(files.iter().any(|(k, _)| k == "/test1"));
    assert!(files.iter().any(|(k, _)| k == "/test3"));
}

#[test]
fn test_eval_conditional_nested_map() {
    let hb = Handlebars::new();
    let ctx = context(&[("include", Value::Bool(true))]);
    let mut config = ModuleConfig::new();
    config.actions =
        Some(vec![("phase".to_string(), vec![("stage".to_string(), vec![action("include"), action("not_include")])])]);
    config.eval_conditionals(&ctx, &hb);
    let actions = config.actions.unwrap();
    assert_eq!(actions.len(), 1);
    assert_eq!(actions[0].0, "phase");
    assert_eq!(actions[0].1[0].0, "stage");
    assert_eq!(actions[0].1[0].1.len(), 1);
}

#[test]
fn test_eval_conditional_vec() {
    let hb = Handlebars::new();
    let ctx = context(&[("include", Value::Bool(true))]);
    let items = vec![
        Packages { install: vec![], eval_when: Some("include".to_string()) },
        Packages { install: vec![], eval_when: Some("not_include".to_string()) },
        Packages { install: vec![], eval_when: None },
    ];
    let result = retain_met(items, &ctx, &hb);
    assert_eq!(result.len(), 2);
}

#[test]
fn test_eval_condition_wrapper() {
    let hb = Handlebars::new();
    let ctx = context(&[("include", Value::Bool(true))]);
    let conditions = vec![Some("include".to_string()), Some("not_include".to_string()), None];
    assert_eq!(condition_flags(&conditions, &ctx, &hb), vec![true, false, true]);
}

fn module_file(condition: Option<&str>) -> ModuleFile {
    ModuleFile {
        source: None,
        target: "/home/u/x".to_string(),
        content: Some("x".to_string()),
        phase: DeployPhase::Config,
        operation: FileOperation::Create,
        condition: condition.map(|s| s.to_string()),
        template: Some(false),
        owner: None,
        group: None,
        permissions: None,
    }
}

#[test]
fn module_components_are_filtered() {
    let mut m = DotdeployModule {
        name: "m".to_string(),
        location: "/m".to_string(),
        reason: Reason::Manual,
        depends_on: None,
        includes: None,
        files: Some(vec![module_file(Some("yes")), module_file(Some("no")), module_file(None)]),
        tasks: None,
        messages: Some(vec![ModuleMessage { message: "hi".to_string(), on_command: None, condition: Some("no".to_string()) }]),
        generators: None,
        packages: None,
    };
    let ctx = context(&[("yes", Value::Bool(true)), ("no", Value::Bool(false))]);
    m.eval_conditions(&ctx, &Handlebars::new());
    assert_eq!(m.files.as_ref().unwrap().len(), 2);
    assert!(m.messages.as_ref().unwrap().is_empty());
}

#[test]
fn generated_content_is_joined() {
    assert_eq!(join_rendered(&vec!["a".to_string(), "".to_string(), "b".to_string()]), Some("ab".to_string()));
    assert_eq!(join_rendered(&vec![String::new()]), None);
    let hb = Handlebars::new();
    let ctx = context(&[("name", Value::from("Rust"))]);
    let out = generate_content(
        &Some("# head\n".to_string()),
        &vec!["Hello, {{name}}!\n".to_string()],
        &None,
        &ctx,
        &hb,
    )
    .unwrap();
    assert_eq!(out.as_deref(), Some("# head\nHello, Rust!\n"));
    assert_eq!(generate_content(&None, &vec![], &None, &ctx, &hb).unwrap(), None);
}

fn generate(target: &str, condition: Option<&str>) -> Generate {
    Generate {
        target: target.to_string(),
        source: "snippet".to_string(),
        shebang: None,
        comment_start: None,
        skip_auto_content: None,
        prepend: None,
        append: None,
        condition: condition.map(|s| s.to_string()),
    }
}

#[test]
fn eval_conditionals_keeps_depends_and_filters_generate() {
    let mut config = ModuleConfig::new();
    config.depends = Some(vec!["foo".to_string()]);
    config.generate = Some(vec![
        ("/out/a".to_string(), generate("/out/a", Some("condition_met"))),
        ("/out/b".to_string(), generate("/out/b", Some("condition_not_met"))),
        ("/out/c".to_string(), generate("/out/c", None)),
    ]);
    let ctx = context(&[("condition_met", Value::Bool(true)), ("condition_not_met", Value::Bool(false))]);
    let mut hb = Handlebars::new();
    hb.set_strict_mode(true);
    config.eval_conditionals(&ctx, &hb);
    assert_eq!(config.depends, Some(vec!["foo".to_string()]));
    let kept: Vec<&str> = config.generate.as_ref().unwrap().iter().map(|(k, _)| k.as_str()).collect();
    assert_eq!(kept, vec!["/out/a", "/out/c"]);

    let mut none_left = ModuleConfig::new();
    none_left.generate = Some(vec![("/out/b".to_string(), generate("/out/b", Some("condition_not_met")))]);
    none_left.eval_conditionals(&ctx, &hb);
    assert!(none_left.generate.is_none());
}

#[test]
fn condition_that_does_not_render_drops_the_item() {
    let mut config = ModuleConfig::new();
    config.packages = Some(vec![
        Packages { install: vec!["a".to_string()], eval_when: Some("(gt num".to_string()) },
        Packages { install: vec!["b".to_string()], eval_when: None },
    ]);
    let ctx = context(&[("num", Value::from(1))]);
    let hb = Handlebars::new();
    assert_eq!(eval_condition("(gt num", &ctx, &hb), Err(ConditionError::RenderFailed));
    config.eval_conditionals(&ctx, &hb);
    assert_eq!(config.packages.unwrap(), vec![Packages { install: vec!["b".to_string()], eval_when: None }]);
}

#[test]
fn flags_follow_the_outcomes() {
    let conditions = vec![Some("a".to_string()), Some("b".to_string()), None, Some("c".to_string()), Some("d".to_string())];
    let outcomes = vec![Ok(true), Ok(false), Ok(false), Err(ConditionError::RenderFailed)];
    assert_eq!(keep_flags(&conditions, &outcomes), vec![true, false, true, false, false]);
}

#[test]
fn retain_by_outcomes_keeps_order() {
    let items = vec![
        Packages { install: vec!["1".to_string()], eval_when: Some("x".to_string()) },
        Packages { install: vec!["2".to_string()], eval_when: None },
        Packages { install: vec!["3".to_string()], eval_when: Some("y".to_string()) },
        Packages { install: vec!["4".to_string()], eval_when: Some("z".to_string()) },
    ];
    let kept = retain_by_outcomes(items, &vec![Ok(true), Ok(false), Err(ConditionError::RenderFailed), Ok(true)]);
    let names: Vec<&str> = kept.iter().map(|p| p.install[0].as_str()).collect();
    assert_eq!(names, vec!["1", "2", "4"]);
}

#[test]
fn config_outcomes_are_applied() {
    let mut config = ModuleConfig::new();
    config.depends = Some(vec!["dep".to_string()]);
    config.insert_file("/f1".to_string(), file_config(Some("c1")));
    config.insert_file("/f2".to_string(), file_config(Some("c2")));
    config.actions = Some(vec![
        ("setup".to_string(), vec![("pre".to_string(), vec![action("a")]), ("post".to_string(), vec![action("b")])]),
        ("remove".to_string(), vec![("pre".to_string(), vec![action("c")])]),
    ]);
    config.messages = Some(vec![]);
    let outcomes = ConfigOutcomes {
        files: vec![Ok(false), Ok(true)],
        generate: vec![],
        actions: vec![vec![vec![Ok(false)], vec![Ok(true)]], vec![vec![Err(ConditionError::RenderFailed)]]],
        packages: vec![],
        messages: vec![],
    };
    config.apply_outcomes(&outcomes);
    assert_eq!(config.depends, Some(vec!["dep".to_string()]));
    let files: Vec<&str> = config.files.as_ref().unwrap().iter().map(|(k, _)| k.as_str()).collect();
    assert_eq!(files, vec!["/f2"]);
    let actions = config.actions.unwrap();
    assert_eq!(actions.len(), 1);
    assert_eq!(actions[0].0, "setup");
    assert_eq!(actions[0].1.len(), 1);
    assert_eq!(actions[0].1[0].0, "post");
    assert!(config.messages.is_none());
}

fn task_definition(condition: Option<&str>) -> TaskDefinition {
    TaskDefinition {
        description: None,
        shell: Some("true".to_string()),
        executable: None,
        args: None,
        expand_args: None,
        sudo: None,
        hook: None,
        condition: condition.map(|s| s.to_string()),
    }
}

fn task(condition: Option<&str>, setup: Vec<TaskDefinition>) -> ModuleTask {
    ModuleTask { description: None, condition: condition.map(|s| s.to_string()), setup, config: vec![], update: vec![], remove: vec![] }
}

#[test]
fn module_outcomes_are_applied() {
    let mut m = DotdeployModule {
        name: "m".to_string(),
        location: "/m".to_string(),
        reason: Reason::Manual,
        depends_on: None,
        includes: None,
        files: None,
        tasks: Some(vec![
            task(Some("t1"), vec![task_definition(Some("s"))]),
            task(None, vec![task_definition(Some("s")), task_definition(None), task_definition(Some("u"))]),
        ]),
        messages: None,
        generators: Some(vec![generate("/g", Some("g"))]),
        packages: None,
    };
    let outcomes = ModuleOutcomes {
        files: vec![],
        tasks: vec![Ok(false), Ok(true)],
        commands: vec![TaskOutcomes { setup: vec![Ok(false), Ok(false), Ok(true)], config: vec![], update: vec![], remove: vec![] }],
        messages: vec![],
        generators: vec![Ok(false)],
        packages: vec![],
    };
    m.apply_outcomes(&outcomes);
    let tasks = m.tasks.unwrap();
    assert_eq!(tasks.len(), 1);
    assert!(tasks[0].condition.is_none());
    assert_eq!(tasks[0].setup.len(), 2);
    assert!(tasks[0].setup[0].condition.is_none());
    assert_eq!(tasks[0].setup[1].condition.as_deref(), Some("u"));
    assert!(m.generators.unwrap().is_empty());
}

#[test]
fn module_tasks_and_commands_are_filtered() {
    let mut m = DotdeployModule {
        name: "m".to_string(),
        location: "/m".to_string(),
        reason: Reason::Manual,
        depends_on: None,
        includes: None,
        files: None,
        tasks: Some(vec![
            task(Some("no"), vec![task_definition(None)]),
            task(Some("yes"), vec![task_definition(Some("no")), task_definition(Some("yes"))]),
        ]),
        messages: None,
        generators: None,
        packages: None,
    };
    let ctx = context(&[("yes", Value::Bool(true)), ("no", Value::Bool(false))]);
    m.eval_conditions(&ctx, &Handlebars::new());
    let tasks = m.tasks.unwrap();
    assert_eq!(tasks.len(), 1);
    assert_eq!(tasks[0].setup.len(), 1);
    assert_eq!(tasks[0].setup[0].condition.as_deref(), Some("yes"));
}
