use dotdeploy::module::{collect_module_names, DotdeployModule, DotdeployModuleBuilder, ModuleError};
use dotdeploy::paths::locate_module;
use dotdeploy::resolver::{ModulesQueueBuilder, QueueError, QueuedModule, Reason, ResolveStep};

/// Resolves `requests` against an in-memory map of module dependencies.
fn resolve(requests: &[&str], graph: &[(&str, &[&str])]) -> Vec<QueuedModule> {
    let mut builder = ModulesQueueBuilder::new();
    builder.with_modules(requests.iter().map(|s| s.to_string()).collect());
    let mut resolver = builder.build().expect("modules were given");
    loop {
        match resolver.next_step() {
            ResolveStep::Load { name, .. } => {
                let deps = graph
                    .iter()
                    .find(|(n, _)| *n == name)
                    .map(|(_, d)| d.iter().map(|s| s.to_string()).collect())
                    .unwrap_or_default();
                resolver.module_loaded(deps);
            }
            ResolveStep::Done => break,
        }
    }
    resolver.into_queue()
}

fn find<'a>(queue: &'a [QueuedModule], name: &str) -> &'a QueuedModule {
    queue.iter().find(|m| m.name == name).unwrap()
}

#[test]
fn test_add_modules_with_dependencies() {
    let graph: &[(&str, &[&str])] = &[("module1", &["module2"]), ("module2", &["module3"]), ("module3", &[])];
    let queue = resolve(&["module1"], graph);
    assert!(queue.iter().any(|m| m.name == "module1"));
    assert!(queue.iter().any(|m| m.name == "module2"));
    assert!(queue.iter().any(|m| m.name == "module3"));

    // Adding the module again does not cause duplicates.
    let queue = resolve(&["module1", "module1"], graph);
    assert_eq!(queue.len(), 3);
}

#[test]
fn test_circular_dependencies() {
    let graph: &[(&str, &[&str])] = &[
        ("module1", &["module2"]),
        ("module2", &["module3"]),
        ("module3", &["module1"]),
        ("foo", &["module1", "module2", "module3"]),
    ];
    let queue = resolve(&["module1", "foo"], graph);
    assert!(queue.iter().any(|m| m.name == "module1"));
    assert!(queue.iter().any(|m| m.name == "module2"));
    assert!(queue.iter().any(|m| m.name == "module3"));
    assert_eq!(queue.len(), 4);
    assert_eq!(find(&queue, "module1").reason.as_str(), "manual");
    assert_eq!(find(&queue, "foo").reason.as_str(), "manual");
    assert_eq!(find(&queue, "module2").reason.as_str(), "automatic");
    assert_eq!(find(&queue, "module3").reason.as_str(), "automatic");
}

#[test]
fn dependencies_are_queued_before_their_dependents() {
    let graph: &[(&str, &[&str])] = &[("app", &["lib"]), ("lib", &["base"]), ("base", &[])];
    let queue = resolve(&["app"], graph);
    let names: Vec<&str> = queue.iter().map(|m| m.name.as_str()).collect();
    assert_eq!(names, vec!["base", "lib", "app"]);
    assert_eq!(find(&queue, "app").depends_on, vec!["lib".to_string()]);
}

#[test]
fn a_requested_module_replaces_its_automatic_entry() {
    let graph: &[(&str, &[&str])] = &[("app", &["lib"]), ("lib", &[])];
    let queue = resolve(&["app", "lib"], graph);
    assert_eq!(queue.len(), 2);
    assert_eq!(find(&queue, "lib").reason, Reason::Manual);
    assert_eq!(find(&queue, "app").reason, Reason::Manual);
}

#[test]
fn a_builder_without_modules_is_refused() {
    let builder = ModulesQueueBuilder::new();
    assert!(matches!(builder.build(), Err(QueueError::NoModules)));
}

#[test]
fn test_locate_module() {
    let root = "/tmp/dotdeploy-test";
    assert_eq!(locate_module("test_module", root, root), "/tmp/dotdeploy-test/test_module");
    assert_eq!(locate_module("hosts/test_host", root, root), "/tmp/dotdeploy-test/test_host");
    assert_eq!(locate_module("hosts/box", "/m", "/h"), "/h/box");
    assert_eq!(locate_module("shell", "/m", "/h"), "/m/shell");
}

fn create_test_module(name: &str) -> DotdeployModule {
    DotdeployModule {
        name: name.to_string(),
        location: "/dummy/path".to_string(),
        reason: Reason::Automatic,
        depends_on: None,
        includes: None,
        files: None,
        tasks: None,
        messages: None,
        generators: None,
        packages: None,
    }
}

#[test]
fn test_collect_module_names() {
    let names = collect_module_names(&vec![]);
    assert!(names.is_empty(), "Should have empty array with no modules");

    let names = collect_module_names(&vec![create_test_module("test_module")]);
    assert_eq!(names.len(), 1, "Should collect single module name");
    assert_eq!(names[0], "test_module", "Module name should match");

    let modules = vec![
        create_test_module("module1"),
        create_test_module("module2"),
        create_test_module("module3"),
    ];
    let names = collect_module_names(&modules);
    assert_eq!(names.len(), 3, "Should collect all module names");
    assert_eq!(names, vec!["module1", "module2", "module3"], "Module names should be in order");
}

#[test]
fn builders_become_modules() {
    let empty = || DotdeployModuleBuilder {
        name: None,
        location: None,
        depends_on: Some(vec!["base".to_string()]),
        includes: None,
        files: None,
        tasks: None,
        messages: None,
        generators: None,
        packages: None,
    };
    let mut b = empty();
    assert!(matches!(b.build(Reason::Manual), Err(ModuleError::MissingName)));
    assert_eq!(b.depends_on, Some(vec!["base".to_string()]));
    b.name = Some("shell/bash".to_string());
    assert!(matches!(b.build(Reason::Manual), Err(ModuleError::MissingLocation)));
    b.location = Some("/d/modules/shell/bash".to_string());
    let m = b.build(Reason::Automatic).unwrap();
    assert_eq!(m.name, "shell/bash");
    assert_eq!(m.location, "/d/modules/shell/bash");
    assert_eq!(m.reason, Reason::Automatic);
    assert_eq!(m.depends_on, Some(vec!["base".to_string()]));
    assert_eq!(b.depends_on, None);
}
