use dotdeploy::module_config::{
    default_action, default_message, default_phase, default_template, FileConfig, FilePermissions,
    ModuleConfig, ModuleConfigError,
};

fn empty_file_config() -> FileConfig {
    FileConfig {
        source: None,
        content: None,
        phase: None,
        action: None,
        eval_when: None,
        permissions: None,
        template: None,
    }
}

#[test]
fn test_default_values() {
    let file_config = FileConfig {
        source: None,
        content: None,
        phase: None,
        action: None,
        eval_when: None,
        permissions: None,
        template: None,
    };

    assert_eq!(file_config.phase.unwrap_or_else(|| default_phase().unwrap()), "deploy");
    assert_eq!(file_config.action.unwrap_or_else(|| default_action().unwrap()), "link");
}

#[test]
fn other_defaults() {
    assert_eq!(default_template(), Some(false));
    assert_eq!(default_message(), "deploy");
}

fn wildcard_config(dest_dir: &str, source_dir: &str) -> ModuleConfig {
    let mut config = ModuleConfig::new();
    let mut conf = empty_file_config();
    conf.source = Some(format!("{}/*", source_dir));
    config.insert_file(format!("{}/*", dest_dir), conf);
    config
}

#[test]
fn test_expand_directory_wildcards() {
    let mut config = wildcard_config("/tmp/dest", "/tmp/source");
    assert_eq!(config.wildcard_sources(), vec![Some("/tmp/source/*".to_string())]);
    let listing = vec!["/tmp/source/file1.txt".to_string(), "/tmp/source/file2.txt".to_string()];
    config.expand_directory_wildcards(&vec![listing]).unwrap();

    let files = config.files.as_ref().unwrap();
    assert_eq!(files.len(), 2);
    assert!(files.iter().any(|(k, _)| k == "/tmp/dest/file1.txt"));
    assert!(files.iter().any(|(k, _)| k == "/tmp/dest/file2.txt"));
    let entry = files.iter().find(|(k, _)| k == "/tmp/dest/file1.txt").unwrap();
    assert_eq!(entry.1.source.as_deref(), Some("/tmp/source/file1.txt"));
}

#[test]
fn test_read_config() {
    // The directory wildcard of a configuration read from disk is expanded
    // with the files found in the source directory.
    let mut config = wildcard_config("/base/test", "/base/source");
    config.expand_directory_wildcards(&vec![vec!["/base/source/file1.txt".to_string()]]).unwrap();
    let files = config.files.as_ref().unwrap();
    assert_eq!(files.len(), 1);
    assert!(files.iter().any(|(k, _)| k == "/base/test/file1.txt"));
}

#[test]
fn expansion_keeps_other_entries_and_settings() {
    let mut config = ModuleConfig::new();
    let mut plain = empty_file_config();
    plain.content = Some("hello".to_string());
    config.insert_file("/home/u/.plain".to_string(), plain);
    let mut conf = empty_file_config();
    conf.source = Some("/src/*".to_string());
    conf.template = Some(true);
    conf.permissions = Some(FilePermissions { owner: Some("u".to_string()), group: None, permissions: Some("0644".to_string()) });
    config.insert_file("/home/u/conf/*".to_string(), conf);

    config.expand_directory_wildcards(&vec![vec!["/src/a".to_string(), "/src/sub/b".to_string()]]).unwrap();
    let files = config.files.as_ref().unwrap();
    assert_eq!(files.len(), 3);
    let b = files.iter().find(|(k, _)| k == "/home/u/conf/sub/b").unwrap();
    assert_eq!(b.1.template, Some(true));
    assert_eq!(b.1.permissions.as_ref().unwrap().permissions.as_deref(), Some("0644"));
    assert!(files.iter().any(|(k, c)| k == "/home/u/.plain" && c.content.as_deref() == Some("hello")));
    assert!(!files.iter().any(|(k, _)| k == "/home/u/conf/*"));
}

#[test]
fn a_file_outside_the_source_directory_is_an_error() {
    let mut config = wildcard_config("/d", "/s");
    let r = config.expand_directory_wildcards(&vec![vec!["/elsewhere/x".to_string()]]);
    assert_eq!(r, Err(ModuleConfigError::OutsideSourceDirectory));
    // Nothing changed.
    assert_eq!(config.files.as_ref().unwrap().len(), 1);
}

#[test]
fn single_directory_errors() {
    let conf = empty_file_config();
    assert_eq!(
        ModuleConfig::expand_single_directory(&"/d/*".to_string(), &conf, &vec![]).unwrap_err(),
        ModuleConfigError::SourceHasNoParent
    );
    let mut conf = empty_file_config();
    conf.source = Some("/s/*".to_string());
    assert_eq!(
        ModuleConfig::expand_single_directory(&"/".to_string(), &conf, &vec![]).unwrap_err(),
        ModuleConfigError::DestinationHasNoParent
    );
    let out = ModuleConfig::expand_single_directory(&"/d/*".to_string(), &conf, &vec!["/s/x".to_string()]).unwrap();
    assert_eq!(out.len(), 1);
    assert_eq!(out[0].0, "/d/x");
    assert_eq!(out[0].1.source.as_deref(), Some("/s/x"));
}

#[test]
fn inserting_replaces_the_same_destination() {
    let mut config = ModuleConfig::new();
    config.insert_file("/a".to_string(), empty_file_config());
    let mut c2 = empty_file_config();
    c2.content = Some("x".to_string());
    config.insert_file("/a".to_string(), c2);
    let files = config.files.as_ref().unwrap();
    assert_eq!(files.len(), 1);
    assert_eq!(files[0].1.content.as_deref(), Some("x"));
}
