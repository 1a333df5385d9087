use dotdeploy::paths::{
    check_target_location, expand_wildcards, needs_wildcard_expansion, path_to_string, replace_dot, resolve_source,
    resolve_target, trim_start_matches, PathError,
};

#[test]
fn test_path_to_string() {
    assert_eq!(path_to_string(b"/foo/bar.txt").unwrap(), "/foo/bar.txt".to_string());
    assert_eq!(path_to_string("/foo/bar.txt".as_bytes()).unwrap(), "/foo/bar.txt".to_string());
    assert!(path_to_string(&[255]).is_err());
}

#[test]
fn test_expand_wildcards() {
    let files = vec!["/src/file1.txt".to_string(), "/src/file2.txt".to_string()];
    let pairs = expand_wildcards("/src/*", "/dest/*", &files).unwrap();
    let mut sorted = pairs.clone();
    sorted.sort();
    assert_eq!(
        sorted,
        vec![
            ("/src/file1.txt".to_string(), "/dest/file1.txt".to_string()),
            ("/src/file2.txt".to_string(), "/dest/file2.txt".to_string()),
        ]
    );

    let result = expand_wildcards("/valid/path", "/dest/*", &files);
    assert!(result.is_err(), "Should error when source lacks wildcard");
    let result = expand_wildcards("/src/*", "/dest", &files);
    assert!(result.is_err(), "Should error when target lacks wildcard");
    let result = expand_wildcards("/src/*", "/dest/*", &vec![]);
    assert!(result.is_err(), "Should error on empty directory");
    let result = expand_wildcards("/src/*.txt", "/dest/*.bak", &files);
    assert!(result.is_err(), "Should require exact wildcard position");

    let utf8 = vec!["/src/ñáéíóú.txt".to_string()];
    let pairs = expand_wildcards("/src/*", "/dest/*", &utf8).unwrap();
    assert!(!pairs.is_empty(), "Should handle UTF-8 filenames");
    assert_eq!(pairs[0].1, "/dest/ñáéíóú.txt");
}

#[test]
fn wildcard_decisions() {
    assert_eq!(needs_wildcard_expansion(&Some("/s/*".to_string()), "/t/*"), Ok(true));
    assert_eq!(needs_wildcard_expansion(&Some("/s/a".to_string()), "/t/b"), Ok(false));
    assert_eq!(needs_wildcard_expansion(&Some("/s/*".to_string()), "/t/b"), Err(PathError::WildcardMismatch));
    assert_eq!(needs_wildcard_expansion(&None, "/t/*"), Err(PathError::WildcardWithoutSource));
    assert_eq!(needs_wildcard_expansion(&None, "/t/b"), Ok(false));
}

#[test]
fn sources_targets_and_markers() {
    assert_eq!(resolve_source("/abs/file", "/mod"), "/abs/file");
    assert_eq!(resolve_source("rel/file", "/mod"), "/mod/rel/file");
    assert_eq!(resolve_target("/home/u/.x").unwrap(), "/home/u/.x");
    assert_eq!(resolve_target("relative").unwrap_err(), PathError::InvalidTarget);
    assert_eq!(check_target_location("/etc/x", "/home/u", false), Err(PathError::OutsideHome));
    assert_eq!(check_target_location("/etc/x", "/home/u", true), Ok(()));
    assert_eq!(check_target_location("/home/u/x", "/home/u", false), Ok(()));
    assert_eq!(replace_dot("/home/u/##dot##bashrc"), "/home/u/.bashrc");
    assert_eq!(replace_dot("a##dot##b##dot##"), "a.b.");
    assert_eq!(replace_dot("/home/u/##dot##config/nvim/init.lua"), "/home/u/.config/nvim/init.lua");
    assert_eq!(trim_start_matches("hosts/hosts/x", "hosts/"), "x");
}
