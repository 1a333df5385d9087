use dotdeploy::module::{collect_packages, default_module_packages, ModulePackages};
use dotdeploy::packages::{check_package_commands, default_cmds, package_changes, package_invocation, PackageError};

fn v(items: &[&str]) -> Vec<String> {
    items.iter().map(|s| s.to_string()).collect()
}

#[test]
fn default_commands() {
    let (install, remove) = default_cmds().unwrap();
    assert_eq!(install[0].0, "gentoo");
    assert_eq!(install[0].1, v(&["sudo", "emerge", "--verbose", "--changed-use", "--deep"]));
    assert_eq!(install[1].0, "ubuntu");
    assert_eq!(install[1].1, v(&["sudo", "DEBIAN_FRONTEND=noninteractive", "apt-get", "install", "-q", "-y"]));
    assert_eq!(remove[0].1, v(&["sudo", "emerge", "--deselect"]));
    assert_eq!(remove[1].1, v(&["sudo", "apt-get", "autoremove", "--purge"]));
}

#[test]
fn command_invocation() {
    let inv = package_invocation(&v(&["sudo", "apt", "install"]), &v(&["vim", "git"]), "sudo");
    assert!(inv.elevated);
    assert_eq!(inv.program, "apt");
    assert_eq!(inv.args, v(&["install", "vim", "git"]));
    let inv = package_invocation(&v(&["brew", "install"]), &v(&["vim"]), "sudo");
    assert!(!inv.elevated);
    assert_eq!(inv.program, "brew");
    assert_eq!(inv.args, v(&["install", "vim"]));
}

#[test]
fn package_changes_and_checks() {
    let c = package_changes(&v(&["a", "b", "", "b"]), &v(&["a"]), &v(&["x"]), "m");
    let mut dropped = c.dropped.clone();
    dropped.sort();
    assert_eq!(dropped, v(&["", "b"]));
    assert_eq!(c.uninstall, v(&["b"]));
    let c = package_changes(&v(&["a", "b"]), &v(&[]), &v(&["m"]), "m");
    assert_eq!(c.dropped.len(), 2);
    assert!(c.uninstall.is_empty());

    assert_eq!(check_package_commands(1, 0, false, true), Err(PackageError::RemoveCommandUndefined));
    assert_eq!(check_package_commands(0, 2, true, false), Err(PackageError::InstallCommandUndefined));
    assert_eq!(check_package_commands(1, 2, true, true), Ok(()));
    assert_eq!(check_package_commands(0, 0, false, false), Ok(()));
}

#[test]
fn module_package_entries() {
    let d = default_module_packages().unwrap();
    assert_eq!(d.len(), 1);
    assert!(d[0].install.is_empty());
    let pk = vec![
        ModulePackages { install: v(&["vim", "git"]), condition: None },
        ModulePackages { install: vec![], condition: None },
    ];
    let entries = collect_packages(&"m".to_string(), &pk);
    let got: Vec<(String, String)> = entries.iter().map(|e| (e.module_name.clone(), e.package.clone())).collect();
    assert_eq!(
        got,
        vec![
            ("m".to_string(), "vim".to_string()),
            ("m".to_string(), "git".to_string()),
            ("m".to_string(), "".to_string())
        ]
    );
}
