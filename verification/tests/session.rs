use dotdeploy::config::DotdeployConfig;
use dotdeploy::deployed::StoredModule;
use dotdeploy::session::{environment, root_command, selected_modules, setup_context, split_distribution, RootCommand, SessionError};

fn config(distribution: &str) -> DotdeployConfig {
    DotdeployConfig {
        dry_run: false,
        force: true,
        noconfirm: false,
        config_file: "/c".to_string(),
        dotfiles_root: "/d".to_string(),
        modules_root: "/d/modules".to_string(),
        hosts_root: "/d/hosts".to_string(),
        hostname: "box".to_string(),
        distribution: distribution.to_string(),
        use_sudo: true,
        sudo_cmd: "sudo".to_string(),
        deploy_sys_files: false,
        install_pkg_cmd: None,
        remove_pkg_cmd: None,
        skip_pkg_install: false,
        user_store_path: "/s".to_string(),
        logs_dir: "/l".to_string(),
        logs_max: 15,
    }
}

#[test]
fn module_selection() {
    let stored = vec![
        StoredModule { name: "a".to_string(), reason: "manual".to_string(), depends: None },
        StoredModule { name: "b".to_string(), reason: "automatic".to_string(), depends: None },
    ];
    assert_eq!(selected_modules(true, false, None, "box", &stored), vec!["hosts/box".to_string()]);
    assert_eq!(selected_modules(false, true, Some(vec!["x".to_string()]), "box", &stored), vec!["x".to_string()]);
    assert_eq!(selected_modules(false, true, None, "box", &stored), vec!["a".to_string()]);
    assert!(selected_modules(false, false, None, "box", &stored).is_empty());
}

#[test]
fn elevation_commands() {
    assert_eq!(root_command("sudo"), Ok(RootCommand::Sudo));
    assert_eq!(root_command("doas"), Ok(RootCommand::Doas));
    assert_eq!(root_command("su"), Err(SessionError::UnsupportedRootCommand));
}

#[test]
fn distribution_and_variables() {
    assert_eq!(split_distribution("ubuntu:22.04"), ("ubuntu".to_string(), "22.04".to_string()));
    assert_eq!(split_distribution("a:b:c"), ("a".to_string(), "b:c".to_string()));
    assert_eq!(split_distribution("unknown"), ("unknown".to_string(), String::new()));

    let env = environment(&config("arch:rolling"));
    assert_eq!(env.len(), 13);
    assert!(env.contains(&("DOD_FORCE".to_string(), "true".to_string())));
    assert!(env.contains(&("DOD_DEPLOY_SYS_FILES".to_string(), "false".to_string())));
    assert!(env.contains(&("DOD_DISTRIBUTION_NAME".to_string(), "arch".to_string())));
    assert!(env.contains(&("DOD_DISTRIBUTION_VERSION".to_string(), "rolling".to_string())));

    let ctx = setup_context(&config("arch:rolling"));
    assert_eq!(ctx.len(), 10);
    assert_eq!(ctx[0], ("DOD_DOTFILES_ROOT".to_string(), "/d".to_string()));
    assert!(ctx.contains(&("DOD_USER_STORE".to_string(), "/s".to_string())));
}

#[test]
fn distribution_without_version() {
    let env = environment(&config("arch"));
    assert!(env.contains(&("DOD_DISTRIBUTION".to_string(), "arch".to_string())));
    assert!(env.contains(&("DOD_DISTRIBUTION_NAME".to_string(), "arch".to_string())));
    assert!(env.contains(&("DOD_DISTRIBUTION_VERSION".to_string(), String::new())));
    let ctx = setup_context(&config("arch"));
    assert_eq!(ctx[5], ("DOD_DISTRIBUTION_NAME".to_string(), "arch".to_string()));
    assert_eq!(ctx[6], ("DOD_DISTRIBUTION_VERSION".to_string(), String::new()));
}
