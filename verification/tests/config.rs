use dotdeploy::config::{
    distribution_from_os_release, hostname_or_unknown, ConfigError, DotdeployConfigBuilder, HostDefaults,
};

fn host(home: &str) -> HostDefaults {
    HostDefaults {
        dotfiles_root: format!("{}/.dotfiles", home),
        data_dir: Some(format!("{}/.local/share", home)),
        logs_dir: Some(format!("{}/.local/share/dotdeploy/logs", home)),
        hostname: "unknown".to_string(),
        distribution: "unknown".to_string(),
    }
}

#[test]
fn test_create_config_no_file() {
    let home = "/tmp/home-test";
    let mut cli = DotdeployConfigBuilder::new();
    cli.with_config_file(Some(home.to_string()));
    let file = DotdeployConfigBuilder::new();
    let test_config = cli.build(&file, home, &host(home)).unwrap();

    assert_eq!(test_config.dotfiles_root, format!("{}/.dotfiles", home), "Default dotfiles_root should be ~/.dotfiles");
    assert_eq!(
        test_config.modules_root,
        format!("{}/.dotfiles/modules", home),
        "Default modules_root should be ~/.dotfiles/modules"
    );
    assert_eq!(test_config.hosts_root, format!("{}/.dotfiles/hosts", home), "Default hosts_root should be ~/.dotfiles/hosts");
    assert!(!test_config.distribution.is_empty(), "Should detect distribution from OS or fallback to 'unknown'");
    assert!(!test_config.hostname.is_empty(), "Should detect hostname via gethostname() or fallback to 'unknown'");
    assert!(test_config.use_sudo, "use_sudo should default to true");
    assert!(test_config.deploy_sys_files, "deploy_sys_files should default to true");
}

#[test]
fn test_create_config_with_file() {
    let mut cli = DotdeployConfigBuilder::new();
    cli.with_config_file(Some("/x/dotdeploy".to_string()));
    let config_file = cli.config_file_path(true, None).unwrap();
    assert_eq!(config_file, "/x/dotdeploy/config.toml");
    let mut file = DotdeployConfigBuilder::new();
    file.with_dotfiles_root(Some("/tmp".to_string()));
    let test_config = cli.build(&file, &config_file, &host("/x")).unwrap();

    assert_eq!(test_config.dotfiles_root, "/tmp", "dotfiles_root should be set from config file");
    assert_eq!(test_config.modules_root, "/tmp/modules", "modules_root should default to dotfiles_root/modules");
    assert_eq!(test_config.hosts_root, "/tmp/hosts", "hosts_root should default to dotfiles_root/hosts");
}

#[test]
fn test_create_config_with_custom_paths() {
    let cli = DotdeployConfigBuilder::new();
    let mut file = DotdeployConfigBuilder::new();
    file.with_dotfiles_root(Some("/foo".to_string()));
    file.with_modules_root(Some("/bar".to_string()));
    file.with_hosts_root(Some("/baz".to_string()));
    let test_config = cli.build(&file, "/x/dotdeploy/config.toml", &host("/x")).unwrap();

    assert_eq!(test_config.dotfiles_root, "/foo", "dotfiles_root should be set from config file");
    assert_eq!(test_config.modules_root, "/bar", "modules_root should be set from config file");
    assert_eq!(test_config.hosts_root, "/baz", "hosts_root should be set from config file");
}

#[test]
fn command_line_overrides_file_overrides_defaults() {
    let mut cli = DotdeployConfigBuilder::new();
    cli.with_force(Some(true));
    cli.with_sudo_cmd(Some("doas".to_string()));
    cli.with_logs_max(Some(3));
    let mut file = DotdeployConfigBuilder::new();
    file.with_force(Some(false));
    file.with_use_sudo(Some(false));
    file.with_sudo_cmd(Some("pkexec".to_string()));
    file.with_install_pkg_cmd(Some(vec!["apt".to_string(), "install".to_string()]));
    file.with_logs_max(Some(7));
    let c = cli.build(&file, "/c", &host("/h")).unwrap();
    assert!(c.force);
    assert!(!c.use_sudo);
    assert_eq!(c.sudo_cmd, "doas");
    assert_eq!(c.install_pkg_cmd, Some(vec!["apt".to_string(), "install".to_string()]));
    assert_eq!(c.remove_pkg_cmd, None);
    assert_eq!(c.logs_max, 3);
    assert!(!c.dry_run && !c.noconfirm && !c.skip_pkg_install);
    assert_eq!(c.user_store_path, "/h/.local/share/dotdeploy");
    assert_eq!(c.config_file, "/c");

    let c = DotdeployConfigBuilder::new().build(&DotdeployConfigBuilder::new(), "/c", &host("/h")).unwrap();
    assert_eq!(c.sudo_cmd, "sudo");
    assert_eq!(c.logs_max, 15);
}

#[test]
fn missing_directories_are_errors() {
    let mut h = host("/h");
    h.data_dir = None;
    let r = DotdeployConfigBuilder::new().build(&DotdeployConfigBuilder::new(), "/c", &h);
    assert_eq!(r.unwrap_err(), ConfigError::NoDataDir);

    let mut h = host("/h");
    h.logs_dir = None;
    let r = DotdeployConfigBuilder::new().build(&DotdeployConfigBuilder::new(), "/c", &h);
    assert_eq!(r.unwrap_err(), ConfigError::NoLogDir);

    let mut cli = DotdeployConfigBuilder::new();
    cli.with_logs_dir(Some("/logs".to_string()));
    let c = cli.build(&DotdeployConfigBuilder::new(), "/c", &h).unwrap();
    assert_eq!(c.logs_dir, "/logs");

    assert_eq!(DotdeployConfigBuilder::new().config_file_path(false, None).unwrap_err(), ConfigError::NoConfigDir);
    assert_eq!(
        DotdeployConfigBuilder::new().config_file_path(false, Some("/home/u/.config".to_string())).unwrap(),
        "/home/u/.config/dotdeploy/config.toml"
    );

    let mut named = DotdeployConfigBuilder::new();
    named.with_config_file(Some("/etc/dd/custom.toml".to_string()));
    assert_eq!(named.config_file_path(false, None).unwrap(), "/etc/dd/custom.toml");
    named.with_config_file(Some("/etc/dd".to_string()));
    assert_eq!(named.config_file_path(true, None).unwrap(), "/etc/dd/config.toml");
}

#[test]
fn distribution_from_os_release_file() {
    let text = "NAME=\"Ubuntu\"\nID=ubuntu\nVERSION_ID=\"22.04\"\n";
    assert_eq!(distribution_from_os_release(text), "ubuntu:22.04");
    assert_eq!(distribution_from_os_release("ID=\"arch\"\r\n"), "arch");
    assert_eq!(distribution_from_os_release(""), "unknown");
    assert_eq!(distribution_from_os_release("VERSION_ID=12\n"), "unknown:12");
    assert_eq!(distribution_from_os_release("ID= gentoo \n"), "gentoo");
}

#[test]
fn hostname_fallback() {
    assert_eq!(hostname_or_unknown(None), "unknown");
    assert_eq!(hostname_or_unknown(Some("box".to_string())), "box");
}
