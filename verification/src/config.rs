//! The tool's settings: what the command line gives overrides what the
//! configuration file gives, which overrides the defaults; and the host's
//! distribution as `/etc/os-release` names it.

use vstd::prelude::*;
use vstd::string::StrSliceExecFns;
use crate::logs::DEFAULT_MAX_LOGS;
use crate::paths::{join, path_join, trim_leading, trim_start_matches};
use crate::text::{has_prefix, lines, push_str_chars, starts_with, text_lines, trim, trim_char, trim_matches_char, trim_spaces};

verus! {

/// The settings the tool runs with. Paths are given expanded (`~` and
/// environment variables replaced).
#[derive(Debug)]
pub struct DotdeployConfig {
    /// Show what would happen without making changes.
    pub dry_run: bool,
    /// Skip confirmations for destructive operations.
    pub force: bool,
    /// Assume "yes" instead of prompting.
    pub noconfirm: bool,
    /// The configuration file that was read (or looked for).
    pub config_file: String,
    /// Root folder of the dotfiles.
    pub dotfiles_root: String,
    /// Root folder of the module declarations.
    pub modules_root: String,
    /// Root folder of the host declarations.
    pub hosts_root: String,
    /// The host's name.
    pub hostname: String,
    /// The host's distribution, with its version where known (`id:version`).
    pub distribution: String,
    /// Elevate privileges with `sudo_cmd` where needed.
    pub use_sudo: bool,
    /// Command used for privilege elevation.
    pub sudo_cmd: String,
    /// Allow deploying files outside the user's home directory.
    pub deploy_sys_files: bool,
    /// Command used to install packages.
    pub install_pkg_cmd: Option<Vec<String>>,
    /// Command used to remove packages.
    pub remove_pkg_cmd: Option<Vec<String>>,
    /// Skip package installation.
    pub skip_pkg_install: bool,
    /// Directory of the user store.
    pub user_store_path: String,
    /// Directory of the log files.
    pub logs_dir: String,
    /// Number of log files to keep.
    pub logs_max: usize,
}

/// Settings as far as one source (the command line or the configuration
/// file) gives them.
#[derive(Debug)]
pub struct DotdeployConfigBuilder {
    pub dry_run: Option<bool>,
    pub force: Option<bool>,
    pub noconfirm: Option<bool>,
    pub config_file: Option<String>,
    pub dotfiles_root: Option<String>,
    pub modules_root: Option<String>,
    pub hosts_root: Option<String>,
    pub hostname: Option<String>,
    pub distribution: Option<String>,
    pub use_sudo: Option<bool>,
    pub sudo_cmd: Option<String>,
    pub deploy_sys_files: Option<bool>,
    pub install_pkg_cmd: Option<Vec<String>>,
    pub remove_pkg_cmd: Option<Vec<String>>,
    pub skip_pkg_install: Option<bool>,
    pub user_store_path: Option<String>,
    pub logs_dir: Option<String>,
    pub logs_max: Option<usize>,
}

/// What the host tells about itself, for the settings nobody gave.
#[derive(Debug)]
pub struct HostDefaults {
    /// `~/.dotfiles`, expanded.
    pub dotfiles_root: String,
    /// The user's data directory, where the platform has one.
    pub data_dir: Option<String>,
    /// The directory for log files, where one could be set up.
    pub logs_dir: Option<String>,
    /// The host name as the system reports it (`unknown` when it cannot).
    pub hostname: String,
    /// The distribution as [`distribution_from_os_release`] reads it.
    pub distribution: String,
}

/// Why no settings could be made.
#[derive(Debug, Clone, Copy, PartialEq, Eq, Structural)]
pub enum ConfigError {
    /// No configuration file was named and the platform has no config directory.
    NoConfigDir,
    /// No store path was set and the platform has no data directory.
    NoDataDir,
    /// No log directory was set and none could be set up.
    NoLogDir,
}

/// The value of the first source that sets it, else the default.
pub open spec fn layered<T>(cli: Option<T>, file: Option<T>, default: T) -> T {
    match cli {
        Some(v) => v,
        None => match file {
            Some(v) => v,
            None => default,
        },
    }
}

/// The first of two optional values that is there.
pub open spec fn first_of<T>(cli: Option<T>, file: Option<T>) -> Option<T> {
    match cli {
        Some(v) => Some(v),
        None => file,
    }
}

/// The view of an optional string.
pub open spec fn opt_view(o: Option<String>) -> Option<Seq<char>> {
    match o {
        Some(s) => Some(s@),
        None => None,
    }
}

/// The view of an optional list of strings.
pub open spec fn opt_list_view(o: Option<Vec<String>>) -> Option<Seq<Seq<char>>> {
    match o {
        Some(v) => Some(v.deep_view()),
        None => None,
    }
}

fn clone_strings(v: &Vec<String>) -> (r: Vec<String>)
    ensures
        r.deep_view() == v.deep_view(),
{
    let mut r: Vec<String> = Vec::new();
    let mut i: usize = 0;
    while i < v.len()
        invariant
            i <= v@.len(),
            r@.len() == i,
            forall|k: int| 0 <= k < i ==> (#[trigger] r@[k])@ == v@[k]@,
        decreases v@.len() - i,
    {
        r.push(v[i].clone());
        i = i + 1;
    }
    assert(r.deep_view() =~= v.deep_view());
    r
}

fn pick_string(cli: &Option<String>, file: &Option<String>, default: &str) -> (r: String)
    ensures
        r@ == layered(opt_view(*cli), opt_view(*file), default@),
{
    match cli {
        Some(v) => v.clone(),
        None => match file {
            Some(v) => v.clone(),
            None => default.to_string(),
        },
    }
}

fn pick_bool(cli: Option<bool>, file: Option<bool>, default: bool) -> (r: bool)
    ensures
        r == layered(cli, file, default),
{
    match cli {
        Some(v) => v,
        None => match file {
            Some(v) => v,
            None => default,
        },
    }
}

fn pick_list(cli: &Option<Vec<String>>, file: &Option<Vec<String>>) -> (r: Option<Vec<String>>)
    ensures
        opt_list_view(r) == first_of(opt_list_view(*cli), opt_list_view(*file)),
{
    match cli {
        Some(v) => Some(clone_strings(v)),
        None => match file {
            Some(v) => Some(clone_strings(v)),
            None => None,
        },
    }
}

/// Where the configuration file is: the one named (`config.toml` inside it
/// when it names a directory), else `config.toml` in `dotdeploy` under the
/// platform's config directory.
pub open spec fn config_path(named: Option<Seq<char>>, named_is_dir: bool, config_dir: Option<Seq<char>>) -> Option<Seq<char>> {
    match named {
        Some(p) => if named_is_dir {
            Some(path_join(p, "config.toml"@))
        } else {
            Some(p)
        },
        None => match config_dir {
            Some(d) => Some(path_join(path_join(d, "dotdeploy"@), "config.toml"@)),
            None => None,
        },
    }
}

impl DotdeployConfigBuilder {
    /// Nothing set.
    pub fn new() -> (b: Self)
        ensures
            b.dry_run is None && b.force is None && b.noconfirm is None && b.config_file is None,
            b.dotfiles_root is None && b.modules_root is None && b.hosts_root is None,
            b.hostname is None && b.distribution is None && b.use_sudo is None && b.sudo_cmd is None,
            b.deploy_sys_files is None && b.install_pkg_cmd is None && b.remove_pkg_cmd is None,
            b.skip_pkg_install is None && b.user_store_path is None && b.logs_dir is None && b.logs_max is None,
    {
        DotdeployConfigBuilder {
            dry_run: None,
            force: None,
            noconfirm: None,
            config_file: None,
            dotfiles_root: None,
            modules_root: None,
            hosts_root: None,
            hostname: None,
            distribution: None,
            use_sudo: None,
            sudo_cmd: None,
            deploy_sys_files: None,
            install_pkg_cmd: None,
            remove_pkg_cmd: None,
            skip_pkg_install: None,
            user_store_path: None,
            logs_dir: None,
            logs_max: None,
        }
    }

    /// Sets whether to only show what would happen.
    pub fn with_dry_run(&mut self, dry_run: Option<bool>)
        ensures
            final(self).dry_run == dry_run,
            final(self).force == old(self).force,
            final(self).noconfirm == old(self).noconfirm,
            final(self).config_file == old(self).config_file,
            final(self).dotfiles_root == old(self).dotfiles_root,
            final(self).modules_root == old(self).modules_root,
            final(self).hosts_root == old(self).hosts_root,
            final(self).hostname == old(self).hostname,
            final(self).distribution == old(self).distribution,
            final(self).use_sudo == old(self).use_sudo,
            final(self).sudo_cmd == old(self).sudo_cmd,
            final(self).deploy_sys_files == old(self).deploy_sys_files,
            final(self).install_pkg_cmd == old(self).install_pkg_cmd,
            final(self).remove_pkg_cmd == old(self).remove_pkg_cmd,
            final(self).skip_pkg_install == old(self).skip_pkg_install,
            final(self).user_store_path == old(self).user_store_path,
            final(self).logs_dir == old(self).logs_dir,
            final(self).logs_max == old(self).logs_max,
    {
        self.dry_run = dry_run;
    }

    /// Sets whether to skip confirmations for destructive operations.
    pub fn with_force(&mut self, force: Option<bool>)
        ensures
            final(self).force == force,
            final(self).dry_run == old(self).dry_run,
            final(self).noconfirm == old(self).noconfirm,
            final(self).config_file == old(self).config_file,
            final(self).dotfiles_root == old(self).dotfiles_root,
            final(self).modules_root == old(self).modules_root,
            final(self).hosts_root == old(self).hosts_root,
            final(self).hostname == old(self).hostname,
            final(self).distribution == old(self).distribution,
            final(self).use_sudo == old(self).use_sudo,
            final(self).sudo_cmd == old(self).sudo_cmd,
            final(self).deploy_sys_files == old(self).deploy_sys_files,
            final(self).install_pkg_cmd == old(self).install_pkg_cmd,
            final(self).remove_pkg_cmd == old(self).remove_pkg_cmd,
            final(self).skip_pkg_install == old(self).skip_pkg_install,
            final(self).user_store_path == old(self).user_store_path,
            final(self).logs_dir == old(self).logs_dir,
            final(self).logs_max == old(self).logs_max,
    {
        self.force = force;
    }

    /// Sets whether to assume "yes" instead of prompting.
    pub fn with_noconfirm(&mut self, noconfirm: Option<bool>)
        ensures
            final(self).noconfirm == noconfirm,
            final(self).dry_run == old(self).dry_run,
            final(self).force == old(self).force,
            final(self).config_file == old(self).config_file,
            final(self).dotfiles_root == old(self).dotfiles_root,
            final(self).modules_root == old(self).modules_root,
            final(self).hosts_root == old(self).hosts_root,
            final(self).hostname == old(self).hostname,
            final(self).distribution == old(self).distribution,
            final(self).use_sudo == old(self).use_sudo,
            final(self).sudo_cmd == old(self).sudo_cmd,
            final(self).deploy_sys_files == old(self).deploy_sys_files,
            final(self).install_pkg_cmd == old(self).install_pkg_cmd,
            final(self).remove_pkg_cmd == old(self).remove_pkg_cmd,
            final(self).skip_pkg_install == old(self).skip_pkg_install,
            final(self).user_store_path == old(self).user_store_path,
            final(self).logs_dir == old(self).logs_dir,
            final(self).logs_max == old(self).logs_max,
    {
        self.noconfirm = noconfirm;
    }

    /// Sets the configuration file to read.
    pub fn with_config_file(&mut self, config_file: Option<String>)
        ensures
            final(self).config_file == config_file,
            final(self).dry_run == old(self).dry_run,
            final(self).force == old(self).force,
            final(self).noconfirm == old(self).noconfirm,
            final(self).dotfiles_root == old(self).dotfiles_root,
            final(self).modules_root == old(self).modules_root,
            final(self).hosts_root == old(self).hosts_root,
            final(self).hostname == old(self).hostname,
            final(self).distribution == old(self).distribution,
            final(self).use_sudo == old(self).use_sudo,
            final(self).sudo_cmd == old(self).sudo_cmd,
            final(self).deploy_sys_files == old(self).deploy_sys_files,
            final(self).install_pkg_cmd == old(self).install_pkg_cmd,
            final(self).remove_pkg_cmd == old(self).remove_pkg_cmd,
            final(self).skip_pkg_install == old(self).skip_pkg_install,
            final(self).user_store_path == old(self).user_store_path,
            final(self).logs_dir == old(self).logs_dir,
            final(self).logs_max == old(self).logs_max,
    {
        self.config_file = config_file;
    }

    /// Sets the root folder of the dotfiles.
    pub fn with_dotfiles_root(&mut self, dotfiles_root: Option<String>)
        ensures
            final(self).dotfiles_root == dotfiles_root,
            final(self).dry_run == old(self).dry_run,
            final(self).force == old(self).force,
            final(self).noconfirm == old(self).noconfirm,
            final(self).config_file == old(self).config_file,
            final(self).modules_root == old(self).modules_root,
            final(self).hosts_root == old(self).hosts_root,
            final(self).hostname == old(self).hostname,
            final(self).distribution == old(self).distribution,
            final(self).use_sudo == old(self).use_sudo,
            final(self).sudo_cmd == old(self).sudo_cmd,
            final(self).deploy_sys_files == old(self).deploy_sys_files,
            final(self).install_pkg_cmd == old(self).install_pkg_cmd,
            final(self).remove_pkg_cmd == old(self).remove_pkg_cmd,
            final(self).skip_pkg_install == old(self).skip_pkg_install,
            final(self).user_store_path == old(self).user_store_path,
            final(self).logs_dir == old(self).logs_dir,
            final(self).logs_max == old(self).logs_max,
    {
        self.dotfiles_root = dotfiles_root;
    }

    /// Sets the root folder of the module declarations.
    pub fn with_modules_root(&mut self, modules_root: Option<String>)
        ensures
            final(self).modules_root == modules_root,
            final(self).dry_run == old(self).dry_run,
            final(self).force == old(self).force,
            final(self).noconfirm == old(self).noconfirm,
            final(self).config_file == old(self).config_file,
            final(self).dotfiles_root == old(self).dotfiles_root,
            final(self).hosts_root == old(self).hosts_root,
            final(self).hostname == old(self).hostname,
            final(self).distribution == old(self).distribution,
            final(self).use_sudo == old(self).use_sudo,
            final(self).sudo_cmd == old(self).sudo_cmd,
            final(self).deploy_sys_files == old(self).deploy_sys_files,
            final(self).install_pkg_cmd == old(self).install_pkg_cmd,
            final(self).remove_pkg_cmd == old(self).remove_pkg_cmd,
            final(self).skip_pkg_install == old(self).skip_pkg_install,
            final(self).user_store_path == old(self).user_store_path,
            final(self).logs_dir == old(self).logs_dir,
            final(self).logs_max == old(self).logs_max,
    {
        self.modules_root = modules_root;
    }

    /// Sets the root folder of the host declarations.
    pub fn with_hosts_root(&mut self, hosts_root: Option<String>)
        ensures
            final(self).hosts_root == hosts_root,
            final(self).dry_run == old(self).dry_run,
            final(self).force == old(self).force,
            final(self).noconfirm == old(self).noconfirm,
            final(self).config_file == old(self).config_file,
            final(self).dotfiles_root == old(self).dotfiles_root,
            final(self).modules_root == old(self).modules_root,
            final(self).hostname == old(self).hostname,
            final(self).distribution == old(self).distribution,
            final(self).use_sudo == old(self).use_sudo,
            final(self).sudo_cmd == old(self).sudo_cmd,
            final(self).deploy_sys_files == old(self).deploy_sys_files,
            final(self).install_pkg_cmd == old(self).install_pkg_cmd,
            final(self).remove_pkg_cmd == old(self).remove_pkg_cmd,
            final(self).skip_pkg_install == old(self).skip_pkg_install,
            final(self).user_store_path == old(self).user_store_path,
            final(self).logs_dir == old(self).logs_dir,
            final(self).logs_max == old(self).logs_max,
    {
        self.hosts_root = hosts_root;
    }

    /// Sets the host's name.
    pub fn with_hostname(&mut self, hostname: Option<String>)
        ensures
            final(self).hostname == hostname,
            final(self).dry_run == old(self).dry_run,
            final(self).force == old(self).force,
            final(self).noconfirm == old(self).noconfirm,
            final(self).config_file == old(self).config_file,
            final(self).dotfiles_root == old(self).dotfiles_root,
            final(self).modules_root == old(self).modules_root,
            final(self).hosts_root == old(self).hosts_root,
            final(self).distribution == old(self).distribution,
            final(self).use_sudo == old(self).use_sudo,
            final(self).sudo_cmd == old(self).sudo_cmd,
            final(self).deploy_sys_files == old(self).deploy_sys_files,
            final(self).install_pkg_cmd == old(self).install_pkg_cmd,
            final(self).remove_pkg_cmd == old(self).remove_pkg_cmd,
            final(self).skip_pkg_install == old(self).skip_pkg_install,
            final(self).user_store_path == old(self).user_store_path,
            final(self).logs_dir == old(self).logs_dir,
            final(self).logs_max == old(self).logs_max,
    {
        self.hostname = hostname;
    }

    /// Sets the host's distribution.
    pub fn with_distribution(&mut self, distribution: Option<String>)
        ensures
            final(self).distribution == distribution,
            final(self).dry_run == old(self).dry_run,
            final(self).force == old(self).force,
            final(self).noconfirm == old(self).noconfirm,
            final(self).config_file == old(self).config_file,
            final(self).dotfiles_root == old(self).dotfiles_root,
            final(self).modules_root == old(self).modules_root,
            final(self).hosts_root == old(self).hosts_root,
            final(self).hostname == old(self).hostname,
            final(self).use_sudo == old(self).use_sudo,
            final(self).sudo_cmd == old(self).sudo_cmd,
            final(self).deploy_sys_files == old(self).deploy_sys_files,
            final(self).install_pkg_cmd == old(self).install_pkg_cmd,
            final(self).remove_pkg_cmd == old(self).remove_pkg_cmd,
            final(self).skip_pkg_install == old(self).skip_pkg_install,
            final(self).user_store_path == old(self).user_store_path,
            final(self).logs_dir == old(self).logs_dir,
            final(self).logs_max == old(self).logs_max,
    {
        self.distribution = distribution;
    }

    /// Sets whether to elevate privileges where needed.
    pub fn with_use_sudo(&mut self, use_sudo: Option<bool>)
        ensures
            final(self).use_sudo == use_sudo,
            final(self).dry_run == old(self).dry_run,
            final(self).force == old(self).force,
            final(self).noconfirm == old(self).noconfirm,
            final(self).config_file == old(self).config_file,
            final(self).dotfiles_root == old(self).dotfiles_root,
            final(self).modules_root == old(self).modules_root,
            final(self).hosts_root == old(self).hosts_root,
            final(self).hostname == old(self).hostname,
            final(self).distribution == old(self).distribution,
            final(self).sudo_cmd == old(self).sudo_cmd,
            final(self).deploy_sys_files == old(self).deploy_sys_files,
            final(self).install_pkg_cmd == old(self).install_pkg_cmd,
            final(self).remove_pkg_cmd == old(self).remove_pkg_cmd,
            final(self).skip_pkg_install == old(self).skip_pkg_install,
            final(self).user_store_path == old(self).user_store_path,
            final(self).logs_dir == old(self).logs_dir,
            final(self).logs_max == old(self).logs_max,
    {
        self.use_sudo = use_sudo;
    }

    /// Sets the command used for privilege elevation.
    pub fn with_sudo_cmd(&mut self, sudo_cmd: Option<String>)
        ensures
            final(self).sudo_cmd == sudo_cmd,
            final(self).dry_run == old(self).dry_run,
            final(self).force == old(self).force,
            final(self).noconfirm == old(self).noconfirm,
            final(self).config_file == old(self).config_file,
            final(self).dotfiles_root == old(self).dotfiles_root,
            final(self).modules_root == old(self).modules_root,
            final(self).hosts_root == old(self).hosts_root,
            final(self).hostname == old(self).hostname,
            final(self).distribution == old(self).distribution,
            final(self).use_sudo == old(self).use_sudo,
            final(self).deploy_sys_files == old(self).deploy_sys_files,
            final(self).install_pkg_cmd == old(self).install_pkg_cmd,
            final(self).remove_pkg_cmd == old(self).remove_pkg_cmd,
            final(self).skip_pkg_install == old(self).skip_pkg_install,
            final(self).user_store_path == old(self).user_store_path,
            final(self).logs_dir == old(self).logs_dir,
            final(self).logs_max == old(self).logs_max,
    {
        self.sudo_cmd = sudo_cmd;
    }

    /// Sets whether files may go outside the home directory.
    pub fn with_deploy_sys_files(&mut self, deploy_sys_files: Option<bool>)
        ensures
            final(self).deploy_sys_files == deploy_sys_files,
            final(self).dry_run == old(self).dry_run,
            final(self).force == old(self).force,
            final(self).noconfirm == old(self).noconfirm,
            final(self).config_file == old(self).config_file,
            final(self).dotfiles_root == old(self).dotfiles_root,
            final(self).modules_root == old(self).modules_root,
            final(self).hosts_root == old(self).hosts_root,
            final(self).hostname == old(self).hostname,
            final(self).distribution == old(self).distribution,
            final(self).use_sudo == old(self).use_sudo,
            final(self).sudo_cmd == old(self).sudo_cmd,
            final(self).install_pkg_cmd == old(self).install_pkg_cmd,
            final(self).remove_pkg_cmd == old(self).remove_pkg_cmd,
            final(self).skip_pkg_install == old(self).skip_pkg_install,
            final(self).user_store_path == old(self).user_store_path,
            final(self).logs_dir == old(self).logs_dir,
            final(self).logs_max == old(self).logs_max,
    {
        self.deploy_sys_files = deploy_sys_files;
    }

    /// Sets the command used to install packages.
    pub fn with_install_pkg_cmd(&mut self, install_pkg_cmd: Option<Vec<String>>)
        ensures
            final(self).install_pkg_cmd == install_pkg_cmd,
            final(self).dry_run == old(self).dry_run,
            final(self).force == old(self).force,
            final(self).noconfirm == old(self).noconfirm,
            final(self).config_file == old(self).config_file,
            final(self).dotfiles_root == old(self).dotfiles_root,
            final(self).modules_root == old(self).modules_root,
            final(self).hosts_root == old(self).hosts_root,
            final(self).hostname == old(self).hostname,
            final(self).distribution == old(self).distribution,
            final(self).use_sudo == old(self).use_sudo,
            final(self).sudo_cmd == old(self).sudo_cmd,
            final(self).deploy_sys_files == old(self).deploy_sys_files,
            final(self).remove_pkg_cmd == old(self).remove_pkg_cmd,
            final(self).skip_pkg_install == old(self).skip_pkg_install,
            final(self).user_store_path == old(self).user_store_path,
            final(self).logs_dir == old(self).logs_dir,
            final(self).logs_max == old(self).logs_max,
    {
        self.install_pkg_cmd = install_pkg_cmd;
    }

    /// Sets the command used to remove packages.
    pub fn with_remove_pkg_cmd(&mut self, remove_pkg_cmd: Option<Vec<String>>)
        ensures
            final(self).remove_pkg_cmd == remove_pkg_cmd,
            final(self).dry_run == old(self).dry_run,
            final(self).force == old(self).force,
            final(self).noconfirm == old(self).noconfirm,
            final(self).config_file == old(self).config_file,
            final(self).dotfiles_root == old(self).dotfiles_root,
            final(self).modules_root == old(self).modules_root,
            final(self).hosts_root == old(self).hosts_root,
            final(self).hostname == old(self).hostname,
            final(self).distribution == old(self).distribution,
            final(self).use_sudo == old(self).use_sudo,
            final(self).sudo_cmd == old(self).sudo_cmd,
            final(self).deploy_sys_files == old(self).deploy_sys_files,
            final(self).install_pkg_cmd == old(self).install_pkg_cmd,
            final(self).skip_pkg_install == old(self).skip_pkg_install,
            final(self).user_store_path == old(self).user_store_path,
            final(self).logs_dir == old(self).logs_dir,
            final(self).logs_max == old(self).logs_max,
    {
        self.remove_pkg_cmd = remove_pkg_cmd;
    }

    /// Sets whether to skip package installation.
    pub fn with_skip_pkg_install(&mut self, skip_pkg_install: Option<bool>)
        ensures
            final(self).skip_pkg_install == skip_pkg_install,
            final(self).dry_run == old(self).dry_run,
            final(self).force == old(self).force,
            final(self).noconfirm == old(self).noconfirm,
            final(self).config_file == old(self).config_file,
            final(self).dotfiles_root == old(self).dotfiles_root,
            final(self).modules_root == old(self).modules_root,
            final(self).hosts_root == old(self).hosts_root,
            final(self).hostname == old(self).hostname,
            final(self).distribution == old(self).distribution,
            final(self).use_sudo == old(self).use_sudo,
            final(self).sudo_cmd == old(self).sudo_cmd,
            final(self).deploy_sys_files == old(self).deploy_sys_files,
            final(self).install_pkg_cmd == old(self).install_pkg_cmd,
            final(self).remove_pkg_cmd == old(self).remove_pkg_cmd,
            final(self).user_store_path == old(self).user_store_path,
            final(self).logs_dir == old(self).logs_dir,
            final(self).logs_max == old(self).logs_max,
    {
        self.skip_pkg_install = skip_pkg_install;
    }

    /// Sets the directory of the user store.
    pub fn with_user_store_path(&mut self, user_store_path: Option<String>)
        ensures
            final(self).user_store_path == user_store_path,
            final(self).dry_run == old(self).dry_run,
            final(self).force == old(self).force,
            final(self).noconfirm == old(self).noconfirm,
            final(self).config_file == old(self).config_file,
            final(self).dotfiles_root == old(self).dotfiles_root,
            final(self).modules_root == old(self).modules_root,
            final(self).hosts_root == old(self).hosts_root,
            final(self).hostname == old(self).hostname,
            final(self).distribution == old(self).distribution,
            final(self).use_sudo == old(self).use_sudo,
            final(self).sudo_cmd == old(self).sudo_cmd,
            final(self).deploy_sys_files == old(self).deploy_sys_files,
            final(self).install_pkg_cmd == old(self).install_pkg_cmd,
            final(self).remove_pkg_cmd == old(self).remove_pkg_cmd,
            final(self).skip_pkg_install == old(self).skip_pkg_install,
            final(self).logs_dir == old(self).logs_dir,
            final(self).logs_max == old(self).logs_max,
    {
        self.user_store_path = user_store_path;
    }

    /// Sets the directory of the log files.
    pub fn with_logs_dir(&mut self, logs_dir: Option<String>)
        ensures
            final(self).logs_dir == logs_dir,
            final(self).dry_run == old(self).dry_run,
            final(self).force == old(self).force,
            final(self).noconfirm == old(self).noconfirm,
            final(self).config_file == old(self).config_file,
            final(self).dotfiles_root == old(self).dotfiles_root,
            final(self).modules_root == old(self).modules_root,
            final(self).hosts_root == old(self).hosts_root,
            final(self).hostname == old(self).hostname,
            final(self).distribution == old(self).distribution,
            final(self).use_sudo == old(self).use_sudo,
            final(self).sudo_cmd == old(self).sudo_cmd,
            final(self).deploy_sys_files == old(self).deploy_sys_files,
            final(self).install_pkg_cmd == old(self).install_pkg_cmd,
            final(self).remove_pkg_cmd == old(self).remove_pkg_cmd,
            final(self).skip_pkg_install == old(self).skip_pkg_install,
            final(self).user_store_path == old(self).user_store_path,
            final(self).logs_max == old(self).logs_max,
    {
        self.logs_dir = logs_dir;
    }

    /// Sets the number of log files to keep.
    pub fn with_logs_max(&mut self, logs_max: Option<usize>)
        ensures
            final(self).logs_max == logs_max,
            final(self).dry_run == old(self).dry_run,
            final(self).force == old(self).force,
            final(self).noconfirm == old(self).noconfirm,
            final(self).config_file == old(self).config_file,
            final(self).dotfiles_root == old(self).dotfiles_root,
            final(self).modules_root == old(self).modules_root,
            final(self).hosts_root == old(self).hosts_root,
            final(self).hostname == old(self).hostname,
            final(self).distribution == old(self).distribution,
            final(self).use_sudo == old(self).use_sudo,
            final(self).sudo_cmd == old(self).sudo_cmd,
            final(self).deploy_sys_files == old(self).deploy_sys_files,
            final(self).install_pkg_cmd == old(self).install_pkg_cmd,
            final(self).remove_pkg_cmd == old(self).remove_pkg_cmd,
            final(self).skip_pkg_install == old(self).skip_pkg_install,
            final(self).user_store_path == old(self).user_store_path,
            final(self).logs_dir == old(self).logs_dir,
    {
        self.logs_max = logs_max;
    }

    /// The configuration file to read (see [`config_path`]).
    /// `named_is_dir` says whether the configured path names a directory,
    /// in which case the file is `config.toml` inside it.
    pub fn config_file_path(&self, named_is_dir: bool, config_dir: Option<String>) -> (r: Result<String, ConfigError>)
        ensures
            match config_path(opt_view(self.config_file), named_is_dir, opt_view(config_dir)) {
                Some(p) => r matches Ok(s) && s@ == p,
                None => r == Err::<String, ConfigError>(ConfigError::NoConfigDir),
            },
    {
        match &self.config_file {
            Some(p) => if named_is_dir {
                Ok(join(p.as_str(), "config.toml"))
            } else {
                Ok(p.clone())
            },
            None => match config_dir {
                Some(d) => {
                    let base = join(d.as_str(), "dotdeploy");
                    Ok(join(base.as_str(), "config.toml"))
                },
                None => Err(ConfigError::NoConfigDir),
            },
        }
    }
}

/// The store directory: the one set, else `dotdeploy` under the data directory.
pub open spec fn store_path_of(cli: Option<Seq<char>>, file: Option<Seq<char>>, data_dir: Option<Seq<char>>) -> Option<Seq<char>> {
    match first_of(cli, file) {
        Some(p) => Some(p),
        None => match data_dir {
            Some(d) => Some(path_join(d, "dotdeploy"@)),
            None => None,
        },
    }
}

/// The settings that `cli`, then `file`, then the host's defaults give:
/// exactly what [`DotdeployConfigBuilder::build`] returns when it succeeds.
pub open spec fn settings_match(
    c: DotdeployConfig,
    cli: DotdeployConfigBuilder,
    file: DotdeployConfigBuilder,
    config_file: Seq<char>,
    host: HostDefaults,
) -> bool {
    let dotfiles = layered(opt_view(cli.dotfiles_root), opt_view(file.dotfiles_root), host.dotfiles_root@);
    &&& c.dry_run == layered(cli.dry_run, file.dry_run, false)
    &&& c.force == layered(cli.force, file.force, false)
    &&& c.noconfirm == layered(cli.noconfirm, file.noconfirm, false)
    &&& c.config_file@ == config_file
    &&& c.dotfiles_root@ == dotfiles
    &&& c.modules_root@ == layered(opt_view(cli.modules_root), opt_view(file.modules_root), path_join(dotfiles, "modules"@))
    &&& c.hosts_root@ == layered(opt_view(cli.hosts_root), opt_view(file.hosts_root), path_join(dotfiles, "hosts"@))
    &&& c.hostname@ == layered(opt_view(cli.hostname), opt_view(file.hostname), host.hostname@)
    &&& c.distribution@ == layered(opt_view(cli.distribution), opt_view(file.distribution), host.distribution@)
    &&& c.use_sudo == layered(cli.use_sudo, file.use_sudo, true)
    &&& c.sudo_cmd@ == layered(opt_view(cli.sudo_cmd), opt_view(file.sudo_cmd), "sudo"@)
    &&& c.deploy_sys_files == layered(cli.deploy_sys_files, file.deploy_sys_files, true)
    &&& opt_list_view(c.install_pkg_cmd) == first_of(opt_list_view(cli.install_pkg_cmd), opt_list_view(file.install_pkg_cmd))
    &&& opt_list_view(c.remove_pkg_cmd) == first_of(opt_list_view(cli.remove_pkg_cmd), opt_list_view(file.remove_pkg_cmd))
    &&& c.skip_pkg_install == layered(cli.skip_pkg_install, file.skip_pkg_install, false)
    &&& Some(c.user_store_path@) == store_path_of(opt_view(cli.user_store_path), opt_view(file.user_store_path), opt_view(host.data_dir))
    &&& Some(c.logs_dir@) == first_of(first_of(opt_view(cli.logs_dir), opt_view(file.logs_dir)), opt_view(host.logs_dir))
    &&& c.logs_max == layered(cli.logs_max, file.logs_max, DEFAULT_MAX_LOGS)
}

/// Every setting is taken from the command line when it is given there,
/// else from the configuration file, else from the host's defaults: a flag
/// such as `--dry-run` wins over the file, and the file wins over the
/// default.
pub proof fn lemma_command_line_wins(
    c: DotdeployConfig,
    cli: DotdeployConfigBuilder,
    file: DotdeployConfigBuilder,
    config_file: Seq<char>,
    host: HostDefaults,
)
    requires
        settings_match(c, cli, file, config_file, host),
    ensures
        cli.dry_run matches Some(b) ==> c.dry_run == b,
        cli.dry_run is None ==> (file.dry_run matches Some(b) ==> c.dry_run == b),
        cli.dry_run is None && file.dry_run is None ==> c.dry_run == false,
        cli.force matches Some(b) ==> c.force == b,
        cli.force is None ==> (file.force matches Some(b) ==> c.force == b),
        cli.force is None && file.force is None ==> c.force == false,
        cli.noconfirm matches Some(b) ==> c.noconfirm == b,
        cli.noconfirm is None ==> (file.noconfirm matches Some(b) ==> c.noconfirm == b),
        cli.noconfirm is None && file.noconfirm is None ==> c.noconfirm == false,
        cli.use_sudo matches Some(b) ==> c.use_sudo == b,
        cli.use_sudo is None ==> (file.use_sudo matches Some(b) ==> c.use_sudo == b),
        cli.use_sudo is None && file.use_sudo is None ==> c.use_sudo == true,
        cli.deploy_sys_files matches Some(b) ==> c.deploy_sys_files == b,
        cli.deploy_sys_files is None ==> (file.deploy_sys_files matches Some(b) ==> c.deploy_sys_files == b),
        cli.deploy_sys_files is None && file.deploy_sys_files is None ==> c.deploy_sys_files == true,
        cli.skip_pkg_install matches Some(b) ==> c.skip_pkg_install == b,
        cli.skip_pkg_install is None ==> (file.skip_pkg_install matches Some(b) ==> c.skip_pkg_install == b),
        cli.skip_pkg_install is None && file.skip_pkg_install is None ==> c.skip_pkg_install == false,
        cli.logs_max matches Some(n) ==> c.logs_max == n,
        cli.logs_max is None ==> (file.logs_max matches Some(n) ==> c.logs_max == n),
        cli.logs_max is None && file.logs_max is None ==> c.logs_max == DEFAULT_MAX_LOGS,
        cli.dotfiles_root matches Some(v) ==> c.dotfiles_root@ == v@,
        cli.dotfiles_root is None ==> (file.dotfiles_root matches Some(v) ==> c.dotfiles_root@ == v@),
        cli.dotfiles_root is None && file.dotfiles_root is None ==> c.dotfiles_root@ == host.dotfiles_root@,
        cli.modules_root matches Some(v) ==> c.modules_root@ == v@,
        cli.modules_root is None ==> (file.modules_root matches Some(v) ==> c.modules_root@ == v@),
        cli.modules_root is None && file.modules_root is None ==> c.modules_root@ == path_join(c.dotfiles_root@, "modules"@),
        cli.hosts_root matches Some(v) ==> c.hosts_root@ == v@,
        cli.hosts_root is None ==> (file.hosts_root matches Some(v) ==> c.hosts_root@ == v@),
        cli.hosts_root is None && file.hosts_root is None ==> c.hosts_root@ == path_join(c.dotfiles_root@, "hosts"@),
        cli.hostname matches Some(v) ==> c.hostname@ == v@,
        cli.hostname is None ==> (file.hostname matches Some(v) ==> c.hostname@ == v@),
        cli.hostname is None && file.hostname is None ==> c.hostname@ == host.hostname@,
        cli.distribution matches Some(v) ==> c.distribution@ == v@,
        cli.distribution is None ==> (file.distribution matches Some(v) ==> c.distribution@ == v@),
        cli.distribution is None && file.distribution is None ==> c.distribution@ == host.distribution@,
        cli.sudo_cmd matches Some(v) ==> c.sudo_cmd@ == v@,
        cli.sudo_cmd is None ==> (file.sudo_cmd matches Some(v) ==> c.sudo_cmd@ == v@),
        cli.sudo_cmd is None && file.sudo_cmd is None ==> c.sudo_cmd@ == "sudo"@,
        cli.install_pkg_cmd matches Some(v) ==> opt_list_view(c.install_pkg_cmd) == Some(v.deep_view()),
        cli.install_pkg_cmd is None ==> opt_list_view(c.install_pkg_cmd) == opt_list_view(file.install_pkg_cmd),
        cli.remove_pkg_cmd matches Some(v) ==> opt_list_view(c.remove_pkg_cmd) == Some(v.deep_view()),
        cli.remove_pkg_cmd is None ==> opt_list_view(c.remove_pkg_cmd) == opt_list_view(file.remove_pkg_cmd),
        cli.user_store_path matches Some(v) ==> c.user_store_path@ == v@,
        cli.user_store_path is None ==> (file.user_store_path matches Some(v) ==> c.user_store_path@ == v@),
        cli.user_store_path is None && file.user_store_path is None ==> (host.data_dir matches Some(d) && c.user_store_path@
            == path_join(d@, "dotdeploy"@)),
        cli.logs_dir matches Some(v) ==> c.logs_dir@ == v@,
        cli.logs_dir is None ==> (file.logs_dir matches Some(v) ==> c.logs_dir@ == v@),
        cli.logs_dir is None && file.logs_dir is None ==> (host.logs_dir matches Some(d) && c.logs_dir@ == d@),
        c.config_file@ == config_file,
{
}

impl DotdeployConfigBuilder {
    /// The settings: each value as the command line (`self`) sets it, else as
    /// the configuration file (`file`) sets it, else the default. The roots
    /// of modules and hosts default to `modules` and `hosts` under the
    /// dotfiles root; the store to `dotdeploy` under the data directory.
    pub fn build(&self, file: &DotdeployConfigBuilder, config_file: &str, host: &HostDefaults) -> (r: Result<
        DotdeployConfig,
        ConfigError,
    >)
        ensures
            store_path_of(opt_view(self.user_store_path), opt_view(file.user_store_path), opt_view(host.data_dir)) is None
                ==> r == Err::<DotdeployConfig, ConfigError>(ConfigError::NoDataDir),
            store_path_of(opt_view(self.user_store_path), opt_view(file.user_store_path), opt_view(host.data_dir)) is Some
                && first_of(first_of(opt_view(self.logs_dir), opt_view(file.logs_dir)), opt_view(host.logs_dir)) is None
                ==> r == Err::<DotdeployConfig, ConfigError>(ConfigError::NoLogDir),
            r is Ok <==> (store_path_of(opt_view(self.user_store_path), opt_view(file.user_store_path), opt_view(host.data_dir)) is Some
                && first_of(first_of(opt_view(self.logs_dir), opt_view(file.logs_dir)), opt_view(host.logs_dir)) is Some),
            r matches Ok(c) ==> settings_match(c, *self, *file, config_file@, *host),
    {
        let dotfiles_root = pick_string(&self.dotfiles_root, &file.dotfiles_root, host.dotfiles_root.as_str());
        let modules_root = match &self.modules_root {
            Some(p) => p.clone(),
            None => match &file.modules_root {
                Some(p) => p.clone(),
                None => join(dotfiles_root.as_str(), "modules"),
            },
        };
        let hosts_root = match &self.hosts_root {
            Some(p) => p.clone(),
            None => match &file.hosts_root {
                Some(p) => p.clone(),
                None => join(dotfiles_root.as_str(), "hosts"),
            },
        };
        let user_store_path = match &self.user_store_path {
            Some(p) => p.clone(),
            None => match &file.user_store_path {
                Some(p) => p.clone(),
                None => match &host.data_dir {
                    Some(d) => join(d.as_str(), "dotdeploy"),
                    None => {
                        return Err(ConfigError::NoDataDir);
                    },
                },
            },
        };
        let logs_dir = match &self.logs_dir {
            Some(p) => p.clone(),
            None => match &file.logs_dir {
                Some(p) => p.clone(),
                None => match &host.logs_dir {
                    Some(d) => d.clone(),
                    None => {
                        return Err(ConfigError::NoLogDir);
                    },
                },
            },
        };
        Ok(
            DotdeployConfig {
                dry_run: pick_bool(self.dry_run, file.dry_run, false),
                force: pick_bool(self.force, file.force, false),
                noconfirm: pick_bool(self.noconfirm, file.noconfirm, false),
                config_file: config_file.to_string(),
                dotfiles_root,
                modules_root,
                hosts_root,
                hostname: pick_string(&self.hostname, &file.hostname, host.hostname.as_str()),
                distribution: pick_string(&self.distribution, &file.distribution, host.distribution.as_str()),
                use_sudo: pick_bool(self.use_sudo, file.use_sudo, true),
                sudo_cmd: pick_string(&self.sudo_cmd, &file.sudo_cmd, "sudo"),
                deploy_sys_files: pick_bool(self.deploy_sys_files, file.deploy_sys_files, true),
                install_pkg_cmd: pick_list(&self.install_pkg_cmd, &file.install_pkg_cmd),
                remove_pkg_cmd: pick_list(&self.remove_pkg_cmd, &file.remove_pkg_cmd),
                skip_pkg_install: pick_bool(self.skip_pkg_install, file.skip_pkg_install, false),
                user_store_path,
                logs_dir,
                logs_max: match self.logs_max {
                    Some(m) => m,
                    None => match file.logs_max {
                        Some(m) => m,
                        None => DEFAULT_MAX_LOGS,
                    },
                },
            },
        )
    }
}

/// The value of an `os-release` line `key=value`: without the key (repeated
/// or not), the quotes around it and the whitespace around that.
pub open spec fn field_value(line: Seq<char>, key: Seq<char>) -> Seq<char> {
    trim_spaces(trim_char(trim_leading(line, key), '"'))
}

/// The distribution ID and version that the lines give: the values of the
/// lines starting with `ID=` and with `VERSION_ID=`, each run together.
pub open spec fn os_release_fields(lines: Seq<Seq<char>>) -> (Seq<char>, Seq<char>)
    decreases lines.len(),
{
    if lines.len() == 0 {
        (Seq::empty(), Seq::empty())
    } else {
        let (id, version) = os_release_fields(lines.drop_last());
        let l = lines.last();
        if has_prefix(l, "ID="@) {
            (id + field_value(l, "ID="@), version)
        } else if has_prefix(l, "VERSION_ID="@) {
            (id, version + field_value(l, "VERSION_ID="@))
        } else {
            (id, version)
        }
    }
}

/// The distribution that an `os-release` text names: its ID (`unknown`
/// when there is none), then `:` and its version when one is given.
pub open spec fn distribution_of(content: Seq<char>) -> Seq<char> {
    let (id, version) = os_release_fields(text_lines(content));
    let id = if id.len() == 0 { "unknown"@ } else { id };
    if version.len() > 0 {
        id + ":"@ + version
    } else {
        id
    }
}

/// Reads the distribution from the text of `/etc/os-release`; a host
/// without that file gives the empty text, and so `unknown`.
pub fn distribution_from_os_release(content: &str) -> (d: String)
    ensures
        d@ == distribution_of(content@),
{
    let ls = lines(content);
    let mut id = String::new();
    let mut version = String::new();
    let mut i: usize = 0;
    while i < ls.len()
        invariant
            i <= ls@.len(),
            ls.deep_view() == text_lines(content@),
            (id@, version@) == os_release_fields(ls.deep_view().take(i as int)),
        decreases ls@.len() - i,
    {
        let ghost next = ls.deep_view().take(i as int + 1);
        assert(next.drop_last() =~= ls.deep_view().take(i as int));
        assert(next.last() == ls@[i as int]@);
        let line = ls[i].as_str();
        if starts_with(line, "ID=") {
            let v = trim(trim_matches_char(trim_start_matches(line, "ID=").as_str(), '"').as_str());
            push_str_chars(&mut id, v.as_str());
        } else if starts_with(line, "VERSION_ID=") {
            let v = trim(trim_matches_char(trim_start_matches(line, "VERSION_ID=").as_str(), '"').as_str());
            push_str_chars(&mut version, v.as_str());
        }
        i = i + 1;
    }
    assert(ls.deep_view().take(i as int) =~= ls.deep_view());
    if id.as_str().unicode_len() == 0 {
        push_str_chars(&mut id, "unknown");
    }
    if version.as_str().unicode_len() > 0 {
        push_str_chars(&mut id, ":");
        push_str_chars(&mut id, version.as_str());
    }
    id
}

/// The host name as the system reports it, where it is valid Unicode.
///
/// Trusted: calls `nix::unistd::gethostname` and converts the `OsString` with
/// `into_string`; a failure of either gives `None`. What the system reports
/// is not known here, so nothing is claimed of it.
#[verifier::external_body]
fn system_hostname() -> (r: Option<String>) {
    match nix::unistd::gethostname() {
        Ok(h) => h.into_string().ok(),
        Err(_) => None,
    }
}

/// The host name to use: the one detected, else `unknown`.
pub fn hostname_or_unknown(detected: Option<String>) -> (h: String)
    ensures
        h@ == (match detected {
            Some(d) => d@,
            None => "unknown"@,
        }),
{
    match detected {
        Some(d) => d,
        None => "unknown".to_string(),
    }
}

/// The host's name, `unknown` when the system does not give a usable one.
pub fn get_hostname() -> (h: String) {
    hostname_or_unknown(system_hostname())
}

} // verus!
