//! What a run decides before it works: the modules a command works on, the
//! command used to elevate privileges, and the variables that describe the
//! settings to templates and to the commands that modules run.

use vstd::prelude::*;
use crate::config::DotdeployConfig;
use crate::deployed::StoredModule;
use crate::text::{chars_of, push_str_chars, str_eq, string_from_chars};

verus! {

/// The modules named by the host's own module (`hosts/<hostname>`).
pub open spec fn host_module(hostname: Seq<char>) -> Seq<char> {
    "hosts/"@ + hostname
}

/// The explicitly installed modules among the stored ones, in order.
pub open spec fn manual_modules(stored: Seq<StoredModule>) -> Seq<Seq<char>>
    decreases stored.len(),
{
    if stored.len() == 0 {
        Seq::empty()
    } else if stored.last().reason@ == "manual"@ {
        manual_modules(stored.drop_last()).push(stored.last().name@)
    } else {
        manual_modules(stored.drop_last())
    }
}

/// The modules a command works on: the host's module when asked for, else
/// the modules named, else (where the command may collect them) the
/// explicitly installed ones, else none.
pub fn selected_modules(
    host: bool,
    collect: bool,
    modules: Option<Vec<String>>,
    hostname: &str,
    stored: &Vec<StoredModule>,
) -> (r: Vec<String>)
    ensures
        host ==> r.deep_view() == seq![host_module(hostname@)],
        !host && modules is Some ==> r == modules->Some_0,
        !host && modules is None && collect ==> r.deep_view() == manual_modules(stored@),
        !host && modules is None && !collect ==> r@.len() == 0,
{
    if host {
        let mut name = String::new();
        push_str_chars(&mut name, "hosts/");
        push_str_chars(&mut name, hostname);
        let mut r: Vec<String> = Vec::new();
        r.push(name);
        proof {
            assert(r.deep_view() =~= seq![host_module(hostname@)]);
        }
        r
    } else if let Some(m) = modules {
        m
    } else if collect {
        let mut r: Vec<String> = Vec::new();
        let mut i: usize = 0;
        while i < stored.len()
            invariant
                i <= stored@.len(),
                r.deep_view() == manual_modules(stored@.take(i as int)),
            decreases stored@.len() - i,
        {
            assert(stored@.take(i as int + 1).drop_last() =~= stored@.take(i as int));
            if str_eq(stored[i].reason.as_str(), "manual") {
                let ghost r0 = r.deep_view();
                r.push(stored[i].name.clone());
                assert(r.deep_view() =~= r0.push(stored@[i as int].name@));
            }
            i = i + 1;
        }
        assert(stored@.take(i as int) =~= stored@);
        r
    } else {
        Vec::new()
    }
}

/// The command used to elevate privileges.
#[derive(Debug, Clone, Copy, PartialEq, Eq, Structural)]
pub enum RootCommand {
    Sudo,
    Doas,
}

/// Errors about the settings of a run.
#[derive(Debug, Clone, Copy, PartialEq, Eq, Structural)]
pub enum SessionError {
    /// The elevation command is neither `sudo` nor `doas`.
    UnsupportedRootCommand,
}

/// Only `sudo` and `doas` are supported for elevating privileges.
pub fn root_command(sudo_cmd: &str) -> (r: Result<RootCommand, SessionError>)
    ensures
        sudo_cmd@ == "sudo"@ ==> r == Ok::<RootCommand, SessionError>(RootCommand::Sudo),
        sudo_cmd@ == "doas"@ ==> r == Ok::<RootCommand, SessionError>(RootCommand::Doas),
        sudo_cmd@ != "sudo"@ && sudo_cmd@ != "doas"@ ==> r == Err::<RootCommand, SessionError>(SessionError::UnsupportedRootCommand),
{
    proof {
        reveal_strlit("sudo");
        reveal_strlit("doas");
        assert("sudo"@[0] != "doas"@[0]);
    }
    if str_eq(sudo_cmd, "sudo") {
        Ok(RootCommand::Sudo)
    } else if str_eq(sudo_cmd, "doas") {
        Ok(RootCommand::Doas)
    } else {
        Err(SessionError::UnsupportedRootCommand)
    }
}

/// The first position of `c` in `s`, if any.
pub open spec fn first_index_of(s: Seq<char>, c: char) -> Option<int> {
    if exists|i: int| 0 <= i < s.len() && s[i] == c {
        Some(choose|i: int| 0 <= i < s.len() && s[i] == c && forall|j: int| 0 <= j < i ==> s[j] != c)
    } else {
        None
    }
}

/// `s` split at its first `:` (`str::split_once`).
pub open spec fn split_at_colon(s: Seq<char>) -> Option<(Seq<char>, Seq<char>)> {
    match first_index_of(s, ':') {
        Some(i) => Some((s.take(i), s.skip(i + 1))),
        None => None,
    }
}

/// The name and version of a distribution `name:version`, split at the
/// first `:`; a distribution without version (such as `arch`) is all name,
/// with an empty version.
pub open spec fn distribution_parts(s: Seq<char>) -> (Seq<char>, Seq<char>) {
    match split_at_colon(s) {
        Some(p) => p,
        None => (s, Seq::empty()),
    }
}

/// Splits a distribution into name and version (see [`distribution_parts`]).
pub fn split_distribution(distribution: &str) -> (r: (String, String))
    ensures
        (r.0@, r.1@) == distribution_parts(distribution@),
{
    let cs = chars_of(distribution);
    let mut i: usize = 0;
    while i < cs.len()
        invariant
            cs@ == distribution@,
            i <= cs@.len(),
            forall|j: int| 0 <= j < i ==> cs@[j] != ':',
        decreases cs@.len() - i,
    {
        if cs[i] == ':' {
            let mut name: Vec<char> = Vec::new();
            let mut k: usize = 0;
            while k < i
                invariant
                    k <= i < cs@.len(),
                    name@ == cs@.take(k as int),
                decreases i - k,
            {
                name.push(cs[k]);
                k = k + 1;
                assert(name@ =~= cs@.take(k as int));
            }
            let mut version: Vec<char> = Vec::new();
            let mut k: usize = i + 1;
            while k < cs.len()
                invariant
                    i + 1 <= k <= cs@.len(),
                    version@ == cs@.subrange(i + 1, k as int),
                decreases cs@.len() - k,
            {
                version.push(cs[k]);
                k = k + 1;
                assert(version@ =~= cs@.subrange(i + 1, k as int));
            }
            proof {
                let s = distribution@;
                assert(s[i as int] == ':');
                let w = choose|w: int| 0 <= w < s.len() && s[w] == ':' && forall|j: int| 0 <= j < w ==> s[j] != ':';
                if w < i {
                    assert(cs@[w] != ':');
                } else if w > i {
                    assert(s[i as int] != ':');
                }
                assert(version@ =~= s.skip(i + 1));
            }
            return (string_from_chars(name.as_slice()), string_from_chars(version.as_slice()));
        }
        i = i + 1;
    }
    proof {
        assert(!(exists|j: int| 0 <= j < distribution@.len() && distribution@[j] == ':'));
    }
    (distribution.to_string(), String::new())
}

/// `true` or `false`, as `bool::to_string` writes it.
pub open spec fn bool_text(b: bool) -> Seq<char> {
    if b { "true"@ } else { "false"@ }
}

fn bool_string(b: bool) -> (s: String)
    ensures
        s@ == bool_text(b),
{
    if b {
        "true".to_string()
    } else {
        "false".to_string()
    }
}

fn push_var(vars: &mut Vec<(String, String)>, name: &str, value: String)
    ensures
        final(vars)@.len() == old(vars)@.len() + 1,
        forall|i: int| 0 <= i < old(vars)@.len() ==> #[trigger] final(vars)@[i] == old(vars)@[i],
        final(vars)@.last().0@ == name@,
        final(vars)@.last().1@ == value@,
{
    vars.push((name.to_string(), value));
}

/// The view of a list of variables.
pub open spec fn vars_view(v: Seq<(String, String)>) -> Seq<(Seq<char>, Seq<char>)> {
    v.map_values(|e: (String, String)| (e.0@, e.1@))
}

/// The variables that describe the settings, in order, given the
/// distribution's name and version.
pub open spec fn environment_spec(c: DotdeployConfig, name: Seq<char>, version: Seq<char>) -> Seq<(Seq<char>, Seq<char>)> {
    seq![
        ("DOD_DRY_RUN"@, bool_text(c.dry_run)),
        ("DOD_FORCE"@, bool_text(c.force)),
        ("DOD_YES"@, bool_text(c.noconfirm)),
        ("DOD_DOTFILES_ROOT"@, c.dotfiles_root@),
        ("DOD_MODULES_ROOT"@, c.modules_root@),
        ("DOD_HOSTS_ROOT"@, c.hosts_root@),
        ("DOD_HOSTNAME"@, c.hostname@),
        ("DOD_DISTRIBUTION"@, c.distribution@),
        ("DOD_DISTRIBUTION_NAME"@, name),
        ("DOD_DISTRIBUTION_VERSION"@, version),
        ("DOD_USE_SUDO"@, bool_text(c.use_sudo)),
        ("DOD_DEPLOY_SYS_FILES"@, bool_text(c.deploy_sys_files)),
        ("DOD_USER_STORE"@, c.user_store_path@),
    ]
}

/// The environment variables that describe the settings to the commands
/// that modules run.
pub fn environment(config: &DotdeployConfig) -> (vars: Vec<(String, String)>)
    ensures
        vars_view(vars@) == environment_spec(
            *config,
            distribution_parts(config.distribution@).0,
            distribution_parts(config.distribution@).1,
        ),
{
    let (name, version) = split_distribution(config.distribution.as_str());
    let mut vars: Vec<(String, String)> = Vec::new();
    push_var(&mut vars, "DOD_DRY_RUN", bool_string(config.dry_run));
    push_var(&mut vars, "DOD_FORCE", bool_string(config.force));
    push_var(&mut vars, "DOD_YES", bool_string(config.noconfirm));
    push_var(&mut vars, "DOD_DOTFILES_ROOT", config.dotfiles_root.clone());
    push_var(&mut vars, "DOD_MODULES_ROOT", config.modules_root.clone());
    push_var(&mut vars, "DOD_HOSTS_ROOT", config.hosts_root.clone());
    push_var(&mut vars, "DOD_HOSTNAME", config.hostname.clone());
    push_var(&mut vars, "DOD_DISTRIBUTION", config.distribution.clone());
    push_var(&mut vars, "DOD_DISTRIBUTION_NAME", name);
    push_var(&mut vars, "DOD_DISTRIBUTION_VERSION", version);
    push_var(&mut vars, "DOD_USE_SUDO", bool_string(config.use_sudo));
    push_var(&mut vars, "DOD_DEPLOY_SYS_FILES", bool_string(config.deploy_sys_files));
    push_var(&mut vars, "DOD_USER_STORE", config.user_store_path.clone());
    proof {
        let (n, v) = distribution_parts(config.distribution@);
        assert(vars_view(vars@) =~= environment_spec(*config, n, v));
    }
    vars
}

/// The template variables that describe the settings, in order, given the
/// distribution's name and version.
pub open spec fn context_spec(c: DotdeployConfig, name: Seq<char>, version: Seq<char>) -> Seq<(Seq<char>, Seq<char>)> {
    seq![
        ("DOD_DOTFILES_ROOT"@, c.dotfiles_root@),
        ("DOD_MODULES_ROOT"@, c.modules_root@),
        ("DOD_HOSTS_ROOT"@, c.hosts_root@),
        ("DOD_HOSTNAME"@, c.hostname@),
        ("DOD_DISTRIBUTION"@, c.distribution@),
        ("DOD_DISTRIBUTION_NAME"@, name),
        ("DOD_DISTRIBUTION_VERSION"@, version),
        ("DOD_USE_SUDO"@, bool_text(c.use_sudo)),
        ("DOD_DEPLOY_SYS_FILES"@, bool_text(c.deploy_sys_files)),
        ("DOD_USER_STORE"@, c.user_store_path@),
    ]
}

/// The variables that templates see.
pub fn setup_context(config: &DotdeployConfig) -> (vars: Vec<(String, String)>)
    ensures
        vars_view(vars@) == context_spec(
            *config,
            distribution_parts(config.distribution@).0,
            distribution_parts(config.distribution@).1,
        ),
{
    let (name, version) = split_distribution(config.distribution.as_str());
    let mut vars: Vec<(String, String)> = Vec::new();
    push_var(&mut vars, "DOD_DOTFILES_ROOT", config.dotfiles_root.clone());
    push_var(&mut vars, "DOD_MODULES_ROOT", config.modules_root.clone());
    push_var(&mut vars, "DOD_HOSTS_ROOT", config.hosts_root.clone());
    push_var(&mut vars, "DOD_HOSTNAME", config.hostname.clone());
    push_var(&mut vars, "DOD_DISTRIBUTION", config.distribution.clone());
    push_var(&mut vars, "DOD_DISTRIBUTION_NAME", name);
    push_var(&mut vars, "DOD_DISTRIBUTION_VERSION", version);
    push_var(&mut vars, "DOD_USE_SUDO", bool_string(config.use_sudo));
    push_var(&mut vars, "DOD_DEPLOY_SYS_FILES", bool_string(config.deploy_sys_files));
    push_var(&mut vars, "DOD_USER_STORE", config.user_store_path.clone());
    proof {
        let (n, v) = distribution_parts(config.distribution@);
        assert(vars_view(vars@) =~= context_spec(*config, n, v));
    }
    vars
}

} // verus!
