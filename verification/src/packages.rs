//! Package commands: the defaults per distribution, how a command is run
//! with the packages, and which recorded packages a sync drops.

use vstd::prelude::*;
use vstd::string::StrSliceExecFns;
use crate::text::{contains_str, str_eq};

verus! {

/// A distribution and the command that goes with it.
pub type DistroCommands = Vec<(String, Vec<String>)>;

/// The default installation commands, per distribution.
pub open spec fn default_install_cmds() -> Seq<(Seq<char>, Seq<Seq<char>>)> {
    seq![
        ("gentoo"@, seq!["sudo"@, "emerge"@, "--verbose"@, "--changed-use"@, "--deep"@]),
        ("ubuntu"@, seq!["sudo"@, "DEBIAN_FRONTEND=noninteractive"@, "apt-get"@, "install"@, "-q"@, "-y"@]),
    ]
}

/// The default removal commands, per distribution.
pub open spec fn default_remove_cmds() -> Seq<(Seq<char>, Seq<Seq<char>>)> {
    seq![
        ("gentoo"@, seq!["sudo"@, "emerge"@, "--deselect"@]),
        ("ubuntu"@, seq!["sudo"@, "apt-get"@, "autoremove"@, "--purge"@]),
    ]
}

/// The view of a list of distributions with their commands.
pub open spec fn commands_view(v: Seq<(String, Vec<String>)>) -> Seq<(Seq<char>, Seq<Seq<char>>)> {
    v.map_values(|e: (String, Vec<String>)| (e.0@, e.1.deep_view()))
}

fn push_word(v: &mut Vec<String>, w: &str)
    ensures
        final(v).deep_view() == old(v).deep_view().push(w@),
{
    let ghost before = v.deep_view();
    v.push(w.to_string());
    assert(v.deep_view() =~= before.push(w@));
}

/// Errors about package commands.
#[derive(Debug, Clone, Copy, PartialEq, Eq, Structural)]
pub enum PackageError {
    /// Recorded packages may have to be removed, but no removal command is set.
    RemoveCommandUndefined,
    /// Packages are to be installed, but no installation command is set.
    InstallCommandUndefined,
}

/// The default installation and removal commands of the supported
/// distributions (Gentoo and Ubuntu). It does not fail.
pub fn default_cmds() -> (r: Result<(DistroCommands, DistroCommands), PackageError>)
    ensures
        r matches Ok((install, remove)) && commands_view(install@) == default_install_cmds() && commands_view(remove@)
            == default_remove_cmds(),
{
    let mut gentoo_install: Vec<String> = Vec::new();
    push_word(&mut gentoo_install, "sudo");
    push_word(&mut gentoo_install, "emerge");
    push_word(&mut gentoo_install, "--verbose");
    push_word(&mut gentoo_install, "--changed-use");
    push_word(&mut gentoo_install, "--deep");
    let mut ubuntu_install: Vec<String> = Vec::new();
    push_word(&mut ubuntu_install, "sudo");
    push_word(&mut ubuntu_install, "DEBIAN_FRONTEND=noninteractive");
    push_word(&mut ubuntu_install, "apt-get");
    push_word(&mut ubuntu_install, "install");
    push_word(&mut ubuntu_install, "-q");
    push_word(&mut ubuntu_install, "-y");
    let mut gentoo_remove: Vec<String> = Vec::new();
    push_word(&mut gentoo_remove, "sudo");
    push_word(&mut gentoo_remove, "emerge");
    push_word(&mut gentoo_remove, "--deselect");
    let mut ubuntu_remove: Vec<String> = Vec::new();
    push_word(&mut ubuntu_remove, "sudo");
    push_word(&mut ubuntu_remove, "apt-get");
    push_word(&mut ubuntu_remove, "autoremove");
    push_word(&mut ubuntu_remove, "--purge");
    assert(gentoo_install.deep_view() =~= seq!["sudo"@, "emerge"@, "--verbose"@, "--changed-use"@, "--deep"@]);
    assert(ubuntu_install.deep_view() =~= seq!["sudo"@, "DEBIAN_FRONTEND=noninteractive"@, "apt-get"@, "install"@, "-q"@, "-y"@]);
    assert(gentoo_remove.deep_view() =~= seq!["sudo"@, "emerge"@, "--deselect"@]);
    assert(ubuntu_remove.deep_view() =~= seq!["sudo"@, "apt-get"@, "autoremove"@, "--purge"@]);
    let mut install: Vec<(String, Vec<String>)> = Vec::new();
    install.push(("gentoo".to_string(), gentoo_install));
    install.push(("ubuntu".to_string(), ubuntu_install));
    let mut remove: Vec<(String, Vec<String>)> = Vec::new();
    remove.push(("gentoo".to_string(), gentoo_remove));
    remove.push(("ubuntu".to_string(), ubuntu_remove));
    proof {
        assert(commands_view(install@) =~= default_install_cmds());
        assert(commands_view(remove@) =~= default_remove_cmds());
    }
    Ok((install, remove))
}

/// How a package command is run with its packages.
#[derive(Debug)]
pub struct PackageInvocation {
    /// Run through the privilege manager.
    pub elevated: bool,
    /// The program to run.
    pub program: String,
    /// Its arguments: the rest of the command, then the packages.
    pub args: Vec<String>,
}

/// A command that starts with the elevation command runs its second word
/// elevated; any other runs its first word as it is. Either way the rest of
/// the command and then the packages are the arguments.
pub fn package_invocation(command: &Vec<String>, packages: &Vec<String>, root_cmd: &str) -> (r: PackageInvocation)
    requires
        command@.len() >= 1,
        command@[0]@ == root_cmd@ ==> command@.len() >= 2,
    ensures
        r.elevated == (command@[0]@ == root_cmd@),
        r.elevated ==> r.program@ == command@[1]@ && r.args.deep_view() == command.deep_view().skip(2)
            + packages.deep_view(),
        !r.elevated ==> r.program@ == command@[0]@ && r.args.deep_view() == command.deep_view().skip(1)
            + packages.deep_view(),
{
    let elevated = str_eq(command[0].as_str(), root_cmd);
    let first: usize = if elevated { 2 } else { 1 };
    let program = command[first - 1].clone();
    let mut args: Vec<String> = Vec::new();
    let mut i: usize = first;
    while i < command.len()
        invariant
            first <= i <= command@.len(),
            args.deep_view() == command.deep_view().subrange(first as int, i as int),
        decreases command@.len() - i,
    {
        let ghost a0 = args.deep_view();
        args.push(command[i].clone());
        assert(args.deep_view() =~= a0.push(command@[i as int]@));
        i = i + 1;
        assert(args.deep_view() =~= command.deep_view().subrange(first as int, i as int));
    }
    let ghost base = args.deep_view();
    let mut k: usize = 0;
    while k < packages.len()
        invariant
            k <= packages@.len(),
            args.deep_view() == base + packages.deep_view().take(k as int),
        decreases packages@.len() - k,
    {
        let ghost a0 = args.deep_view();
        args.push(packages[k].clone());
        assert(args.deep_view() =~= a0.push(packages@[k as int]@));
        k = k + 1;
        assert(args.deep_view() =~= base + packages.deep_view().take(k as int));
    }
    assert(packages.deep_view().take(k as int) =~= packages.deep_view());
    assert(command.deep_view().subrange(first as int, command@.len() as int) =~= command.deep_view().skip(first as int));
    PackageInvocation { elevated, program, args }
}

/// What a sync does with a module's recorded packages.
#[derive(Debug)]
pub struct PackageChanges {
    /// Recorded packages that the configuration no longer lists: dropped
    /// from the record, each once.
    pub dropped: Vec<String>,
    /// Those of them that are uninstalled.
    pub uninstall: Vec<String>,
}

/// Which recorded packages of `module_name` a sync drops, and which of those
/// it uninstalls: all non-empty ones, unless the module's name is among the
/// packages recorded for other modules.
pub fn package_changes(recorded: &Vec<String>, configured: &Vec<String>, others: &Vec<String>, module_name: &str) -> (r:
    PackageChanges)
    ensures
        r.dropped.deep_view().no_duplicates(),
        forall|p: Seq<char>| #[trigger] r.dropped.deep_view().contains(p) <==> (recorded.deep_view().contains(p)
            && !configured.deep_view().contains(p)),
        others.deep_view().contains(module_name@) ==> r.uninstall@.len() == 0,
        !others.deep_view().contains(module_name@) ==> forall|p: Seq<char>| #[trigger] r.uninstall.deep_view().contains(p)
            <==> (r.dropped.deep_view().contains(p) && p.len() > 0),
        r.uninstall.deep_view().no_duplicates(),
{
    let mut dropped: Vec<String> = Vec::new();
    let mut i: usize = 0;
    while i < recorded.len()
        invariant
            i <= recorded@.len(),
            dropped.deep_view().no_duplicates(),
            forall|p: Seq<char>| #[trigger] dropped.deep_view().contains(p) <==> (recorded.deep_view().take(i as int).contains(p)
                && !configured.deep_view().contains(p)),
        decreases recorded@.len() - i,
    {
        let ghost d0 = dropped.deep_view();
        let ghost x = recorded@[i as int]@;
        assert(recorded.deep_view().take(i as int + 1) =~= recorded.deep_view().take(i as int).push(x));
        if !contains_str(configured, recorded[i].as_str()) && !contains_str(&dropped, recorded[i].as_str()) {
            dropped.push(recorded[i].clone());
            assert(dropped.deep_view() =~= d0.push(x));
        }
        proof {
            let pre = recorded.deep_view().take(i as int);
            assert forall|p: Seq<char>| #[trigger] dropped.deep_view().contains(p) <==> (pre.push(x).contains(p)
                && !configured.deep_view().contains(p)) by {
                assert(pre.push(x)[i as int] == x);
                assert(pre.push(x).contains(p) <==> (pre.contains(p) || p == x)) by {
                    if pre.push(x).contains(p) && p != x {
                        let k = choose|k: int| 0 <= k < pre.push(x).len() && pre.push(x)[k] == p;
                        assert(pre[k] == p);
                    }
                    if pre.contains(p) {
                        let k = choose|k: int| 0 <= k < pre.len() && pre[k] == p;
                        assert(pre.push(x)[k] == p);
                    }
                }
                assert(dropped.deep_view().contains(p) <==> (d0.contains(p) || (dropped.deep_view().len() > d0.len() && p == x))) by {
                    if dropped.deep_view().len() > d0.len() {
                        assert(dropped.deep_view() =~= d0.push(x));
                        if d0.contains(p) {
                            let k = choose|k: int| 0 <= k < d0.len() && d0[k] == p;
                            assert(dropped.deep_view()[k] == p);
                        }
                        if dropped.deep_view().contains(p) && p != x {
                            let k = choose|k: int| 0 <= k < dropped.deep_view().len() && dropped.deep_view()[k] == p;
                            assert(d0[k] == p);
                        }
                        assert(dropped.deep_view()[d0.len() as int] == x);
                    }
                }
            }
        }
        i = i + 1;
    }
    assert(recorded.deep_view().take(i as int) =~= recorded.deep_view());
    let mut uninstall: Vec<String> = Vec::new();
    if !contains_str(others, module_name) {
        let mut k: usize = 0;
        while k < dropped.len()
            invariant
                k <= dropped@.len(),
                dropped.deep_view().no_duplicates(),
                uninstall@.len() <= k,
                forall|m: int| 0 <= m < uninstall@.len() ==> dropped.deep_view().contains(#[trigger] uninstall@[m]@)
                    && uninstall@[m]@.len() > 0,
                forall|j: int| 0 <= j < k && dropped@[j]@.len() > 0 ==> uninstall.deep_view().contains(#[trigger] dropped@[j]@),
                uninstall.deep_view().no_duplicates(),
                forall|m: int, j: int| #![trigger uninstall@[m], dropped@[j]] 0 <= m < uninstall@.len() && k <= j < dropped@.len() ==> uninstall@[m]@ != dropped@[j]@,
            decreases dropped@.len() - k,
        {
            let ghost u0 = uninstall.deep_view();
            if dropped[k].as_str().unicode_len() > 0 {
                uninstall.push(dropped[k].clone());
                proof {
                    assert(uninstall.deep_view() =~= u0.push(dropped@[k as int]@));
                    assert(dropped.deep_view()[k as int] == dropped@[k as int]@);
                    assert forall|j: int| 0 <= j < k + 1 && dropped@[j]@.len() > 0 implies uninstall.deep_view().contains(#[trigger] dropped@[j]@) by {
                        if j < k {
                            let m = choose|m: int| 0 <= m < u0.len() && u0[m] == dropped@[j]@;
                            assert(uninstall.deep_view()[m] == dropped@[j]@);
                        } else {
                            assert(uninstall.deep_view()[u0.len() as int] == dropped@[j]@);
                        }
                    }
                    assert forall|m: int, j: int| #![trigger uninstall@[m], dropped@[j]] 0 <= m < uninstall@.len() && k + 1 <= j < dropped@.len() implies uninstall@[m]@ != dropped@[j]@ by {
                        if m == u0.len() {
                            assert(dropped.deep_view()[k as int] != dropped.deep_view()[j]);
                        }
                    }
                    assert forall|a: int, b: int| 0 <= a < uninstall.deep_view().len() && 0 <= b < uninstall.deep_view().len() && a != b
                        implies uninstall.deep_view()[a] != uninstall.deep_view()[b] by {
                        if a == u0.len() {
                            assert(uninstall@[b]@ != dropped@[k as int]@);
                        } else if b == u0.len() {
                            assert(uninstall@[a]@ != dropped@[k as int]@);
                        }
                    }
                }
            }
            k = k + 1;
        }
        proof {
            assert forall|p: Seq<char>| #[trigger] uninstall.deep_view().contains(p) <==> (dropped.deep_view().contains(p) && p.len() > 0) by {
                if uninstall.deep_view().contains(p) {
                    let m = choose|m: int| 0 <= m < uninstall.deep_view().len() && uninstall.deep_view()[m] == p;
                    assert(uninstall@[m]@ == p);
                }
                if dropped.deep_view().contains(p) && p.len() > 0 {
                    let j = choose|j: int| 0 <= j < dropped.deep_view().len() && dropped.deep_view()[j] == p;
                    assert(dropped@[j]@ == p);
                }
            }
        }
    }
    PackageChanges { dropped, uninstall }
}

/// A sync with packages refuses to go on when packages recorded for modules
/// that now install none may need removal but no removal command is set,
/// or when packages are to be installed but no installation command is set.
pub fn check_package_commands(recorded_for_empty: usize, to_install: usize, has_remove_cmd: bool, has_install_cmd: bool) -> (r: Result<(), PackageError>)
    ensures
        recorded_for_empty > 0 && !has_remove_cmd ==> r == Err::<(), PackageError>(PackageError::RemoveCommandUndefined),
        !(recorded_for_empty > 0 && !has_remove_cmd) && to_install > 0 && !has_install_cmd ==> r == Err::<(), PackageError>(
            PackageError::InstallCommandUndefined,
        ),
        !(recorded_for_empty > 0 && !has_remove_cmd) && !(to_install > 0 && !has_install_cmd) ==> r is Ok,
{
    if recorded_for_empty > 0 && !has_remove_cmd {
        Err(PackageError::RemoveCommandUndefined)
    } else if to_install > 0 && !has_install_cmd {
        Err(PackageError::InstallCommandUndefined)
    } else {
        Ok(())
    }
}

} // verus!
