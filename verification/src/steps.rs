//! The order in which a deployment or sync runs its steps, and the checks
//! that stop it, or ask first, before anything is deployed.

use vstd::prelude::*;
use vstd::string::StrSliceExecFns;
use crate::cli::{lowercase, to_lowercase, SyncSelection};
use crate::text::{has_prefix, starts_with};

verus! {

/// A step of a deployment or sync, in the order in which they run: the
/// setup phase (tasks before, files, tasks after), the packages, the config
/// phase likewise, then the generated files.
#[derive(Clone, Copy, Debug, PartialEq, Eq, Structural)]
pub enum SyncStep {
    SetupPre,
    SetupFiles,
    SetupPost,
    Packages,
    ConfigPre,
    ConfigFiles,
    ConfigPost,
    Regenerate,
    Done,
}

/// The position of a step in the order.
pub open spec fn step_rank(s: SyncStep) -> nat {
    match s {
        SyncStep::SetupPre => 0,
        SyncStep::SetupFiles => 1,
        SyncStep::SetupPost => 2,
        SyncStep::Packages => 3,
        SyncStep::ConfigPre => 4,
        SyncStep::ConfigFiles => 5,
        SyncStep::ConfigPost => 6,
        SyncStep::Regenerate => 7,
        SyncStep::Done => 8,
    }
}

/// The step at a position (`Done` past the last).
pub open spec fn step_at(r: nat) -> SyncStep {
    if r == 0 {
        SyncStep::SetupPre
    } else if r == 1 {
        SyncStep::SetupFiles
    } else if r == 2 {
        SyncStep::SetupPost
    } else if r == 3 {
        SyncStep::Packages
    } else if r == 4 {
        SyncStep::ConfigPre
    } else if r == 5 {
        SyncStep::ConfigFiles
    } else if r == 6 {
        SyncStep::ConfigPost
    } else if r == 7 {
        SyncStep::Regenerate
    } else {
        SyncStep::Done
    }
}

/// Whether a step runs for the parts requested: the tasks' steps when tasks
/// are, the files' steps when files are, the packages' step when packages
/// are; the generated files always.
pub open spec fn step_runs(s: SyncStep, files: bool, tasks: bool, packages: bool) -> bool {
    match s {
        SyncStep::SetupPre | SyncStep::SetupPost | SyncStep::ConfigPre | SyncStep::ConfigPost => tasks,
        SyncStep::SetupFiles | SyncStep::ConfigFiles => files,
        SyncStep::Packages => packages,
        SyncStep::Regenerate | SyncStep::Done => true,
    }
}

/// The first step at position `r` or later that runs.
pub open spec fn next_from(r: nat, files: bool, tasks: bool, packages: bool) -> SyncStep
    decreases 8 - r,
{
    if r >= 8 {
        SyncStep::Done
    } else if step_runs(step_at(r), files, tasks, packages) {
        step_at(r)
    } else {
        next_from(r + 1, files, tasks, packages)
    }
}

/// The step that runs after `s`.
pub open spec fn sync_successor(s: SyncStep, files: bool, tasks: bool, packages: bool) -> SyncStep {
    if s is Done {
        SyncStep::Done
    } else {
        next_from(step_rank(s) + 1, files, tasks, packages)
    }
}

fn step_at_exec(r: u8) -> (s: SyncStep)
    ensures
        s == step_at(r as nat),
{
    if r == 0 {
        SyncStep::SetupPre
    } else if r == 1 {
        SyncStep::SetupFiles
    } else if r == 2 {
        SyncStep::SetupPost
    } else if r == 3 {
        SyncStep::Packages
    } else if r == 4 {
        SyncStep::ConfigPre
    } else if r == 5 {
        SyncStep::ConfigFiles
    } else if r == 6 {
        SyncStep::ConfigPost
    } else if r == 7 {
        SyncStep::Regenerate
    } else {
        SyncStep::Done
    }
}

fn step_rank_exec(s: SyncStep) -> (r: u8)
    ensures
        r == step_rank(s),
{
    match s {
        SyncStep::SetupPre => 0,
        SyncStep::SetupFiles => 1,
        SyncStep::SetupPost => 2,
        SyncStep::Packages => 3,
        SyncStep::ConfigPre => 4,
        SyncStep::ConfigFiles => 5,
        SyncStep::ConfigPost => 6,
        SyncStep::Regenerate => 7,
        SyncStep::Done => 8,
    }
}

fn step_runs_exec(s: SyncStep, files: bool, tasks: bool, packages: bool) -> (b: bool)
    ensures
        b == step_runs(s, files, tasks, packages),
{
    match s {
        SyncStep::SetupPre | SyncStep::SetupPost | SyncStep::ConfigPre | SyncStep::ConfigPost => tasks,
        SyncStep::SetupFiles | SyncStep::ConfigFiles => files,
        SyncStep::Packages => packages,
        SyncStep::Regenerate | SyncStep::Done => true,
    }
}

fn next_from_exec(r: u8, files: bool, tasks: bool, packages: bool) -> (s: SyncStep)
    requires
        r <= 8,
    ensures
        s == next_from(r as nat, files, tasks, packages),
    decreases 8 - r,
{
    if r >= 8 {
        SyncStep::Done
    } else {
        let s = step_at_exec(r);
        if step_runs_exec(s, files, tasks, packages) {
            s
        } else {
            next_from_exec(r + 1, files, tasks, packages)
        }
    }
}

/// The first step of a deployment or sync of the selected parts; the
/// packages' step only when packages are selected and installing them is
/// not switched off.
pub fn first_sync_step(selection: &SyncSelection, skip_pkg_install: bool) -> (s: SyncStep)
    ensures
        s == next_from(0, selection.files, selection.tasks, selection.packages && !skip_pkg_install),
{
    next_from_exec(0, selection.files, selection.tasks, selection.packages && !skip_pkg_install)
}

/// The step after `step` (see [`first_sync_step`]).
pub fn next_sync_step(step: SyncStep, selection: &SyncSelection, skip_pkg_install: bool) -> (n: SyncStep)
    ensures
        n == sync_successor(step, selection.files, selection.tasks, selection.packages && !skip_pkg_install),
{
    match step {
        SyncStep::Done => SyncStep::Done,
        _ => next_from_exec(step_rank_exec(step) + 1, selection.files, selection.tasks, selection.packages && !skip_pkg_install),
    }
}

proof fn lemma_next_from(r: nat, files: bool, tasks: bool, packages: bool)
    requires
        r <= 8,
    ensures
        step_rank(next_from(r, files, tasks, packages)) >= r,
        step_runs(next_from(r, files, tasks, packages), files, tasks, packages),
        forall|t: SyncStep|
            r <= step_rank(t) < step_rank(next_from(r, files, tasks, packages)) ==> !#[trigger] step_runs(t, files, tasks, packages),
    decreases 8 - r,
{
    if r < 8 {
        assert(step_rank(step_at(r)) == r);
        lemma_next_from(r + 1, files, tasks, packages);
        assert forall|t: SyncStep| r <= step_rank(t) < step_rank(next_from(r, files, tasks, packages)) implies !#[trigger] step_runs(
            t,
            files,
            tasks,
            packages,
        ) by {
            if step_rank(t) == r {
                match t {
                    SyncStep::SetupPre => {},
                    SyncStep::SetupFiles => {},
                    SyncStep::SetupPost => {},
                    SyncStep::Packages => {},
                    SyncStep::ConfigPre => {},
                    SyncStep::ConfigFiles => {},
                    SyncStep::ConfigPost => {},
                    SyncStep::Regenerate => {},
                    SyncStep::Done => {},
                }
                assert(t == step_at(r));
            }
        }
    }
}

/// The steps run in their order, each one that runs for the parts
/// requested, and none other: the step after `s` comes later in the order,
/// runs itself, and every step between the two does not run. So the tasks
/// before a phase's files run first, then the files, then the tasks after
/// them; the packages come after the setup phase and before the config
/// phase.
pub proof fn lemma_sync_order(s: SyncStep, files: bool, tasks: bool, packages: bool)
    requires
        !(s is Done),
    ensures
        step_rank(sync_successor(s, files, tasks, packages)) > step_rank(s),
        step_runs(sync_successor(s, files, tasks, packages), files, tasks, packages),
        forall|t: SyncStep|
            step_rank(s) < step_rank(t) < step_rank(sync_successor(s, files, tasks, packages)) ==> !#[trigger] step_runs(
                t,
                files,
                tasks,
                packages,
            ),
{
    lemma_next_from(step_rank(s) + 1, files, tasks, packages);
}

/// The first step is the first one in the order that runs.
pub proof fn lemma_first_step(files: bool, tasks: bool, packages: bool)
    ensures
        step_runs(next_from(0, files, tasks, packages), files, tasks, packages),
        forall|t: SyncStep| step_rank(t) < step_rank(next_from(0, files, tasks, packages)) ==> !#[trigger] step_runs(t, files, tasks, packages),
{
    lemma_next_from(0, files, tasks, packages);
}

/// What a check before deploying decides.
#[derive(Clone, Copy, Debug, PartialEq, Eq, Structural)]
pub enum GateDecision {
    /// Go on.
    Proceed,
    /// Ask the user first; go on only on a yes.
    Ask,
    /// Stop.
    Abort,
}

/// A sync of modules that are not deployed yet stops; a deployment goes on
/// (and records them).
pub fn deployed_gate(deploying: bool, undeployed: usize) -> (d: GateDecision)
    ensures
        d == (if !deploying && undeployed > 0 {
            GateDecision::Abort
        } else {
            GateDecision::Proceed
        }),
{
    if !deploying && undeployed > 0 {
        GateDecision::Abort
    } else {
        GateDecision::Proceed
    }
}

/// What to do with automatically installed modules that nothing needs any
/// more.
#[derive(Clone, Copy, Debug, PartialEq, Eq, Structural)]
pub enum ObsoleteDecision {
    /// There are none.
    Nothing,
    /// Remove them without asking.
    Remove,
    /// Ask; remove them on a yes, keep them otherwise.
    Ask,
}

/// Obsolete modules are removed without asking under `force` or
/// `noconfirm`; otherwise the user is asked.
pub fn obsolete_gate(obsolete: usize, force: bool, noconfirm: bool) -> (d: ObsoleteDecision)
    ensures
        d == (if obsolete == 0 {
            ObsoleteDecision::Nothing
        } else if force || noconfirm {
            ObsoleteDecision::Remove
        } else {
            ObsoleteDecision::Ask
        }),
{
    if obsolete == 0 {
        ObsoleteDecision::Nothing
    } else if force || noconfirm {
        ObsoleteDecision::Remove
    } else {
        ObsoleteDecision::Ask
    }
}

/// Files changed outside of the tool, when files are synced, are
/// overwritten under `force`; otherwise the user is asked, and a no stops
/// the run.
pub fn diverged_gate(files_selected: bool, diverged: usize, force: bool) -> (d: GateDecision)
    ensures
        d == (if files_selected && diverged > 0 && !force {
            GateDecision::Ask
        } else {
            GateDecision::Proceed
        }),
{
    if files_selected && diverged > 0 && !force {
        GateDecision::Ask
    } else {
        GateDecision::Proceed
    }
}

/// A line read from the terminal without its line break (`\n` or `\r\n`).
pub open spec fn without_line_break(line: Seq<char>) -> Seq<char> {
    if line.len() > 0 && line.last() == '\n' {
        let l = line.drop_last();
        if l.len() > 0 && l.last() == '\r' {
            l.drop_last()
        } else {
            l
        }
    } else {
        line
    }
}

/// What an answer to a yes/no question means: yes when it starts with `y`
/// once lower-cased, no when it starts with `n` or is empty once its line
/// break is dropped (pressing Enter, the default), and `None` for anything
/// else, which is asked again.
pub open spec fn yes_no(line: Seq<char>) -> Option<bool> {
    if has_prefix(lowercase(line), "y"@) {
        Some(true)
    } else if has_prefix(lowercase(line), "n"@) || without_line_break(line).len() == 0 {
        Some(false)
    } else {
        None
    }
}

fn is_blank_line(line: &str) -> (b: bool)
    ensures
        b == (without_line_break(line@).len() == 0),
{
    let n = line.unicode_len();
    if n == 0 {
        true
    } else if line.get_char(n - 1) != '\n' {
        false
    } else if n == 1 {
        true
    } else {
        n == 2 && line.get_char(0) == '\r'
    }
}

/// Reads an answer to a yes/no question (see [`yes_no`]).
pub fn yes_no_answer(line: &str) -> (a: Option<bool>)
    ensures
        a == yes_no(line@),
{
    let lower = to_lowercase(line);
    if starts_with(lower.as_str(), "y") {
        Some(true)
    } else if starts_with(lower.as_str(), "n") || is_blank_line(line) {
        Some(false)
    } else {
        None
    }
}

} // verus!
