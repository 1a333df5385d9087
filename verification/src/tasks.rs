//! Tasks as deployment phases run them: each command with its hook, the
//! commands a phase runs before or after its files, what is shown while
//! they run, and how each command is started.

use vstd::prelude::*;
use crate::module::{DeployPhase, ModuleTask, TaskDefinition};
use crate::text::{chars_of, push_str_chars, str_eq, string_from_chars};

verus! {

/// Whether a command runs before or after a phase's files.
#[derive(Debug, Clone, Copy, PartialEq, Eq, Structural)]
pub enum PhaseHook {
    Pre,
    Post,
}

/// Commands run after a phase's files unless stated otherwise.
impl Default for PhaseHook {
    fn default() -> (h: PhaseHook)
        ensures
            h == PhaseHook::Post,
    {
        PhaseHook::Post
    }
}

/// One command of a task, ready to run.
#[derive(Debug)]
pub struct PhaseTaskDefinition {
    pub description: Option<String>,
    pub shell: Option<String>,
    pub executable: Option<String>,
    pub args: Option<Vec<String>>,
    pub expand_args: bool,
    pub sudo: bool,
    pub hook: PhaseHook,
}

/// A module's task with its commands per phase.
#[derive(Debug)]
pub struct PhaseTask {
    pub module_name: String,
    pub setup: Vec<PhaseTaskDefinition>,
    pub config: Vec<PhaseTaskDefinition>,
    pub update: Vec<PhaseTaskDefinition>,
    pub remove: Vec<PhaseTaskDefinition>,
    pub description: Option<String>,
}

/// Why a command cannot become a phase command.
#[derive(Debug, Clone, Copy, PartialEq, Eq, Structural)]
pub enum TaskError {
    /// The command has no `expand_args` setting.
    ExpandArgsMissing,
    /// The command has no `sudo` setting.
    SudoMissing,
}

/// The hook a command names: `pre` or `post`.
pub open spec fn hook_named(h: Seq<char>) -> PhaseHook {
    if h == "pre"@ {
        PhaseHook::Pre
    } else {
        PhaseHook::Post
    }
}

/// A hook name is `pre` or `post`.
pub open spec fn valid_hook(h: Option<String>) -> bool {
    h matches Some(s) && (s@ == "pre"@ || s@ == "post"@)
}

/// The phase command a module's command becomes, given its executable with
/// variables expanded; commands without `expand_args` or `sudo` are refused,
/// in that order.
pub open spec fn phase_definition_spec(t: TaskDefinition, expanded_executable: Option<String>) -> Result<
    PhaseTaskDefinition,
    TaskError,
> {
    match (t.expand_args, t.sudo) {
        (None, _) => Err(TaskError::ExpandArgsMissing),
        (Some(_), None) => Err(TaskError::SudoMissing),
        (Some(e), Some(s)) => Ok(
            PhaseTaskDefinition {
                description: t.description,
                shell: t.shell,
                executable: expanded_executable,
                args: t.args,
                expand_args: e,
                sudo: s,
                hook: hook_named(t.hook->Some_0@),
            },
        ),
    }
}

/// Turns a module's command into a phase command (see
/// [`phase_definition_spec`]).
pub fn phase_definition(t: TaskDefinition, expanded_executable: Option<String>) -> (r: Result<PhaseTaskDefinition, TaskError>)
    requires
        valid_hook(t.hook),
    ensures
        r == phase_definition_spec(t, expanded_executable),
{
    let expand_args = match t.expand_args {
        Some(b) => b,
        None => {
            return Err(TaskError::ExpandArgsMissing);
        },
    };
    let sudo = match t.sudo {
        Some(b) => b,
        None => {
            return Err(TaskError::SudoMissing);
        },
    };
    let hook = match &t.hook {
        Some(h) => if str_eq(h.as_str(), "pre") {
            PhaseHook::Pre
        } else {
            PhaseHook::Post
        },
        None => PhaseHook::Post,
    };
    Ok(
        PhaseTaskDefinition {
            description: t.description,
            shell: t.shell,
            executable: expanded_executable,
            args: t.args,
            expand_args,
            sudo,
            hook,
        },
    )
}

/// The phase commands a list of commands becomes, each with its expanded
/// executable; the first command refused gives the error.
pub open spec fn phase_definitions(defs: Seq<TaskDefinition>, executables: Seq<Option<String>>) -> Result<
    Seq<PhaseTaskDefinition>,
    TaskError,
>
    decreases defs.len(),
{
    if defs.len() == 0 {
        Ok(Seq::empty())
    } else {
        match phase_definitions(defs.drop_last(), executables.take(defs.len() - 1)) {
            Err(e) => Err(e),
            Ok(prev) => match phase_definition_spec(defs.last(), executables[defs.len() - 1]) {
                Err(e) => Err(e),
                Ok(d) => Ok(prev.push(d)),
            },
        }
    }
}

/// Every command names a valid hook.
pub open spec fn valid_hooks(defs: Seq<TaskDefinition>) -> bool {
    forall|k: int| 0 <= k < defs.len() ==> valid_hook(#[trigger] defs[k].hook)
}

/// Turns a list of commands into phase commands (see [`phase_definitions`]).
fn phase_definition_list(defs: Vec<TaskDefinition>, executables: Vec<Option<String>>) -> (r: Result<
    Vec<PhaseTaskDefinition>,
    TaskError,
>)
    requires
        executables@.len() == defs@.len(),
        valid_hooks(defs@),
    ensures
        match phase_definitions(defs@, executables@) {
            Ok(v) => r matches Ok(out) && out@ == v,
            Err(e) => r == Err::<Vec<PhaseTaskDefinition>, TaskError>(e),
        },
{
    let ghost d0 = defs@;
    let ghost x0 = executables@;
    let n = defs.len();
    let mut rest = defs;
    let mut exes = executables;
    let mut out: Vec<PhaseTaskDefinition> = Vec::new();
    let mut i: usize = 0;
    while i < n
        invariant
            d0 == defs@,
            x0 == executables@,
            n == d0.len(),
            x0.len() == d0.len(),
            i <= n,
            rest@ == d0.skip(i as int),
            exes@ == x0.skip(i as int),
            valid_hooks(d0),
            phase_definitions(d0.take(i as int), x0.take(i as int)) == Ok::<Seq<PhaseTaskDefinition>, TaskError>(out@),
        decreases n - i,
    {
        let t = rest.remove(0);
        let x = exes.remove(0);
        proof {
            assert(t == d0[i as int]);
            assert(x == x0[i as int]);
            assert(rest@ =~= d0.skip(i as int + 1));
            assert(exes@ =~= x0.skip(i as int + 1));
            let dt = d0.take(i as int + 1);
            assert(dt.drop_last() =~= d0.take(i as int));
            assert(x0.take(i as int + 1).take(i as int) =~= x0.take(i as int));
            assert(dt.last() == t);
            assert(x0.take(i as int + 1)[i as int] == x);
            assert(valid_hook(d0[i as int].hook));
        }
        match phase_definition(t, x) {
            Ok(d) => {
                out.push(d);
            },
            Err(e) => {
                proof {
                    let dt = d0.take(i as int + 1);
                    let xt = x0.take(i as int + 1);
                    assert(xt.take(dt.len() - 1) =~= x0.take(i as int));
                    assert(phase_definitions(dt, xt) == Err::<Seq<PhaseTaskDefinition>, TaskError>(e));
                    lemma_definitions_error_stays(d0, x0, i as int + 1);
                }
                return Err(e);
            },
        }
        i = i + 1;
    }
    assert(d0.take(n as int) =~= d0);
    assert(x0.take(n as int) =~= x0);
    Ok(out)
}

/// Once a command is refused, every longer list is refused with the same
/// error.
proof fn lemma_definitions_error_stays(defs: Seq<TaskDefinition>, executables: Seq<Option<String>>, k: int)
    requires
        0 <= k <= defs.len(),
        executables.len() == defs.len(),
        phase_definitions(defs.take(k), executables.take(k)) is Err,
    ensures
        phase_definitions(defs, executables) == phase_definitions(defs.take(k), executables.take(k)),
    decreases defs.len() - k,
{
    if k == defs.len() {
        assert(defs.take(k) =~= defs);
        assert(executables.take(k) =~= executables);
    } else {
        let d1 = defs.take(k + 1);
        let x1 = executables.take(k + 1);
        assert(d1.drop_last() =~= defs.take(k));
        assert(x1.take(k) =~= executables.take(k));
        assert(phase_definitions(d1, x1) == phase_definitions(defs.take(k), executables.take(k)));
        lemma_definitions_error_stays(defs, executables, k + 1);
    }
}

/// The phase commands of a task group, phase by phase, or the first error
/// (setup, then config, update and remove).
pub open spec fn phase_task_spec(
    task: ModuleTask,
    setup: Seq<Option<String>>,
    config: Seq<Option<String>>,
    update: Seq<Option<String>>,
    remove: Seq<Option<String>>,
) -> Result<(Seq<PhaseTaskDefinition>, Seq<PhaseTaskDefinition>, Seq<PhaseTaskDefinition>, Seq<PhaseTaskDefinition>), TaskError> {
    match (
        phase_definitions(task.setup@, setup),
        phase_definitions(task.config@, config),
        phase_definitions(task.update@, update),
        phase_definitions(task.remove@, remove),
    ) {
        (Err(e), _, _, _) => Err(e),
        (Ok(_), Err(e), _, _) => Err(e),
        (Ok(_), Ok(_), Err(e), _) => Err(e),
        (Ok(_), Ok(_), Ok(_), Err(e)) => Err(e),
        (Ok(s), Ok(c), Ok(u), Ok(r)) => Ok((s, c, u, r)),
    }
}

/// A module's task group as the phases run it, given for each phase the
/// executables of its commands with variables expanded.
pub fn phase_task(
    module_name: &String,
    task: ModuleTask,
    setup: Vec<Option<String>>,
    config: Vec<Option<String>>,
    update: Vec<Option<String>>,
    remove: Vec<Option<String>>,
) -> (r: Result<PhaseTask, TaskError>)
    requires
        setup@.len() == task.setup@.len(),
        config@.len() == task.config@.len(),
        update@.len() == task.update@.len(),
        remove@.len() == task.remove@.len(),
        valid_hooks(task.setup@),
        valid_hooks(task.config@),
        valid_hooks(task.update@),
        valid_hooks(task.remove@),
    ensures
        match phase_task_spec(task, setup@, config@, update@, remove@) {
            Ok((s, c, u, rm)) => r matches Ok(t) && t.module_name@ == module_name@ && t.setup@ == s && t.config@ == c
                && t.update@ == u && t.remove@ == rm && t.description == task.description,
            Err(e) => r == Err::<PhaseTask, TaskError>(e),
        },
{
    let ghost spec_task = task;
    let ModuleTask { description, condition: _, setup: s_defs, config: c_defs, update: u_defs, remove: r_defs } = task;
    let s = match phase_definition_list(s_defs, setup) {
        Ok(v) => v,
        Err(e) => {
            return Err(e);
        },
    };
    let c = match phase_definition_list(c_defs, config) {
        Ok(v) => v,
        Err(e) => {
            return Err(e);
        },
    };
    let u = match phase_definition_list(u_defs, update) {
        Ok(v) => v,
        Err(e) => {
            return Err(e);
        },
    };
    let rm = match phase_definition_list(r_defs, remove) {
        Ok(v) => v,
        Err(e) => {
            return Err(e);
        },
    };
    Ok(PhaseTask { module_name: module_name.clone(), setup: s, config: c, update: u, remove: rm, description })
}

/// The commands of a task for a phase.
pub open spec fn phase_commands(task: PhaseTask, phase: DeployPhase) -> Seq<PhaseTaskDefinition> {
    match phase {
        DeployPhase::Setup => task.setup@,
        DeployPhase::Config => task.config@,
        DeployPhase::Update => task.update@,
        DeployPhase::Remove => task.remove@,
    }
}

/// The positions of the commands with the given hook, in order.
pub open spec fn with_hook(defs: Seq<PhaseTaskDefinition>, hook: PhaseHook) -> Seq<int>
    decreases defs.len(),
{
    if defs.len() == 0 {
        Seq::empty()
    } else if defs.last().hook == hook {
        with_hook(defs.drop_last(), hook).push(defs.len() - 1)
    } else {
        with_hook(defs.drop_last(), hook)
    }
}

proof fn lemma_with_hook(defs: Seq<PhaseTaskDefinition>, hook: PhaseHook)
    ensures
        forall|i: int| with_hook(defs, hook).contains(i) <==> 0 <= i < defs.len() && defs[i].hook == hook,
        forall|a: int, b: int|
            0 <= a < b < with_hook(defs, hook).len() ==> with_hook(defs, hook)[a] < with_hook(defs, hook)[b],
    decreases defs.len(),
{
    if defs.len() > 0 {
        let init = defs.drop_last();
        lemma_with_hook(init, hook);
        let w0 = with_hook(init, hook);
        assert forall|i: int| with_hook(defs, hook).contains(i) <==> 0 <= i < defs.len() && defs[i].hook == hook by {
            if with_hook(defs, hook).contains(i) {
                let k = choose|k: int| 0 <= k < with_hook(defs, hook).len() && with_hook(defs, hook)[k] == i;
                if k < w0.len() {
                    assert(w0.contains(i));
                }
            }
            if 0 <= i < defs.len() && defs[i].hook == hook {
                if i < defs.len() - 1 {
                    assert(init[i] == defs[i]);
                    assert(w0.contains(i));
                    let k = choose|k: int| 0 <= k < w0.len() && w0[k] == i;
                    assert(with_hook(defs, hook)[k] == i);
                } else {
                    assert(with_hook(defs, hook)[w0.len() as int] == i);
                }
            }
        }
        assert forall|a: int, b: int| 0 <= a < b < with_hook(defs, hook).len() implies with_hook(defs, hook)[a] < with_hook(
            defs,
            hook,
        )[b] by {
            if b >= w0.len() {
                assert(w0.contains(w0[a]));
            }
        }
    }
}

/// The commands that run at a hook of a phase are those of that phase's own
/// list with that hook: a position is returned exactly when it is a
/// position of the phase's list whose command has the hook, in increasing
/// order. So an update runs only the update commands, never those of
/// another phase.
pub proof fn lemma_commands_for(task: PhaseTask, hook: PhaseHook)
    ensures
        forall|i: int|
            with_hook(phase_commands(task, DeployPhase::Setup), hook).contains(i) <==> 0 <= i < task.setup@.len()
                && task.setup@[i].hook == hook,
        forall|i: int|
            with_hook(phase_commands(task, DeployPhase::Config), hook).contains(i) <==> 0 <= i < task.config@.len()
                && task.config@[i].hook == hook,
        forall|i: int|
            with_hook(phase_commands(task, DeployPhase::Update), hook).contains(i) <==> 0 <= i < task.update@.len()
                && task.update@[i].hook == hook,
        forall|i: int|
            with_hook(phase_commands(task, DeployPhase::Remove), hook).contains(i) <==> 0 <= i < task.remove@.len()
                && task.remove@[i].hook == hook,
        forall|phase: DeployPhase, a: int, b: int|
            0 <= a < b < with_hook(phase_commands(task, phase), hook).len() ==> #[trigger] with_hook(phase_commands(task, phase), hook)[a]
                < #[trigger] with_hook(phase_commands(task, phase), hook)[b],
{
    lemma_with_hook(task.setup@, hook);
    lemma_with_hook(task.config@, hook);
    lemma_with_hook(task.update@, hook);
    lemma_with_hook(task.remove@, hook);
    assert(phase_commands(task, DeployPhase::Setup) == task.setup@);
    assert(phase_commands(task, DeployPhase::Config) == task.config@);
    assert(phase_commands(task, DeployPhase::Update) == task.update@);
    assert(phase_commands(task, DeployPhase::Remove) == task.remove@);
    assert forall|phase: DeployPhase, a: int, b: int|
        0 <= a < b < with_hook(phase_commands(task, phase), hook).len() implies #[trigger] with_hook(phase_commands(task, phase), hook)[a]
            < #[trigger] with_hook(phase_commands(task, phase), hook)[b] by {
        lemma_with_hook(phase_commands(task, phase), hook);
    }
}

impl PhaseTask {
    /// The positions, in the phase's list, of the commands that run at this
    /// hook of the phase, in order.
    pub fn commands_for(&self, phase: DeployPhase, hook: PhaseHook) -> (v: Vec<usize>)
        ensures
            v@.map_values(|i: usize| i as int) == with_hook(phase_commands(*self, phase), hook),
    {
        let defs = match phase {
            DeployPhase::Setup => &self.setup,
            DeployPhase::Config => &self.config,
            DeployPhase::Update => &self.update,
            DeployPhase::Remove => &self.remove,
        };
        let mut v: Vec<usize> = Vec::new();
        let mut i: usize = 0;
        while i < defs.len()
            invariant
                i <= defs@.len(),
                defs@ == phase_commands(*self, phase),
                v@.map_values(|k: usize| k as int) == with_hook(defs@.take(i as int), hook),
            decreases defs@.len() - i,
        {
            assert(defs@.take(i as int + 1).drop_last() =~= defs@.take(i as int));
            if defs[i].hook == hook {
                let ghost v0 = v@;
                v.push(i);
                assert(v@.map_values(|k: usize| k as int) =~= v0.map_values(|k: usize| k as int).push(i as int));
            }
            i = i + 1;
        }
        assert(defs@.take(i as int) =~= defs@);
        v
    }
}

/// What running a phase's commands announces for a command: the task's
/// description with the command's, or with what kind of task runs; only the
/// command's description when the task has none; nothing when neither has one.
pub open spec fn banner_spec(task: Option<Seq<char>>, command: Option<Seq<char>>, phase: DeployPhase) -> Option<Seq<char>> {
    match task {
        Some(t) => match command {
            Some(c) => Some(t + ": "@ + c),
            None => Some(t + ": Running "@ + phase_task_kind(phase)),
        },
        None => command,
    }
}

/// The kind of task a phase runs.
pub open spec fn phase_task_kind(phase: DeployPhase) -> Seq<char> {
    match phase {
        DeployPhase::Setup => "setup task"@,
        DeployPhase::Config => "config task"@,
        DeployPhase::Update => "update task"@,
        DeployPhase::Remove => "remove task"@,
    }
}

/// The announcement for a command (see [`banner_spec`]).
pub fn banner(task: &Option<String>, command: &Option<String>, phase: DeployPhase) -> (r: Option<String>)
    ensures
        match banner_spec(
            match task {
                Some(t) => Some(t@),
                None => None,
            },
            match command {
                Some(c) => Some(c@),
                None => None,
            },
            phase,
        ) {
            Some(b) => r matches Some(s) && s@ == b,
            None => r is None,
        },
{
    match task {
        Some(t) => {
            let mut s = t.clone();
            match command {
                Some(c) => {
                    push_str_chars(&mut s, ": ");
                    push_str_chars(&mut s, c.as_str());
                },
                None => {
                    push_str_chars(&mut s, ": Running ");
                    push_str_chars(
                        &mut s,
                        match phase {
                            DeployPhase::Setup => "setup task",
                            DeployPhase::Config => "config task",
                            DeployPhase::Update => "update task",
                            DeployPhase::Remove => "remove task",
                        },
                    );
                },
            }
            Some(s)
        },
        None => match command {
            Some(c) => Some(c.clone()),
            None => None,
        },
    }
}

/// How a shell command is shown: line breaks as spaces, at most its first
/// fifty characters, then `...`.
pub open spec fn shell_display_spec(shell: Seq<char>) -> Seq<char> {
    let flat = shell.map_values(|c: char| if c == '\n' || c == '\r' { ' ' } else { c });
    let shown = if flat.len() <= 50 { flat } else { flat.take(50) };
    shown + "..."@
}

/// Shows a shell command (see [`shell_display_spec`]).
pub fn shell_display(shell: &str) -> (s: String)
    ensures
        s@ == shell_display_spec(shell@),
{
    let cs = chars_of(shell);
    let n: usize = if cs.len() <= 50 { cs.len() } else { 50 };
    let mut out: Vec<char> = Vec::new();
    let mut i: usize = 0;
    let ghost flat = shell@.map_values(|c: char| if c == '\n' || c == '\r' { ' ' } else { c });
    while i < n
        invariant
            cs@ == shell@,
            n <= cs@.len(),
            i <= n,
            flat == shell@.map_values(|c: char| if c == '\n' || c == '\r' { ' ' } else { c }),
            out@ == flat.take(i as int),
        decreases n - i,
    {
        let c = cs[i];
        out.push(if c == '\n' || c == '\r' { ' ' } else { c });
        i = i + 1;
        assert(out@ =~= flat.take(i as int));
    }
    let mut s = string_from_chars(out.as_slice());
    push_str_chars(&mut s, "...");
    proof {
        if flat.len() <= 50 {
            assert(flat.take(n as int) =~= flat);
        }
    }
    s
}

/// The arguments joined by single spaces.
pub open spec fn joined(args: Seq<Seq<char>>) -> Seq<char>
    decreases args.len(),
{
    if args.len() == 0 {
        Seq::empty()
    } else if args.len() == 1 {
        args[0]
    } else {
        joined(args.drop_last()) + " "@ + args.last()
    }
}

/// How an executable with its arguments is shown: the executable, a space,
/// and the arguments joined by spaces.
pub fn exec_display(executable: &str, args: &Vec<String>) -> (s: String)
    ensures
        s@ == executable@ + " "@ + joined(args.deep_view()),
{
    let mut s = String::new();
    push_str_chars(&mut s, executable);
    push_str_chars(&mut s, " ");
    let ghost head = s@;
    let mut i: usize = 0;
    while i < args.len()
        invariant
            i <= args@.len(),
            s@ == head + joined(args.deep_view().take(i as int)),
        decreases args@.len() - i,
    {
        let ghost pre = args.deep_view().take(i as int);
        let ghost next = args.deep_view().take(i as int + 1);
        assert(next.drop_last() =~= pre);
        assert(next.last() == args@[i as int]@);
        if i > 0 {
            push_str_chars(&mut s, " ");
        }
        push_str_chars(&mut s, args[i].as_str());
        i = i + 1;
        proof {
            if i == 1 {
                assert(next.len() == 1);
                assert(joined(pre) =~= Seq::<char>::empty());
                assert(s@ =~= head + joined(next));
            } else {
                assert(s@ =~= head + joined(next));
            }
        }
    }
    assert(args.deep_view().take(i as int) =~= args.deep_view());
    s
}

/// How a phase command is started.
#[derive(Debug)]
pub enum TaskCommand {
    /// `sh -c` with the shell command.
    Shell(String),
    /// The executable with its arguments, elevated or not.
    Exec { program: String, args: Vec<String>, sudo: bool },
    /// Nothing to run.
    Nothing,
}

/// Arguments are expanded (with the module's directory known) only when the
/// command asks for it and has some.
pub fn expands_args(d: &PhaseTaskDefinition) -> (b: bool)
    ensures
        b == (d.expand_args && (d.args matches Some(a) && a@.len() > 0)),
{
    d.expand_args && match &d.args {
        Some(a) => a.len() > 0,
        None => false,
    }
}

/// How a command starts: its shell command if it has one, else its
/// executable with the given arguments (expanded where [`expands_args`]
/// says so), else nothing.
pub fn task_command(d: &PhaseTaskDefinition, args: Vec<String>) -> (c: TaskCommand)
    ensures
        d.shell matches Some(s) ==> c matches TaskCommand::Shell(x) && x@ == s@,
        d.shell is None ==> (d.executable matches Some(e) ==> (c matches TaskCommand::Exec { program, args: a, sudo } && program@
            == e@ && a == args && sudo == d.sudo)),
        d.shell is None && d.executable is None ==> c is Nothing,
{
    match &d.shell {
        Some(s) => TaskCommand::Shell(s.clone()),
        None => match &d.executable {
            Some(e) => TaskCommand::Exec { program: e.clone(), args, sudo: d.sudo },
            None => TaskCommand::Nothing,
        },
    }
}

} // verus!
