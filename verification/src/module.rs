//! The configuration of a module: files, tasks, messages, generators and
//! packages, with the rules a configuration must follow and the merging of
//! included configuration files.

use vstd::prelude::*;
use crate::resolver::Reason;
use crate::text::str_eq;

verus! {

/// Deployment phases for organizing module components.
#[derive(Debug, Clone, Copy, PartialEq, Eq, Structural)]
pub enum DeployPhase {
    Setup,
    Config,
    Update,
    Remove,
}

/// Components are deployed in the config phase unless stated otherwise.
impl Default for DeployPhase {
    fn default() -> (p: DeployPhase)
        ensures
            p == DeployPhase::Config,
    {
        DeployPhase::Config
    }
}

/// What is done with a file.
#[derive(Debug, Clone, Copy, PartialEq, Eq, Structural)]
pub enum FileOperation {
    Link,
    Copy,
    Create,
}

/// Files are linked unless stated otherwise.
pub fn default_file_operation() -> (o: FileOperation)
    ensures
        o == FileOperation::Link,
{
    FileOperation::Link
}

/// Provides default optional boolean value (false).
pub fn default_option_bool() -> (b: Option<bool>)
    ensures
        b == Some(false),
{
    Some(false)
}

/// Provides default phase step value ("post").
pub fn default_phase_hook() -> (h: Option<String>)
    ensures
        h matches Some(s) && s@ == "post"@,
{
    Some(String::from_str("post"))
}

/// Provides default message display_when value ("deploy").
pub fn default_on_command() -> (c: Option<String>)
    ensures
        c matches Some(s) && s@ == "deploy"@,
{
    Some(String::from_str("deploy"))
}

/// Arguments of an executable are expanded by default.
pub fn default_expand_args() -> (b: Option<bool>)
    ensures
        b == Some(true),
{
    Some(true)
}

/// Represents a file to be managed by a module.
#[derive(Debug)]
pub struct ModuleFile {
    /// Path to the source file relative to the module directory.
    pub source: Option<String>,
    /// Destination path where the file should be deployed.
    pub target: String,
    /// Direct content to be written to the target file.
    pub content: Option<String>,
    /// When this file should be processed.
    pub phase: DeployPhase,
    /// The operation to perform with this file.
    pub operation: FileOperation,
    /// Conditional expression that determines if this file should be processed.
    pub condition: Option<String>,
    /// Whether to process the file as a Handlebars template.
    pub template: Option<bool>,
    /// The user that should own the deployed file.
    pub owner: Option<String>,
    /// The group that should own the deployed file.
    pub group: Option<String>,
    /// File permissions to set on the deployed file, in octal format.
    pub permissions: Option<String>,
}

/// One command of a task, for one phase.
#[derive(Debug)]
pub struct TaskDefinition {
    pub description: Option<String>,
    pub shell: Option<String>,
    pub executable: Option<String>,
    pub args: Option<Vec<String>>,
    pub expand_args: Option<bool>,
    pub sudo: Option<bool>,
    pub hook: Option<String>,
    pub condition: Option<String>,
}

/// A task group with its commands per phase.
#[derive(Debug)]
pub struct ModuleTask {
    pub description: Option<String>,
    pub condition: Option<String>,
    pub setup: Vec<TaskDefinition>,
    pub config: Vec<TaskDefinition>,
    pub update: Vec<TaskDefinition>,
    pub remove: Vec<TaskDefinition>,
}

/// A message shown to the user.
#[derive(Debug)]
pub struct ModuleMessage {
    /// The content of the message to be displayed.
    pub message: String,
    /// Specifies when to display the message ("deploy", "remove" or "update").
    pub on_command: Option<String>,
    /// An optional conditional expression for displaying the message.
    pub condition: Option<String>,
}

/// A file generated from snippets.
#[derive(Debug)]
pub struct Generate {
    pub target: String,
    pub source: String,
    pub shebang: Option<String>,
    pub comment_start: Option<String>,
    pub skip_auto_content: Option<bool>,
    pub prepend: Option<String>,
    pub append: Option<String>,
    pub condition: Option<String>,
}

/// Packages to install.
#[derive(Debug)]
pub struct ModulePackages {
    /// List of package names to install when conditions are met
    pub install: Vec<String>,
    /// Optional conditional expression evaluated at runtime
    pub condition: Option<String>,
}

/// A module configuration without packages installs nothing, which is
/// recorded as one empty package list.
pub fn default_module_packages() -> (p: Option<Vec<ModulePackages>>)
    ensures
        p matches Some(v) && v@.len() == 1 && v@[0].install@.len() == 0 && v@[0].condition is None,
{
    Some(vec![ModulePackages { install: Vec::new(), condition: None }])
}

/// Module include definition for merging external configurations.
#[derive(Debug)]
pub enum Include {
    Simple(String),
    Conditional { files: Vec<String>, condition: Option<String> },
}

/// A module with its configuration.
#[derive(Debug)]
pub struct DotdeployModule {
    /// Module name
    pub name: String,
    /// Module location/path
    pub location: String,
    /// The reason for adding this module
    pub reason: Reason,
    /// Module dependencies
    pub depends_on: Option<Vec<String>>,
    /// Other config TOML files to include
    pub includes: Option<Vec<Include>>,
    /// Files to be managed by this module
    pub files: Option<Vec<ModuleFile>>,
    /// Tasks to be executed by this module
    pub tasks: Option<Vec<ModuleTask>>,
    /// Messages to be displayed during module execution
    pub messages: Option<Vec<ModuleMessage>>,
    /// Files generated by this module
    pub generators: Option<Vec<Generate>>,
    /// Packages to install for this module
    pub packages: Option<Vec<ModulePackages>>,
}

/// A configuration file read for a module, before it belongs to one.
#[derive(Debug)]
pub struct DotdeployModuleBuilder {
    pub name: Option<String>,
    pub location: Option<String>,
    pub depends_on: Option<Vec<String>>,
    pub includes: Option<Vec<Include>>,
    pub files: Option<Vec<ModuleFile>>,
    pub tasks: Option<Vec<ModuleTask>>,
    pub messages: Option<Vec<ModuleMessage>>,
    pub generators: Option<Vec<Generate>>,
    pub packages: Option<Vec<ModulePackages>>,
}

/// Violations of the configuration rules, and incomplete builders.
#[derive(Debug)]
pub enum ModuleError {
    /// A file has both `source` and `content`; the file's target.
    SourceAndContent(String),
    /// A linked file asks for templating; the file's target.
    TemplateNotAllowed(String),
    /// A task has both `shell` and `exec`; its shell command.
    ShellAndExec(String),
    /// The builder has no name.
    MissingName,
    /// The builder has no location.
    MissingLocation,
}

/// A file breaks a rule: both source and content, or templating on a link.
pub open spec fn file_is_invalid(f: ModuleFile) -> bool {
    (f.source is Some && f.content is Some) || (f.template == Some(true) && f.operation == FileOperation::Link)
}

/// A task command that is both a shell command and an executable.
pub open spec fn task_is_invalid(t: TaskDefinition) -> bool {
    t.shell is Some && t.executable is Some
}

/// The commands of the task groups, in the order they are checked: per group
/// setup, config, remove, then update.
pub open spec fn task_commands(tasks: Seq<ModuleTask>) -> Seq<TaskDefinition>
    decreases tasks.len(),
{
    if tasks.len() == 0 {
        Seq::empty()
    } else {
        let t = tasks.last();
        task_commands(tasks.drop_last()) + t.setup@ + t.config@ + t.remove@ + t.update@
    }
}

/// `i` is the first file that breaks a rule.
pub open spec fn first_invalid_file(files: Seq<ModuleFile>, i: int) -> bool {
    0 <= i < files.len() && file_is_invalid(files[i]) && forall|k: int| 0 <= k < i ==> !file_is_invalid(#[trigger] files[k])
}

/// `i` is the first task command that breaks a rule.
pub open spec fn first_invalid_task(defs: Seq<TaskDefinition>, i: int) -> bool {
    0 <= i < defs.len() && task_is_invalid(defs[i]) && forall|k: int| 0 <= k < i ==> !task_is_invalid(#[trigger] defs[k])
}

/// The files of a module, none if it has none.
pub open spec fn files_of(m: DotdeployModule) -> Seq<ModuleFile> {
    match m.files {
        Some(v) => v@,
        None => Seq::empty(),
    }
}

/// The task commands of a module.
pub open spec fn task_commands_of(m: DotdeployModule) -> Seq<TaskDefinition> {
    match m.tasks {
        Some(v) => task_commands(v@),
        None => Seq::empty(),
    }
}

/// The module follows every rule.
pub open spec fn module_is_valid(m: DotdeployModule) -> bool {
    &&& forall|i: int| 0 <= i < files_of(m).len() ==> !file_is_invalid(#[trigger] files_of(m)[i])
    &&& forall|i: int| 0 <= i < task_commands_of(m).len() ==> !task_is_invalid(#[trigger] task_commands_of(m)[i])
}

/// The error reported for a file that breaks a rule.
pub open spec fn file_error_matches(f: ModuleFile, e: ModuleError) -> bool {
    match e {
        ModuleError::SourceAndContent(t) => f.source is Some && f.content is Some && t@ == f.target@,
        ModuleError::TemplateNotAllowed(t) => !(f.source is Some && f.content is Some) && t@ == f.target@,
        _ => false,
    }
}

/// The error reported for a task command that breaks the rule.
pub open spec fn task_error_matches(t: TaskDefinition, e: ModuleError) -> bool {
    match e {
        ModuleError::ShellAndExec(c) => c@ == t.shell->0@,
        _ => false,
    }
}

fn check_defs(defs: &Vec<TaskDefinition>) -> (r: Option<usize>)
    ensures
        r is None ==> forall|k: int| 0 <= k < defs@.len() ==> !task_is_invalid(#[trigger] defs@[k]),
        r matches Some(i) ==> first_invalid_task(defs@, i as int),
{
    let mut i: usize = 0;
    while i < defs.len()
        invariant
            i <= defs@.len(),
            forall|k: int| 0 <= k < i ==> !task_is_invalid(#[trigger] defs@[k]),
        decreases defs@.len() - i,
    {
        if defs[i].shell.is_some() && defs[i].executable.is_some() {
            return Some(i);
        }
        i = i + 1;
    }
    None
}

fn shell_of(t: &TaskDefinition) -> (s: String)
    requires
        t.shell is Some,
    ensures
        s@ == t.shell->0@,
{
    match &t.shell {
        Some(s) => s.clone(),
        None => String::new(),
    }
}

proof fn lemma_commands_step(tasks: Seq<ModuleTask>, i: int)
    requires
        0 <= i < tasks.len(),
    ensures
        task_commands(tasks.take(i + 1)) == task_commands(tasks.take(i)) + tasks[i].setup@ + tasks[i].config@
            + tasks[i].remove@ + tasks[i].update@,
{
    assert(tasks.take(i + 1).drop_last() =~= tasks.take(i));
}

impl DotdeployModule {
    /// Validates the module configuration: a file has either `source` or
    /// `content`, templating is only allowed for `copy` and `create`, and a
    /// task is either a shell command or an executable. The first violation
    /// is reported, files before tasks.
    pub fn validate(&self) -> (r: Result<(), ModuleError>)
        ensures
            r is Ok <==> module_is_valid(*self),
            r matches Err(e) ==> (exists|i: int| #[trigger] first_invalid_file(files_of(*self), i)
                && file_error_matches(files_of(*self)[i], e)) || ((forall|i: int|
                0 <= i < files_of(*self).len() ==> !file_is_invalid(#[trigger] files_of(*self)[i]))
                && exists|j: int| #[trigger] first_invalid_task(task_commands_of(*self), j)
                && task_error_matches(task_commands_of(*self)[j], e)),
    {
        if let Some(files) = &self.files {
            let mut i: usize = 0;
            while i < files.len()
                invariant
                    self.files == Some(*files),
                    i <= files@.len(),
                    forall|k: int| 0 <= k < i ==> !file_is_invalid(#[trigger] files@[k]),
                decreases files@.len() - i,
            {
                let f = &files[i];
                if f.source.is_some() && f.content.is_some() {
                    proof {
                        assert(first_invalid_file(files@, i as int));
                    }
                    return Err(ModuleError::SourceAndContent(f.target.clone()));
                }
                let templated = match f.template {
                    Some(b) => b,
                    None => false,
                };
                if templated && f.operation == FileOperation::Link {
                    proof {
                        assert(first_invalid_file(files@, i as int));
                    }
                    return Err(ModuleError::TemplateNotAllowed(f.target.clone()));
                }
                i = i + 1;
            }
        }
        if let Some(tasks) = &self.tasks {
            let ghost all = task_commands(tasks@);
            let mut i: usize = 0;
            assert(tasks@.take(0) =~= Seq::<ModuleTask>::empty());
            while i < tasks.len()
                invariant
                    self.tasks == Some(*tasks),
                    all == task_commands(tasks@),
                    forall|k: int| 0 <= k < files_of(*self).len() ==> !file_is_invalid(#[trigger] files_of(*self)[k]),
                    i <= tasks@.len(),
                    forall|k: int| 0 <= k < task_commands(tasks@.take(i as int)).len() ==> !task_is_invalid(
                        #[trigger] task_commands(tasks@.take(i as int))[k],
                    ),
                decreases tasks@.len() - i,
            {
                let t = &tasks[i];
                let ghost done = task_commands(tasks@.take(i as int));
                proof {
                    lemma_commands_step(tasks@, i as int);
                }
                let ghost o1 = done.len();
                let ghost o2 = o1 + t.setup@.len();
                let ghost o3 = o2 + t.config@.len();
                let ghost o4 = o3 + t.remove@.len();
                let ghost next = task_commands(tasks@.take(i + 1));
                if let Some(j) = check_defs(&t.setup) {
                    proof {
                        assert(next[o1 + j] == t.setup@[j as int]);
                        assert forall|k: int| 0 <= k < o1 + j implies !task_is_invalid(#[trigger] next[k]) by {
                            if k < o1 {
                                assert(next[k] == done[k]);
                            }
                        }
                        self.lemma_task_found(tasks@, i as int, o1 + j);
                    }
                    return Err(ModuleError::ShellAndExec(shell_of(&t.setup[j])));
                }
                if let Some(j) = check_defs(&t.config) {
                    proof {
                        assert(next[o2 + j] == t.config@[j as int]);
                        assert forall|k: int| 0 <= k < o2 + j implies !task_is_invalid(#[trigger] next[k]) by {
                            if k < o1 {
                                assert(next[k] == done[k]);
                            }
                        }
                        self.lemma_task_found(tasks@, i as int, o2 + j);
                    }
                    return Err(ModuleError::ShellAndExec(shell_of(&t.config[j])));
                }
                if let Some(j) = check_defs(&t.remove) {
                    proof {
                        assert(next[o3 + j] == t.remove@[j as int]);
                        assert forall|k: int| 0 <= k < o3 + j implies !task_is_invalid(#[trigger] next[k]) by {
                            if k < o1 {
                                assert(next[k] == done[k]);
                            }
                        }
                        self.lemma_task_found(tasks@, i as int, o3 + j);
                    }
                    return Err(ModuleError::ShellAndExec(shell_of(&t.remove[j])));
                }
                if let Some(j) = check_defs(&t.update) {
                    proof {
                        assert(next[o4 + j] == t.update@[j as int]);
                        assert forall|k: int| 0 <= k < o4 + j implies !task_is_invalid(#[trigger] next[k]) by {
                            if k < o1 {
                                assert(next[k] == done[k]);
                            }
                        }
                        self.lemma_task_found(tasks@, i as int, o4 + j);
                    }
                    return Err(ModuleError::ShellAndExec(shell_of(&t.update[j])));
                }
                i = i + 1;
            }
            proof {
                assert(tasks@.take(tasks@.len() as int) =~= tasks@);
            }
        }
        Ok(())
    }

    proof fn lemma_task_found(self, tasks: Seq<ModuleTask>, i: int, j: int)
        requires
            self.tasks matches Some(v) && v@ == tasks,
            0 <= i < tasks.len(),
            forall|k: int| 0 <= k < task_commands(tasks.take(i)).len() ==> !task_is_invalid(
                #[trigger] task_commands(tasks.take(i))[k],
            ),
            task_commands(tasks.take(i + 1)) == task_commands(tasks.take(i)) + tasks[i].setup@ + tasks[i].config@
                + tasks[i].remove@ + tasks[i].update@,
            first_invalid_task(task_commands(tasks.take(i + 1)), j),
        ensures
            first_invalid_task(task_commands_of(self), j),
            task_commands_of(self)[j] == task_commands(tasks.take(i + 1))[j],
    {
        lemma_commands_prefix(tasks, i + 1);
        let p = task_commands(tasks.take(i + 1));
        let all = task_commands_of(self);
        assert(all == task_commands(tasks));
        assert(p[j] == all[j]);
        assert forall|k: int| 0 <= k < j implies !task_is_invalid(#[trigger] all[k]) by {
            assert(p[k] == all[k]);
        }
    }
}

impl DotdeployModuleBuilder {
    /// Constructs a module from a configuration that knows its name and
    /// location; the module takes the configuration's parts, which the
    /// builder no longer holds afterwards. Without a name or a location the
    /// builder stays as it was.
    pub fn build(&mut self, reason: Reason) -> (r: Result<DotdeployModule, ModuleError>)
        ensures
            old(self).name is None ==> (r matches Err(ModuleError::MissingName)) && *final(self) == *old(self),
            old(self).name is Some && old(self).location is None ==> (r matches Err(ModuleError::MissingLocation))
                && *final(self) == *old(self),
            old(self).name is Some && old(self).location is Some ==> (r matches Ok(m) && m.name == old(self).name->0
                && m.location == old(self).location->0 && m.reason == reason && m.depends_on == old(self).depends_on
                && m.includes == old(self).includes && m.files == old(self).files && m.tasks == old(self).tasks
                && m.messages == old(self).messages && m.generators == old(self).generators && m.packages
                == old(self).packages),
            old(self).name is Some && old(self).location is Some ==> final(self).name == old(self).name
                && final(self).location == old(self).location && final(self).depends_on is None
                && final(self).includes is None && final(self).files is None && final(self).tasks is None
                && final(self).messages is None && final(self).generators is None && final(self).packages is None,
    {
        let name = match &self.name {
            Some(n) => n.clone(),
            None => {
                return Err(ModuleError::MissingName);
            },
        };
        let location = match &self.location {
            Some(l) => l.clone(),
            None => {
                return Err(ModuleError::MissingLocation);
            },
        };
        Ok(
            DotdeployModule {
                name,
                location,
                reason,
                depends_on: self.depends_on.take(),
                includes: self.includes.take(),
                files: self.files.take(),
                tasks: self.tasks.take(),
                messages: self.messages.take(),
                generators: self.generators.take(),
                packages: self.packages.take(),
            },
        )
    }
}

/// The elements of an optional list, none when absent.
pub open spec fn opt_seq<T>(o: Option<Vec<T>>) -> Seq<T> {
    match o {
        Some(v) => v@,
        None => Seq::empty(),
    }
}

/// Appends the optional list `src` to the optional list `dst`, creating it if needed.
pub fn append_opt<T>(dst: &mut Option<Vec<T>>, src: Option<Vec<T>>)
    ensures
        src is None ==> *final(dst) == *old(dst),
        src is Some ==> (*final(dst)) is Some && opt_seq(*final(dst)) == opt_seq(*old(dst)) + opt_seq(src),
{
    match src {
        None => {},
        Some(mut v) => {
            let mut cur = match dst.take() {
                Some(c) => c,
                None => Vec::new(),
            };
            cur.append(&mut v);
            *dst = Some(cur);
        },
    }
}

/// The files whose target no file of `others` has.
pub open spec fn files_not_targeted(files: Seq<ModuleFile>, others: Seq<ModuleFile>) -> Seq<ModuleFile>
    decreases files.len(),
{
    if files.len() == 0 {
        Seq::empty()
    } else if exists|k: int| 0 <= k < others.len() && (#[trigger] others[k]).target@ == files.last().target@ {
        files_not_targeted(files.drop_last(), others)
    } else {
        files_not_targeted(files.drop_last(), others).push(files.last())
    }
}

fn has_target(files: &Vec<ModuleFile>, target: &String) -> (b: bool)
    ensures
        b == exists|k: int| 0 <= k < files@.len() && (#[trigger] files@[k]).target@ == target@,
{
    let mut i: usize = 0;
    while i < files.len()
        invariant
            i <= files@.len(),
            forall|k: int| 0 <= k < i ==> (#[trigger] files@[k]).target@ != target@,
        decreases files@.len() - i,
    {
        if files[i].target == *target {
            return true;
        }
        i = i + 1;
    }
    false
}

impl DotdeployModule {
    /// Merges the configuration of an included file: its includes, tasks,
    /// messages, generators and packages are appended; its files replace
    /// the files with the same target and are appended after the others.
    pub fn merge_include(&mut self, included: DotdeployModuleBuilder)
        ensures
            final(self).name == old(self).name,
            final(self).location == old(self).location,
            final(self).reason == old(self).reason,
            final(self).depends_on == old(self).depends_on,
            included.includes is None ==> final(self).includes == old(self).includes,
            included.includes is Some ==> final(self).includes is Some && opt_seq(final(self).includes) == opt_seq(
                old(self).includes,
            ) + opt_seq(included.includes),
            included.files is None ==> final(self).files == old(self).files,
            included.files is Some ==> final(self).files is Some && opt_seq(final(self).files) == files_not_targeted(
                opt_seq(old(self).files),
                opt_seq(included.files),
            ) + opt_seq(included.files),
            included.tasks is None ==> final(self).tasks == old(self).tasks,
            included.tasks is Some ==> final(self).tasks is Some && opt_seq(final(self).tasks) == opt_seq(old(self).tasks)
                + opt_seq(included.tasks),
            included.messages is None ==> final(self).messages == old(self).messages,
            included.messages is Some ==> final(self).messages is Some && opt_seq(final(self).messages) == opt_seq(
                old(self).messages,
            ) + opt_seq(included.messages),
            included.generators is None ==> final(self).generators == old(self).generators,
            included.generators is Some ==> final(self).generators is Some && opt_seq(final(self).generators)
                == opt_seq(old(self).generators) + opt_seq(included.generators),
            included.packages is None ==> final(self).packages == old(self).packages,
            included.packages is Some ==> final(self).packages is Some && opt_seq(final(self).packages) == opt_seq(
                old(self).packages,
            ) + opt_seq(included.packages),
    {
        append_opt(&mut self.includes, included.includes);
        match included.files {
            None => {},
            Some(mut new_files) => {
                let old_files = match self.files.take() {
                    Some(f) => f,
                    None => Vec::new(),
                };
                let mut kept: Vec<ModuleFile> = Vec::new();
                let mut rest = old_files;
                let ghost all = rest@;
                let ghost mut n: int = 0;
                while rest.len() > 0
                    invariant
                        0 <= n <= all.len(),
                        rest@ == all.skip(n),
                        kept@ == files_not_targeted(all.take(n), new_files@),
                    decreases rest@.len(),
                {
                    let f = rest.remove(0);
                    proof {
                        assert(all.take(n + 1).drop_last() =~= all.take(n));
                        assert(all.take(n + 1).last() == f);
                        assert(rest@ =~= all.skip(n + 1));
                    }
                    if !has_target(&new_files, &f.target) {
                        kept.push(f);
                    }
                    proof {
                        n = n + 1;
                    }
                }
                proof {
                    assert(all.take(n) =~= all);
                }
                kept.append(&mut new_files);
                self.files = Some(kept);
            },
        }
        append_opt(&mut self.tasks, included.tasks);
        append_opt(&mut self.messages, included.messages);
        append_opt(&mut self.generators, included.generators);
        append_opt(&mut self.packages, included.packages);
    }
}

/// A package to install, with the module that asks for it.
#[derive(Debug)]
pub struct InstallPackage {
    pub module_name: String,
    /// The package name; empty for a module that installs nothing.
    pub package: String,
}

/// The (module, package) entries of a module's package lists: one per
/// package, and one with an empty package name for an empty list.
pub open spec fn install_entries(module: Seq<char>, packages: Seq<ModulePackages>) -> Seq<(Seq<char>, Seq<char>)>
    decreases packages.len(),
{
    if packages.len() == 0 {
        Seq::empty()
    } else {
        let last = packages.last();
        install_entries(module, packages.drop_last()) + if last.install@.len() == 0 {
            seq![(module, Seq::<char>::empty())]
        } else {
            last.install@.map_values(|p: String| (module, p@))
        }
    }
}

/// Lists the packages a module installs.
pub fn collect_packages(module_name: &String, packages: &Vec<ModulePackages>) -> (r: Vec<InstallPackage>)
    ensures
        r@.len() == install_entries(module_name@, packages@).len(),
        forall|i: int| 0 <= i < r@.len() ==> ((#[trigger] r@[i]).module_name@, r@[i].package@) == install_entries(
            module_name@,
            packages@,
        )[i],
{
    let mut r: Vec<InstallPackage> = Vec::new();
    let mut i: usize = 0;
    while i < packages.len()
        invariant
            i <= packages@.len(),
            r@.len() == install_entries(module_name@, packages@.take(i as int)).len(),
            forall|k: int| 0 <= k < r@.len() ==> ((#[trigger] r@[k]).module_name@, r@[k].package@) == install_entries(
                module_name@,
                packages@.take(i as int),
            )[k],
        decreases packages@.len() - i,
    {
        let ghost before = install_entries(module_name@, packages@.take(i as int));
        let ghost r0 = r@;
        let pk = &packages[i];
        proof {
            assert(packages@.take(i + 1).drop_last() =~= packages@.take(i as int));
        }
        if pk.install.len() == 0 {
            r.push(InstallPackage { module_name: module_name.clone(), package: String::new() });
            proof {
                let after = install_entries(module_name@, packages@.take(i + 1));
                assert(after == before + seq![(module_name@, Seq::<char>::empty())]);
                assert forall|k: int| 0 <= k < r@.len() implies ((#[trigger] r@[k]).module_name@, r@[k].package@) == after[k] by {
                    if k < r0.len() {
                        assert(r@[k] == r0[k]);
                    }
                }
            }
        } else {
            let mut j: usize = 0;
            let ghost added = pk.install@.map_values(|p: String| (module_name@, p@));
            while j < pk.install.len()
                invariant
                    j <= pk.install@.len(),
                    added == pk.install@.map_values(|p: String| (module_name@, p@)),
                    r@.len() == r0.len() + j,
                    r0.len() == before.len(),
                    forall|k: int| 0 <= k < r0.len() ==> #[trigger] r@[k] == r0[k],
                    forall|k: int| 0 <= k < r0.len() ==> ((#[trigger] r0[k]).module_name@, r0[k].package@) == before[k],
                    forall|k: int| 0 <= k < j ==> ((#[trigger] r@[r0.len() + k]).module_name@, r@[r0.len() + k].package@) == added[k],
                decreases pk.install@.len() - j,
            {
                r.push(InstallPackage { module_name: module_name.clone(), package: pk.install[j].clone() });
                j = j + 1;
            }
            proof {
                let after = install_entries(module_name@, packages@.take(i + 1));
                assert(after == before + added);
                assert forall|k: int| 0 <= k < r@.len() implies ((#[trigger] r@[k]).module_name@, r@[k].package@) == after[k] by {
                    if k < r0.len() {
                        assert(r@[k] == r0[k]);
                    } else {
                        let kk = k - r0.len();
                        assert(r@[r0.len() + kk] == r@[k]);
                    }
                }
            }
        }
        i = i + 1;
    }
    proof {
        assert(packages@.take(packages@.len() as int) =~= packages@);
    }
    r
}

/// Keeps the items whose flag is set, in order.
pub open spec fn selected<T>(items: Seq<T>, keep: Seq<bool>) -> Seq<T>
    decreases items.len(),
{
    if items.len() == 0 {
        Seq::empty()
    } else if keep[items.len() - 1] {
        selected(items.drop_last(), keep).push(items.last())
    } else {
        selected(items.drop_last(), keep)
    }
}

/// Retains the items whose condition held; `keep` holds one verdict per item.
pub fn retain_selected<T>(items: Vec<T>, keep: &Vec<bool>) -> (r: Vec<T>)
    requires
        keep@.len() == items@.len(),
    ensures
        r@ == selected(items@, keep@),
{
    let mut rest = items;
    let ghost all = rest@;
    let mut kept: Vec<T> = Vec::new();
    let mut i: usize = 0;
    while i < keep.len()
        invariant
            keep@.len() == all.len(),
            i <= all.len(),
            rest@ == all.skip(i as int),
            kept@ == selected(all.take(i as int), keep@),
        decreases all.len() - i,
    {
        let x = rest.remove(0);
        proof {
            let t = all.take(i + 1);
            assert(t.drop_last() =~= all.take(i as int));
            assert(t.last() == x);
            assert(rest@ =~= all.skip(i + 1));
        }
        if keep[i] {
            kept.push(x);
        }
        i = i + 1;
    }
    proof {
        assert(all.take(all.len() as int) =~= all);
    }
    kept
}

/// The template that renders a condition as `true` or `false`.
pub open spec fn condition_template_spec(condition: Seq<char>) -> Seq<char> {
    "{{#if "@ + condition + "}}true{{else}}false{{/if}}"@
}

/// Builds the template that evaluates a condition.
pub fn condition_template(condition: &str) -> (t: String)
    ensures
        t@ == condition_template_spec(condition@),
{
    let mut t = String::new();
    t.append("{{#if ");
    t.append(condition);
    t.append("}}true{{else}}false{{/if}}");
    proof {
        assert(t@ =~= condition_template_spec(condition@));
    }
    t
}

/// A condition holds when its template renders as `true`.
pub fn condition_holds(rendered: &str) -> (b: bool)
    ensures
        b == (rendered@ == "true"@),
{
    str_eq(rendered, "true")
}

impl Include {
    /// The condition of an include; simple includes have none.
    pub fn condition(&self) -> (c: Option<String>)
        ensures
            self matches Include::Simple(_) ==> c is None,
            self matches Include::Conditional { condition, .. } ==> c == condition,
    {
        match self {
            Include::Simple(_) => None,
            Include::Conditional { condition, .. } => match condition {
                Some(s) => Some(s.clone()),
                None => None,
            },
        }
    }
}

/// The names of the queued modules, in order.
pub fn collect_module_names(modules: &Vec<DotdeployModule>) -> (names: Vec<String>)
    ensures
        names@.len() == modules@.len(),
        forall|i: int| 0 <= i < names@.len() ==> #[trigger] names@[i]@ == modules@[i].name@,
{
    let mut names: Vec<String> = Vec::new();
    let mut i: usize = 0;
    while i < modules.len()
        invariant
            i <= modules@.len(),
            names@.len() == i,
            forall|k: int| 0 <= k < i ==> #[trigger] names@[k]@ == modules@[k].name@,
        decreases modules@.len() - i,
    {
        names.push(modules[i].name.clone());
        i = i + 1;
    }
    names
}

proof fn lemma_commands_prefix(tasks: Seq<ModuleTask>, n: int)
    requires
        0 <= n <= tasks.len(),
    ensures
        task_commands(tasks.take(n)).len() <= task_commands(tasks).len(),
        forall|k: int| 0 <= k < task_commands(tasks.take(n)).len() ==> #[trigger] task_commands(tasks.take(n))[k]
            == task_commands(tasks)[k],
    decreases tasks.len() - n,
{
    if n == tasks.len() {
        assert(tasks.take(n) =~= tasks);
    } else {
        lemma_commands_prefix(tasks, n + 1);
        let t = tasks.take(n + 1);
        assert(t.drop_last() =~= tasks.take(n));
        let a = task_commands(tasks.take(n));
        let b = task_commands(t);
        assert(b == a + t.last().setup@ + t.last().config@ + t.last().remove@ + t.last().update@);
        assert forall|k: int| 0 <= k < a.len() implies #[trigger] a[k] == task_commands(tasks)[k] by {
            assert(a[k] == b[k]);
        }
    }
}

} // verus!
