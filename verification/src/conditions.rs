//! Conditions of module components: a condition is a Handlebars expression
//! that holds when `{{#if condition}}true{{else}}false{{/if}}` renders as
//! `true` with the run's variables.

use vstd::prelude::*;
use vstd::string::StrSliceExecFns;
use crate::text::push_str_chars;
use crate::actions::ModuleAction;
use crate::module_config::{FileConfig, Messages, ModuleConfig, Packages, keys_unique};
use crate::module::{
    condition_holds, condition_template, condition_template_spec, retain_selected, selected, DotdeployModule, Generate, ModuleFile, ModuleMessage,
    ModulePackages, ModuleTask, TaskDefinition,
};

verus! {

/// Handlebars' template registry (with its helpers), passed through opaquely.
#[verifier::external_type_specification]
#[verifier::external_body]
pub struct ExHandlebars<'reg>(handlebars::Handlebars<'reg>);

/// The run's template variables, passed through opaquely.
#[verifier::external_type_specification]
#[verifier::external_body]
pub struct ExJsonValue(serde_json::Value);

/// A rendering error of Handlebars, only told apart from success.
#[verifier::external_type_specification]
#[verifier::external_body]
pub struct ExRenderError(handlebars::RenderError);

/// Renders a template.
///
/// Trusted: calls `Handlebars::render_template`. What it renders depends on
/// the helpers registered (which may run commands) and on the variables, so
/// nothing is claimed of the result. The library calls it through a function
/// value, so that each result is known as one that this call returned for
/// those arguments (`call_ensures`), which is all the contracts above say of
/// it.
#[verifier::external_body]
fn render_template(
    hb: &handlebars::Handlebars<'static>,
    template: &str,
    context: &serde_json::Value,
) -> (r: Result<String, handlebars::RenderError>) {
    hb.render_template(template, context)
}

/// Why a condition could not be evaluated.
#[derive(Debug, Clone, Copy, PartialEq, Eq, Structural)]
pub enum ConditionError {
    /// The condition template did not render.
    RenderFailed,
}

/// What a rendered condition means: it holds exactly when the rendering is
/// `true`; a rendering error is an error.
pub fn condition_outcome(rendered: Result<String, handlebars::RenderError>) -> (r: Result<bool, ConditionError>)
    ensures
        rendered matches Ok(s) ==> r == Ok::<bool, ConditionError>(s@ == "true"@),
        rendered is Err ==> r == Err::<bool, ConditionError>(ConditionError::RenderFailed),
{
    match rendered {
        Ok(s) => Ok(condition_holds(s.as_str())),
        Err(_) => Err(ConditionError::RenderFailed),
    }
}

/// What a rendering of a condition's template means (see
/// [`condition_outcome`]).
pub open spec fn rendered_outcome(rendered: Result<String, handlebars::RenderError>) -> Result<bool, ConditionError> {
    match rendered {
        Ok(s) => Ok(s@ == "true"@),
        Err(_) => Err(ConditionError::RenderFailed),
    }
}

/// `r` is what evaluating `condition` gives: the outcome of a rendering
/// that Handlebars returned for the condition's template with these
/// variables and this registry.
pub closed spec fn evaluated(
    condition: Seq<char>,
    context: &serde_json::Value,
    hb: &handlebars::Handlebars<'static>,
    r: Result<bool, ConditionError>,
) -> bool {
    exists|t: &str, rendered: Result<String, handlebars::RenderError>|
        #![trigger call_ensures(render_template, (hb, t, context), rendered)]
        t@ == condition_template_spec(condition) && call_ensures(render_template, (hb, t, context), rendered) && r
            == rendered_outcome(rendered)
}

/// Evaluates a condition with the run's variables: renders
/// `{{#if condition}}true{{else}}false{{/if}}` and reads the result.
pub fn eval_condition(condition: &str, context: &serde_json::Value, hb: &handlebars::Handlebars<'static>) -> (r: Result<
    bool,
    ConditionError,
>)
    ensures
        evaluated(condition@, context, hb, r),
{
    let template = condition_template(condition);
    let render = render_template;
    let rendered = render(hb, template.as_str(), context);
    let ghost g = rendered;
    let r = condition_outcome(rendered);
    assert(r == rendered_outcome(g));
    r
}

/// Whether a component stays: it has no condition, or its condition was
/// evaluated and holds. A condition that could not be evaluated does not
/// hold.
pub open spec fn stays(condition: Option<String>, outcome: Result<bool, ConditionError>) -> bool {
    condition is None || outcome == Ok::<bool, ConditionError>(true)
}

/// The outcome of the `i`th condition; a missing one counts as a condition
/// that could not be evaluated.
pub open spec fn outcome_at(outcomes: Seq<Result<bool, ConditionError>>, i: int) -> Result<bool, ConditionError> {
    if 0 <= i < outcomes.len() {
        outcomes[i]
    } else {
        Err(ConditionError::RenderFailed)
    }
}

/// Per condition, whether its component stays given the outcomes.
pub open spec fn flags_by(conditions: Seq<Option<String>>, outcomes: Seq<Result<bool, ConditionError>>) -> Seq<bool> {
    Seq::new(conditions.len(), |i: int| stays(conditions[i], outcome_at(outcomes, i)))
}

fn stays_exec(condition: &Option<String>, outcomes: &Vec<Result<bool, ConditionError>>, i: usize) -> (b: bool)
    ensures
        b == stays(*condition, outcome_at(outcomes@, i as int)),
{
    match condition {
        None => true,
        Some(_) => i < outcomes.len() && match &outcomes[i] {
            Ok(b) => *b,
            Err(_) => false,
        },
    }
}

/// Which components stay, given the outcome of each condition (one per
/// condition, in order).
pub fn keep_flags(conditions: &Vec<Option<String>>, outcomes: &Vec<Result<bool, ConditionError>>) -> (keep: Vec<bool>)
    ensures
        keep@ == flags_by(conditions@, outcomes@),
{
    let mut keep: Vec<bool> = Vec::new();
    let mut i: usize = 0;
    while i < conditions.len()
        invariant
            i <= conditions@.len(),
            keep@.len() == i,
            forall|k: int| 0 <= k < i ==> #[trigger] keep@[k] == stays(conditions@[k], outcome_at(outcomes@, k)),
        decreases conditions@.len() - i,
    {
        keep.push(stays_exec(&conditions[i], outcomes, i));
        i = i + 1;
    }
    assert(keep@ =~= flags_by(conditions@, outcomes@));
    keep
}

/// `o` is the outcome for a component with this condition: `Ok(true)`
/// without a condition, else what evaluating the condition gave.
pub open spec fn outcome_for(
    condition: Option<String>,
    context: &serde_json::Value,
    hb: &handlebars::Handlebars<'static>,
    o: Result<bool, ConditionError>,
) -> bool {
    match condition {
        None => o == Ok::<bool, ConditionError>(true),
        Some(c) => evaluated(c@, context, hb, o),
    }
}

/// One outcome per condition, each the one for its own condition.
pub open spec fn outcomes_for(
    conditions: Seq<Option<String>>,
    context: &serde_json::Value,
    hb: &handlebars::Handlebars<'static>,
    outs: Seq<Result<bool, ConditionError>>,
) -> bool {
    &&& outs.len() == conditions.len()
    &&& forall|i: int| 0 <= i < conditions.len() ==> outcome_for(conditions[i], context, hb, #[trigger] outs[i])
}

/// Evaluates each condition that is given; the outcome for a missing one is
/// `Ok(true)`.
fn evaluate_all(conditions: &Vec<Option<String>>, context: &serde_json::Value, hb: &handlebars::Handlebars<'static>) -> (outs: Vec<
    Result<bool, ConditionError>,
>)
    ensures
        outcomes_for(conditions@, context, hb, outs@),
{
    let mut outs: Vec<Result<bool, ConditionError>> = Vec::new();
    let mut i: usize = 0;
    while i < conditions.len()
        invariant
            i <= conditions@.len(),
            outs@.len() == i,
            forall|k: int| 0 <= k < i ==> outcome_for(conditions@[k], context, hb, #[trigger] outs@[k]),
        decreases conditions@.len() - i,
    {
        let o = match &conditions[i] {
            None => Ok(true),
            Some(c) => eval_condition(c.as_str(), context, hb),
        };
        outs.push(o);
        i = i + 1;
    }
    outs
}

/// Which components to keep: those without a condition, and those whose
/// condition, evaluated with these variables, holds. A condition that
/// cannot be evaluated counts as not holding (see [`keep_flags`] for the
/// flags each outcome gives).
pub fn condition_flags(
    conditions: &Vec<Option<String>>,
    context: &serde_json::Value,
    hb: &handlebars::Handlebars<'static>,
) -> (keep: Vec<bool>)
    ensures
        keep@.len() == conditions@.len(),
        forall|i: int| 0 <= i < conditions@.len() && (#[trigger] conditions@[i]) is None ==> keep@[i],
        exists|outs: Seq<Result<bool, ConditionError>>|
            outcomes_for(conditions@, context, hb, outs) && keep@ == #[trigger] flags_by(conditions@, outs),
{
    let outs = evaluate_all(conditions, context, hb);
    keep_flags(conditions, &outs)
}

/// A component of a module that may carry a condition.
pub trait Conditional: Sized {
    /// The component's condition.
    spec fn condition_spec(&self) -> Option<String>;

    /// The component's condition.
    fn condition_of(&self) -> (c: Option<String>)
        ensures
            c == self.condition_spec(),
    ;
}

fn clone_condition(c: &Option<String>) -> (r: Option<String>)
    ensures
        r == *c,
{
    match c {
        Some(s) => Some(s.clone()),
        None => None,
    }
}

impl Conditional for ModuleFile {
    open spec fn condition_spec(&self) -> Option<String> {
        self.condition
    }

    fn condition_of(&self) -> (c: Option<String>) {
        clone_condition(&self.condition)
    }
}

impl Conditional for ModuleTask {
    open spec fn condition_spec(&self) -> Option<String> {
        self.condition
    }

    fn condition_of(&self) -> (c: Option<String>) {
        clone_condition(&self.condition)
    }
}

impl Conditional for TaskDefinition {
    open spec fn condition_spec(&self) -> Option<String> {
        self.condition
    }

    fn condition_of(&self) -> (c: Option<String>) {
        clone_condition(&self.condition)
    }
}

impl Conditional for ModuleMessage {
    open spec fn condition_spec(&self) -> Option<String> {
        self.condition
    }

    fn condition_of(&self) -> (c: Option<String>) {
        clone_condition(&self.condition)
    }
}

impl Conditional for Generate {
    open spec fn condition_spec(&self) -> Option<String> {
        self.condition
    }

    fn condition_of(&self) -> (c: Option<String>) {
        clone_condition(&self.condition)
    }
}

impl Conditional for ModulePackages {
    open spec fn condition_spec(&self) -> Option<String> {
        self.condition
    }

    fn condition_of(&self) -> (c: Option<String>) {
        clone_condition(&self.condition)
    }
}

/// `after` keeps some of `before`, in order, and every one without a condition.
pub open spec fn pruned<T: Conditional>(before: Seq<T>, after: Seq<T>) -> bool {
    exists|keep: Seq<bool>|
        #![trigger selected(before, keep)]
        keep.len() == before.len() && (forall|i: int| 0 <= i < before.len() && (#[trigger] before[i]).condition_spec() is None ==> keep[i])
            && after == selected(before, keep)
}

/// The conditions of the components, in order.
pub open spec fn conditions_of<T: Conditional>(items: Seq<T>) -> Seq<Option<String>> {
    Seq::new(items.len(), |i: int| items[i].condition_spec())
}

/// The components that stay given the outcomes of their conditions, in
/// order.
pub open spec fn kept_by<T: Conditional>(items: Seq<T>, outcomes: Seq<Result<bool, ConditionError>>) -> Seq<T> {
    selected(items, flags_by(conditions_of(items), outcomes))
}

fn conditions_vec<T: Conditional>(items: &Vec<T>) -> (c: Vec<Option<String>>)
    ensures
        c@ == conditions_of(items@),
{
    let mut c: Vec<Option<String>> = Vec::new();
    let mut i: usize = 0;
    while i < items.len()
        invariant
            i <= items@.len(),
            c@.len() == i,
            forall|k: int| 0 <= k < i ==> #[trigger] c@[k] == items@[k].condition_spec(),
        decreases items@.len() - i,
    {
        c.push(items[i].condition_of());
        i = i + 1;
    }
    assert(c@ =~= conditions_of(items@));
    c
}

/// Keeps the components that stay given the outcome of each one's condition
/// (one outcome per component, in order), in order.
pub fn retain_by_outcomes<T: Conditional>(items: Vec<T>, outcomes: &Vec<Result<bool, ConditionError>>) -> (r: Vec<T>)
    ensures
        r@ == kept_by(items@, outcomes@),
{
    let conditions = conditions_vec(&items);
    let keep = keep_flags(&conditions, outcomes);
    retain_selected(items, &keep)
}

proof fn lemma_kept_pruned<T: Conditional>(items: Seq<T>, outcomes: Seq<Result<bool, ConditionError>>)
    ensures
        pruned(items, kept_by(items, outcomes)),
{
    let keep = flags_by(conditions_of(items), outcomes);
    assert(keep.len() == items.len() && (forall|i: int| 0 <= i < items.len() && (#[trigger] items[i]).condition_spec() is None ==> keep[i])
        && kept_by(items, outcomes) == selected(items, keep));
}

/// Keeps the components whose condition holds (or that have none), in
/// order (see [`retain_by_outcomes`] for what each outcome gives).
pub fn retain_met<T: Conditional>(items: Vec<T>, context: &serde_json::Value, hb: &handlebars::Handlebars<'static>) -> (r: Vec<T>)
    ensures
        pruned(items@, r@),
        exists|outs: Seq<Result<bool, ConditionError>>|
            outcomes_for(conditions_of(items@), context, hb, outs) && r@ == #[trigger] kept_by(items@, outs),
{
    let conditions = conditions_vec(&items);
    let outs = evaluate_all(&conditions, context, hb);
    let ghost before = items@;
    let r = retain_by_outcomes(items, &outs);
    proof {
        lemma_kept_pruned(before, outs@);
    }
    r
}

/// The outcomes of the conditions of one task's commands.
pub struct TaskOutcomes {
    pub setup: Vec<Result<bool, ConditionError>>,
    pub config: Vec<Result<bool, ConditionError>>,
    pub update: Vec<Result<bool, ConditionError>>,
    pub remove: Vec<Result<bool, ConditionError>>,
}

/// The outcome of each condition of a module, in the module's order: one per
/// file, task, message, generated file and package list, and for the
/// commands one set per task that stays, in order.
pub struct ModuleOutcomes {
    pub files: Vec<Result<bool, ConditionError>>,
    pub tasks: Vec<Result<bool, ConditionError>>,
    pub commands: Vec<TaskOutcomes>,
    pub messages: Vec<Result<bool, ConditionError>>,
    pub generators: Vec<Result<bool, ConditionError>>,
    pub packages: Vec<Result<bool, ConditionError>>,
}

/// An optional list after its conditions were evaluated: the components that
/// stay, in order.
pub open spec fn kept_opt<T: Conditional>(
    before: Option<Vec<T>>,
    outcomes: Seq<Result<bool, ConditionError>>,
    after: Option<Vec<T>>,
) -> bool {
    match before {
        None => after is None,
        Some(b) => after matches Some(a) && a@ == kept_by(b@, outcomes),
    }
}

/// A task whose commands' conditions were evaluated (`outcomes` is its set,
/// none where missing): each command list keeps the commands that stay.
pub open spec fn task_kept(before: ModuleTask, outcomes: Option<TaskOutcomes>, after: ModuleTask) -> bool {
    &&& after.description == before.description
    &&& after.condition == before.condition
    &&& match outcomes {
        Some(o) => {
            &&& after.setup@ == kept_by(before.setup@, o.setup@)
            &&& after.config@ == kept_by(before.config@, o.config@)
            &&& after.update@ == kept_by(before.update@, o.update@)
            &&& after.remove@ == kept_by(before.remove@, o.remove@)
        },
        None => {
            &&& after.setup@ == kept_by(before.setup@, Seq::empty())
            &&& after.config@ == kept_by(before.config@, Seq::empty())
            &&& after.update@ == kept_by(before.update@, Seq::empty())
            &&& after.remove@ == kept_by(before.remove@, Seq::empty())
        },
    }
}

/// The set of outcomes for the `k`th task that stays, where there is one.
pub open spec fn commands_at(commands: Seq<TaskOutcomes>, k: int) -> Option<TaskOutcomes> {
    if 0 <= k < commands.len() {
        Some(commands[k])
    } else {
        None
    }
}

/// The tasks after their conditions were evaluated: the tasks that stay, in
/// order, each with its commands as [`task_kept`] says.
pub open spec fn tasks_kept(before: Option<Vec<ModuleTask>>, outcomes: ModuleOutcomes, after: Option<Vec<ModuleTask>>) -> bool {
    match before {
        None => after is None,
        Some(b) => after matches Some(a) && a@.len() == kept_by(b@, outcomes.tasks@).len() && forall|k: int|
            0 <= k < a@.len() ==> task_kept(kept_by(b@, outcomes.tasks@)[k], commands_at(outcomes.commands@, k), #[trigger] a@[k]),
    }
}

/// `after` is `before` with the outcomes applied: each list keeps the
/// components that stay, in order; name, location, reason, dependencies and
/// includes are unchanged.
pub open spec fn module_outcomes_applied(before: DotdeployModule, outcomes: ModuleOutcomes, after: DotdeployModule) -> bool {
    &&& after.name == before.name
    &&& after.location == before.location
    &&& after.reason == before.reason
    &&& after.depends_on == before.depends_on
    &&& after.includes == before.includes
    &&& kept_opt(before.files, outcomes.files@, after.files)
    &&& tasks_kept(before.tasks, outcomes, after.tasks)
    &&& kept_opt(before.messages, outcomes.messages@, after.messages)
    &&& kept_opt(before.generators, outcomes.generators@, after.generators)
    &&& kept_opt(before.packages, outcomes.packages@, after.packages)
}

fn retain_opt_by<T: Conditional>(items: Option<Vec<T>>, outcomes: &Vec<Result<bool, ConditionError>>) -> (r: Option<Vec<T>>)
    ensures
        kept_opt(items, outcomes@, r),
{
    match items {
        Some(v) => Some(retain_by_outcomes(v, outcomes)),
        None => None,
    }
}

fn prune_task_by(t: ModuleTask, outcomes: Option<&TaskOutcomes>) -> (r: ModuleTask)
    ensures
        task_kept(
            t,
            match outcomes {
                Some(o) => Some(*o),
                None => None,
            },
            r,
        ),
{
    let none: Vec<Result<bool, ConditionError>> = Vec::new();
    let ModuleTask { description, condition, setup, config, update, remove } = t;
    match outcomes {
        Some(o) => ModuleTask {
            description,
            condition,
            setup: retain_by_outcomes(setup, &o.setup),
            config: retain_by_outcomes(config, &o.config),
            update: retain_by_outcomes(update, &o.update),
            remove: retain_by_outcomes(remove, &o.remove),
        },
        None => ModuleTask {
            description,
            condition,
            setup: retain_by_outcomes(setup, &none),
            config: retain_by_outcomes(config, &none),
            update: retain_by_outcomes(update, &none),
            remove: retain_by_outcomes(remove, &none),
        },
    }
}

fn prune_tasks_by(tasks: Option<Vec<ModuleTask>>, outcomes: &ModuleOutcomes) -> (r: Option<Vec<ModuleTask>>)
    ensures
        tasks_kept(tasks, *outcomes, r),
{
    match tasks {
        Some(ts) => {
            let ghost b = ts@;
            let kept = retain_by_outcomes(ts, &outcomes.tasks);
            let ghost kept_view = kept@;
            let mut rest = kept;
            let mut out: Vec<ModuleTask> = Vec::new();
            let mut k: usize = 0;
            let n = rest.len();
            while k < n
                invariant
                    n == kept_view.len(),
                    kept_view == kept_by(b, outcomes.tasks@),
                    k <= n,
                    rest@ == kept_view.skip(k as int),
                    out@.len() == k,
                    forall|j: int| 0 <= j < k ==> task_kept(kept_view[j], commands_at(outcomes.commands@, j), #[trigger] out@[j]),
                decreases n - k,
            {
                let t = rest.remove(0);
                assert(t == kept_view[k as int]);
                let o = if k < outcomes.commands.len() {
                    Some(&outcomes.commands[k])
                } else {
                    None
                };
                let ghost o0 = out@;
                out.push(prune_task_by(t, o));
                proof {
                    assert(rest@ =~= kept_view.skip(k as int + 1));
                    assert forall|j: int| 0 <= j < k + 1 implies task_kept(
                        kept_view[j],
                        commands_at(outcomes.commands@, j),
                        #[trigger] out@[j],
                    ) by {
                        if j < k {
                            assert(out@[j] == o0[j]);
                        }
                    }
                }
                k = k + 1;
            }
            Some(out)
        },
        None => None,
    }
}

/// The outcomes of a task's commands are those of their own conditions.
pub open spec fn task_outcomes_for(
    task: ModuleTask,
    outcomes: TaskOutcomes,
    context: &serde_json::Value,
    hb: &handlebars::Handlebars<'static>,
) -> bool {
    &&& outcomes_for(conditions_of(task.setup@), context, hb, outcomes.setup@)
    &&& outcomes_for(conditions_of(task.config@), context, hb, outcomes.config@)
    &&& outcomes_for(conditions_of(task.update@), context, hb, outcomes.update@)
    &&& outcomes_for(conditions_of(task.remove@), context, hb, outcomes.remove@)
}

/// The outcomes of a module are those of its own conditions, evaluated with
/// these variables; the commands' sets are those of the tasks that stay, in
/// order.
pub open spec fn module_outcomes_for(
    module: DotdeployModule,
    outcomes: ModuleOutcomes,
    context: &serde_json::Value,
    hb: &handlebars::Handlebars<'static>,
) -> bool {
    &&& list_outcomes_for(module.files, context, hb, outcomes.files@)
    &&& list_outcomes_for(module.tasks, context, hb, outcomes.tasks@)
    &&& match module.tasks {
        Some(ts) => {
            &&& outcomes.commands@.len() == kept_by(ts@, outcomes.tasks@).len()
            &&& forall|k: int|
                0 <= k < outcomes.commands@.len() ==> task_outcomes_for(
                    kept_by(ts@, outcomes.tasks@)[k],
                    #[trigger] outcomes.commands@[k],
                    context,
                    hb,
                )
        },
        None => outcomes.commands@.len() == 0,
    }
    &&& list_outcomes_for(module.messages, context, hb, outcomes.messages@)
    &&& list_outcomes_for(module.generators, context, hb, outcomes.generators@)
    &&& list_outcomes_for(module.packages, context, hb, outcomes.packages@)
}

fn command_outcomes(
    tasks: &Vec<ModuleTask>,
    outs: &Vec<Result<bool, ConditionError>>,
    context: &serde_json::Value,
    hb: &handlebars::Handlebars<'static>,
) -> (commands: Vec<TaskOutcomes>)
    ensures
        commands@.len() == kept_by(tasks@, outs@).len(),
        forall|k: int|
            0 <= k < commands@.len() ==> task_outcomes_for(kept_by(tasks@, outs@)[k], #[trigger] commands@[k], context, hb),
{
    let ghost f = flags_by(conditions_of(tasks@), outs@);
    let mut commands: Vec<TaskOutcomes> = Vec::new();
    let mut i: usize = 0;
    while i < tasks.len()
        invariant
            i <= tasks@.len(),
            f == flags_by(conditions_of(tasks@), outs@),
            commands@.len() == selected(tasks@.take(i as int), f).len(),
            forall|k: int|
                0 <= k < commands@.len() ==> task_outcomes_for(
                    selected(tasks@.take(i as int), f)[k],
                    #[trigger] commands@[k],
                    context,
                    hb,
                ),
        decreases tasks@.len() - i,
    {
        let t = &tasks[i];
        let ghost before = selected(tasks@.take(i as int), f);
        proof {
            assert(tasks@.take(i as int + 1).drop_last() =~= tasks@.take(i as int));
            assert(tasks@.take(i as int + 1).last() == tasks@[i as int]);
            assert(f[i as int] == stays(tasks@[i as int].condition_spec(), outcome_at(outs@, i as int)));
        }
        if stays_exec(&t.condition, outs, i) {
            let setup = evaluate_all(&conditions_vec(&t.setup), context, hb);
            let config = evaluate_all(&conditions_vec(&t.config), context, hb);
            let remove = evaluate_all(&conditions_vec(&t.remove), context, hb);
            let update = evaluate_all(&conditions_vec(&t.update), context, hb);
            let ghost c0 = commands@;
            commands.push(TaskOutcomes { setup, config, update, remove });
            proof {
                assert(selected(tasks@.take(i as int + 1), f) == before.push(tasks@[i as int]));
                assert forall|k: int| 0 <= k < commands@.len() implies task_outcomes_for(
                    selected(tasks@.take(i as int + 1), f)[k],
                    #[trigger] commands@[k],
                    context,
                    hb,
                ) by {
                    if k < c0.len() {
                        assert(commands@[k] == c0[k]);
                    }
                }
            }
        } else {
            assert(selected(tasks@.take(i as int + 1), f) == before);
        }
        i = i + 1;
    }
    assert(tasks@.take(i as int) =~= tasks@);
    commands
}

impl DotdeployModule {
    /// Evaluates every condition of the module, in its order; the commands'
    /// conditions only for the tasks whose own condition holds.
    fn condition_outcomes(&self, context: &serde_json::Value, hb: &handlebars::Handlebars<'static>) -> (o: ModuleOutcomes)
        ensures
            module_outcomes_for(*self, o, context, hb),
    {
        let files = list_outcomes(&self.files, context, hb);
        let tasks = list_outcomes(&self.tasks, context, hb);
        let commands = match &self.tasks {
            Some(ts) => command_outcomes(ts, &tasks, context, hb),
            None => Vec::new(),
        };
        let messages = list_outcomes(&self.messages, context, hb);
        let generators = list_outcomes(&self.generators, context, hb);
        let packages = list_outcomes(&self.packages, context, hb);
        ModuleOutcomes { files, tasks, commands, messages, generators, packages }
    }

    /// Applies the outcomes of the conditions (see
    /// [`module_outcomes_applied`]): what stays is what has no condition or a
    /// condition that holds.
    pub fn apply_outcomes(&mut self, outcomes: &ModuleOutcomes)
        ensures
            module_outcomes_applied(*old(self), *outcomes, *final(self)),
    {
        let files = self.files.take();
        self.files = retain_opt_by(files, &outcomes.files);
        let tasks = self.tasks.take();
        self.tasks = prune_tasks_by(tasks, outcomes);
        let messages = self.messages.take();
        self.messages = retain_opt_by(messages, &outcomes.messages);
        let generators = self.generators.take();
        self.generators = retain_opt_by(generators, &outcomes.generators);
        let packages = self.packages.take();
        self.packages = retain_opt_by(packages, &outcomes.packages);
    }

    /// Drops the files, tasks, task commands, messages, generators and
    /// package lists whose condition does not hold; those without a
    /// condition stay, and the order is kept. Each condition is evaluated
    /// with these variables, and one that cannot be evaluated counts as not
    /// holding.
    pub fn eval_conditions(&mut self, context: &serde_json::Value, hb: &handlebars::Handlebars<'static>)
        ensures
            exists|o: ModuleOutcomes|
                module_outcomes_for(*old(self), o, context, hb) && #[trigger] module_outcomes_applied(*old(self), o, *final(self)),
    {
        let outcomes = self.condition_outcomes(context, hb);
        self.apply_outcomes(&outcomes);
    }
}

impl Conditional for (String, FileConfig) {
    open spec fn condition_spec(&self) -> Option<String> {
        self.1.eval_when
    }

    fn condition_of(&self) -> (c: Option<String>) {
        clone_condition(&self.1.eval_when)
    }
}

impl Conditional for Packages {
    open spec fn condition_spec(&self) -> Option<String> {
        self.eval_when
    }

    fn condition_of(&self) -> (c: Option<String>) {
        clone_condition(&self.eval_when)
    }
}

impl Conditional for Messages {
    open spec fn condition_spec(&self) -> Option<String> {
        self.eval_when
    }

    fn condition_of(&self) -> (c: Option<String>) {
        clone_condition(&self.eval_when)
    }
}

impl Conditional for (String, Generate) {
    open spec fn condition_spec(&self) -> Option<String> {
        self.1.condition
    }

    fn condition_of(&self) -> (c: Option<String>) {
        clone_condition(&self.1.condition)
    }
}

/// An optional list after its conditions were evaluated: the components that
/// stay, in order, and `None` when none stays.
pub open spec fn kept_or_dropped<T: Conditional>(
    before: Option<Vec<T>>,
    outcomes: Seq<Result<bool, ConditionError>>,
    after: Option<Vec<T>>,
) -> bool {
    match before {
        None => after is None,
        Some(b) => if kept_by(b@, outcomes).len() == 0 {
            after is None
        } else {
            after matches Some(a) && a@ == kept_by(b@, outcomes)
        },
    }
}

fn retain_or_drop_by<T: Conditional>(items: Option<Vec<T>>, outcomes: &Vec<Result<bool, ConditionError>>) -> (r: Option<Vec<T>>)
    ensures
        kept_or_dropped(items, outcomes@, r),
{
    match items {
        Some(v) => {
            let kept = retain_by_outcomes(v, outcomes);
            if kept.len() == 0 {
                None
            } else {
                Some(kept)
            }
        },
        None => None,
    }
}

proof fn lemma_selected_within<T>(s: Seq<T>, keep: Seq<bool>, x: T)
    requires
        keep.len() == s.len(),
        selected(s, keep).contains(x),
    ensures
        s.contains(x),
    decreases s.len(),
{
    if s.len() > 0 {
        let init = s.drop_last();
        let k2 = keep.drop_last();
        assert(selected(init, keep) == selected(init, k2)) by {
            lemma_selected_prefix_keep(init, keep, k2);
        }
        if selected(init, keep).contains(x) {
            lemma_selected_within(init, k2, x);
            let i = choose|i: int| 0 <= i < init.len() && init[i] == x;
            assert(s[i] == x);
        } else {
            assert(s[s.len() - 1] == x);
        }
    }
}

proof fn lemma_selected_prefix_keep<T>(s: Seq<T>, k1: Seq<bool>, k2: Seq<bool>)
    requires
        k1.len() >= s.len(),
        k2.len() >= s.len(),
        forall|i: int| 0 <= i < s.len() ==> k1[i] == k2[i],
    ensures
        selected(s, k1) == selected(s, k2),
    decreases s.len(),
{
    if s.len() > 0 {
        lemma_selected_prefix_keep(s.drop_last(), k1, k2);
    }
}

proof fn lemma_selected_members<T>(s: Seq<T>, keep: Seq<bool>)
    requires
        keep.len() >= s.len(),
    ensures
        forall|k: int|
            #![trigger selected(s, keep)[k]]
            0 <= k < selected(s, keep).len() ==> exists|i: int|
                0 <= i < s.len() && keep[i] && #[trigger] s[i] == selected(s, keep)[k],
        forall|i: int| 0 <= i < s.len() && keep[i] ==> selected(s, keep).contains(#[trigger] s[i]),
    decreases s.len(),
{
    if s.len() > 0 {
        let init = s.drop_last();
        lemma_selected_members(init, keep);
        let sel0 = selected(init, keep);
        let sel = selected(s, keep);
        let last = s.len() - 1;
        if keep[last] {
            assert(sel == sel0.push(s[last]));
        } else {
            assert(sel == sel0);
        }
        assert forall|k: int| #![trigger sel[k]] 0 <= k < sel.len() implies exists|i: int|
            0 <= i < s.len() && keep[i] && #[trigger] s[i] == sel[k] by {
            if k < sel0.len() {
                assert(sel[k] == sel0[k]);
                let i = choose|i: int| 0 <= i < init.len() && keep[i] && #[trigger] init[i] == sel0[k];
                assert(s[i] == init[i]);
            } else {
                assert(s[last] == sel[k] && keep[last]);
            }
        }
        assert forall|i: int| 0 <= i < s.len() && keep[i] implies sel.contains(#[trigger] s[i]) by {
            if i < s.len() - 1 {
                assert(init[i] == s[i]);
                assert(sel0.contains(init[i]));
                let k = choose|k: int| 0 <= k < sel0.len() && sel0[k] == init[i];
                assert(sel[k] == sel0[k]);
            } else {
                assert(sel[sel.len() - 1] == s[i]);
            }
        }
    }
}

/// `x` is a component of `items` whose condition is missing or evaluated to
/// `Ok(true)`.
pub open spec fn kept_member<T: Conditional>(items: Seq<T>, outcomes: Seq<Result<bool, ConditionError>>, x: T) -> bool {
    exists|i: int|
        0 <= i < items.len() && #[trigger] items[i] == x && (items[i].condition_spec() is None || (i < outcomes.len()
            && outcomes[i] == Ok::<bool, ConditionError>(true)))
}

/// What stays of a list after its conditions were evaluated: every
/// component that stays is one of the list whose condition is missing or
/// evaluated to `Ok(true)`, and every component without a condition, or
/// whose condition evaluated to `Ok(true)`, stays. A condition that renders
/// `false`, or does not render, drops its component.
pub proof fn lemma_kept_by<T: Conditional>(items: Seq<T>, outcomes: Seq<Result<bool, ConditionError>>)
    ensures
        forall|k: int|
            0 <= k < kept_by(items, outcomes).len() ==> kept_member(items, outcomes, #[trigger] kept_by(items, outcomes)[k]),
        forall|i: int|
            0 <= i < items.len() && ((#[trigger] items[i]).condition_spec() is None || (i < outcomes.len() && outcomes[i]
                == Ok::<bool, ConditionError>(true))) ==> kept_by(items, outcomes).contains(items[i]),
{
    let f = flags_by(conditions_of(items), outcomes);
    lemma_selected_members(items, f);
    assert forall|k: int| 0 <= k < kept_by(items, outcomes).len() implies kept_member(
        items,
        outcomes,
        #[trigger] kept_by(items, outcomes)[k],
    ) by {
        assert(kept_by(items, outcomes)[k] == selected(items, f)[k]);
        let i = choose|i: int| 0 <= i < items.len() && f[i] && #[trigger] items[i] == selected(items, f)[k];
        assert(f[i] == stays(conditions_of(items)[i], outcome_at(outcomes, i)));
        assert(conditions_of(items)[i] == items[i].condition_spec());
    }
    assert forall|i: int|
        0 <= i < items.len() && ((#[trigger] items[i]).condition_spec() is None || (i < outcomes.len() && outcomes[i]
            == Ok::<bool, ConditionError>(true))) implies kept_by(items, outcomes).contains(items[i]) by {
        assert(f[i] == stays(conditions_of(items)[i], outcome_at(outcomes, i)));
        assert(conditions_of(items)[i] == items[i].condition_spec());
    }
}

/// Each kind of component is judged by its own condition field: the
/// condition of a file, task, task command, message, generated file and
/// package list of a module, and of a configuration's files, package lists,
/// messages, generated files and actions, is the one written for it.
pub proof fn lemma_conditions_are_own(
    file: ModuleFile,
    task: ModuleTask,
    command: TaskDefinition,
    message: ModuleMessage,
    generator: Generate,
    packages: ModulePackages,
    config_file: (String, FileConfig),
    config_packages: Packages,
    config_message: Messages,
    config_generate: (String, Generate),
    action: ModuleAction,
)
    ensures
        file.condition_spec() == file.condition,
        task.condition_spec() == task.condition,
        command.condition_spec() == command.condition,
        message.condition_spec() == message.condition,
        generator.condition_spec() == generator.condition,
        packages.condition_spec() == packages.condition,
        config_file.condition_spec() == config_file.1.eval_when,
        config_packages.condition_spec() == config_packages.eval_when,
        config_message.condition_spec() == config_message.eval_when,
        config_generate.condition_spec() == config_generate.1.condition,
        action.condition_spec() == action.eval_when,
{
}

proof fn lemma_selected_keys_unique(s: Seq<(String, FileConfig)>, keep: Seq<bool>)
    requires
        keep.len() == s.len(),
        keys_unique(s),
    ensures
        keys_unique(selected(s, keep)),
    decreases s.len(),
{
    if s.len() > 0 {
        let init = s.drop_last();
        let k2 = keep.drop_last();
        assert(keys_unique(init)) by {
            assert forall|i: int, j: int| 0 <= i < init.len() && 0 <= j < init.len() && i != j implies #[trigger] init[i].0@ != #[trigger] init[j].0@ by {
                assert(init[i] == s[i] && init[j] == s[j]);
            }
        }
        lemma_selected_prefix_keep(init, keep, k2);
        lemma_selected_keys_unique(init, k2);
        let sel = selected(init, keep);
        if keep[s.len() - 1] {
            let r = sel.push(s.last());
            assert forall|i: int, j: int| 0 <= i < r.len() && 0 <= j < r.len() && i != j implies #[trigger] r[i].0@ != #[trigger] r[j].0@ by {
                if i == sel.len() || j == sel.len() {
                    let o = if i == sel.len() { j } else { i };
                    assert(sel.contains(sel[o]));
                    lemma_selected_within(init, k2, sel[o]);
                    let m = choose|m: int| 0 <= m < init.len() && init[m] == sel[o];
                    assert(s[m] == init[m]);
                    assert(s[m].0@ != s[s.len() - 1].0@);
                } else {
                    assert(r[i] == sel[i] && r[j] == sel[j]);
                }
            }
        }
    }
}

impl Conditional for ModuleAction {
    open spec fn condition_spec(&self) -> Option<String> {
        self.eval_when
    }

    fn condition_of(&self) -> (c: Option<String>) {
        clone_condition(&self.eval_when)
    }
}

/// The outcomes for the `i`th stage; none where they are missing.
pub open spec fn stage_outcomes_at(outcomes: Seq<Vec<Result<bool, ConditionError>>>, i: int) -> Seq<Result<bool, ConditionError>> {
    if 0 <= i < outcomes.len() {
        outcomes[i]@
    } else {
        Seq::empty()
    }
}

/// The outcomes for the `i`th phase; none where they are missing.
pub open spec fn phase_outcomes_at(outcomes: Seq<Vec<Vec<Result<bool, ConditionError>>>>, i: int) -> Seq<
    Vec<Result<bool, ConditionError>>,
> {
    if 0 <= i < outcomes.len() {
        outcomes[i]@
    } else {
        Seq::empty()
    }
}

/// The stages of a phase after their conditions were evaluated (one list of
/// outcomes per stage): each stage keeps the actions that stay, and a stage
/// left empty is dropped, the order kept.
pub open spec fn stages_kept<T: Conditional>(
    before: Seq<(String, Vec<T>)>,
    outcomes: Seq<Vec<Result<bool, ConditionError>>>,
    after: Seq<(String, Vec<T>)>,
) -> bool
    decreases before.len(),
{
    if before.len() == 0 {
        after.len() == 0
    } else {
        let v = kept_by(before.last().1@, stage_outcomes_at(outcomes, before.len() - 1));
        if v.len() == 0 {
            stages_kept(before.drop_last(), outcomes, after)
        } else {
            after.len() > 0 && after.last().0 == before.last().0 && after.last().1@ == v && stages_kept(
                before.drop_last(),
                outcomes,
                after.drop_last(),
            )
        }
    }
}

/// The phases after their conditions were evaluated (one list per phase):
/// each phase's stages as [`stages_kept`] says, and a phase left without
/// stages dropped, the order kept.
pub open spec fn phases_kept<T: Conditional>(
    before: Seq<(String, Vec<(String, Vec<T>)>)>,
    outcomes: Seq<Vec<Vec<Result<bool, ConditionError>>>>,
    after: Seq<(String, Vec<(String, Vec<T>)>)>,
) -> bool
    decreases before.len(),
{
    if before.len() == 0 {
        after.len() == 0
    } else {
        let o = phase_outcomes_at(outcomes, before.len() - 1);
        if stages_kept(before.last().1@, o, Seq::empty()) {
            phases_kept(before.drop_last(), outcomes, after)
        } else {
            after.len() > 0 && after.last().0 == before.last().0 && stages_kept(before.last().1@, o, after.last().1@)
                && phases_kept(before.drop_last(), outcomes, after.drop_last())
        }
    }
}

/// Optional phases after their conditions were evaluated, dropped when no
/// phase is left.
pub open spec fn nested_kept_or_dropped<T: Conditional>(
    before: Option<Vec<(String, Vec<(String, Vec<T>)>)>>,
    outcomes: Seq<Vec<Vec<Result<bool, ConditionError>>>>,
    after: Option<Vec<(String, Vec<(String, Vec<T>)>)>>,
) -> bool {
    match before {
        None => after is None,
        Some(b) => if phases_kept(b@, outcomes, Seq::empty()) {
            after is None
        } else {
            after matches Some(a) && phases_kept(b@, outcomes, a@)
        },
    }
}

proof fn lemma_stages_kept_empty<T: Conditional>(
    before: Seq<(String, Vec<T>)>,
    outcomes: Seq<Vec<Result<bool, ConditionError>>>,
    after: Seq<(String, Vec<T>)>,
)
    requires
        stages_kept(before, outcomes, after),
    ensures
        after.len() == 0 <==> stages_kept(before, outcomes, Seq::empty()),
    decreases before.len(),
{
    if before.len() > 0 {
        let v = kept_by(before.last().1@, stage_outcomes_at(outcomes, before.len() - 1));
        if v.len() == 0 {
            lemma_stages_kept_empty(before.drop_last(), outcomes, after);
        }
    } else {
        assert(after =~= Seq::<(String, Vec<T>)>::empty());
    }
}

proof fn lemma_phases_kept_empty<T: Conditional>(
    before: Seq<(String, Vec<(String, Vec<T>)>)>,
    outcomes: Seq<Vec<Vec<Result<bool, ConditionError>>>>,
    after: Seq<(String, Vec<(String, Vec<T>)>)>,
)
    requires
        phases_kept(before, outcomes, after),
    ensures
        after.len() == 0 <==> phases_kept(before, outcomes, Seq::empty()),
    decreases before.len(),
{
    if before.len() > 0 {
        let o = phase_outcomes_at(outcomes, before.len() - 1);
        if stages_kept(before.last().1@, o, Seq::empty()) {
            lemma_phases_kept_empty(before.drop_last(), outcomes, after);
        }
    } else {
        assert(after =~= Seq::<(String, Vec<(String, Vec<T>)>)>::empty());
    }
}

fn prune_stages_by<T: Conditional>(stages: Vec<(String, Vec<T>)>, outcomes: &Vec<Vec<Result<bool, ConditionError>>>) -> (r: Vec<
    (String, Vec<T>),
>)
    ensures
        stages_kept(stages@, outcomes@, r@),
{
    let ghost all = stages@;
    let mut rest = stages;
    let mut out: Vec<(String, Vec<T>)> = Vec::new();
    let mut i: usize = 0;
    let n = rest.len();
    let none: Vec<Result<bool, ConditionError>> = Vec::new();
    assert(all.take(0) =~= Seq::<(String, Vec<T>)>::empty());
    while i < n
        invariant
            n == all.len(),
            i <= n,
            rest@ == all.skip(i as int),
            none@.len() == 0,
            stages_kept(all.take(i as int), outcomes@, out@),
        decreases n - i,
    {
        let (name, items) = rest.remove(0);
        proof {
            assert(all.take(i as int + 1).drop_last() =~= all.take(i as int));
            assert((name, items) == all[i as int]);
            assert(rest@ =~= all.skip(i as int + 1));
        }
        let o = if i < outcomes.len() {
            &outcomes[i]
        } else {
            &none
        };
        assert(o@ =~= stage_outcomes_at(outcomes@, i as int));
        let kept = retain_by_outcomes(items, o);
        let ghost out0 = out@;
        if kept.len() > 0 {
            out.push((name, kept));
            proof {
                assert(out@.drop_last() =~= out0);
            }
        }
        i = i + 1;
    }
    assert(all.take(n as int) =~= all);
    out
}

fn prune_phases_by<T: Conditional>(
    phases: Vec<(String, Vec<(String, Vec<T>)>)>,
    outcomes: &Vec<Vec<Vec<Result<bool, ConditionError>>>>,
) -> (r: Vec<(String, Vec<(String, Vec<T>)>)>)
    ensures
        phases_kept(phases@, outcomes@, r@),
{
    let ghost all = phases@;
    let mut rest = phases;
    let mut out: Vec<(String, Vec<(String, Vec<T>)>)> = Vec::new();
    let mut i: usize = 0;
    let n = rest.len();
    let none: Vec<Vec<Result<bool, ConditionError>>> = Vec::new();
    assert(all.take(0) =~= Seq::<(String, Vec<(String, Vec<T>)>)>::empty());
    while i < n
        invariant
            n == all.len(),
            i <= n,
            rest@ == all.skip(i as int),
            none@.len() == 0,
            phases_kept(all.take(i as int), outcomes@, out@),
        decreases n - i,
    {
        let (name, stages) = rest.remove(0);
        proof {
            assert(all.take(i as int + 1).drop_last() =~= all.take(i as int));
            assert((name, stages) == all[i as int]);
            assert(rest@ =~= all.skip(i as int + 1));
        }
        let o = if i < outcomes.len() {
            &outcomes[i]
        } else {
            &none
        };
        assert(o@ =~= phase_outcomes_at(outcomes@, i as int));
        let ghost before_stages = stages@;
        let kept = prune_stages_by(stages, o);
        proof {
            lemma_stages_kept_empty(before_stages, o@, kept@);
        }
        let ghost out0 = out@;
        if kept.len() > 0 {
            out.push((name, kept));
            proof {
                assert(out@.drop_last() =~= out0);
            }
        } else {
            assert(kept@ =~= Seq::<(String, Vec<T>)>::empty());
        }
        i = i + 1;
    }
    assert(all.take(n as int) =~= all);
    out
}

fn prune_actions_by<T: Conditional>(
    actions: Option<Vec<(String, Vec<(String, Vec<T>)>)>>,
    outcomes: &Vec<Vec<Vec<Result<bool, ConditionError>>>>,
) -> (r: Option<Vec<(String, Vec<(String, Vec<T>)>)>>)
    ensures
        nested_kept_or_dropped(actions, outcomes@, r),
{
    match actions {
        None => None,
        Some(phases) => {
            let ghost b = phases@;
            let kept = prune_phases_by(phases, outcomes);
            proof {
                lemma_phases_kept_empty(b, outcomes@, kept@);
            }
            if kept.len() == 0 {
                assert(kept@ =~= Seq::<(String, Vec<(String, Vec<T>)>)>::empty());
                None
            } else {
                Some(kept)
            }
        },
    }
}

/// The outcome of each condition of a module's configuration, in the
/// configuration's order: one per file, generated file, package list and
/// message, and for the actions one list per stage of each phase.
pub struct ConfigOutcomes {
    pub files: Vec<Result<bool, ConditionError>>,
    pub generate: Vec<Result<bool, ConditionError>>,
    pub actions: Vec<Vec<Vec<Result<bool, ConditionError>>>>,
    pub packages: Vec<Result<bool, ConditionError>>,
    pub messages: Vec<Result<bool, ConditionError>>,
}

/// `after` is `before` with the outcomes applied: each list keeps the
/// components that stay, in order, and a list, stage or phase left empty is
/// dropped; the dependencies and variables are unchanged.
pub open spec fn outcomes_applied(before: ModuleConfig, outcomes: ConfigOutcomes, after: ModuleConfig) -> bool {
    &&& after.depends == before.depends
    &&& after.context_vars == before.context_vars
    &&& kept_or_dropped(before.files, outcomes.files@, after.files)
    &&& kept_or_dropped(before.generate, outcomes.generate@, after.generate)
    &&& nested_kept_or_dropped(before.actions, outcomes.actions@, after.actions)
    &&& kept_or_dropped(before.packages, outcomes.packages@, after.packages)
    &&& kept_or_dropped(before.messages, outcomes.messages@, after.messages)
}

/// One outcome per component of an optional list, each for the
/// component's own condition.
pub open spec fn list_outcomes_for<T: Conditional>(
    items: Option<Vec<T>>,
    context: &serde_json::Value,
    hb: &handlebars::Handlebars<'static>,
    outs: Seq<Result<bool, ConditionError>>,
) -> bool {
    match items {
        Some(v) => outcomes_for(conditions_of(v@), context, hb, outs),
        None => outs.len() == 0,
    }
}

/// One list of outcomes per stage of each phase, each outcome for its own
/// action's condition.
pub open spec fn action_outcomes_for<T: Conditional>(
    actions: Option<Vec<(String, Vec<(String, Vec<T>)>)>>,
    context: &serde_json::Value,
    hb: &handlebars::Handlebars<'static>,
    outs: Seq<Vec<Vec<Result<bool, ConditionError>>>>,
) -> bool {
    match actions {
        None => outs.len() == 0,
        Some(phases) => {
            &&& outs.len() == phases@.len()
            &&& forall|i: int| 0 <= i < phases@.len() ==> stage_outcomes_for(phases@[i].1@, context, hb, #[trigger] outs[i]@)
        },
    }
}

/// One list of outcomes per stage, each outcome for its own action's
/// condition.
pub open spec fn stage_outcomes_for<T: Conditional>(
    stages: Seq<(String, Vec<T>)>,
    context: &serde_json::Value,
    hb: &handlebars::Handlebars<'static>,
    outs: Seq<Vec<Result<bool, ConditionError>>>,
) -> bool {
    &&& outs.len() == stages.len()
    &&& forall|j: int| 0 <= j < stages.len() ==> outcomes_for(conditions_of(stages[j].1@), context, hb, #[trigger] outs[j]@)
}

/// The outcomes of a configuration are those of its own conditions,
/// evaluated with these variables.
pub open spec fn config_outcomes_for(
    config: ModuleConfig,
    outcomes: ConfigOutcomes,
    context: &serde_json::Value,
    hb: &handlebars::Handlebars<'static>,
) -> bool {
    &&& list_outcomes_for(config.files, context, hb, outcomes.files@)
    &&& list_outcomes_for(config.generate, context, hb, outcomes.generate@)
    &&& action_outcomes_for(config.actions, context, hb, outcomes.actions@)
    &&& list_outcomes_for(config.packages, context, hb, outcomes.packages@)
    &&& list_outcomes_for(config.messages, context, hb, outcomes.messages@)
}

fn list_outcomes<T: Conditional>(items: &Option<Vec<T>>, context: &serde_json::Value, hb: &handlebars::Handlebars<'static>) -> (outs: Vec<
    Result<bool, ConditionError>,
>)
    ensures
        list_outcomes_for(*items, context, hb, outs@),
{
    match items {
        Some(v) => {
            let conditions = conditions_vec(v);
            evaluate_all(&conditions, context, hb)
        },
        None => Vec::new(),
    }
}

fn action_outcomes(
    actions: &Option<Vec<(String, Vec<(String, Vec<ModuleAction>)>)>>,
    context: &serde_json::Value,
    hb: &handlebars::Handlebars<'static>,
) -> (outs: Vec<Vec<Vec<Result<bool, ConditionError>>>>)
    ensures
        action_outcomes_for(*actions, context, hb, outs@),
{
    let mut outs: Vec<Vec<Vec<Result<bool, ConditionError>>>> = Vec::new();
    if let Some(phases) = actions {
        let mut i: usize = 0;
        while i < phases.len()
            invariant
                i <= phases@.len(),
                outs@.len() == i,
                forall|k: int| 0 <= k < i ==> stage_outcomes_for(phases@[k].1@, context, hb, #[trigger] outs@[k]@),
            decreases phases@.len() - i,
        {
            let stages = &phases[i].1;
            let mut per_stage: Vec<Vec<Result<bool, ConditionError>>> = Vec::new();
            let mut j: usize = 0;
            while j < stages.len()
                invariant
                    j <= stages@.len(),
                    per_stage@.len() == j,
                    forall|m: int| 0 <= m < j ==> outcomes_for(conditions_of(stages@[m].1@), context, hb, #[trigger] per_stage@[m]@),
                decreases stages@.len() - j,
            {
                let conditions = conditions_vec(&stages[j].1);
                per_stage.push(evaluate_all(&conditions, context, hb));
                j = j + 1;
            }
            outs.push(per_stage);
            i = i + 1;
        }
    }
    outs
}

impl ModuleConfig {
    /// Evaluates every condition of the configuration, in its order.
    fn condition_outcomes(&self, context: &serde_json::Value, hb: &handlebars::Handlebars<'static>) -> (o: ConfigOutcomes)
        ensures
            config_outcomes_for(*self, o, context, hb),
    {
        let files = list_outcomes(&self.files, context, hb);
        let generate = list_outcomes(&self.generate, context, hb);
        let actions = action_outcomes(&self.actions, context, hb);
        let packages = list_outcomes(&self.packages, context, hb);
        let messages = list_outcomes(&self.messages, context, hb);
        ConfigOutcomes { files, generate, actions, packages, messages }
    }

    /// Applies the outcomes of the conditions (see [`outcomes_applied`]):
    /// what stays is what has no condition or a condition that holds.
    pub fn apply_outcomes(&mut self, outcomes: &ConfigOutcomes)
        requires
            old(self).wf(),
        ensures
            final(self).wf(),
            outcomes_applied(*old(self), *outcomes, *final(self)),
    {
        let files = self.files.take();
        let ghost before = files;
        let kept = retain_or_drop_by(files, &outcomes.files);
        proof {
            if kept is Some {
                let b = before->Some_0@;
                lemma_selected_keys_unique(b, flags_by(conditions_of(b), outcomes.files@));
            }
        }
        self.files = kept;
        let generate = self.generate.take();
        self.generate = retain_or_drop_by(generate, &outcomes.generate);
        let actions = self.actions.take();
        self.actions = prune_actions_by(actions, &outcomes.actions);
        let packages = self.packages.take();
        self.packages = retain_or_drop_by(packages, &outcomes.packages);
        let messages = self.messages.take();
        self.messages = retain_or_drop_by(messages, &outcomes.messages);
    }

    /// Drops the files, generated files, actions, package lists and messages
    /// whose condition does not hold (those without one stay, in order); a
    /// list, stage or phase left empty is dropped. Each condition is
    /// evaluated with these variables, and one that cannot be evaluated
    /// counts as not holding.
    pub fn eval_conditionals(&mut self, context: &serde_json::Value, hb: &handlebars::Handlebars<'static>)
        requires
            old(self).wf(),
        ensures
            final(self).wf(),
            exists|o: ConfigOutcomes|
                config_outcomes_for(*old(self), o, context, hb) && #[trigger] outcomes_applied(*old(self), o, *final(self)),
    {
        let outcomes = self.condition_outcomes(context, hb);
        self.apply_outcomes(&outcomes);
    }
}

/// The parts written one after the other.
pub open spec fn concat(parts: Seq<Seq<char>>) -> Seq<char>
    decreases parts.len(),
{
    if parts.len() == 0 {
        Seq::empty()
    } else {
        concat(parts.drop_last()) + parts.last()
    }
}

/// How many parts a generated file has: the text to prepend, one per
/// snippet, and the text to append, where given.
pub open spec fn part_count(prepend: &Option<String>, snippets: nat, append: &Option<String>) -> nat {
    (if prepend is Some { 1nat } else { 0nat }) + snippets + (if append is Some { 1nat } else { 0nat })
}

/// `content` is what joining the rendered parts gives: `None` when they
/// are empty, else their concatenation.
pub open spec fn joined(content: Option<String>, rendered: Seq<Seq<char>>) -> bool {
    if concat(rendered).len() == 0 {
        content is None
    } else {
        content matches Some(s) && s@ == concat(rendered)
    }
}

/// The content of a generated file from its rendered parts, in order;
/// `None` when it is empty, as an empty file is not written.
pub fn join_rendered(parts: &Vec<String>) -> (r: Option<String>)
    ensures
        concat(parts.deep_view()).len() == 0 ==> r is None,
        concat(parts.deep_view()).len() > 0 ==> (r matches Some(s) && s@ == concat(parts.deep_view())),
{
    let mut s = String::new();
    let mut i: usize = 0;
    while i < parts.len()
        invariant
            i <= parts@.len(),
            s@ == concat(parts.deep_view().take(i as int)),
        decreases parts@.len() - i,
    {
        assert(parts.deep_view().take(i as int + 1).drop_last() =~= parts.deep_view().take(i as int));
        push_str_chars(&mut s, parts[i].as_str());
        i = i + 1;
    }
    assert(parts.deep_view().take(i as int) =~= parts.deep_view());
    if s.as_str().unicode_len() == 0 {
        None
    } else {
        Some(s)
    }
}

/// `out` is a rendering that Handlebars returned for `template` with these
/// variables and this registry.
pub closed spec fn rendered_as(
    template: Seq<char>,
    context: &serde_json::Value,
    hb: &handlebars::Handlebars<'static>,
    out: Seq<char>,
) -> bool {
    exists|t: &str, x: String|
        #![trigger call_ensures(render_template, (hb, t, context), Ok::<String, handlebars::RenderError>(x))]
        t@ == template && x@ == out && call_ensures(render_template, (hb, t, context), Ok::<String, handlebars::RenderError>(x))
}

/// Handlebars returned an error for `template` with these variables and
/// this registry.
pub closed spec fn render_failed(template: Seq<char>, context: &serde_json::Value, hb: &handlebars::Handlebars<'static>) -> bool {
    exists|t: &str, e: handlebars::RenderError|
        #![trigger call_ensures(render_template, (hb, t, context), Err::<String, handlebars::RenderError>(e))]
        t@ == template && call_ensures(render_template, (hb, t, context), Err::<String, handlebars::RenderError>(e))
}

fn render_part(hb: &handlebars::Handlebars<'static>, template: &str, context: &serde_json::Value) -> (r: Result<
    String,
    handlebars::RenderError,
>)
    ensures
        r matches Ok(x) ==> rendered_as(template@, context, hb, x@),
        r is Err ==> render_failed(template@, context, hb),
{
    let render = render_template;
    let r = render(hb, template, context);
    proof {
        match &r {
            Ok(x) => {
                assert(call_ensures(render_template, (hb, template, context), Ok::<String, handlebars::RenderError>(*x)));
            },
            Err(e) => {
                assert(call_ensures(render_template, (hb, template, context), Err::<String, handlebars::RenderError>(*e)));
            },
        }
    }
    r
}

/// The text as an optional part.
pub open spec fn opt_part(o: Option<String>) -> Seq<Seq<char>> {
    match o {
        Some(s) => seq![s@],
        None => Seq::empty(),
    }
}

/// The templates of a generated file, in order: the text to prepend, each
/// snippet, the text to append.
pub open spec fn part_templates(prepend: Option<String>, snippets: Seq<String>, append: Option<String>) -> Seq<Seq<char>> {
    opt_part(prepend) + snippets.map_values(|x: String| x@) + opt_part(append)
}

/// Renders the parts of a generated file (the text to prepend, each
/// module's snippet, the text to append, in that order) and joins the
/// renderings (see [`join_rendered`]); fails when a part does not render.
pub fn generate_content(
    prepend: &Option<String>,
    snippets: &Vec<String>,
    append: &Option<String>,
    context: &serde_json::Value,
    hb: &handlebars::Handlebars<'static>,
) -> (r: Result<Option<String>, ConditionError>)
    ensures
        prepend is None && snippets@.len() == 0 && append is None ==> r == Ok::<Option<String>, ConditionError>(None),
        r is Err ==> r == Err::<Option<String>, ConditionError>(ConditionError::RenderFailed) && exists|k: int|
            0 <= k < part_templates(*prepend, snippets@, *append).len() && render_failed(
                #[trigger] part_templates(*prepend, snippets@, *append)[k],
                context,
                hb,
            ),
        r matches Ok(o) ==> exists|rendered: Seq<Seq<char>>|
            rendered.len() == part_templates(*prepend, snippets@, *append).len() && (forall|k: int|
                0 <= k < rendered.len() ==> rendered_as(part_templates(*prepend, snippets@, *append)[k], context, hb, #[trigger] rendered[k]))
                && #[trigger] joined(o, rendered),
{
    let ghost tpls = part_templates(*prepend, snippets@, *append);
    let ghost pre = opt_part(*prepend);
    let ghost mid = snippets@.map_values(|x: String| x@);
    assert(tpls == pre + mid + opt_part(*append));
    let mut parts: Vec<String> = Vec::new();
    if let Some(p) = prepend {
        match render_part(hb, p.as_str(), context) {
            Ok(x) => parts.push(x),
            Err(_) => {
                assert(tpls[0] == p@);
                assert(render_failed(part_templates(*prepend, snippets@, *append)[0], context, hb));
                return Err(ConditionError::RenderFailed);
            },
        }
    }
    let mut i: usize = 0;
    while i < snippets.len()
        invariant
            i <= snippets@.len(),
            tpls == pre + mid + opt_part(*append),
            pre == opt_part(*prepend),
            mid == snippets@.map_values(|x: String| x@),
            parts@.len() == pre.len() + i,
            forall|k: int| 0 <= k < parts@.len() ==> rendered_as(tpls[k], context, hb, #[trigger] parts@[k]@),
        decreases snippets@.len() - i,
    {
        assert(tpls[pre.len() + i] == snippets@[i as int]@);
        match render_part(hb, snippets[i].as_str(), context) {
            Ok(x) => parts.push(x),
            Err(_) => {
                assert(render_failed(part_templates(*prepend, snippets@, *append)[pre.len() + i], context, hb));
                return Err(ConditionError::RenderFailed);
            },
        }
        i = i + 1;
    }
    if let Some(a) = append {
        assert(tpls[pre.len() + mid.len() as int] == a@);
        match render_part(hb, a.as_str(), context) {
            Ok(x) => parts.push(x),
            Err(_) => {
                assert(render_failed(part_templates(*prepend, snippets@, *append)[pre.len() + mid.len() as int], context, hb));
                return Err(ConditionError::RenderFailed);
            },
        }
    }
    assert(parts@.len() == tpls.len());
    let o = join_rendered(&parts);
    assert(joined(o, parts.deep_view()));
    assert forall|k: int| 0 <= k < parts.deep_view().len() implies rendered_as(tpls[k], context, hb, #[trigger] parts.deep_view()[k]) by {
        assert(parts.deep_view()[k] == parts@[k]@);
    }
    Ok(o)
}

} // verus!
