use vstd::prelude::*;
use vstd::relations::sorted_by;
use crate::catalog::{scheme_script_filename, scheme_script_filename_spec};
use crate::errors::{ErrorModel, SwitchError};
use crate::hooks::{
    hook_plan_of, is_hook_name, lex_leq, lex_leq_fn, select_hooks, HookEnvironment,
    HookEnvironmentModel,
};
use crate::source::{
    bundle_has_hook, bundle_has_scheme, bundle_hook_contents, bundle_hook_names,
    bundle_lookup_hook, bundle_lookup_scheme, bundle_scheme_contents, hooks_dir, hooks_dir_spec,
    join_path, join_spec, theme_script_path, theme_script_path_spec, SourceModel, ThemeSource,
};
use crate::theme::{valid_theme_name, ThemeName};

verus! {

/// Everything a switch is asked to do: the requested theme, the resolved
/// source, and the paths of the persisted state.
pub struct SwitchRequest {
    pub theme_name: ThemeName,
    pub config_path: String,
    pub source: ThemeSource,
    pub colorscheme_path: String,
    pub theme_name_path: String,
}

/// The mathematical shape of a `SwitchRequest`.
pub struct RequestModel {
    pub theme_name: Seq<char>,
    pub config_path: Seq<char>,
    pub source: SourceModel,
    pub colorscheme_path: Seq<char>,
    pub theme_name_path: Seq<char>,
}

impl View for SwitchRequest {
    type V = RequestModel;

    open spec fn view(&self) -> RequestModel {
        RequestModel {
            theme_name: self.theme_name@,
            config_path: self.config_path@,
            source: self.source@,
            colorscheme_path: self.colorscheme_path@,
            theme_name_path: self.theme_name_path@,
        }
    }
}

/// How a finished switch ended: a real switch, or a request for the theme
/// that was already active, which is a designed no-op, not an error.
#[derive(Debug, PartialEq, Eq)]
pub enum SwitchOutcome {
    ThemeSet { name: String },
    AlreadySet { name: String },
}

/// The mathematical shape of a `SwitchOutcome`.
pub enum OutcomeModel {
    ThemeSet { name: Seq<char> },
    AlreadySet { name: Seq<char> },
}

impl View for SwitchOutcome {
    type V = OutcomeModel;

    open spec fn view(&self) -> OutcomeModel {
        match self {
            SwitchOutcome::ThemeSet { name } => OutcomeModel::ThemeSet { name: name@ },
            SwitchOutcome::AlreadySet { name } => OutcomeModel::AlreadySet { name: name@ },
        }
    }
}

/// What the driver reports back after performing an action.
pub enum SwitchEvent {
    /// Whether the requested theme's script file exists.
    ScriptFound { found: bool },
    /// The persisted current theme name, or `None` when it could not be read.
    CurrentName { name: Option<String> },
    /// The requested theme script's contents, or `None` on a read failure.
    ScriptContents { contents: Option<String> },
    /// Whether the colorscheme artifact was replaced successfully.
    Materialized { ok: bool },
    /// Whether the theme name was persisted successfully.
    Persisted { ok: bool },
    /// The theme script's exit status; `None` when it could not be started.
    ScriptExit { code: Option<i32> },
    /// The hooks directory listing, or `None` when the directory is missing.
    HookFiles { files: Option<Vec<String>> },
    /// A hook's exit status; `None` when it could not be started.
    HookExit { code: Option<i32> },
}

/// The mathematical shape of a `SwitchEvent`.
pub enum EventModel {
    ScriptFound { found: bool },
    CurrentName { name: Option<Seq<char>> },
    ScriptContents { contents: Option<Seq<char>> },
    Materialized { ok: bool },
    Persisted { ok: bool },
    ScriptExit { code: Option<i32> },
    HookFiles { files: Option<Seq<Seq<char>>> },
    HookExit { code: Option<i32> },
}

impl View for SwitchEvent {
    type V = EventModel;

    open spec fn view(&self) -> EventModel {
        match self {
            SwitchEvent::ScriptFound { found } => EventModel::ScriptFound { found: *found },
            SwitchEvent::CurrentName { name } => EventModel::CurrentName {
                name: match name {
                    Some(n) => Some(n@),
                    None => None,
                },
            },
            SwitchEvent::ScriptContents { contents } => EventModel::ScriptContents {
                contents: match contents {
                    Some(c) => Some(c@),
                    None => None,
                },
            },
            SwitchEvent::Materialized { ok } => EventModel::Materialized { ok: *ok },
            SwitchEvent::Persisted { ok } => EventModel::Persisted { ok: *ok },
            SwitchEvent::ScriptExit { code } => EventModel::ScriptExit { code: *code },
            SwitchEvent::HookFiles { files } => EventModel::HookFiles {
                files: match files {
                    Some(f) => Some(f.deep_view()),
                    None => None,
                },
            },
            SwitchEvent::HookExit { code } => EventModel::HookExit { code: *code },
        }
    }
}

/// What the driver must do next.  Exactly one action is handed out per
/// step, and the driver answers it with the matching event.
pub enum SwitchAction {
    /// Check whether the theme script at `path` exists.
    CheckScript { path: String },
    /// Read the persisted current theme name from `path`.
    ReadCurrent { path: String },
    /// Read the theme script at `path`.
    ReadScript { path: String },
    /// Replace the colorscheme artifact at `path` with `contents`
    /// (remove it first if it exists, then write).
    Materialize { path: String, contents: String },
    /// Persist `name` as the current theme name at `path`.
    Persist { path: String, name: String },
    /// Run the materialized theme script at `path` and wait for it.
    RunScript { path: String },
    /// List the file names in the hooks directory at `path`.
    ListHooks { path: String },
    /// Run the hook script at `path` with `env` injected, and wait for it.
    RunHook { path: String, env: HookEnvironment },
    /// Materialize the embedded hook `name` with `contents` to a temporary
    /// file, run it with `env` injected, wait, and clean the file up.
    RunEmbeddedHook { name: String, contents: String, env: HookEnvironment },
    /// The switch is over; report the outcome.
    Finish { outcome: Result<SwitchOutcome, SwitchError> },
}

/// The mathematical shape of a `SwitchAction`.
pub enum ActionModel {
    CheckScript { path: Seq<char> },
    ReadCurrent { path: Seq<char> },
    ReadScript { path: Seq<char> },
    Materialize { path: Seq<char>, contents: Seq<char> },
    Persist { path: Seq<char>, name: Seq<char> },
    RunScript { path: Seq<char> },
    ListHooks { path: Seq<char> },
    RunHook { path: Seq<char>, env: HookEnvironmentModel },
    RunEmbeddedHook { name: Seq<char>, contents: Seq<char>, env: HookEnvironmentModel },
    Finish { outcome: Result<OutcomeModel, ErrorModel> },
}

impl View for SwitchAction {
    type V = ActionModel;

    open spec fn view(&self) -> ActionModel {
        match self {
            SwitchAction::CheckScript { path } => ActionModel::CheckScript { path: path@ },
            SwitchAction::ReadCurrent { path } => ActionModel::ReadCurrent { path: path@ },
            SwitchAction::ReadScript { path } => ActionModel::ReadScript { path: path@ },
            SwitchAction::Materialize { path, contents } => ActionModel::Materialize {
                path: path@,
                contents: contents@,
            },
            SwitchAction::Persist { path, name } => ActionModel::Persist {
                path: path@,
                name: name@,
            },
            SwitchAction::RunScript { path } => ActionModel::RunScript { path: path@ },
            SwitchAction::ListHooks { path } => ActionModel::ListHooks { path: path@ },
            SwitchAction::RunHook { path, env } => ActionModel::RunHook {
                path: path@,
                env: env@,
            },
            SwitchAction::RunEmbeddedHook { name, contents, env } => {
                ActionModel::RunEmbeddedHook { name: name@, contents: contents@, env: env@ }
            },
            SwitchAction::Finish { outcome } => ActionModel::Finish {
                outcome: match outcome {
                    Ok(o) => Ok(o@),
                    Err(e) => Err(e@),
                },
            },
        }
    }
}

/// Where the switch stands.  The guarded state transition: validation, then
/// the idempotence check, then materializing, persisting and sourcing the
/// new artifact, then the hook run; any failure transitions to `Failed` and
/// nothing proceeds past it.
pub enum Phase {
    /// Waiting to learn whether the requested theme's script exists.
    Validating,
    /// Waiting for the persisted current theme name.
    CheckingCurrent,
    /// Waiting for the theme script's contents.
    Reading,
    /// Waiting for the colorscheme artifact to be replaced.
    Materializing,
    /// Waiting for the theme name to be persisted.
    Persisting,
    /// Waiting for the materialized script's exit status.
    Sourcing,
    /// Waiting for the hooks directory listing.
    ListingHooks { switched: bool },
    /// Running hook `idx` of the ordered plan; waiting for its exit status.
    RunningHooks { hooks: Vec<String>, idx: usize, switched: bool },
    /// Finished; the outcome was reported.
    Done { outcome: SwitchOutcome },
    /// Failed; the error was reported and nothing more happens.
    Failed { error: SwitchError },
}

/// The mathematical shape of a `Phase`.
pub enum PhaseModel {
    Validating,
    CheckingCurrent,
    Reading,
    Materializing,
    Persisting,
    Sourcing,
    ListingHooks { switched: bool },
    RunningHooks { hooks: Seq<Seq<char>>, idx: int, switched: bool },
    Done { outcome: OutcomeModel },
    Failed { error: ErrorModel },
}

impl View for Phase {
    type V = PhaseModel;

    open spec fn view(&self) -> PhaseModel {
        match self {
            Phase::Validating => PhaseModel::Validating,
            Phase::CheckingCurrent => PhaseModel::CheckingCurrent,
            Phase::Reading => PhaseModel::Reading,
            Phase::Materializing => PhaseModel::Materializing,
            Phase::Persisting => PhaseModel::Persisting,
            Phase::Sourcing => PhaseModel::Sourcing,
            Phase::ListingHooks { switched } => PhaseModel::ListingHooks { switched: *switched },
            Phase::RunningHooks { hooks, idx, switched } => PhaseModel::RunningHooks {
                hooks: hooks.deep_view(),
                idx: *idx as int,
                switched: *switched,
            },
            Phase::Done { outcome } => PhaseModel::Done { outcome: outcome@ },
            Phase::Failed { error } => PhaseModel::Failed { error: error@ },
        }
    }
}

/// One switch in flight: the request and where it stands.
pub struct SetPipeline {
    pub req: SwitchRequest,
    pub phase: Phase,
}

/// The mathematical shape of a `SetPipeline`.
pub struct PipelineModel {
    pub req: RequestModel,
    pub phase: PhaseModel,
}

impl View for SetPipeline {
    type V = PipelineModel;

    open spec fn view(&self) -> PipelineModel {
        PipelineModel { req: self.req@, phase: self.phase@ }
    }
}

/// The root directory of a file system source.
pub open spec fn root_of(source: SourceModel) -> Seq<char> {
    match source {
        SourceModel::Explicit { root } => root,
        SourceModel::Cached { root } => root,
        SourceModel::Embedded { bundle } => Seq::empty(),
    }
}

/// The path of the requested theme's script below a file system source.
pub open spec fn fs_script_path(req: RequestModel) -> Seq<char> {
    theme_script_path_spec(root_of(req.source), req.theme_name)
}

/// The environment contract of this request's hook run.
pub open spec fn env_of(req: RequestModel) -> HookEnvironmentModel {
    HookEnvironmentModel {
        theme_name_path: req.theme_name_path,
        config_path: req.config_path,
        theme_name: req.theme_name,
    }
}

/// The hook plan of the embedded bundle: its hook entries' names, filtered
/// and ordered like a directory listing.
pub open spec fn embedded_hook_plan(bundle: crate::source::BundleModel) -> Seq<Seq<char>> {
    hook_plan_of(bundle.hooks.map_values(|e: (Seq<char>, Seq<char>)| e.0))
}

/// The outcome a finished run reports: a real switch or an idempotent no-op.
pub open spec fn outcome_of(req: RequestModel, switched: bool) -> OutcomeModel {
    if switched {
        OutcomeModel::ThemeSet { name: req.theme_name }
    } else {
        OutcomeModel::AlreadySet { name: req.theme_name }
    }
}

/// What running hook `idx` of the plan asks of the driver.
pub open spec fn hook_action(req: RequestModel, hooks: Seq<Seq<char>>, idx: int) -> ActionModel {
    match req.source {
        SourceModel::Embedded { bundle } => ActionModel::RunEmbeddedHook {
            name: hooks[idx],
            contents: bundle_hook_contents(bundle, hooks[idx]),
            env: env_of(req),
        },
        _ => ActionModel::RunHook {
            path: join_spec(hooks_dir_spec(root_of(req.source)), hooks[idx]),
            env: env_of(req),
        },
    }
}

/// Entering the hook run with an already ordered plan: run the first hook,
/// or finish at once when there is nothing to run.
pub open spec fn begin_hooks(req: RequestModel, plan: Seq<Seq<char>>, switched: bool) -> (
    PipelineModel,
    ActionModel,
) {
    if plan.len() == 0 {
        (
            PipelineModel { req, phase: PhaseModel::Done { outcome: outcome_of(req, switched) } },
            ActionModel::Finish { outcome: Ok(outcome_of(req, switched)) },
        )
    } else {
        (
            PipelineModel {
                req,
                phase: PhaseModel::RunningHooks { hooks: plan, idx: 0, switched },
            },
            hook_action(req, plan, 0),
        )
    }
}

/// The transition into the hook run: a file system source must have its
/// hooks directory listed first; the embedded bundle's plan is known at once.
pub open spec fn hooks_entry(req: RequestModel, switched: bool) -> (PipelineModel, ActionModel) {
    match req.source {
        SourceModel::Embedded { bundle } => begin_hooks(req, embedded_hook_plan(bundle), switched),
        _ => (
            PipelineModel { req, phase: PhaseModel::ListingHooks { switched } },
            ActionModel::ListHooks { path: hooks_dir_spec(root_of(req.source)) },
        ),
    }
}

/// A failure: the machine stops and the error is reported.
pub open spec fn failed(req: RequestModel, error: ErrorModel) -> (PipelineModel, ActionModel) {
    (
        PipelineModel { req, phase: PhaseModel::Failed { error } },
        ActionModel::Finish { outcome: Err(error) },
    )
}

/// The machine's first state and first action for a request.
pub open spec fn start_of(req: RequestModel) -> (PipelineModel, ActionModel) {
    match req.source {
        SourceModel::Embedded { bundle } => {
            if bundle_has_scheme(bundle, req.theme_name) {
                (
                    PipelineModel { req, phase: PhaseModel::CheckingCurrent },
                    ActionModel::ReadCurrent { path: req.theme_name_path },
                )
            } else {
                failed(
                    req,
                    ErrorModel::ThemeNotFound {
                        script_path: scheme_script_filename_spec(req.theme_name),
                    },
                )
            }
        },
        _ => (
            PipelineModel { req, phase: PhaseModel::Validating },
            ActionModel::CheckScript { path: fs_script_path(req) },
        ),
    }
}

/// Whether an event answers what the machine is waiting for.  A finished or
/// failed machine takes no further event.
pub open spec fn fits(m: PipelineModel, e: EventModel) -> bool {
    match m.phase {
        PhaseModel::Validating => e is ScriptFound,
        PhaseModel::CheckingCurrent => e is CurrentName,
        PhaseModel::Reading => e is ScriptContents,
        PhaseModel::Materializing => e is Materialized,
        PhaseModel::Persisting => e is Persisted,
        PhaseModel::Sourcing => e is ScriptExit,
        PhaseModel::ListingHooks { .. } => e is HookFiles,
        PhaseModel::RunningHooks { .. } => e is HookExit,
        PhaseModel::Done { .. } => false,
        PhaseModel::Failed { .. } => false,
    }
}

/// The transition relation of the switch: given the machine and the event
/// answering its pending action, the next state and the next action.
/// `None` exactly when the event does not answer what the machine awaits.
pub open spec fn next(m: PipelineModel, e: EventModel) -> Option<(PipelineModel, ActionModel)> {
    let req = m.req;
    match m.phase {
        PhaseModel::Validating => match e {
            EventModel::ScriptFound { found } => Some(
                if found {
                    (
                        PipelineModel { req, phase: PhaseModel::CheckingCurrent },
                        ActionModel::ReadCurrent { path: req.theme_name_path },
                    )
                } else {
                    failed(req, ErrorModel::ThemeNotFound { script_path: fs_script_path(req) })
                },
            ),
            _ => None,
        },
        PhaseModel::CheckingCurrent => match e {
            EventModel::CurrentName { name } => Some(
                match name {
                    None => failed(
                        req,
                        ErrorModel::IoFailure { op: "read"@, path: req.theme_name_path },
                    ),
                    Some(current) => {
                        if current == req.theme_name {
                            hooks_entry(req, false)
                        } else {
                            match req.source {
                                SourceModel::Embedded { bundle } => (
                                    PipelineModel { req, phase: PhaseModel::Materializing },
                                    ActionModel::Materialize {
                                        path: req.colorscheme_path,
                                        contents: bundle_scheme_contents(bundle, req.theme_name),
                                    },
                                ),
                                _ => (
                                    PipelineModel { req, phase: PhaseModel::Reading },
                                    ActionModel::ReadScript { path: fs_script_path(req) },
                                ),
                            }
                        }
                    },
                },
            ),
            _ => None,
        },
        PhaseModel::Reading => match e {
            EventModel::ScriptContents { contents } => Some(
                match contents {
                    None => failed(
                        req,
                        ErrorModel::IoFailure { op: "read"@, path: fs_script_path(req) },
                    ),
                    Some(c) => (
                        PipelineModel { req, phase: PhaseModel::Materializing },
                        ActionModel::Materialize { path: req.colorscheme_path, contents: c },
                    ),
                },
            ),
            _ => None,
        },
        PhaseModel::Materializing => match e {
            EventModel::Materialized { ok } => Some(
                if ok {
                    (
                        PipelineModel { req, phase: PhaseModel::Persisting },
                        ActionModel::Persist {
                            path: req.theme_name_path,
                            name: req.theme_name,
                        },
                    )
                } else {
                    failed(req, ErrorModel::IoFailure { op: "write"@, path: req.colorscheme_path })
                },
            ),
            _ => None,
        },
        PhaseModel::Persisting => match e {
            EventModel::Persisted { ok } => Some(
                if ok {
                    (
                        PipelineModel { req, phase: PhaseModel::Sourcing },
                        ActionModel::RunScript { path: req.colorscheme_path },
                    )
                } else {
                    failed(req, ErrorModel::IoFailure { op: "write"@, path: req.theme_name_path })
                },
            ),
            _ => None,
        },
        PhaseModel::Sourcing => match e {
            EventModel::ScriptExit { code } => Some(
                if code == Some(0i32) {
                    hooks_entry(req, true)
                } else {
                    failed(
                        req,
                        ErrorModel::ScriptExecutionFailed { path: req.colorscheme_path, code },
                    )
                },
            ),
            _ => None,
        },
        PhaseModel::ListingHooks { switched } => match e {
            EventModel::HookFiles { files } => Some(
                match files {
                    None => failed(
                        req,
                        ErrorModel::SourceInvalid {
                            path: hooks_dir_spec(root_of(req.source)),
                            missing: "hooks"@,
                        },
                    ),
                    Some(names) => begin_hooks(req, hook_plan_of(names), switched),
                },
            ),
            _ => None,
        },
        PhaseModel::RunningHooks { hooks, idx, switched } => match e {
            EventModel::HookExit { code } => Some(
                if code == Some(0i32) {
                    if idx + 1 < hooks.len() {
                        (
                            PipelineModel {
                                req,
                                phase: PhaseModel::RunningHooks { hooks, idx: idx + 1, switched },
                            },
                            hook_action(req, hooks, idx + 1),
                        )
                    } else {
                        (
                            PipelineModel {
                                req,
                                phase: PhaseModel::Done { outcome: outcome_of(req, switched) },
                            },
                            ActionModel::Finish { outcome: Ok(outcome_of(req, switched)) },
                        )
                    }
                } else {
                    failed(
                        req,
                        ErrorModel::HookFailed { path: hook_id(req, hooks, idx), code },
                    )
                },
            ),
            _ => None,
        },
        PhaseModel::Done { .. } => None,
        PhaseModel::Failed { .. } => None,
    }
}

/// How a failing hook is identified in the error: its path for a file
/// system source, its bundle entry name for the embedded one.
pub open spec fn hook_id(req: RequestModel, hooks: Seq<Seq<char>>, idx: int) -> Seq<char> {
    match req.source {
        SourceModel::Embedded { bundle } => hooks[idx],
        _ => join_spec(hooks_dir_spec(root_of(req.source)), hooks[idx]),
    }
}

/// Well-formedness of a machine: the request's theme name is valid; phases
/// that wait on a script or hooks directory belong to file system sources
/// only; an embedded machine past validation carries a theme its bundle
/// holds; a running hook plan is ordered, holds hook names only, and its
/// index is in range.
pub open spec fn wf(m: PipelineModel) -> bool {
    &&& valid_theme_name(m.req.theme_name)
    &&& match m.phase {
        PhaseModel::Validating => !(m.req.source is Embedded),
        PhaseModel::Reading => !(m.req.source is Embedded),
        PhaseModel::ListingHooks { .. } => !(m.req.source is Embedded),
        PhaseModel::CheckingCurrent => m.req.source matches SourceModel::Embedded { bundle }
            ==> bundle_has_scheme(bundle, m.req.theme_name),
        PhaseModel::RunningHooks { hooks, idx, switched } => {
            &&& 0 <= idx < hooks.len()
            &&& sorted_by(hooks, lex_leq_fn())
            &&& forall|i: int| 0 <= i < hooks.len() ==> is_hook_name(#[trigger] hooks[i])
            &&& (m.req.source matches SourceModel::Embedded { bundle } ==> forall|i: int|
                0 <= i < hooks.len() ==> bundle_has_hook(bundle, #[trigger] hooks[i]))
        },
        _ => true,
    }
}

/// Every hook of a plan derived from a listing is a hook name, the plan is
/// ordered, and each of its names comes from the listing.
proof fn lemma_hook_plan_wf(names: Seq<Seq<char>>)
    ensures
        sorted_by(hook_plan_of(names), lex_leq_fn()),
        forall|i: int|
            0 <= i < hook_plan_of(names).len() ==> is_hook_name(#[trigger] hook_plan_of(names)[i]),
        forall|i: int|
            0 <= i < hook_plan_of(names).len() ==> names.contains(#[trigger] hook_plan_of(names)[i]),
{
    crate::hooks::lemma_lex_total_ordering();
    let pred = |f: Seq<char>| is_hook_name(f);
    let filtered = names.filter(pred);
    filtered.lemma_sort_by_ensures(lex_leq_fn());
    crate::hooks::lemma_filter_is_subset(names, pred);
    let plan = hook_plan_of(names);
    assert forall|i: int| 0 <= i < plan.len() implies is_hook_name(#[trigger] plan[i])
        && names.contains(plan[i]) by {
        assert(plan.contains(plan[i]));
        assert(filtered.contains(plan[i]));
    }
}

/// The transition preserves well-formedness.
pub proof fn lemma_next_wf(m: PipelineModel, e: EventModel)
    requires
        wf(m),
        fits(m, e),
    ensures
        next(m, e) is Some,
        wf(next(m, e)->Some_0.0),
        next(m, e)->Some_0.0.req == m.req,
{
    let req = m.req;
    match m.phase {
        PhaseModel::CheckingCurrent => match e {
            EventModel::CurrentName { name } => match name {
                Some(current) => {
                    if current == req.theme_name {
                        lemma_hooks_entry_wf(req, false);
                    }
                },
                None => {},
            },
            _ => {},
        },
        PhaseModel::Sourcing => match e {
            EventModel::ScriptExit { code } => {
                if code == Some(0i32) {
                    lemma_hooks_entry_wf(req, true);
                }
            },
            _ => {},
        },
        PhaseModel::ListingHooks { switched } => match e {
            EventModel::HookFiles { files } => match files {
                Some(names) => lemma_hook_plan_wf(names),
                None => {},
            },
            _ => {},
        },
        _ => {},
    }
}

/// Entering the hook run yields a well-formed machine.
proof fn lemma_hooks_entry_wf(req: RequestModel, switched: bool)
    requires
        valid_theme_name(req.theme_name),
    ensures
        wf(hooks_entry(req, switched).0),
        hooks_entry(req, switched).0.req == req,
{
    match req.source {
        SourceModel::Embedded { bundle } => {
            lemma_hook_plan_wf(bundle.hooks.map_values(|en: (Seq<char>, Seq<char>)| en.0));
            lemma_embedded_plan_hooks(bundle);
        },
        _ => {},
    }
}

impl Clone for SwitchError {
    fn clone(&self) -> (r: Self)
        ensures
            r@ == self@,
    {
        match self {
            SwitchError::SourceInvalid { path, missing } => SwitchError::SourceInvalid {
                path: path.clone(),
                missing: missing.clone(),
            },
            SwitchError::SourceUnavailable => SwitchError::SourceUnavailable,
            SwitchError::ThemeNotFound { script_path } => SwitchError::ThemeNotFound {
                script_path: script_path.clone(),
            },
            SwitchError::ScriptExecutionFailed { path, code } => {
                SwitchError::ScriptExecutionFailed { path: path.clone(), code: *code }
            },
            SwitchError::HookFailed { path, code } => SwitchError::HookFailed {
                path: path.clone(),
                code: *code,
            },
            SwitchError::IoFailure { op, path } => SwitchError::IoFailure {
                op: op.clone(),
                path: path.clone(),
            },
        }
    }
}

/// Fails the switch: the machine remembers the error and reports it.
fn fail_with(req: SwitchRequest, error: SwitchError) -> (r: (SetPipeline, SwitchAction))
    ensures
        (r.0@, r.1@) == failed(req@, error@),
{
    let reported = error.clone();
    (
        SetPipeline { req, phase: Phase::Failed { error } },
        SwitchAction::Finish { outcome: Err(reported) },
    )
}

/// The root of a file system source.
fn root_str(source: &ThemeSource) -> (r: &str)
    requires
        !(source@ is Embedded),
    ensures
        r@ == root_of(source@),
{
    match source {
        ThemeSource::Explicit { root } => root.as_str(),
        ThemeSource::Cached { root } => root.as_str(),
        ThemeSource::Embedded { .. } => {
            proof {
                assert(false);
            }
            ""
        },
    }
}

/// The environment contract of this request's hook run.
fn build_env(req: &SwitchRequest) -> (r: HookEnvironment)
    ensures
        r@ == env_of(req@),
{
    HookEnvironment {
        theme_name_path: req.theme_name_path.clone(),
        config_path: req.config_path.clone(),
        theme_name: req.theme_name.as_str().to_owned(),
    }
}

/// Builds the action that runs hook `idx` of the plan.
fn hook_action_exec(req: &SwitchRequest, hooks: &Vec<String>, idx: usize) -> (a: SwitchAction)
    requires
        idx < hooks.len(),
        req.source@ matches SourceModel::Embedded { bundle } ==> bundle_has_hook(
            bundle,
            hooks.deep_view()[idx as int],
        ),
    ensures
        a@ == hook_action(req@, hooks.deep_view(), idx as int),
{
    let env = build_env(req);
    match &req.source {
        ThemeSource::Embedded { bundle } => {
            match bundle_lookup_hook(bundle, hooks[idx].as_str()) {
                Some(contents) => SwitchAction::RunEmbeddedHook {
                    name: hooks[idx].clone(),
                    contents,
                    env,
                },
                None => {
                    proof {
                        assert(false);
                    }
                    SwitchAction::Finish { outcome: Err(SwitchError::SourceUnavailable) }
                },
            }
        },
        _ => {
            let dir = hooks_dir(root_str(&req.source));
            let path = join_path(dir.as_str(), hooks[idx].as_str());
            SwitchAction::RunHook { path, env }
        },
    }
}

/// Enters the hook run with an already ordered plan.
fn begin_hooks_exec(req: SwitchRequest, plan: Vec<String>, switched: bool) -> (r: (
    SetPipeline,
    SwitchAction,
))
    requires
        req.source@ matches SourceModel::Embedded { bundle } ==> forall|i: int|
            0 <= i < plan.deep_view().len() ==> bundle_has_hook(
                bundle,
                #[trigger] plan.deep_view()[i],
            ),
    ensures
        (r.0@, r.1@) == begin_hooks(req@, plan.deep_view(), switched),
{
    if plan.len() == 0 {
        let outcome = if switched {
            SwitchOutcome::ThemeSet { name: req.theme_name.as_str().to_owned() }
        } else {
            SwitchOutcome::AlreadySet { name: req.theme_name.as_str().to_owned() }
        };
        let reported = if switched {
            SwitchOutcome::ThemeSet { name: req.theme_name.as_str().to_owned() }
        } else {
            SwitchOutcome::AlreadySet { name: req.theme_name.as_str().to_owned() }
        };
        proof {
            assert(plan.deep_view().len() == 0);
        }
        (
            SetPipeline { req, phase: Phase::Done { outcome } },
            SwitchAction::Finish { outcome: Ok(reported) },
        )
    } else {
        let action = hook_action_exec(&req, &plan, 0);
        (SetPipeline { req, phase: Phase::RunningHooks { hooks: plan, idx: 0, switched } }, action)
    }
}

/// Enters the hook run from a freshly decided switch or no-op.
fn hooks_entry_exec(req: SwitchRequest, switched: bool) -> (r: (SetPipeline, SwitchAction))
    ensures
        (r.0@, r.1@) == hooks_entry(req@, switched),
{
    match &req.source {
        ThemeSource::Embedded { bundle } => {
            let ghost bm = bundle@;
            let names = bundle_hook_names(bundle);
            let plan = select_hooks(&names);
            proof {
                lemma_embedded_plan_hooks(bm);
                assert(plan.deep_view() == embedded_hook_plan(bm));
                assert forall|i: int| 0 <= i < plan.deep_view().len() implies bundle_has_hook(
                    bm,
                    #[trigger] plan.deep_view()[i],
                ) by {
                    assert(embedded_hook_plan(bm)[i] == plan.deep_view()[i]);
                }
            }
            begin_hooks_exec(req, plan, switched)
        },
        _ => {
            let dir = hooks_dir(root_str(&req.source));
            (
                SetPipeline { req, phase: Phase::ListingHooks { switched } },
                SwitchAction::ListHooks { path: dir },
            )
        },
    }
}

/// The names of an embedded plan are all bundle hook entries.
proof fn lemma_embedded_plan_hooks(bundle: crate::source::BundleModel)
    ensures
        forall|i: int|
            0 <= i < embedded_hook_plan(bundle).len() ==> bundle_has_hook(
                bundle,
                #[trigger] embedded_hook_plan(bundle)[i],
            ),
{
    let names = bundle.hooks.map_values(|en: (Seq<char>, Seq<char>)| en.0);
    lemma_hook_plan_wf(names);
    let plan = embedded_hook_plan(bundle);
    assert forall|i: int| 0 <= i < plan.len() implies bundle_has_hook(
        bundle,
        #[trigger] plan[i],
    ) by {
        assert(names.contains(plan[i]));
        let k = choose|k: int| 0 <= k < names.len() && names[k] == plan[i];
        assert(bundle.hooks[k].0 == plan[i]);
    }
}

/// Starts a switch: validates the request against the source, and hands the
/// driver the first action to perform.  The driver then performs each
/// action, reports the result as an event through `SetPipeline::step`, and
/// repeats until it sees `Finish`.
pub fn set_command(
    theme_name: ThemeName,
    config_path: String,
    source: ThemeSource,
    colorscheme_path: String,
    theme_name_path: String,
) -> (r: (SetPipeline, SwitchAction))
    requires
        theme_name.wf(),
    ensures
        r.0@.req == (RequestModel {
            theme_name: theme_name@,
            config_path: config_path@,
            source: source@,
            colorscheme_path: colorscheme_path@,
            theme_name_path: theme_name_path@,
        }),
        (r.0@, r.1@) == start_of(r.0@.req),
        wf(r.0@),
{
    let req = SwitchRequest { theme_name, config_path, source, colorscheme_path, theme_name_path };
    match &req.source {
        ThemeSource::Embedded { bundle } => {
            let found = bundle_lookup_scheme(bundle, &req.theme_name);
            match found {
                Some(_) => {
                    let path = req.theme_name_path.clone();
                    (
                        SetPipeline { req, phase: Phase::CheckingCurrent },
                        SwitchAction::ReadCurrent { path },
                    )
                },
                None => {
                    let file = scheme_script_filename(&req.theme_name);
                    fail_with(req, SwitchError::ThemeNotFound { script_path: file })
                },
            }
        },
        _ => {
            let path = theme_script_path(root_str(&req.source), &req.theme_name);
            (
                SetPipeline { req, phase: Phase::Validating },
                SwitchAction::CheckScript { path },
            )
        },
    }
}

impl SetPipeline {
    /// Feeds the machine the event answering its pending action; returns
    /// the stepped machine and the next action for the driver.
    pub fn step(self, event: SwitchEvent) -> (r: (SetPipeline, SwitchAction))
        requires
            wf(self@),
            fits(self@, event@),
        ensures
            next(self@, event@) == Some((r.0@, r.1@)),
            wf(r.0@),
            r.0@.req == self@.req,
    {
        proof {
            lemma_next_wf(self@, event@);
        }
        let SetPipeline { req, phase } = self;
        match phase {
            Phase::Validating => match event {
                SwitchEvent::ScriptFound { found } => {
                    if found {
                        let path = req.theme_name_path.clone();
                        (
                            SetPipeline { req, phase: Phase::CheckingCurrent },
                            SwitchAction::ReadCurrent { path },
                        )
                    } else {
                        let path = theme_script_path(root_str(&req.source), &req.theme_name);
                        fail_with(req, SwitchError::ThemeNotFound { script_path: path })
                    }
                },
                _ => stub(req),
            },
            Phase::CheckingCurrent => match event {
                SwitchEvent::CurrentName { name } => match name {
                    None => {
                        let path = req.theme_name_path.clone();
                        fail_with(
                            req,
                            SwitchError::IoFailure { op: String::from_str("read"), path },
                        )
                    },
                    Some(current) => {
                        let requested = req.theme_name.as_str().to_owned();
                        if current == requested {
                            hooks_entry_exec(req, false)
                        } else {
                            match &req.source {
                                ThemeSource::Embedded { bundle } => {
                                    match bundle_lookup_scheme(bundle, &req.theme_name) {
                                        Some(contents) => {
                                            let path = req.colorscheme_path.clone();
                                            (
                                                SetPipeline { req, phase: Phase::Materializing },
                                                SwitchAction::Materialize { path, contents },
                                            )
                                        },
                                        None => {
                                            proof {
                                                assert(false);
                                            }
                                            stub(req)
                                        },
                                    }
                                },
                                _ => {
                                    let path = theme_script_path(
                                        root_str(&req.source),
                                        &req.theme_name,
                                    );
                                    (
                                        SetPipeline { req, phase: Phase::Reading },
                                        SwitchAction::ReadScript { path },
                                    )
                                },
                            }
                        }
                    },
                },
                _ => stub(req),
            },
            Phase::Reading => match event {
                SwitchEvent::ScriptContents { contents } => match contents {
                    None => {
                        let path = theme_script_path(root_str(&req.source), &req.theme_name);
                        fail_with(
                            req,
                            SwitchError::IoFailure { op: String::from_str("read"), path },
                        )
                    },
                    Some(c) => {
                        let path = req.colorscheme_path.clone();
                        (
                            SetPipeline { req, phase: Phase::Materializing },
                            SwitchAction::Materialize { path, contents: c },
                        )
                    },
                },
                _ => stub(req),
            },
            Phase::Materializing => match event {
                SwitchEvent::Materialized { ok } => {
                    if ok {
                        let path = req.theme_name_path.clone();
                        let name = req.theme_name.as_str().to_owned();
                        (
                            SetPipeline { req, phase: Phase::Persisting },
                            SwitchAction::Persist { path, name },
                        )
                    } else {
                        let path = req.colorscheme_path.clone();
                        fail_with(
                            req,
                            SwitchError::IoFailure { op: String::from_str("write"), path },
                        )
                    }
                },
                _ => stub(req),
            },
            Phase::Persisting => match event {
                SwitchEvent::Persisted { ok } => {
                    if ok {
                        let path = req.colorscheme_path.clone();
                        (
                            SetPipeline { req, phase: Phase::Sourcing },
                            SwitchAction::RunScript { path },
                        )
                    } else {
                        let path = req.theme_name_path.clone();
                        fail_with(
                            req,
                            SwitchError::IoFailure { op: String::from_str("write"), path },
                        )
                    }
                },
                _ => stub(req),
            },
            Phase::Sourcing => match event {
                SwitchEvent::ScriptExit { code } => {
                    let zero = match code {
                        Some(c) => c == 0,
                        None => false,
                    };
                    if zero {
                        hooks_entry_exec(req, true)
                    } else {
                        let path = req.colorscheme_path.clone();
                        fail_with(req, SwitchError::ScriptExecutionFailed { path, code })
                    }
                },
                _ => stub(req),
            },
            Phase::ListingHooks { switched } => match event {
                SwitchEvent::HookFiles { files } => match files {
                    None => {
                        let dir = hooks_dir(root_str(&req.source));
                        fail_with(
                            req,
                            SwitchError::SourceInvalid {
                                path: dir,
                                missing: String::from_str("hooks"),
                            },
                        )
                    },
                    Some(names) => {
                        let plan = select_hooks(&names);
                        begin_hooks_exec(req, plan, switched)
                    },
                },
                _ => stub(req),
            },
            Phase::RunningHooks { hooks, idx, switched } => match event {
                SwitchEvent::HookExit { code } => {
                    let n = hooks.len();
                    proof {
                        assert(idx < n);
                    }
                    let zero = match code {
                        Some(c) => c == 0,
                        None => false,
                    };
                    if zero {
                        if idx + 1 < n {
                            let action = hook_action_exec(&req, &hooks, idx + 1);
                            (
                                SetPipeline {
                                    req,
                                    phase: Phase::RunningHooks { hooks, idx: idx + 1, switched },
                                },
                                action,
                            )
                        } else {
                            let outcome = if switched {
                                SwitchOutcome::ThemeSet {
                                    name: req.theme_name.as_str().to_owned(),
                                }
                            } else {
                                SwitchOutcome::AlreadySet {
                                    name: req.theme_name.as_str().to_owned(),
                                }
                            };
                            let reported = if switched {
                                SwitchOutcome::ThemeSet {
                                    name: req.theme_name.as_str().to_owned(),
                                }
                            } else {
                                SwitchOutcome::AlreadySet {
                                    name: req.theme_name.as_str().to_owned(),
                                }
                            };
                            (
                                SetPipeline { req, phase: Phase::Done { outcome } },
                                SwitchAction::Finish { outcome: Ok(reported) },
                            )
                        }
                    } else {
                        let id = match &req.source {
                            ThemeSource::Embedded { .. } => hooks[idx].clone(),
                            _ => {
                                let dir = hooks_dir(root_str(&req.source));
                                join_path(dir.as_str(), hooks[idx].as_str())
                            },
                        };
                        fail_with(req, SwitchError::HookFailed { path: id, code })
                    }
                },
                _ => stub(req),
            },
            Phase::Done { .. } => stub(req),
            Phase::Failed { .. } => stub(req),
        }
    }
}

/// A freshly started machine is well-formed.
pub proof fn lemma_start_wf(req: RequestModel)
    requires
        valid_theme_name(req.theme_name),
    ensures
        wf(start_of(req).0),
        start_of(req).0.req == req,
{
}

/// Hook ordering and strictly sequential execution: a running hook plan is
/// lexicographically ordered pairwise; the machine moves to hook `idx + 1`
/// only when hook `idx` exits zero; any other exit status fails the run
/// with a `HookFailed` error, and a failed machine accepts no further
/// event, so the hooks after the failing one never run.
pub proof fn lemma_hooks_sequential(
    m: PipelineModel,
    hooks: Seq<Seq<char>>,
    idx: int,
    switched: bool,
    code: Option<i32>,
)
    requires
        wf(m),
        m.phase == (PhaseModel::RunningHooks { hooks, idx, switched }),
    ensures
        0 <= idx < hooks.len(),
        forall|i: int, j: int|
            0 <= i < j < hooks.len() ==> lex_leq(#[trigger] hooks[i], #[trigger] hooks[j]),
        code == Some(0i32) && idx + 1 < hooks.len() ==> next(m, EventModel::HookExit { code })
            == Some(
            (
                PipelineModel {
                    req: m.req,
                    phase: PhaseModel::RunningHooks { hooks, idx: idx + 1, switched },
                },
                hook_action(m.req, hooks, idx + 1),
            ),
        ),
        code == Some(0i32) && idx + 1 >= hooks.len() ==> next(m, EventModel::HookExit { code })
            == Some(
            (
                PipelineModel {
                    req: m.req,
                    phase: PhaseModel::Done { outcome: outcome_of(m.req, switched) },
                },
                ActionModel::Finish { outcome: Ok(outcome_of(m.req, switched)) },
            ),
        ),
        code != Some(0i32) ==> next(m, EventModel::HookExit { code })->Some_0.0.phase matches
            PhaseModel::Failed { error: ErrorModel::HookFailed { .. } },
{
    assert forall|i: int, j: int| 0 <= i < j < hooks.len() implies lex_leq(
        #[trigger] hooks[i],
        #[trigger] hooks[j],
    ) by {
        assert(lex_leq_fn()(hooks[i], hooks[j]));
    }
}

/// The hooks directory is required: when the driver finds it missing, the
/// run fails as an invalid source naming the hooks directory; a switch
/// never completes silently without its hook run.
pub proof fn lemma_missing_hooks_dir_fails(m: PipelineModel, switched: bool)
    requires
        wf(m),
        m.phase == (PhaseModel::ListingHooks { switched }),
    ensures
        next(m, EventModel::HookFiles { files: None }) == Some(
            failed(
                m.req,
                ErrorModel::SourceInvalid {
                    path: hooks_dir_spec(root_of(m.req.source)),
                    missing: "hooks"@,
                },
            ),
        ),
{
}

/// Never reached under the protocol: `step` requires an event that answers
/// the machine's pending action, so the arms that fall through to this
/// helper are infeasible and its result is never observed.
fn stub(req: SwitchRequest) -> (r: (SetPipeline, SwitchAction)) {
    (
        SetPipeline { req, phase: Phase::Validating },
        SwitchAction::Finish { outcome: Err(SwitchError::SourceUnavailable) },
    )
}

} // verus!
