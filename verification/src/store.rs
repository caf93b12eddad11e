use vstd::prelude::*;
use crate::errors::ErrorModel;
use crate::switcher::{
    fits, lemma_next_wf, lemma_start_wf, next, start_of, wf, ActionModel, EventModel,
    OutcomeModel, PhaseModel, PipelineModel, RequestModel,
};
use crate::theme::valid_theme_name;
use crate::source::{bundle_has_scheme, SourceModel};

verus! {

/// The two persisted artifacts of current state: the contents of the
/// theme-name file, and the contents of the colorscheme artifact that shell
/// startup files source.  A fresh `read_current` returns `theme_name`.
pub struct StoreModel {
    pub theme_name: Seq<char>,
    pub script: Seq<char>,
}

/// How one performed action changes the state store.  Only materializing
/// the colorscheme artifact and persisting the theme name write to it;
/// every other action reads, runs processes, or reports.
pub open spec fn apply_action(store: StoreModel, a: ActionModel) -> StoreModel {
    match a {
        ActionModel::Materialize { path, contents } => StoreModel {
            theme_name: store.theme_name,
            script: contents,
        },
        ActionModel::Persist { path, name } => StoreModel { theme_name: name, script: store.script },
        _ => store,
    }
}

/// The machine after a driver feeds it a sequence of events, performing
/// each handed-out action in between.  An event that does not answer the
/// pending action stops the run.
pub open spec fn run_state(m: PipelineModel, events: Seq<EventModel>) -> PipelineModel
    decreases events.len(),
{
    if events.len() == 0 {
        m
    } else {
        match next(m, events[0]) {
            Some(p) => run_state(p.0, events.drop_first()),
            None => m,
        }
    }
}

/// The state store after the same run, starting from `store`.
pub open spec fn run_store(m: PipelineModel, events: Seq<EventModel>, store: StoreModel) -> StoreModel
    decreases events.len(),
{
    if events.len() == 0 {
        store
    } else {
        match next(m, events[0]) {
            Some(p) => run_store(p.0, events.drop_first(), apply_action(store, p.1)),
            None => store,
        }
    }
}

/// What each phase guarantees of the store: once the switch has persisted
/// the requested name, the store carries it, and a run that ends with the
/// theme set has stored exactly that name.
pub open spec fn store_inv(m: PipelineModel, store: StoreModel) -> bool {
    match m.phase {
        PhaseModel::Persisting => store.theme_name == m.req.theme_name,
        PhaseModel::Sourcing => store.theme_name == m.req.theme_name,
        PhaseModel::ListingHooks { switched } => switched ==> store.theme_name
            == m.req.theme_name,
        PhaseModel::RunningHooks { hooks, idx, switched } => switched ==> store.theme_name
            == m.req.theme_name,
        PhaseModel::Done { outcome } => outcome matches OutcomeModel::ThemeSet { name }
            ==> store.theme_name == name && name == m.req.theme_name,
        _ => true,
    }
}

/// An event that the transition accepts answers the pending action.
proof fn lemma_next_some_implies_fits(m: PipelineModel, e: EventModel)
    ensures
        next(m, e) is Some ==> fits(m, e),
{
}

/// One accepted step keeps the store invariant.
proof fn lemma_step_store_inv(m: PipelineModel, e: EventModel, store: StoreModel)
    requires
        wf(m),
        fits(m, e),
        store_inv(m, store),
    ensures
        store_inv(next(m, e)->Some_0.0, apply_action(store, next(m, e)->Some_0.1)),
{
    lemma_next_wf(m, e);
}

/// A run from a well-formed machine keeps it well-formed, never changes
/// the request, and keeps the store invariant.
pub proof fn lemma_run_store_inv(m: PipelineModel, events: Seq<EventModel>, store: StoreModel)
    requires
        wf(m),
        store_inv(m, store),
    ensures
        wf(run_state(m, events)),
        run_state(m, events).req == m.req,
        store_inv(run_state(m, events), run_store(m, events, store)),
    decreases events.len(),
{
    if events.len() > 0 {
        lemma_next_some_implies_fits(m, events[0]);
        match next(m, events[0]) {
            Some(p) => {
                lemma_next_wf(m, events[0]);
                lemma_step_store_inv(m, events[0], store);
                lemma_run_store_inv(p.0, events.drop_first(), apply_action(store, p.1));
            },
            None => {},
        }
    }
}

/// Switch-then-read coherence: however a run of driver events goes, when
/// the machine ends reporting that the theme was set, the persisted theme
/// name — what a fresh `read_current` returns — is exactly the name that
/// was requested.
pub proof fn lemma_theme_set_persists_requested(
    m: PipelineModel,
    events: Seq<EventModel>,
    store: StoreModel,
)
    requires
        wf(m),
        store_inv(m, store),
    ensures
        run_state(m, events).phase matches PhaseModel::Done {
            outcome: OutcomeModel::ThemeSet { name },
        } ==> run_store(m, events, store).theme_name == name && name == m.req.theme_name,
{
    lemma_run_store_inv(m, events, store);
}

/// A freshly started machine satisfies the store invariant, and its first
/// action does not write to the store.
pub proof fn lemma_start_store_inv(req: RequestModel, store: StoreModel)
    ensures
        store_inv(start_of(req).0, store),
        apply_action(store, start_of(req).1) == store,
{
}

/// Switch-then-read coherence from the entry point: start a switch for a
/// valid theme name, drive it with any events, and if it ends reporting the
/// theme as set, the persisted theme name is the requested one.  The first
/// action a start hands out never writes, so the run's store can begin at
/// the pre-call contents.
pub proof fn lemma_set_command_persists_requested(
    req: RequestModel,
    events: Seq<EventModel>,
    store: StoreModel,
)
    requires
        valid_theme_name(req.theme_name),
    ensures
        apply_action(store, start_of(req).1) == store,
        run_state(start_of(req).0, events).phase matches PhaseModel::Done {
            outcome: OutcomeModel::ThemeSet { name },
        } ==> run_store(start_of(req).0, events, store).theme_name == name && name
            == req.theme_name,
{
    lemma_start_wf(req);
    lemma_start_store_inv(req, store);
    lemma_theme_set_persists_requested(start_of(req).0, events, store);
}

/// A failed machine accepts no event: the run stops, and the store never
/// changes again.
pub proof fn lemma_failed_stops(m: PipelineModel, events: Seq<EventModel>, store: StoreModel)
    requires
        m.phase is Failed,
    ensures
        run_state(m, events) == m,
        run_store(m, events, store) == store,
{
}

/// Whether an embedded source lacks the requested theme.
pub open spec fn embedded_missing(req: RequestModel) -> bool {
    req.source matches SourceModel::Embedded { bundle } && !bundle_has_scheme(
        bundle,
        req.theme_name,
    )
}

/// A request for a theme whose script a file system source does not hold
/// fails as theme-not-found, and the state store is left exactly as it was,
/// whatever the driver feeds the machine afterwards.
pub proof fn lemma_unknown_theme_leaves_store_fs(
    req: RequestModel,
    events: Seq<EventModel>,
    store: StoreModel,
)
    requires
        !(req.source is Embedded),
        events.len() > 0,
        events[0] == (EventModel::ScriptFound { found: false }),
    ensures
        apply_action(store, start_of(req).1) == store,
        run_store(start_of(req).0, events, store) == store,
        run_state(start_of(req).0, events).phase matches PhaseModel::Failed {
            error: ErrorModel::ThemeNotFound { .. },
        },
{
    let m = start_of(req).0;
    let p = next(m, events[0])->Some_0;
    lemma_failed_stops(p.0, events.drop_first(), apply_action(store, p.1));
}

/// The same for the embedded bundle: when it does not carry the theme, the
/// machine starts failed, no action ever writes, and the store stays as it
/// was.
pub proof fn lemma_unknown_theme_leaves_store_embedded(
    req: RequestModel,
    events: Seq<EventModel>,
    store: StoreModel,
)
    requires
        embedded_missing(req),
    ensures
        apply_action(store, start_of(req).1) == store,
        start_of(req).0.phase matches PhaseModel::Failed {
            error: ErrorModel::ThemeNotFound { .. },
        },
        run_store(start_of(req).0, events, store) == store,
{
    lemma_failed_stops(start_of(req).0, events, store);
}

/// Whether the machine can still materialize, persist or source anything.
/// After the idempotent short-circuit nothing of the kind is pending.
pub open spec fn no_switch_pending(m: PipelineModel) -> bool {
    match m.phase {
        PhaseModel::ListingHooks { switched } => !switched,
        PhaseModel::RunningHooks { hooks, idx, switched } => !switched,
        PhaseModel::Done { outcome } => outcome is AlreadySet,
        PhaseModel::Failed { .. } => true,
        _ => false,
    }
}

/// A run past the short-circuit never writes to the store and stays past
/// the short-circuit.
proof fn lemma_no_switch_run(m: PipelineModel, events: Seq<EventModel>, store: StoreModel)
    requires
        wf(m),
        no_switch_pending(m),
    ensures
        wf(run_state(m, events)),
        no_switch_pending(run_state(m, events)),
        run_store(m, events, store) == store,
    decreases events.len(),
{
    if events.len() > 0 {
        lemma_next_some_implies_fits(m, events[0]);
        match next(m, events[0]) {
            Some(p) => {
                lemma_next_wf(m, events[0]);
                lemma_no_switch_run(p.0, events.drop_first(), apply_action(store, p.1));
            },
            None => {},
        }
    }
}

/// Idempotence: when the driver reports that the requested theme is already
/// the current one, the machine short-circuits.  From that answer on, no
/// sequence of events makes it materialize, persist or source anything —
/// the state store never changes — and a run that finishes reports the
/// "already set" outcome, which is a success, not an error.
pub proof fn lemma_already_set_is_noop(
    m: PipelineModel,
    e: EventModel,
    events: Seq<EventModel>,
    store: StoreModel,
)
    requires
        wf(m),
        m.phase is CheckingCurrent,
        e == (EventModel::CurrentName { name: Some(m.req.theme_name) }),
    ensures
        next(m, e) is Some,
        apply_action(store, next(m, e)->Some_0.1) == store,
        run_store(next(m, e)->Some_0.0, events, store) == store,
        run_state(next(m, e)->Some_0.0, events).phase matches PhaseModel::Done { outcome }
            ==> outcome is AlreadySet,
{
    lemma_next_wf(m, e);
    let p = next(m, e)->Some_0;
    lemma_no_switch_run(p.0, events, store);
}

} // verus!
