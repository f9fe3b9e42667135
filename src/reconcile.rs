//! One reconciliation pass as a state machine. Each step takes the result
//! of the last outside action and names the next one: fetch every kind,
//! delete then recreate each managed resource, patch the volumes, patch the
//! containers, finish.
use vstd::prelude::*;

use crate::kinds::{
    empty_bundles, managed_name, managed_name_of, next_kind_of, AttachmentKind, Bundles,
    BundlesView,
};
use crate::outcome::{requeue_of, ErrorView, Outcome, OutcomeView, ReconcileError, Stage, FAILURE_REQUEUE_SECS};
use crate::patch::{containers_of, containers_patch, volumes_of, volumes_patch, PatchView, PodTemplatePatch};
use crate::scope::{scope_filter, scope_of, ResourceMeta, Target, TargetView, SIDECAR_LABEL};
use crate::strmap::{lookup, Entries, StrMap};

verus! {

/// A managed resource: the fetched content of one kind, stored under its
/// derived name in the workload's namespace.
#[derive(Debug, PartialEq, Eq)]
pub struct ManagedResource {
    pub name: String,
    pub namespace: String,
    pub data: StrMap,
}

pub struct ResourceView {
    pub name: Seq<char>,
    pub namespace: Seq<char>,
    pub data: Entries,
}

impl View for ManagedResource {
    type V = ResourceView;

    open spec fn view(&self) -> ResourceView {
        ResourceView { name: self.name@, namespace: self.namespace@, data: self.data@ }
    }
}

/// The result of fetching one kind from the configuration provider.
#[derive(Debug, PartialEq, Eq)]
pub enum Fetched {
    Found(StrMap),
    /// The content could not be had; the location that was tried.
    Unavailable(String),
}

pub enum FetchedView {
    Found(Entries),
    Unavailable(Seq<char>),
}

impl View for Fetched {
    type V = FetchedView;

    open spec fn view(&self) -> FetchedView {
        match self {
            Fetched::Found(m) => FetchedView::Found(m@),
            Fetched::Unavailable(l) => FetchedView::Unavailable(l@),
        }
    }
}

/// What the driver reports back after performing an action.
#[derive(Debug, PartialEq, Eq)]
pub enum Event {
    /// The results of fetching every kind.
    Fetched { config: Fetched, certs: Fetched, telemetry: Fetched },
    /// A delete finished; absence of the resource is no error.
    Deleted,
    /// A create finished, successfully or not.
    Created(bool),
    /// A patch was applied, successfully or not.
    Patched(bool),
}

pub enum EventView {
    Fetched(FetchedView, FetchedView, FetchedView),
    Deleted,
    Created(bool),
    Patched(bool),
}

impl View for Event {
    type V = EventView;

    open spec fn view(&self) -> EventView {
        match self {
            Event::Fetched { config, certs, telemetry } => EventView::Fetched(config@, certs@, telemetry@),
            Event::Deleted => EventView::Deleted,
            Event::Created(ok) => EventView::Created(*ok),
            Event::Patched(ok) => EventView::Patched(*ok),
        }
    }
}

/// What the driver should do next.
#[derive(Debug, PartialEq, Eq)]
pub enum Action {
    /// Fetch the content of every kind.
    Fetch { namespace: String, identifier: String },
    /// Delete a managed resource; not finding it is success.
    Delete { namespace: String, name: String },
    /// Create a managed resource.
    Create(ManagedResource),
    /// Apply a merge patch to the pod template of deployment `name`.
    Patch { namespace: String, name: String, patch: PodTemplatePatch },
    /// The pass is over.
    Finish(Outcome),
}

pub enum ActionView {
    Fetch { namespace: Seq<char>, identifier: Seq<char> },
    Delete { namespace: Seq<char>, name: Seq<char> },
    Create(ResourceView),
    Patch { namespace: Seq<char>, name: Seq<char>, patch: PatchView },
    Finish(OutcomeView),
}

impl View for Action {
    type V = ActionView;

    open spec fn view(&self) -> ActionView {
        match self {
            Action::Fetch { namespace, identifier } => ActionView::Fetch {
                namespace: namespace@,
                identifier: identifier@,
            },
            Action::Delete { namespace, name } => ActionView::Delete { namespace: namespace@, name: name@ },
            Action::Create(r) => ActionView::Create(r@),
            Action::Patch { namespace, name, patch } => ActionView::Patch {
                namespace: namespace@,
                name: name@,
                patch: patch@,
            },
            Action::Finish(o) => ActionView::Finish(o@),
        }
    }
}

/// Whether an action changes the cluster.
pub open spec fn mutates(a: ActionView) -> bool {
    a is Delete || a is Create || a is Patch
}

/// Where a pass stands.
#[derive(Debug, PartialEq, Eq)]
pub enum Phase {
    Fetching,
    Deleting(AttachmentKind),
    Creating(AttachmentKind),
    PatchingVolumes,
    PatchingContainers,
    Done(Outcome),
}

pub enum PhaseView {
    Fetching,
    Deleting(AttachmentKind),
    Creating(AttachmentKind),
    PatchingVolumes,
    PatchingContainers,
    Done(OutcomeView),
}

impl View for Phase {
    type V = PhaseView;

    open spec fn view(&self) -> PhaseView {
        match self {
            Phase::Fetching => PhaseView::Fetching,
            Phase::Deleting(k) => PhaseView::Deleting(*k),
            Phase::Creating(k) => PhaseView::Creating(*k),
            Phase::PatchingVolumes => PhaseView::PatchingVolumes,
            Phase::PatchingContainers => PhaseView::PatchingContainers,
            Phase::Done(o) => PhaseView::Done(o@),
        }
    }
}

/// One reconciliation pass over an in-scope deployment.
#[derive(Debug, PartialEq, Eq)]
pub struct Reconciliation {
    target: Target,
    image: String,
    phase: Phase,
    bundles: Bundles,
}

pub struct ReconciliationView {
    pub target: TargetView,
    pub image: Seq<char>,
    pub phase: PhaseView,
    pub bundles: BundlesView,
}

impl View for Reconciliation {
    type V = ReconciliationView;

    closed spec fn view(&self) -> ReconciliationView {
        ReconciliationView { target: self.target@, image: self.image@, phase: self.phase@, bundles: self.bundles@ }
    }
}

/// The state in which a pass over `target` begins.
pub open spec fn initial(target: TargetView, image: Seq<char>) -> ReconciliationView {
    ReconciliationView { target, image, phase: PhaseView::Fetching, bundles: empty_bundles() }
}

pub open spec fn with_phase(s: ReconciliationView, phase: PhaseView) -> ReconciliationView {
    ReconciliationView { phase, ..s }
}

pub open spec fn failed(s: ReconciliationView, e: ErrorView) -> ReconciliationView {
    with_phase(s, PhaseView::Done(OutcomeView::Failed(e)))
}

/// The error for a fetch in which some kind was unavailable: the first such
/// kind, in the order config, certificates, telemetry. (The last arm is
/// never taken: `advance` asks only where some kind is unavailable.)
pub open spec fn fetch_error(config: FetchedView, certs: FetchedView, telemetry: FetchedView) -> ErrorView {
    match (config, certs, telemetry) {
        (FetchedView::Unavailable(l), _, _) => ErrorView::ConfigUnavailable(AttachmentKind::Config, l),
        (_, FetchedView::Unavailable(l), _) => ErrorView::ConfigUnavailable(AttachmentKind::Certs, l),
        (_, _, FetchedView::Unavailable(l)) => ErrorView::ConfigUnavailable(AttachmentKind::Telemetry, l),
        _ => ErrorView::ConfigUnavailable(AttachmentKind::Config, Seq::empty()),
    }
}

/// The state after event `e`. Only every fetch succeeding leads on to the
/// cluster changes; any failure ends the pass; an event that does not
/// answer the pending action changes nothing.
pub open spec fn advance(s: ReconciliationView, e: EventView) -> ReconciliationView {
    match (s.phase, e) {
        (PhaseView::Fetching, EventView::Fetched(c, ce, t)) => match (c, ce, t) {
            (FetchedView::Found(a), FetchedView::Found(b), FetchedView::Found(d)) => ReconciliationView {
                phase: PhaseView::Deleting(AttachmentKind::Config),
                bundles: BundlesView { config: a, certs: b, telemetry: d },
                ..s
            },
            _ => failed(s, fetch_error(c, ce, t)),
        },
        (PhaseView::Deleting(k), EventView::Deleted) => match next_kind_of(k) {
            Some(n) => with_phase(s, PhaseView::Deleting(n)),
            None => with_phase(s, PhaseView::Creating(AttachmentKind::Config)),
        },
        (PhaseView::Creating(k), EventView::Created(true)) => match next_kind_of(k) {
            Some(n) => with_phase(s, PhaseView::Creating(n)),
            None => with_phase(s, PhaseView::PatchingVolumes),
        },
        (PhaseView::Creating(k), EventView::Created(false)) => failed(
            s,
            ErrorView::ConfigMapCreateFailed(managed_name_of(s.target.identifier, k)),
        ),
        (PhaseView::PatchingVolumes, EventView::Patched(true)) => with_phase(s, PhaseView::PatchingContainers),
        (PhaseView::PatchingVolumes, EventView::Patched(false)) => failed(s, ErrorView::PatchApplyFailed(Stage::Volumes)),
        (PhaseView::PatchingContainers, EventView::Patched(true)) => with_phase(
            s,
            PhaseView::Done(OutcomeView::Succeeded),
        ),
        (PhaseView::PatchingContainers, EventView::Patched(false)) => failed(
            s,
            ErrorView::PatchApplyFailed(Stage::Containers),
        ),
        _ => s,
    }
}

/// The managed resource of kind `k` in state `s`.
pub open spec fn resource_of(s: ReconciliationView, k: AttachmentKind) -> ResourceView {
    ResourceView {
        name: managed_name_of(s.target.identifier, k),
        namespace: s.target.namespace,
        data: s.bundles.entries_of(k),
    }
}

/// The action that state `s` asks for.
pub open spec fn pending_of(s: ReconciliationView) -> ActionView {
    match s.phase {
        PhaseView::Fetching => ActionView::Fetch { namespace: s.target.namespace, identifier: s.target.identifier },
        PhaseView::Deleting(k) => ActionView::Delete {
            namespace: s.target.namespace,
            name: managed_name_of(s.target.identifier, k),
        },
        PhaseView::Creating(k) => ActionView::Create(resource_of(s, k)),
        PhaseView::PatchingVolumes => ActionView::Patch {
            namespace: s.target.namespace,
            name: s.target.name,
            patch: PatchView::Volumes(volumes_of(s.target.identifier, s.bundles)),
        },
        PhaseView::PatchingContainers => ActionView::Patch {
            namespace: s.target.namespace,
            name: s.target.name,
            patch: PatchView::Containers(containers_of(s.image)),
        },
        PhaseView::Done(o) => ActionView::Finish(o),
    }
}

/// The actions that a pass from `s` asks for, one per event.
pub open spec fn run(s: ReconciliationView, events: Seq<EventView>) -> Seq<ActionView>
    decreases events.len(),
{
    if events.len() == 0 {
        Seq::empty()
    } else {
        let n = advance(s, events[0]);
        seq![pending_of(n)] + run(n, events.drop_first())
    }
}

/// How a pass over `meta` begins: `Err` with the outcome where it ends at
/// once, else the first state.
pub open spec fn begin_of(meta: ResourceMeta, image: Seq<char>) -> Result<ReconciliationView, OutcomeView> {
    match scope_of(meta) {
        Ok(None) => Err(OutcomeView::Skipped),
        Err(e) => Err(OutcomeView::Failed(e)),
        Ok(Some(t)) => Ok(initial(t, image)),
    }
}


/// Once a pass is over, every further event only repeats its outcome.
pub proof fn lemma_done_is_terminal(s: ReconciliationView, events: Seq<EventView>)
    requires
        s.phase is Done,
    ensures
        forall|i: int| 0 <= i < run(s, events).len() ==> run(s, events)[i] == pending_of(s),
        forall|i: int| 0 <= i < run(s, events).len() ==> !mutates(#[trigger] run(s, events)[i]),
    decreases events.len(),
{
    if events.len() > 0 {
        assert(advance(s, events[0]) == s);
        lemma_done_is_terminal(s, events.drop_first());
        let r = run(s, events);
        assert forall|i: int| 0 <= i < r.len() implies r[i] == pending_of(s) by {
            if i > 0 {
                assert(r[i] == run(s, events.drop_first())[i - 1]);
            }
        }
    }
}

/// If any kind cannot be fetched, the pass fails with that kind's error and
/// never deletes, creates or patches anything, whatever follows.
pub proof fn lemma_fetch_failure_aborts(
    s: ReconciliationView,
    config: FetchedView,
    certs: FetchedView,
    telemetry: FetchedView,
    rest: Seq<EventView>,
)
    requires
        s.phase is Fetching,
        config is Unavailable || certs is Unavailable || telemetry is Unavailable,
    ensures
        ({
            let actions = run(s, seq![EventView::Fetched(config, certs, telemetry)] + rest);
            &&& actions[0] == ActionView::Finish(OutcomeView::Failed(fetch_error(config, certs, telemetry)))
            &&& forall|i: int| 0 <= i < actions.len() ==> !mutates(#[trigger] actions[i])
        }),
{
    let events = seq![EventView::Fetched(config, certs, telemetry)] + rest;
    let n = advance(s, events[0]);
    assert(n == failed(s, fetch_error(config, certs, telemetry)));
    assert(events.drop_first() =~= rest);
    lemma_done_is_terminal(n, rest);
    let actions = run(s, events);
    assert forall|i: int| 0 <= i < actions.len() implies !mutates(#[trigger] actions[i]) by {
        if i > 0 {
            assert(actions[i] == run(n, rest)[i - 1]);
        }
    }
}

/// A resource without the sidecar label is skipped before any action.
pub proof fn lemma_unlabelled_is_skipped(meta: ResourceMeta, image: Seq<char>)
    requires
        lookup(meta.labels@, SIDECAR_LABEL@) is None,
    ensures
        begin_of(meta, image) == Err::<ReconciliationView, OutcomeView>(OutcomeView::Skipped),
{
}

/// A failed create ends the pass with that resource's error, asks for the
/// constant requeue delay, and nothing is patched afterwards.
pub proof fn lemma_create_failure_requeues(s: ReconciliationView, k: AttachmentKind, rest: Seq<EventView>)
    requires
        s.phase == PhaseView::Creating(k),
    ensures
        ({
            let o = OutcomeView::Failed(ErrorView::ConfigMapCreateFailed(managed_name_of(s.target.identifier, k)));
            let actions = run(s, seq![EventView::Created(false)] + rest);
            &&& actions[0] == ActionView::Finish(o)
            &&& requeue_of(o) == Some(FAILURE_REQUEUE_SECS)
            &&& forall|i: int| 0 <= i < actions.len() ==> !mutates(#[trigger] actions[i])
        }),
{
    let events = seq![EventView::Created(false)] + rest;
    let n = advance(s, events[0]);
    assert(events.drop_first() =~= rest);
    lemma_done_is_terminal(n, rest);
    let actions = run(s, events);
    assert forall|i: int| 0 <= i < actions.len() implies !mutates(#[trigger] actions[i]) by {
        if i > 0 {
            assert(actions[i] == run(n, rest)[i - 1]);
        }
    }
}

/// A pass yields one action and one state per event.
pub proof fn lemma_run_len(s: ReconciliationView, events: Seq<EventView>)
    ensures
        run(s, events).len() == events.len(),
        states(s, events).len() == events.len(),
    decreases events.len(),
{
    if events.len() > 0 {
        lemma_run_len(advance(s, events[0]), events.drop_first());
    }
}

/// After a fetch, the fetched content stays the state's content to the end
/// of the pass.
proof fn lemma_bundles_kept(s: ReconciliationView, events: Seq<EventView>, i: int)
    requires
        !(s.phase is Fetching),
        0 <= i < events.len(),
    ensures
        run(s, events)[i] == pending_of(states(s, events)[i]),
        !(states(s, events)[i].phase is Fetching),
        states(s, events)[i].bundles == s.bundles,
        states(s, events)[i].target == s.target,
    decreases events.len(),
{
    let n = advance(s, events[0]);
    lemma_run_len(s, events);
    lemma_run_len(n, events.drop_first());
    if i > 0 {
        lemma_bundles_kept(n, events.drop_first(), i - 1);
        assert(run(s, events)[i] == run(n, events.drop_first())[i - 1]);
        assert(states(s, events)[i] == states(n, events.drop_first())[i - 1]);
    }
}

/// The states that a pass from `s` goes through, one per event.
pub open spec fn states(s: ReconciliationView, events: Seq<EventView>) -> Seq<ReconciliationView>
    decreases events.len(),
{
    if events.len() == 0 {
        Seq::empty()
    } else {
        let n = advance(s, events[0]);
        seq![n] + states(n, events.drop_first())
    }
}

/// A pass replaces, never merges: once every kind is fetched, each managed
/// resource it creates holds exactly what was fetched for that kind in this
/// pass, and the volumes patch is built from that same content; what earlier
/// passes did plays no part. So two passes over the same target with the
/// same fetched content create and patch identically.
pub proof fn lemma_pass_replaces(
    s: ReconciliationView,
    config: Entries,
    certs: Entries,
    telemetry: Entries,
    rest: Seq<EventView>,
    i: int,
)
    requires
        s.phase is Fetching,
        0 <= i < rest.len(),
    ensures
        ({
            let fetched = BundlesView { config, certs, telemetry };
            let events = seq![
                EventView::Fetched(FetchedView::Found(config), FetchedView::Found(certs), FetchedView::Found(telemetry)),
            ] + rest;
            let a = run(s, events)[i + 1];
            &&& a matches ActionView::Create(r) ==> exists|k: AttachmentKind| r == (ResourceView {
                name: managed_name_of(s.target.identifier, k),
                namespace: s.target.namespace,
                data: fetched.entries_of(k),
            })
            &&& a matches ActionView::Patch { patch: PatchView::Volumes(v), .. } ==> v == volumes_of(s.target.identifier, fetched)
        }),
{
    let fetched = BundlesView { config, certs, telemetry };
    let events = seq![
        EventView::Fetched(FetchedView::Found(config), FetchedView::Found(certs), FetchedView::Found(telemetry)),
    ] + rest;
    let n = advance(s, events[0]);
    assert(events.drop_first() =~= rest);
    assert(n.bundles == fetched);
    lemma_run_len(s, events);
    lemma_run_len(n, rest);
    lemma_bundles_kept(n, rest, i);
    assert(run(s, events)[i + 1] == run(n, rest)[i]);
    let st = states(n, rest)[i];
    if let PhaseView::Creating(k) = st.phase {
        assert(run(n, rest)[i] == ActionView::Create(resource_of(st, k)));
    }
}

/// Two passes over the same target, with the same image and the same
/// events, ask for exactly the same actions.
pub proof fn lemma_passes_agree(m1: ResourceMeta, m2: ResourceMeta, image: Seq<char>, events: Seq<EventView>)
    requires
        scope_of(m1) == scope_of(m2),
    ensures
        begin_of(m1, image) == begin_of(m2, image),
        begin_of(m1, image) matches Ok(s) ==> run(s, events) == run(begin_of(m2, image)->Ok_0, events),
{
}

fn resource(target: &Target, kind: AttachmentKind, bundles: &Bundles) -> (r: ManagedResource)
    ensures
        r@ == (ResourceView {
            name: managed_name_of(target@.identifier, kind),
            namespace: target@.namespace,
            data: bundles@.entries_of(kind),
        }),
{
    ManagedResource {
        name: managed_name(&target.identifier, kind),
        namespace: target.namespace.clone(),
        data: bundles.bundle(kind).clone(),
    }
}

impl Reconciliation {
    /// Starts a pass over `meta` with the sidecar image `image`. A resource
    /// without the sidecar label is skipped, and one with it that lacks an
    /// identity field fails; neither asks for any action.
    pub fn begin(meta: &ResourceMeta, image: &String) -> (r: Result<(Reconciliation, Action), Outcome>)
        ensures
            match (r, begin_of(*meta, image@)) {
                (Ok((s, a)), Ok(v)) => s@ == v && a@ == pending_of(v),
                (Err(o), Err(v)) => o@ == v,
                _ => false,
            },
    {
        match scope_filter(meta) {
            Ok(None) => Err(Outcome::Skipped),
            Err(e) => Err(Outcome::Failed(e)),
            Ok(Some(target)) => {
                let s = Reconciliation { target, image: image.clone(), phase: Phase::Fetching, bundles: Bundles::empty() };
                let a = s.pending_action();
                Ok((s, a))
            },
        }
    }

    /// The action that this state asks for.
    pub fn pending_action(&self) -> (r: Action)
        ensures
            r@ == pending_of(self@),
    {
        match &self.phase {
            Phase::Fetching => Action::Fetch {
                namespace: self.target.namespace.clone(),
                identifier: self.target.identifier.clone(),
            },
            Phase::Deleting(k) => Action::Delete {
                namespace: self.target.namespace.clone(),
                name: managed_name(&self.target.identifier, *k),
            },
            Phase::Creating(k) => Action::Create(resource(&self.target, *k, &self.bundles)),
            Phase::PatchingVolumes => Action::Patch {
                namespace: self.target.namespace.clone(),
                name: self.target.name.clone(),
                patch: PodTemplatePatch::Volumes(volumes_patch(&self.target.identifier, &self.bundles)),
            },
            Phase::PatchingContainers => Action::Patch {
                namespace: self.target.namespace.clone(),
                name: self.target.name.clone(),
                patch: PodTemplatePatch::Containers(containers_patch(&self.image)),
            },
            Phase::Done(o) => Action::Finish(o.clone_outcome()),
        }
    }

    /// Takes the result of the pending action and moves on: the new state,
    /// and the action that it asks for.
    pub fn step(self, event: Event) -> (r: (Reconciliation, Action))
        ensures
            r.0@ == advance(self@, event@),
            r.1@ == pending_of(r.0@),
    {
        let ghost before = self@;
        let Reconciliation { target, image, phase, bundles } = self;
        let (phase, bundles) = match phase {
            Phase::Fetching => match event {
                Event::Fetched { config, certs, telemetry } => match (config, certs, telemetry) {
                    (Fetched::Found(a), Fetched::Found(b), Fetched::Found(d)) => (
                        Phase::Deleting(AttachmentKind::Config),
                        Bundles { config: a, certs: b, telemetry: d },
                    ),
                    (Fetched::Unavailable(l), _, _) => (
                        Phase::Done(Outcome::Failed(ReconcileError::ConfigUnavailable { kind: AttachmentKind::Config, location: l })),
                        bundles,
                    ),
                    (_, Fetched::Unavailable(l), _) => (
                        Phase::Done(Outcome::Failed(ReconcileError::ConfigUnavailable { kind: AttachmentKind::Certs, location: l })),
                        bundles,
                    ),
                    (_, _, Fetched::Unavailable(l)) => (
                        Phase::Done(
                            Outcome::Failed(ReconcileError::ConfigUnavailable { kind: AttachmentKind::Telemetry, location: l }),
                        ),
                        bundles,
                    ),
                },
                _ => (Phase::Fetching, bundles),
            },
            Phase::Deleting(k) => match event {
                Event::Deleted => match k.next() {
                    Some(n) => (Phase::Deleting(n), bundles),
                    None => (Phase::Creating(AttachmentKind::Config), bundles),
                },
                _ => (Phase::Deleting(k), bundles),
            },
            Phase::Creating(k) => match event {
                Event::Created(true) => match k.next() {
                    Some(n) => (Phase::Creating(n), bundles),
                    None => (Phase::PatchingVolumes, bundles),
                },
                Event::Created(false) => (
                    Phase::Done(Outcome::Failed(ReconcileError::ConfigMapCreateFailed { name: managed_name(&target.identifier, k) })),
                    bundles,
                ),
                _ => (Phase::Creating(k), bundles),
            },
            Phase::PatchingVolumes => match event {
                Event::Patched(true) => (Phase::PatchingContainers, bundles),
                Event::Patched(false) => (
                    Phase::Done(Outcome::Failed(ReconcileError::PatchApplyFailed { stage: Stage::Volumes })),
                    bundles,
                ),
                _ => (Phase::PatchingVolumes, bundles),
            },
            Phase::PatchingContainers => match event {
                Event::Patched(true) => (Phase::Done(Outcome::Succeeded), bundles),
                Event::Patched(false) => (
                    Phase::Done(Outcome::Failed(ReconcileError::PatchApplyFailed { stage: Stage::Containers })),
                    bundles,
                ),
                _ => (Phase::PatchingContainers, bundles),
            },
            Phase::Done(o) => (Phase::Done(o), bundles),
        };
        let next = Reconciliation { target, image, phase, bundles };
        assert(next@ == advance(before, event@));
        let action = next.pending_action();
        (next, action)
    }
}

} // verus!
