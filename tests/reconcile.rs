use swir_operator::kinds::AttachmentKind;
use swir_operator::outcome::{requeue_after, Outcome, ReconcileError, Stage, FAILURE_REQUEUE_SECS};
use swir_operator::patch::{KeyToPath, PodTemplatePatch};
use swir_operator::reconcile::{Action, Event, Fetched, ManagedResource, Reconciliation};
use swir_operator::scope::ResourceMeta;
use swir_operator::strmap::StrMap;

fn s(x: &str) -> String {
    x.to_string()
}

fn map(pairs: &[(&str, &str)]) -> StrMap {
    StrMap::from_pairs(pairs.iter().map(|(k, v)| (s(k), s(v))).collect())
}

fn labelled(identifier: &str, namespace: &str) -> ResourceMeta {
    ResourceMeta {
        name: Some(s("web")),
        namespace: Some(s(namespace)),
        uid: Some(s("uid-1")),
        labels: map(&[("app", "web"), ("swir", identifier)]),
    }
}

fn found_all() -> Event {
    Event::Fetched {
        config: Fetched::Found(map(&[("checkout", "<yaml>")])),
        certs: Fetched::Found(map(&[("a.pem", "A"), ("b.pem", "B")])),
        telemetry: Fetched::Found(map(&[("checkout", "otel")])),
    }
}

fn is_mutation(a: &Action) -> bool {
    matches!(a, Action::Delete { .. } | Action::Create(_) | Action::Patch { .. })
}

/// Drives a pass, answering each action with the next event, and returns
/// every action asked for, the first included.
fn drive(meta: &ResourceMeta, events: Vec<Event>) -> Vec<Action> {
    let (mut state, first) = match Reconciliation::begin(meta, &s("swir/swir:v0.4.0")) {
        Ok(p) => p,
        Err(o) => return vec![Action::Finish(o)],
    };
    let mut actions = vec![first];
    for e in events {
        let (next, a) = state.step(e);
        state = next;
        actions.push(a);
    }
    actions
}

fn success_events() -> Vec<Event> {
    vec![
        found_all(),
        Event::Deleted,
        Event::Deleted,
        Event::Deleted,
        Event::Created(true),
        Event::Created(true),
        Event::Created(true),
        Event::Patched(true),
        Event::Patched(true),
    ]
}

#[test]
fn unlabelled_resource_is_skipped() {
    let meta = ResourceMeta {
        name: Some(s("web")),
        namespace: Some(s("prod")),
        uid: Some(s("u")),
        labels: map(&[("app", "web")]),
    };
    match Reconciliation::begin(&meta, &s("img")) {
        Err(o) => {
            assert_eq!(o, Outcome::Skipped);
            assert_eq!(requeue_after(&o), None);
        }
        Ok(_) => panic!("an unlabelled resource must be skipped"),
    }
}

#[test]
fn missing_identity_field_fails_without_actions() {
    let mut meta = labelled("checkout", "prod");
    meta.namespace = None;
    match Reconciliation::begin(&meta, &s("img")) {
        Err(o) => {
            assert_eq!(o, Outcome::Failed(ReconcileError::MissingIdentityField { field: s(".metadata.namespace") }));
            assert_eq!(requeue_after(&o), Some(1));
        }
        Ok(_) => panic!("a resource without namespace must fail"),
    }
    let mut meta = labelled("checkout", "prod");
    meta.name = None;
    meta.uid = None;
    assert!(matches!(
        Reconciliation::begin(&meta, &s("img")),
        Err(Outcome::Failed(ReconcileError::MissingIdentityField { field })) if field == ".metadata.name"
    ));
}

#[test]
fn certificate_fetch_failure_aborts_everything() {
    let events = vec![
        Event::Fetched {
            config: Fetched::Found(map(&[("checkout", "<yaml>")])),
            certs: Fetched::Unavailable(s("./certs/prod")),
            telemetry: Fetched::Found(map(&[("checkout", "otel")])),
        },
        Event::Deleted,
        Event::Created(true),
        Event::Patched(true),
    ];
    let actions = drive(&labelled("checkout", "prod"), events);
    assert!(matches!(actions[0], Action::Fetch { .. }));
    assert_eq!(actions.iter().filter(|a| is_mutation(a)).count(), 0);
    let expected = Outcome::Failed(ReconcileError::ConfigUnavailable { kind: AttachmentKind::Certs, location: s("./certs/prod") });
    for a in &actions[1..] {
        assert_eq!(a, &Action::Finish(Outcome::Failed(ReconcileError::ConfigUnavailable {
            kind: AttachmentKind::Certs,
            location: s("./certs/prod"),
        })));
    }
    assert_eq!(requeue_after(&expected), Some(FAILURE_REQUEUE_SECS));
}

#[test]
fn first_unavailable_kind_is_reported() {
    let events = vec![Event::Fetched {
        config: Fetched::Found(map(&[("checkout", "<yaml>")])),
        certs: Fetched::Found(map(&[])),
        telemetry: Fetched::Unavailable(s("./otel/prod/otel-agent-config.yaml")),
    }];
    let actions = drive(&labelled("checkout", "prod"), events);
    assert_eq!(
        actions[1],
        Action::Finish(Outcome::Failed(ReconcileError::ConfigUnavailable {
            kind: AttachmentKind::Telemetry,
            location: s("./otel/prod/otel-agent-config.yaml"),
        }))
    );
    let events = vec![Event::Fetched {
        config: Fetched::Unavailable(s("a")),
        certs: Fetched::Unavailable(s("b")),
        telemetry: Fetched::Unavailable(s("c")),
    }];
    let actions = drive(&labelled("checkout", "prod"), events);
    assert_eq!(
        actions[1],
        Action::Finish(Outcome::Failed(ReconcileError::ConfigUnavailable { kind: AttachmentKind::Config, location: s("a") }))
    );
}

#[test]
fn create_failure_fails_with_constant_requeue() {
    let events = vec![
        found_all(),
        Event::Deleted,
        Event::Deleted,
        Event::Deleted,
        Event::Created(true),
        Event::Created(false),
        Event::Patched(true),
    ];
    let actions = drive(&labelled("checkout", "prod"), events);
    let outcome = Outcome::Failed(ReconcileError::ConfigMapCreateFailed { name: s("checkout-certs") });
    assert_eq!(actions[6], Action::Finish(Outcome::Failed(ReconcileError::ConfigMapCreateFailed { name: s("checkout-certs") })));
    assert_eq!(actions[7], actions[6]);
    assert!(actions[6..].iter().all(|a| !is_mutation(a)));
    assert_eq!(requeue_after(&outcome), Some(1));
}

#[test]
fn volumes_patch_failure_stops_before_containers() {
    let mut events = success_events();
    events[7] = Event::Patched(false);
    events.truncate(9);
    let actions = drive(&labelled("checkout", "prod"), events);
    assert_eq!(actions[8], Action::Finish(Outcome::Failed(ReconcileError::PatchApplyFailed { stage: Stage::Volumes })));
    assert!(!is_mutation(&actions[9]));
}

#[test]
fn containers_patch_failure_is_reported() {
    let mut events = success_events();
    events[8] = Event::Patched(false);
    let actions = drive(&labelled("checkout", "prod"), events);
    assert_eq!(actions[9], Action::Finish(Outcome::Failed(ReconcileError::PatchApplyFailed { stage: Stage::Containers })));
}

#[test]
fn successful_pass_runs_in_order_and_needs_no_requeue() {
    let actions = drive(&labelled("checkout", "prod"), success_events());
    assert_eq!(actions.len(), 10);
    assert_eq!(actions[0], Action::Fetch { namespace: s("prod"), identifier: s("checkout") });
    let deleted: Vec<String> = actions[1..4]
        .iter()
        .map(|a| match a {
            Action::Delete { namespace, name } => {
                assert_eq!(namespace, "prod");
                name.clone()
            }
            other => panic!("expected a delete, got {:?}", other),
        })
        .collect();
    assert_eq!(deleted, vec![s("checkout-config"), s("checkout-certs"), s("checkout-otel")]);
    let created: Vec<String> = actions[4..7]
        .iter()
        .map(|a| match a {
            Action::Create(r) => r.name.clone(),
            other => panic!("expected a create, got {:?}", other),
        })
        .collect();
    assert_eq!(created, deleted);
    assert!(matches!(&actions[7], Action::Patch { patch: PodTemplatePatch::Volumes(_), .. }));
    assert!(matches!(&actions[8], Action::Patch { patch: PodTemplatePatch::Containers(_), .. }));
    assert_eq!(actions[9], Action::Finish(Outcome::Succeeded));
    assert_eq!(requeue_after(&Outcome::Succeeded), None);
}

#[test]
fn event_out_of_turn_repeats_the_pending_action() {
    let events = vec![Event::Patched(true), Event::Created(true), Event::Deleted];
    let actions = drive(&labelled("checkout", "prod"), events);
    for a in &actions {
        assert_eq!(a, &Action::Fetch { namespace: s("prod"), identifier: s("checkout") });
    }
}

#[test]
fn two_passes_with_unchanged_content_are_identical() {
    let first = drive(&labelled("checkout", "prod"), success_events());
    let second = drive(&labelled("checkout", "prod"), success_events());
    assert_eq!(first, second);
    assert_eq!(format!("{:?}", first), format!("{:?}", second));
}

#[test]
fn created_resource_holds_exactly_the_latest_fetch() {
    let mut events = success_events();
    events[0] = Event::Fetched {
        config: Fetched::Found(map(&[("checkout", "<yaml>")])),
        certs: Fetched::Found(map(&[("b.pem", "B2")])),
        telemetry: Fetched::Found(map(&[("checkout", "otel")])),
    };
    let actions = drive(&labelled("checkout", "prod"), events);
    assert_eq!(
        actions[5],
        Action::Create(ManagedResource { name: s("checkout-certs"), namespace: s("prod"), data: map(&[("b.pem", "B2")]) })
    );
    match &actions[7] {
        Action::Patch { patch: PodTemplatePatch::Volumes(v), .. } => {
            assert_eq!(v[1].items, vec![KeyToPath { key: s("b.pem"), path: s("b.pem") }]);
        }
        other => panic!("expected the volumes patch, got {:?}", other),
    }
}

#[test]
fn end_to_end_checkout_in_prod() {
    let actions = drive(&labelled("checkout", "prod"), success_events());
    assert_eq!(
        actions[4],
        Action::Create(ManagedResource {
            name: s("checkout-config"),
            namespace: s("prod"),
            data: map(&[("checkout", "<yaml>")]),
        })
    );
    match &actions[4] {
        Action::Create(r) => {
            assert_eq!(r.data.len(), 1);
            assert_eq!(r.data.get(&s("checkout")), Some(&s("<yaml>")));
        }
        _ => unreachable!(),
    }
    match &actions[7] {
        Action::Patch { namespace, name, patch: PodTemplatePatch::Volumes(v) } => {
            assert_eq!(namespace, "prod");
            assert_eq!(name, "web");
            assert_eq!(v[0].name, "config-volume");
            assert_eq!(v[0].config_map, "checkout-config");
            assert_eq!(v[0].items, vec![KeyToPath { key: s("checkout"), path: s("config.yaml") }]);
        }
        other => panic!("expected the volumes patch, got {:?}", other),
    }
}
