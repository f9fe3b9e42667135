use swir_operator::kinds::{managed_name, AttachmentKind, Bundles};
use swir_operator::patch::{containers_patch, volume_for, volumes_patch, EnvVar, KeyToPath, VolumeMount};
use swir_operator::strmap::StrMap;

fn s(x: &str) -> String {
    x.to_string()
}

fn map(pairs: &[(&str, &str)]) -> StrMap {
    StrMap::from_pairs(pairs.iter().map(|(k, v)| (s(k), s(v))).collect())
}

fn kp(k: &str, p: &str) -> KeyToPath {
    KeyToPath { key: s(k), path: s(p) }
}

#[test]
fn managed_names_are_derived_from_the_identifier() {
    let x = s("X");
    assert_eq!(managed_name(&x, AttachmentKind::Telemetry), "X-otel");
    assert_eq!(managed_name(&x, AttachmentKind::Config), "X-config");
    assert_eq!(managed_name(&x, AttachmentKind::Certs), "X-certs");
    assert_eq!(managed_name(&x, AttachmentKind::Config), "X-config");
    assert_ne!(managed_name(&x, AttachmentKind::Config), managed_name(&x, AttachmentKind::Certs));
}

#[test]
fn certificate_volume_projects_every_key() {
    let bundles = Bundles {
        config: map(&[("id", "c")]),
        certs: map(&[("b.pem", "B"), ("a.pem", "A")]),
        telemetry: map(&[("id", "t")]),
    };
    let v = volumes_patch(&s("id"), &bundles);
    assert_eq!(v[1].name, "certs-volume");
    assert_eq!(v[1].config_map, "id-certs");
    assert_eq!(v[1].items, vec![kp("a.pem", "a.pem"), kp("b.pem", "b.pem")]);
}

#[test]
fn volumes_patch_has_one_volume_per_kind() {
    let bundles = Bundles { config: StrMap::new(), certs: StrMap::new(), telemetry: StrMap::new() };
    let v = volumes_patch(&s("checkout"), &bundles);
    assert_eq!(v.len(), 3);
    assert_eq!(v[0].name, "config-volume");
    assert_eq!(v[0].config_map, "checkout-config");
    assert_eq!(v[0].items, vec![kp("checkout", "config.yaml")]);
    assert_eq!(v[1].items, vec![]);
    assert_eq!(v[2].name, "otel-volume");
    assert_eq!(v[2].config_map, "checkout-otel");
    assert_eq!(v[2].items, vec![kp("checkout", "otel-agent-config.yaml")]);
}

#[test]
fn single_entry_volume_ignores_bundle_keys() {
    let v = volume_for(&s("id"), AttachmentKind::Config, &map(&[("other", "x"), ("more", "y")]));
    assert_eq!(v.items, vec![kp("id", "config.yaml")]);
}

#[test]
fn containers_patch_has_sidecar_and_agent() {
    let c = containers_patch(&s("swir/swir:v0.4.0"));
    assert_eq!(c.len(), 2);
    assert_eq!(c[0].name, "swir");
    assert_eq!(c[0].image, "swir/swir:v0.4.0");
    assert_eq!(c[0].env, vec![EnvVar { name: s("swir_config_file"), value: s("/swir_config/config.yaml") }]);
    assert!(c[0].args.is_empty());
    assert_eq!(
        c[0].volume_mounts,
        vec![
            VolumeMount { name: s("config-volume"), mount_path: s("/swir_config") },
            VolumeMount { name: s("certs-volume"), mount_path: s("/certs") },
        ]
    );
    assert_eq!(c[1].name, "otel-agent");
    assert_eq!(c[1].image, "otel/opentelemetry-collector");
    assert!(c[1].env.is_empty());
    assert_eq!(c[1].args, vec![s("--config=/etc/otel/otel-agent-config.yaml")]);
    assert_eq!(c[1].volume_mounts, vec![VolumeMount { name: s("otel-volume"), mount_path: s("/etc/otel") }]);
}
