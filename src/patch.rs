//! The typed pod-template patch: volumes first, then containers.
use vstd::prelude::*;

use crate::kinds::{
    all_kinds, managed_name, managed_name_of, mount_dir_of, projected_path_of, volume_name_of,
    AttachmentKind, Bundles, BundlesView,
};
use crate::strmap::{has_key, keys_of, Entries, StrMap};

verus! {

/// One projected entry of a volume: the map key and the file it becomes.
#[derive(Debug, PartialEq, Eq)]
pub struct KeyToPath {
    pub key: String,
    pub path: String,
}

impl View for KeyToPath {
    type V = (Seq<char>, Seq<char>);

    open spec fn view(&self) -> (Seq<char>, Seq<char>) {
        (self.key@, self.path@)
    }
}

/// A pod volume backed by a managed resource.
#[derive(Debug, PartialEq, Eq)]
pub struct Volume {
    pub name: String,
    pub config_map: String,
    pub items: Vec<KeyToPath>,
}

pub struct VolumeView {
    pub name: Seq<char>,
    pub config_map: Seq<char>,
    pub items: Seq<(Seq<char>, Seq<char>)>,
}

impl View for Volume {
    type V = VolumeView;

    open spec fn view(&self) -> VolumeView {
        VolumeView {
            name: self.name@,
            config_map: self.config_map@,
            items: self.items@.map_values(|i: KeyToPath| i@),
        }
    }
}

/// An environment variable of a container.
#[derive(Debug, PartialEq, Eq)]
pub struct EnvVar {
    pub name: String,
    pub value: String,
}

impl View for EnvVar {
    type V = (Seq<char>, Seq<char>);

    open spec fn view(&self) -> (Seq<char>, Seq<char>) {
        (self.name@, self.value@)
    }
}

/// A volume mounted into a container.
#[derive(Debug, PartialEq, Eq)]
pub struct VolumeMount {
    pub name: String,
    pub mount_path: String,
}

impl View for VolumeMount {
    type V = (Seq<char>, Seq<char>);

    open spec fn view(&self) -> (Seq<char>, Seq<char>) {
        (self.name@, self.mount_path@)
    }
}

/// A container added to the pod template.
#[derive(Debug, PartialEq, Eq)]
pub struct Container {
    pub name: String,
    pub image: String,
    pub env: Vec<EnvVar>,
    pub args: Vec<String>,
    pub volume_mounts: Vec<VolumeMount>,
}

pub struct ContainerView {
    pub name: Seq<char>,
    pub image: Seq<char>,
    pub env: Seq<(Seq<char>, Seq<char>)>,
    pub args: Seq<Seq<char>>,
    pub volume_mounts: Seq<(Seq<char>, Seq<char>)>,
}

impl View for Container {
    type V = ContainerView;

    open spec fn view(&self) -> ContainerView {
        ContainerView {
            name: self.name@,
            image: self.image@,
            env: self.env@.map_values(|e: EnvVar| e@),
            args: self.args@.map_values(|a: String| a@),
            volume_mounts: self.volume_mounts@.map_values(|m: VolumeMount| m@),
        }
    }
}

/// One of the two partial updates of the pod template.
#[derive(Debug, PartialEq, Eq)]
pub enum PodTemplatePatch {
    Volumes(Vec<Volume>),
    Containers(Vec<Container>),
}

pub enum PatchView {
    Volumes(Seq<VolumeView>),
    Containers(Seq<ContainerView>),
}

impl View for PodTemplatePatch {
    type V = PatchView;

    open spec fn view(&self) -> PatchView {
        match self {
            PodTemplatePatch::Volumes(v) => PatchView::Volumes(v@.map_values(|x: Volume| x@)),
            PodTemplatePatch::Containers(c) => PatchView::Containers(c@.map_values(|x: Container| x@)),
        }
    }
}

/// The projected items of kind `k`'s volume: a single-entry kind projects
/// the identifier's entry to its fixed file; the set-valued kind projects
/// every fetched key to a file of the same name.
pub open spec fn items_of(identifier: Seq<char>, k: AttachmentKind, entries: Entries) -> Seq<(Seq<char>, Seq<char>)> {
    match projected_path_of(k) {
        Some(path) => seq![(identifier, path)],
        None => keys_of(entries).map_values(|key: Seq<char>| (key, key)),
    }
}

pub open spec fn volume_of(identifier: Seq<char>, k: AttachmentKind, entries: Entries) -> VolumeView {
    VolumeView {
        name: volume_name_of(k),
        config_map: managed_name_of(identifier, k),
        items: items_of(identifier, k, entries),
    }
}

/// The volumes patch: one volume per kind, in the order of the kinds.
pub open spec fn volumes_of(identifier: Seq<char>, bundles: BundlesView) -> Seq<VolumeView> {
    all_kinds().map_values(|k: AttachmentKind| volume_of(identifier, k, bundles.entries_of(k)))
}

/// The path of the file that a single-entry kind is mounted as.
pub open spec fn mounted_file_of(k: AttachmentKind) -> Seq<char> {
    mount_dir_of(k) + "/"@ + projected_path_of(k).unwrap()
}

pub open spec fn mount_of(k: AttachmentKind) -> (Seq<char>, Seq<char>) {
    (volume_name_of(k), mount_dir_of(k))
}

/// The containers patch: the sidecar, told where its configuration file is
/// and given the configuration and certificate volumes, then the telemetry
/// agent, pointed at its own configuration file.
pub open spec fn containers_of(image: Seq<char>) -> Seq<ContainerView> {
    seq![
        ContainerView {
            name: "swir"@,
            image: image,
            env: seq![("swir_config_file"@, mounted_file_of(AttachmentKind::Config))],
            args: seq![],
            volume_mounts: seq![mount_of(AttachmentKind::Config), mount_of(AttachmentKind::Certs)],
        },
        ContainerView {
            name: "otel-agent"@,
            image: "otel/opentelemetry-collector"@,
            env: seq![],
            args: seq!["--config="@ + mounted_file_of(AttachmentKind::Telemetry)],
            volume_mounts: seq![mount_of(AttachmentKind::Telemetry)],
        },
    ]
}

fn projected_items(identifier: &String, kind: AttachmentKind, bundle: &StrMap) -> (r: Vec<KeyToPath>)
    ensures
        r@.map_values(|i: KeyToPath| i@) == items_of(identifier@, kind, bundle@),
{
    match kind.projected_path() {
        Some(path) => {
            let r = vec![KeyToPath { key: identifier.clone(), path: String::from_str(path) }];
            assert(r@.map_values(|i: KeyToPath| i@) =~= items_of(identifier@, kind, bundle@));
            r
        },
        None => {
            let mut r: Vec<KeyToPath> = Vec::new();
            let mut i: usize = 0;
            while i < bundle.len()
                invariant
                    i <= bundle@.len(),
                    r@.len() == i,
                    forall|j: int| 0 <= j < i ==> (#[trigger] r@[j])@ == (bundle@[j].0, bundle@[j].0),
                decreases bundle@.len() - i,
            {
                let (key, _) = bundle.entry(i);
                r.push(KeyToPath { key: key.clone(), path: key.clone() });
                i = i + 1;
            }
            assert(r@.map_values(|i: KeyToPath| i@) =~= items_of(identifier@, kind, bundle@));
            r
        },
    }
}

/// The volume that mounts kind `kind`'s managed resource.
pub fn volume_for(identifier: &String, kind: AttachmentKind, bundle: &StrMap) -> (r: Volume)
    ensures
        r@ == volume_of(identifier@, kind, bundle@),
{
    Volume {
        name: String::from_str(kind.volume_name()),
        config_map: managed_name(identifier, kind),
        items: projected_items(identifier, kind, bundle),
    }
}

/// The volumes patch for sidecar `identifier` and the fetched content.
pub fn volumes_patch(identifier: &String, bundles: &Bundles) -> (r: Vec<Volume>)
    ensures
        r@.map_values(|v: Volume| v@) == volumes_of(identifier@, bundles@),
        r@.len() == all_kinds().len(),
        forall|i: int| 0 <= i < r@.len() ==> (#[trigger] r@[i])@ == volumes_of(identifier@, bundles@)[i],
{
    let kinds = AttachmentKind::all();
    let mut r: Vec<Volume> = Vec::new();
    let mut i: usize = 0;
    while i < kinds.len()
        invariant
            kinds@ == all_kinds(),
            i <= kinds@.len(),
            r@.len() == i,
            forall|j: int| 0 <= j < i ==> (#[trigger] r@[j])@ == volume_of(identifier@, kinds@[j], bundles@.entries_of(kinds@[j])),
        decreases kinds@.len() - i,
    {
        let k = kinds[i];
        r.push(volume_for(identifier, k, bundles.bundle(k)));
        i = i + 1;
    }
    assert(r@.map_values(|v: Volume| v@) =~= volumes_of(identifier@, bundles@));
    r
}

fn mounted_file(kind: AttachmentKind) -> (r: String)
    requires
        projected_path_of(kind) is Some,
    ensures
        r@ == mounted_file_of(kind),
{
    let mut r = String::from_str(kind.mount_dir());
    r.append("/");
    match kind.projected_path() {
        Some(p) => r.append(p),
        None => {},
    }
    r
}

fn mount(kind: AttachmentKind) -> (r: VolumeMount)
    ensures
        r@ == mount_of(kind),
{
    VolumeMount { name: String::from_str(kind.volume_name()), mount_path: String::from_str(kind.mount_dir()) }
}

/// The containers patch for a sidecar running `image`.
pub fn containers_patch(image: &String) -> (r: Vec<Container>)
    ensures
        r@.map_values(|c: Container| c@) == containers_of(image@),
        r@.len() == containers_of(image@).len(),
        forall|i: int| 0 <= i < r@.len() ==> (#[trigger] r@[i])@ == containers_of(image@)[i],
{
    let sidecar = Container {
        name: String::from_str("swir"),
        image: image.clone(),
        env: vec![EnvVar { name: String::from_str("swir_config_file"), value: mounted_file(AttachmentKind::Config) }],
        args: Vec::new(),
        volume_mounts: vec![mount(AttachmentKind::Config), mount(AttachmentKind::Certs)],
    };
    let mut arg = String::from_str("--config=");
    let file = mounted_file(AttachmentKind::Telemetry);
    arg.append(file.as_str());
    let agent = Container {
        name: String::from_str("otel-agent"),
        image: String::from_str("otel/opentelemetry-collector"),
        env: Vec::new(),
        args: vec![arg],
        volume_mounts: vec![mount(AttachmentKind::Telemetry)],
    };
    let r = vec![sidecar, agent];
    assert(r@[0]@.env =~= seq![("swir_config_file"@, mounted_file_of(AttachmentKind::Config))]);
    assert(r@[0]@.args =~= Seq::<Seq<char>>::empty());
    assert(r@[0]@.volume_mounts =~= seq![mount_of(AttachmentKind::Config), mount_of(AttachmentKind::Certs)]);
    assert(r@[1]@.env =~= Seq::<(Seq<char>, Seq<char>)>::empty());
    assert(r@[1]@.args =~= seq!["--config="@ + mounted_file_of(AttachmentKind::Telemetry)]);
    assert(r@[1]@.volume_mounts =~= seq![mount_of(AttachmentKind::Telemetry)]);
    assert(r@.map_values(|c: Container| c@) =~= containers_of(image@));
    r
}

/// The certificate volume projects exactly the fetched certificate keys,
/// each to a file of the same name, whatever their number.
pub proof fn lemma_cert_volume_items(identifier: Seq<char>, bundles: BundlesView, p: (Seq<char>, Seq<char>))
    ensures
        volumes_of(identifier, bundles)[1].name == volume_name_of(AttachmentKind::Certs),
        volumes_of(identifier, bundles)[1].items.contains(p) <==> (p.0 == p.1 && has_key(bundles.certs, p.0)),
{
    let items = volumes_of(identifier, bundles)[1].items;
    assert(all_kinds()[1] == AttachmentKind::Certs);
    assert(items == keys_of(bundles.certs).map_values(|key: Seq<char>| (key, key)));
    if items.contains(p) {
        let i = choose|i: int| 0 <= i < items.len() && items[i] == p;
        assert(bundles.certs[i].0 == p.0);
    }
    if p.0 == p.1 && has_key(bundles.certs, p.0) {
        let i = choose|i: int| 0 <= i < bundles.certs.len() && bundles.certs[i].0 == p.0;
        assert(items[i] == p);
    }
}

} // verus!
