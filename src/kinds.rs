//! The attachment kinds: declarative records of how each kind of fetched
//! content is named, stored and mounted.
use vstd::prelude::*;

use crate::strmap::{Entries, StrMap};

verus! {

/// One category of generated content attached to a workload.
#[derive(Clone, Copy, Debug, PartialEq, Eq, Structural)]
pub enum AttachmentKind {
    /// The sidecar's primary configuration: one entry.
    Config,
    /// The certificate set: any number of entries.
    Certs,
    /// The telemetry agent's configuration: one entry.
    Telemetry,
}

/// The suffix that names a kind's managed resource.
pub open spec fn suffix_of(k: AttachmentKind) -> Seq<char> {
    match k {
        AttachmentKind::Config => "-config"@,
        AttachmentKind::Certs => "-certs"@,
        AttachmentKind::Telemetry => "-otel"@,
    }
}

/// The name of the pod volume that carries a kind.
pub open spec fn volume_name_of(k: AttachmentKind) -> Seq<char> {
    match k {
        AttachmentKind::Config => "config-volume"@,
        AttachmentKind::Certs => "certs-volume"@,
        AttachmentKind::Telemetry => "otel-volume"@,
    }
}

/// The fixed file name that a single-entry kind is projected to; `None` for
/// the set-valued kind, whose entries keep their own names.
pub open spec fn projected_path_of(k: AttachmentKind) -> Option<Seq<char>> {
    match k {
        AttachmentKind::Config => Some("config.yaml"@),
        AttachmentKind::Certs => None,
        AttachmentKind::Telemetry => Some("otel-agent-config.yaml"@),
    }
}

/// The directory where a kind's volume is mounted.
pub open spec fn mount_dir_of(k: AttachmentKind) -> Seq<char> {
    match k {
        AttachmentKind::Config => "/swir_config"@,
        AttachmentKind::Certs => "/certs"@,
        AttachmentKind::Telemetry => "/etc/otel"@,
    }
}

/// Every kind, in the order in which it is materialized and mounted.
pub open spec fn all_kinds() -> Seq<AttachmentKind> {
    seq![AttachmentKind::Config, AttachmentKind::Certs, AttachmentKind::Telemetry]
}

/// The kind that follows `k` in the order of `all_kinds`, if any.
pub open spec fn next_kind_of(k: AttachmentKind) -> Option<AttachmentKind> {
    match k {
        AttachmentKind::Config => Some(AttachmentKind::Certs),
        AttachmentKind::Certs => Some(AttachmentKind::Telemetry),
        AttachmentKind::Telemetry => None,
    }
}

/// The name of the managed resource that holds `kind` for sidecar `identifier`.
pub open spec fn managed_name_of(identifier: Seq<char>, kind: AttachmentKind) -> Seq<char> {
    identifier + suffix_of(kind)
}

impl AttachmentKind {
    pub fn suffix(self) -> (r: &'static str)
        ensures
            r@ == suffix_of(self),
    {
        match self {
            AttachmentKind::Config => "-config",
            AttachmentKind::Certs => "-certs",
            AttachmentKind::Telemetry => "-otel",
        }
    }

    pub fn volume_name(self) -> (r: &'static str)
        ensures
            r@ == volume_name_of(self),
    {
        match self {
            AttachmentKind::Config => "config-volume",
            AttachmentKind::Certs => "certs-volume",
            AttachmentKind::Telemetry => "otel-volume",
        }
    }

    pub fn projected_path(self) -> (r: Option<&'static str>)
        ensures
            r is None <==> projected_path_of(self) is None,
            r matches Some(p) ==> projected_path_of(self) == Some(p@),
    {
        match self {
            AttachmentKind::Config => Some("config.yaml"),
            AttachmentKind::Certs => None,
            AttachmentKind::Telemetry => Some("otel-agent-config.yaml"),
        }
    }

    pub fn mount_dir(self) -> (r: &'static str)
        ensures
            r@ == mount_dir_of(self),
    {
        match self {
            AttachmentKind::Config => "/swir_config",
            AttachmentKind::Certs => "/certs",
            AttachmentKind::Telemetry => "/etc/otel",
        }
    }

    /// The kind that follows this one, if any.
    pub fn next(self) -> (r: Option<AttachmentKind>)
        ensures
            r == next_kind_of(self),
    {
        match self {
            AttachmentKind::Config => Some(AttachmentKind::Certs),
            AttachmentKind::Certs => Some(AttachmentKind::Telemetry),
            AttachmentKind::Telemetry => None,
        }
    }

    /// Every kind, in order.
    pub fn all() -> (r: Vec<AttachmentKind>)
        ensures
            r@ == all_kinds(),
    {
        let r = vec![AttachmentKind::Config, AttachmentKind::Certs, AttachmentKind::Telemetry];
        assert(r@ =~= all_kinds());
        r
    }
}

/// The content fetched for one reconciliation: one map per kind.
#[derive(Debug, PartialEq, Eq)]
pub struct Bundles {
    pub config: StrMap,
    pub certs: StrMap,
    pub telemetry: StrMap,
}

pub struct BundlesView {
    pub config: Entries,
    pub certs: Entries,
    pub telemetry: Entries,
}

impl BundlesView {
    /// The entries fetched for `k`.
    pub open spec fn entries_of(self, k: AttachmentKind) -> Entries {
        match k {
            AttachmentKind::Config => self.config,
            AttachmentKind::Certs => self.certs,
            AttachmentKind::Telemetry => self.telemetry,
        }
    }
}

pub open spec fn empty_bundles() -> BundlesView {
    BundlesView { config: Seq::empty(), certs: Seq::empty(), telemetry: Seq::empty() }
}

impl View for Bundles {
    type V = BundlesView;

    open spec fn view(&self) -> BundlesView {
        BundlesView { config: self.config@, certs: self.certs@, telemetry: self.telemetry@ }
    }
}

impl Bundles {
    /// Three empty maps.
    pub fn empty() -> (r: Bundles)
        ensures
            r@ == empty_bundles(),
    {
        let r = Bundles { config: StrMap::new(), certs: StrMap::new(), telemetry: StrMap::new() };
        assert(r@ =~= empty_bundles());
        r
    }

    pub fn bundle(&self, k: AttachmentKind) -> (r: &StrMap)
        ensures
            r@ == self@.entries_of(k),
    {
        match k {
            AttachmentKind::Config => &self.config,
            AttachmentKind::Certs => &self.certs,
            AttachmentKind::Telemetry => &self.telemetry,
        }
    }
}

/// The name of the managed resource that holds `kind` for sidecar
/// `identifier`: the identifier followed by the kind's suffix.
pub fn managed_name(identifier: &String, kind: AttachmentKind) -> (r: String)
    ensures
        r@ == managed_name_of(identifier@, kind),
{
    let mut r = identifier.clone();
    r.append(kind.suffix());
    r
}

/// Managed resource names are never shared between kinds: for one sidecar
/// identifier, two different kinds give two different names.
pub proof fn lemma_managed_names_distinct(identifier: Seq<char>, k1: AttachmentKind, k2: AttachmentKind)
    requires
        k1 != k2,
    ensures
        managed_name_of(identifier, k1) != managed_name_of(identifier, k2),
{
    reveal_strlit("-config");
    reveal_strlit("-certs");
    reveal_strlit("-otel");
    assert(managed_name_of(identifier, k1).len() != managed_name_of(identifier, k2).len());
}

} // verus!
