//! The scope filter: which watched resources are reconciled, and for which
//! sidecar.
use vstd::prelude::*;

use crate::outcome::{ErrorView, ReconcileError};
use crate::strmap::{lookup, StrMap};

verus! {

/// The label whose value names the sidecar of a resource in scope.
pub const SIDECAR_LABEL: &'static str = "swir";

/// What the reconciler reads of a watched deployment.
#[derive(Debug, PartialEq, Eq)]
pub struct ResourceMeta {
    pub name: Option<String>,
    pub namespace: Option<String>,
    pub uid: Option<String>,
    pub labels: StrMap,
}

/// An in-scope resource: its sidecar identifier and identity.
#[derive(Debug, PartialEq, Eq)]
pub struct Target {
    pub identifier: String,
    pub name: String,
    pub namespace: String,
    pub uid: String,
}

pub struct TargetView {
    pub identifier: Seq<char>,
    pub name: Seq<char>,
    pub namespace: Seq<char>,
    pub uid: Seq<char>,
}

impl View for Target {
    type V = TargetView;

    open spec fn view(&self) -> TargetView {
        TargetView { identifier: self.identifier@, name: self.name@, namespace: self.namespace@, uid: self.uid@ }
    }
}

pub open spec fn opt_view(o: Option<String>) -> Option<Seq<char>> {
    match o {
        Some(s) => Some(s@),
        None => None,
    }
}

/// The scope decision: `Ok(None)` when the sidecar label is absent;
/// otherwise the target, or the first identity field (name, namespace,
/// uid) that is missing.
pub open spec fn scope_of(m: ResourceMeta) -> Result<Option<TargetView>, ErrorView> {
    match lookup(m.labels@, SIDECAR_LABEL@) {
        None => Ok(None),
        Some(identifier) => match (opt_view(m.name), opt_view(m.namespace), opt_view(m.uid)) {
            (None, _, _) => Err(ErrorView::MissingIdentityField(".metadata.name"@)),
            (Some(_), None, _) => Err(ErrorView::MissingIdentityField(".metadata.namespace"@)),
            (Some(_), Some(_), None) => Err(ErrorView::MissingIdentityField(".metadata.uid"@)),
            (Some(name), Some(namespace), Some(uid)) => Ok(
                Some(TargetView { identifier, name, namespace, uid }),
            ),
        },
    }
}

fn required_field(field: &Option<String>, path: &str) -> (r: Result<String, ReconcileError>)
    ensures
        match opt_view(*field) {
            Some(v) => r matches Ok(s) && s@ == v,
            None => r matches Err(e) && e@ == ErrorView::MissingIdentityField(path@),
        },
{
    match field {
        Some(v) => Ok(v.clone()),
        None => Err(ReconcileError::MissingIdentityField { field: String::from_str(path) }),
    }
}

/// Decides whether `meta` is in scope: `Ok(None)` for a resource without the
/// sidecar label, `Ok(Some(target))` for one with it, and an error for one
/// with the label that lacks an identity field.
pub fn scope_filter(meta: &ResourceMeta) -> (r: Result<Option<Target>, ReconcileError>)
    ensures
        match (r, scope_of(*meta)) {
            (Ok(None), Ok(None)) => true,
            (Ok(Some(t)), Ok(Some(v))) => t@ == v,
            (Err(e), Err(v)) => e@ == v,
            _ => false,
        },
{
    let label = String::from_str(SIDECAR_LABEL);
    match meta.labels.get(&label) {
        None => Ok(None),
        Some(identifier) => {
            let name = match required_field(&meta.name, ".metadata.name") {
                Ok(v) => v,
                Err(e) => {
                    return Err(e);
                },
            };
            let namespace = match required_field(&meta.namespace, ".metadata.namespace") {
                Ok(v) => v,
                Err(e) => {
                    return Err(e);
                },
            };
            let uid = match required_field(&meta.uid, ".metadata.uid") {
                Ok(v) => v,
                Err(e) => {
                    return Err(e);
                },
            };
            Ok(Some(Target { identifier: identifier.clone(), name, namespace, uid }))
        },
    }
}

} // verus!
