//! Reconciliation errors and outcomes, and the requeue policy they drive.
use vstd::prelude::*;

use crate::kinds::AttachmentKind;

verus! {

/// Delay, in seconds, before a failed reconciliation is tried again.
pub const FAILURE_REQUEUE_SECS: u64 = 1;

/// Which of the two pod-template patches is meant.
#[derive(Clone, Copy, Debug, PartialEq, Eq, Structural)]
pub enum Stage {
    Volumes,
    Containers,
}

/// Why a reconciliation pass failed.
#[derive(Debug, PartialEq, Eq)]
pub enum ReconcileError {
    /// An in-scope resource lacks an identity field (the field's path).
    MissingIdentityField { field: String },
    /// The content of a kind could not be fetched from `location`.
    ConfigUnavailable { kind: AttachmentKind, location: String },
    /// The managed resource `name` could not be created.
    ConfigMapCreateFailed { name: String },
    /// Applying one of the patches failed.
    PatchApplyFailed { stage: Stage },
}

pub enum ErrorView {
    MissingIdentityField(Seq<char>),
    ConfigUnavailable(AttachmentKind, Seq<char>),
    ConfigMapCreateFailed(Seq<char>),
    PatchApplyFailed(Stage),
}

impl View for ReconcileError {
    type V = ErrorView;

    open spec fn view(&self) -> ErrorView {
        match self {
            ReconcileError::MissingIdentityField { field } => ErrorView::MissingIdentityField(field@),
            ReconcileError::ConfigUnavailable { kind, location } => ErrorView::ConfigUnavailable(*kind, location@),
            ReconcileError::ConfigMapCreateFailed { name } => ErrorView::ConfigMapCreateFailed(name@),
            ReconcileError::PatchApplyFailed { stage } => ErrorView::PatchApplyFailed(*stage),
        }
    }
}

impl ReconcileError {
    pub fn clone_error(&self) -> (r: ReconcileError)
        ensures
            r@ == self@,
    {
        match self {
            ReconcileError::MissingIdentityField { field } => ReconcileError::MissingIdentityField { field: field.clone() },
            ReconcileError::ConfigUnavailable { kind, location } => ReconcileError::ConfigUnavailable {
                kind: *kind,
                location: location.clone(),
            },
            ReconcileError::ConfigMapCreateFailed { name } => ReconcileError::ConfigMapCreateFailed { name: name.clone() },
            ReconcileError::PatchApplyFailed { stage } => ReconcileError::PatchApplyFailed { stage: *stage },
        }
    }
}

/// How a reconciliation pass ended.
#[derive(Debug, PartialEq, Eq)]
pub enum Outcome {
    /// The resource is not in scope; nothing was done.
    Skipped,
    Succeeded,
    Failed(ReconcileError),
}

pub enum OutcomeView {
    Skipped,
    Succeeded,
    Failed(ErrorView),
}

impl View for Outcome {
    type V = OutcomeView;

    open spec fn view(&self) -> OutcomeView {
        match self {
            Outcome::Skipped => OutcomeView::Skipped,
            Outcome::Succeeded => OutcomeView::Succeeded,
            Outcome::Failed(e) => OutcomeView::Failed(e@),
        }
    }
}

impl Outcome {
    pub fn clone_outcome(&self) -> (r: Outcome)
        ensures
            r@ == self@,
    {
        match self {
            Outcome::Skipped => Outcome::Skipped,
            Outcome::Succeeded => Outcome::Succeeded,
            Outcome::Failed(e) => Outcome::Failed(e.clone_error()),
        }
    }
}

/// The requeue delay, in seconds, that follows an outcome: none after
/// success or a skip, the constant delay after any failure.
pub open spec fn requeue_of(o: OutcomeView) -> Option<u64> {
    match o {
        OutcomeView::Failed(_) => Some(FAILURE_REQUEUE_SECS),
        _ => None,
    }
}

/// The requeue delay, in seconds, that the dispatcher should wait before
/// reconciling the resource again; `None` leaves it to the next change.
pub fn requeue_after(outcome: &Outcome) -> (r: Option<u64>)
    ensures
        r == requeue_of(outcome@),
{
    match outcome {
        Outcome::Failed(_) => Some(FAILURE_REQUEUE_SECS),
        _ => None,
    }
}

/// The requeue delay after a failure, whatever the error.
pub fn error_requeue_after(error: &ReconcileError) -> (r: u64)
    ensures
        Some(r) == requeue_of(OutcomeView::Failed(error@)),
{
    FAILURE_REQUEUE_SECS
}

} // verus!
