//! Reconciliation core of a controller that attaches a configuration sidecar
//! to labelled workload deployments: which deployments are in scope, the
//! managed resources that hold their fetched content, the typed patch of
//! their pod template, and the pass that ties these together with its
//! requeue policy.
pub mod kinds;
pub mod order;
pub mod outcome;
pub mod patch;
pub mod reconcile;
pub mod scope;
pub mod source;
pub mod strmap;
