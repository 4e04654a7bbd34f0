//! The decisions of the operator that runs Open Policy Agent (OPA) servers on Kubernetes.
//!
//! A reconciliation is prepared by [`strategy`] and goes through the parts that [`reconcile`]
//! puts in order. Two of them are decided here in detail: the [`deletion`] of all pods, and the
//! search for one of the [`missing_pods`], with the [`config_maps`] and the [`pods`] that it asks
//! for. Where the cluster or the operator framework has to be asked, a step says what to ask, and
//! its `answer` gives the next step. What all of this comes to for a pod is stated in [`set_up`].
pub mod action;
pub mod config_maps;
pub mod deletion;
pub mod error;
pub mod groups;
pub mod missing_pods;
pub mod objects;
pub mod order;
pub mod pods;
pub mod port;
pub mod product;
pub mod property;
pub mod reconcile;
pub mod roles;
pub mod set_up;
pub mod state;
pub mod strategy;
pub mod string_map;
