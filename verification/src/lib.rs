//! Control-plane logic of a service mesh for Kubernetes: the cluster
//! catalogue, the wrappers that summarise pods, replica sets, deployments
//! and services, and the deployment patch that injects the sidecar.
pub mod catalog;
pub mod catalogue;
pub mod comm;
pub mod k8s;
pub mod msg;
pub mod net;
pub mod table;
