//! What a gateway is made of, as the manager reads it from the cluster.
pub mod address;
pub mod backend;
pub mod certificate;
pub mod contexts;
pub mod errors;
pub mod gateway;
pub mod kube;
pub mod listener;
pub mod matching;
pub mod reference_grants;
pub mod references;
pub mod resolved_refs;
pub mod resource_key;
pub mod route;
pub mod route_set;
pub mod verify;
