//! The logic of a control plane that makes gateways out of Gateway API objects.
pub mod backends;
pub mod common;
pub mod identifiers;
pub mod lists;
pub mod model;
pub mod order;
pub mod ordered;
pub mod sorting;
pub mod text;
