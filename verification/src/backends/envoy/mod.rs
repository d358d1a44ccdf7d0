//! Gateways that Envoy serves.
pub mod ads;
pub mod clusters;
pub mod converters;
pub mod deployer;
pub mod history_server;
pub mod inference;
pub mod listeners;
pub mod model;
pub mod resource_generator;
pub mod resources;
pub mod route_converters;
pub mod server;
