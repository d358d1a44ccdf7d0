//! The data planes that gateways are made of.
pub mod agentgateway;
pub mod compactor;
pub mod deployment;
pub mod envoy;
pub mod file_deployer;
pub mod gateway_deployer;
pub mod gateways;
pub mod sources;
pub mod templates;
pub mod xds_generator;
