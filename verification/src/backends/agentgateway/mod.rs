pub mod deployer;
pub mod nonces;
pub mod resource_generator;
pub mod resources;
pub mod server;
