//! The operations of the factory.

pub mod create_pool;
pub mod initialize_factory;
pub mod update_defaults;
pub mod update_factory_authority;
pub mod update_fee_config;
pub mod update_pool_authority;
pub mod update_protocol_authority;
