//! A connectivity monitor's verified core: echo packets, the address
//! registry, the round-based probe scheduler, and the downtime tracker that
//! turns timeouts and responses into recorded outages.
pub mod clock;
pub mod codec;
pub mod config;
pub mod model;
pub mod ping;
pub mod registry;
pub mod shutdown;
pub mod text;
pub mod tracker;
