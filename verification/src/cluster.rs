//! The clustered control plane: the replicated catalog, the entity
//! repositories backed by it, the request-routing state machine, the peer
//! client cache and the service surface.

pub mod catalog;
pub mod node;
pub mod pool;
pub mod disk;
pub mod error;
pub mod routing;
pub mod peers;
pub mod builder;
pub mod virtus;
