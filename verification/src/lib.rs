//! A multi-hop mesh routing core for low-power packet radios.
//!
//! The crate models the frames carried on air, the wire codec, the
//! deduplication ring, the network manager that decides for every received
//! frame whether to drop, deliver, forward, acknowledge or relay it, the
//! pluggable routing policies, and the mesh router that ties a radio, a
//! network manager and a policy together.

pub mod codec;
pub mod concentrator;
pub mod gwnode;
pub mod laws;
pub mod mesh_router;
pub mod network_manager;
pub mod node;
pub mod packet;
pub mod policy;
pub mod recent_seen;
