//! What the manager, the download servers and the clients decide when
//! they talk to each other.

pub mod manager;
pub mod protobuf_helper;
pub mod server;
pub mod client;
pub mod registry;
