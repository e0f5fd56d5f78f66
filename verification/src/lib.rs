//! Core logic of a distributed file downloader: how a download is cut into
//! byte ranges and handed out to download servers, how the manager, the
//! servers and the clients react to what they receive, and how a ranged
//! HTTP body is collected and checked.

pub mod text;
pub mod error;
pub mod utils;
pub mod network;
pub mod proto;
pub mod ids;
pub mod downloader;
pub mod client;
pub mod config;
pub mod server;
