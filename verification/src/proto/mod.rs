//! The messages that the manager, the download servers and the clients exchange.

pub mod distributed_downloader;
