//! Peer-to-peer file transfer: planning downloads from peers and serving
//! files to them.

pub mod downloader;
pub mod http_server;
