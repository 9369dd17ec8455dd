//! Core logic of an x.com video downloader with collaborative download teams.
//!
//! Every module here is verified with Verus; process, network and disk work
//! lives in the companion application crate.

pub mod cli;
pub mod collaboration;
pub mod config;
pub mod downloader;
pub mod gui;
pub mod history;
pub mod rounding;
pub mod text;
pub mod theme;
pub mod types;
pub mod yt_dlp;
