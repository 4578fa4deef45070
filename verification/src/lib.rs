//! Core logic of the Thru phone/computer file-transfer tool.
pub mod text;
pub mod number;
pub mod http_server;
pub mod http_client;
pub mod config;
pub mod tailscale;
pub mod discovery;
pub mod history;
pub mod ssh;
pub mod pull;
pub mod transfer;
pub mod send;
pub mod list;
pub mod receive;
pub mod size;
