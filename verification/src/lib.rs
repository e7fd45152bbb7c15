//! Verified core of a monitoring service for an Ollama host: configuration,
//! parsing of `nvidia-smi` and `/proc` output, assembly of status snapshots,
//! and the encoding of snapshots into database rows.

pub mod text;
pub mod config;
pub mod models;
pub mod gpu;
pub mod system;
pub mod db;
pub mod ollama;
pub mod api;
