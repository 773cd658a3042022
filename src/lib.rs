//! Composition of cluster-access configuration files: several sources are
//! aggregated with provenance, a context is resolved to a minimal
//! self-contained configuration, and that configuration is placed at a
//! deterministic per-session cache path.
pub mod config;
pub mod error;
pub mod init;
pub mod laws;
pub mod model;
pub mod modes;
pub mod paths;
pub mod text;
