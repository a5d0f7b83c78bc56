//! Verified core of the zed package registry: access control, the
//! tamper-evident audit chain, the publish pipeline, org claims, version
//! selection and listing, the bounded artifact store, artifact serving
//! rules, metrics rendering, configuration and command handling, and the
//! package-state diagnostics of the editor assistant.

pub mod text;
pub mod crypto;
pub mod error;
pub mod rbac;
pub mod auth;
pub mod audit;
pub mod air;
pub mod manifest;
pub mod mcp;
pub mod files;
pub mod storage;
pub mod verify;
pub mod server;
pub mod config;
pub mod metrics;
pub mod orgs;
pub mod publish;
pub mod versions;
pub mod catalog;
pub mod tokens;
pub mod embeddings;
