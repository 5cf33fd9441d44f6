//! Component resolution and compilation cache: the decisions of a two-tier,
//! single-flight component cache, its metadata decoding, local discovery and
//! retry policy, each with a machine-checked contract.

pub mod cache;
pub mod cache_laws;
pub mod command;
pub mod download;
pub mod error;
pub mod files;
pub mod ident;
pub mod local;
pub mod metadata;
pub mod metadata_fetch;
pub mod middleware;
pub mod model;
pub mod number;
pub mod producer;
pub mod properties;
pub mod registry;
pub mod retry;
pub mod service;
pub mod text;
