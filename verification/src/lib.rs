//! Backing up the resources of a Kubernetes cluster as YAML: which namespaces
//! are taken, how a manifest is sanitized, and where its file goes.

pub mod config;
pub mod document;
pub mod entries;
pub mod laws;
pub mod layout;
pub mod listing;
pub mod sanitize;
pub mod text;
pub mod yaml;
