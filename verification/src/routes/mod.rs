//! What requests ask for, and how they are answered.
pub mod admin;
pub mod admin_laws;
pub mod blob_laws;
pub mod blobs;
pub mod cluster_laws;
pub mod cluster_view;
pub mod dashboard_api;
pub mod dashboard_laws;
pub mod globs;
pub mod health;
pub mod manifest_laws;
pub mod manifests;
pub mod namespace_laws;
pub mod namespaces;
pub mod pat_api;
pub mod path_laws;
pub mod paths;
pub mod referrers;
pub mod reply;
pub mod repositories;
pub mod repository_names;
pub mod session_api;
pub mod token_laws;
pub mod uploads;
