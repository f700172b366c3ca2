pub mod auth;
mod clock;
mod clones;
pub mod error;
pub mod listing;
pub mod oci;
pub mod raft;
pub mod routes;
pub mod store;
pub mod string_map;
pub mod text;
pub mod text_laws;
