pub mod entries;
pub mod handle;
pub mod laws;
pub mod namespace;
pub mod public;
pub mod sync;
pub mod typed_id;
pub mod types;
pub mod validations;
