pub mod digest;
pub mod json;
pub mod laws;
pub mod manifest;
