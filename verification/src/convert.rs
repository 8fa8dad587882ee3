//! Import of foreign formats.

pub mod postman;
pub mod postman_laws;
