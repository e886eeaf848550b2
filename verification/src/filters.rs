//! Template filters for string transformation.

pub mod codename;
pub mod hash;
pub mod hash_port;
pub mod path_parts;
pub mod sanitize;
pub mod sanitize_db;
pub mod sanitize_hash;
