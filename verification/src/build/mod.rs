//! Data types of the build layer.

pub mod types;
