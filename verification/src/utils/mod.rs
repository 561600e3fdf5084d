//! Small shared helpers.

pub mod tokens;
