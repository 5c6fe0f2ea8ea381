//! Project options.

pub mod project;
