//! Resolvers that find the modules imported by scripts.

pub mod file;
