//! Verified core of a component installer: it reads a package's index and the
//! manifest of each component, and decides, step by step, what an install has
//! to stage and when it may commit.

pub mod errors;
pub mod gzip;
pub mod install;
pub mod manifest;
pub mod package;
pub mod text;
