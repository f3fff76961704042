//! An archive cache for packaged 3D scene layers: archives are loaded from
//! bytes, their entries resolved to content (gzip members are inflated) and
//! every resolved entry is memoised until its archive is removed.

pub mod text;
pub mod package;
pub mod content;
pub mod cache;
pub mod routes;
pub mod laws;
