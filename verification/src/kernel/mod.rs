//! Kernel facts: build configuration flags, loaded modules, and the release version.

pub mod flags;
pub mod modules;
pub mod version;
