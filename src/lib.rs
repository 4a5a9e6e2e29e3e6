//! Toolchain resolution, proxy dispatch and shim installation for a
//! compiler-toolchain version manager.

pub mod text;
pub mod overrides;
pub mod error;
pub mod config;
pub mod proxy;
pub mod shims;
pub mod session;
pub mod records;
