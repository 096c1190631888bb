//! The plugin system: manifests, the registry, runtimes and hooks.

pub mod api;
pub mod registry;
pub mod hooks;
pub mod runtime;
