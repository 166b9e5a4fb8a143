//! A host-side registry for plugins that live in separately compiled shared
//! libraries: resolving them from a manifest, registering their capability
//! objects, and driving each through its load and unload lifecycle.

pub mod lifecycle;
pub mod manifest;
pub mod plugin;
pub mod runtime;
