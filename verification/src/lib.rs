//! Launch-and-inject orchestration for native extension mods.
//!
//! The crate models the lifecycle of a modded game launch: resolving the
//! game's data directories from its configuration files, materializing each
//! enabled mod's native extension library under a collision-free path,
//! injecting the libraries into a suspended target process in load order,
//! invoking each library's initialization entry point, and resuming the
//! target only once every extension has initialized successfully. Any
//! failure after the target process exists tears that process down instead
//! of abandoning it.

pub mod bytes;
pub mod config;
pub mod mods;
pub mod orchestrator;
