//! Texture atlas build / load / save pipeline.
//!
//! A texture atlas is a single packed image together with a layout that says
//! where each original sub-image lives inside it, and a path index mapping
//! each placement back to its optional source identifier.

pub mod asset;
pub mod build_loader;
pub mod codec;
pub mod composite;
pub mod config;
pub mod errors;
pub mod format;
pub mod layout;
pub mod loader;
pub mod pack;
pub mod paths;
pub mod pixels;
pub mod rect;
pub mod saver;
pub mod settings;

pub use rect::Rect;
