//! Tab lifecycle and surface orchestration for embedded browser panels.
//!
//! The registry decides; the host performs. Every operation updates the
//! registry's state and hands back the engine commands that realise it, so the
//! code that owns the native browser surfaces only has to carry them out.
//!
//! Beside the browser panels: the note tree's entry rules and order, the
//! watcher's change classification, the danmaku list scanner, and the Base64
//! form of binary file content.

pub mod bounds;
pub mod danmaku;
pub mod encoding;
pub mod engine;
pub mod error;
pub mod interceptor;
pub mod laws;
pub mod model;
pub mod notes;
pub mod registry;
pub mod weburl;
