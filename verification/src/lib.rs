//! Core logic of a console mod manager for a game whose optional content
//! ("mods") is exposed to the executable through filesystem symlinks.
//!
//! The crate holds the verified parts: the paginated mod list, the persisted
//! configuration with its named presets and legacy migration, mod discovery
//! from directory listings, the symlink activation model, and the interactive
//! session's state machine.  All filesystem, terminal, network and process
//! work lives outside this crate and talks to it through plain values.

pub mod activation;
pub mod config;
pub mod dependency;
pub mod discovery;
pub mod errors;
pub mod manager;
pub mod mods;
pub mod paginator;
pub mod strutil;
pub mod terminal;
pub mod utils;
