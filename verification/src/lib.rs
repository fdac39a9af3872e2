//! The decisions of a Wayland proxy that rewrites selected protocol messages.

pub mod child;
pub mod config;
pub mod error;
pub mod listen;
pub mod launch;
pub mod notice;
pub mod path;
pub mod rewrite;
pub mod serve;
pub mod socket;
pub mod text;
