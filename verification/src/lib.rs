//! Workspace labels for a tiling window manager: every window is given an
//! icon by layered pattern rules, the icons of a workspace are assembled
//! into one label, and a label is handed out only when it changed.

pub mod cache;
pub mod client;
pub mod config;
pub mod dedup;
pub mod formatter;
pub mod icon;
pub mod pattern;
pub mod plan;
pub mod renamer;
pub mod render;
pub mod resolver;
pub mod snapshot;
pub mod table;
pub mod text;
pub mod workspace;
