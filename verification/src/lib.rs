//! Command-resolution and interactive-response core of a chat-bot framework.
//!
//! Given a registered tree of commands, this library resolves a raw name
//! string to a command definition across three invocation surfaces (slash,
//! prefix, context menu), extracts the permission sets relevant to running
//! it, and renders help output: aligned two-column command listings, a single
//! command's full help, newline-respecting text chunking, and the
//! page-navigation state machine of the paginated display.

pub mod chunks;
pub mod command;
pub mod help_render;
pub mod pages;
pub mod permissions;
pub mod single_help;
pub mod text;
pub mod two_column;
