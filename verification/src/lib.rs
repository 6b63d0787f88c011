//! Questions that are put to a user in popup windows and in a Telegram chat, and the answers to
//! them: routing, keyboards, sessions and their laws.

pub mod bot_laws;
pub mod commands;
pub mod dispatcher;
pub mod error;
pub mod integration;
pub mod interface_laws;
pub mod keyboard;
pub mod keyboard_laws;
pub mod laws;
pub mod mcp_handler;
pub mod outside;
pub mod popup_windows;
pub mod runs;
pub mod selection;
pub mod session_laws;
pub mod telegram_core;
pub mod text;
pub mod text_laws;
pub mod update;
pub mod view_laws;
