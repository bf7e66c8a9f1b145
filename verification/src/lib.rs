//! Decision logic of a desktop companion: chat turns, bot platforms,
//! conversations and characters.

pub mod text;
pub mod text_laws;
pub mod text_table;
pub mod text_map;
pub mod tags;
pub mod tag_laws;
pub mod reply_text;
pub mod encoding;
pub mod media;
pub mod media_laws;
pub mod paths;
pub mod bot_config;
pub mod bot_runtime;
pub mod json;
pub mod webhook;
pub mod webhook_laws;
pub mod memory;
pub mod telegram_text;
pub mod bot_reply;
pub mod line;
pub mod discord;
pub mod telegram;
pub mod reply_laws;
pub mod cleaning_laws;
pub mod platform_laws;
pub mod cancellation;
pub mod tool_trace;
pub mod approval;
pub mod tool_laws;
pub mod error;
pub mod history;
pub mod conversation;
pub mod history_laws;
pub mod context;
pub mod chat;
pub mod chat_turn;
pub mod turn_laws;
pub mod request_laws;
pub mod file_swap;
pub mod avatar;
pub mod avatar_change;
pub mod file_laws;
pub mod characters;
pub mod settings_laws;
