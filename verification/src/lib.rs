//! Core of the Vibi agent runtime, verified with Verus.
//!
//! - `vibi_lang`: the VibiClaw agent language (lexer, parser, compiler,
//!   and the dispatch of compiled batches).
//! - `analyzer`: the operations an AI reply written in prose asks for.
//! - `types`, `executor`: commands, the operations they plan in the
//!   sandbox, and what their outcomes leave.
//! - `commands`, `approval`: the approval workflow and the approval list.
//! - `crypto`: hex text and the encryption of session logs.
//! - `chat_store`, `logger`, `sessions`, `storage`: chats, the session
//!   log and the list of past ones, settings.
//! - `api`, `ai_bridge`: hosted models and the embedded chat page.
//! - `editor`, `tabs`, `projects`, `user_commands`, `theme`: rules of the
//!   editor, its tabs and projects, the slash commands and the palette.

pub mod text;
pub mod types;
pub mod executor;
pub mod crypto;
pub mod analyzer;
pub mod commands;
pub mod approval;
pub mod chat_store;
pub mod logger;
pub mod storage;
pub mod theme;
pub mod api;
pub mod ai_bridge;
pub mod editor;
pub mod user_commands;
pub mod tabs;
pub mod projects;
pub mod sessions;
pub mod vibi_lang;
