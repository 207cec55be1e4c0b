//! Core logic of a multi-provider LLM chat backend: chat titles, conversation
//! assembly, provider request shaping and stream decoding, the streaming
//! relay with its save-on-exit guarantee, ownership rules and branching.

pub mod access;
pub mod auth;
pub mod branch;
pub mod chats;
pub mod conversation;
pub mod error;
pub mod json;
pub mod keys;
pub mod models;
pub mod provider;
pub mod records;
pub mod request;
pub mod sse;
pub mod stream;
pub mod text;
pub mod title;
