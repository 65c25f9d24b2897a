//! Conversational generation core of a local character-chat application.

pub mod branch_laws;
pub mod characters;
pub mod context;
pub mod conversations;
pub mod delete_laws;
pub mod download;
pub mod embeddings;
pub mod entities;
pub mod error;
pub mod filter;
pub mod inference;
pub mod lorebook;
pub mod lorebook_store;
pub mod memory;
pub mod message_service;
pub mod messages;
pub mod numbers;
pub mod paths;
pub mod personas;
pub mod queue;
pub mod scheduler;
pub mod settings;
pub mod setup;
pub mod sse;
pub mod state;
pub mod strings;
pub mod summary;
pub mod text;
pub mod tokens;
