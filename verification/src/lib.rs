//! Core of a chat client for a locally hosted language-model server: the
//! stream decoder, the session store, the completion state machine, history
//! editing and document context, each with a proved contract.

pub mod decoder;
pub mod edit;
pub mod models;
pub mod orchestrator;
pub mod services;
pub mod settings;
pub mod store;
pub mod text;
pub mod title;
pub mod utils;
