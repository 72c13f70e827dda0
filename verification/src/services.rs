//! The collaborators of the chat core that compute: documents and their
//! context, and what is asked of the language-model server.

pub mod document_service;
pub mod llm;
