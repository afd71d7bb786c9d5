//! The endpoints of the OpenAI API, served by the inference backend.

pub mod audio;
pub mod chat;
pub mod completions;
pub mod embeddings;
