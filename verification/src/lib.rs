//! Translation between an OpenAI-style API and a tensor-based inference backend.

pub mod backend;
pub mod buffer;
pub mod config;
pub mod errors;
pub mod ident;
pub mod names;
pub mod openai;
pub mod request;
pub mod routes;
pub mod state;
pub mod templater;
pub mod text;
pub mod tokenizers;
pub mod utils;
