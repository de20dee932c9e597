//! Core of an interactive terminal client for a streaming text-generation
//! service: a width model for wrap-aware layout, a fenced code-block scanner,
//! models of the editable input region and the growing output region, a
//! decoder for the provider's streamed records, and the two polling state
//! machines that drive a session.

pub mod cli;
pub mod decoder;
pub mod llm;
pub mod openai;
pub mod request;
pub mod scanner;
pub mod strutil;
pub mod term;
pub mod userin;
pub mod width;
