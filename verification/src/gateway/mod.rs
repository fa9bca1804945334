//! What an upstream failure means: the vocabulary lookups, the order they run
//! in, and the protocol envelope they read from.

pub mod classify;
pub mod openai_compat;
