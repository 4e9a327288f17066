//! Prompt builders and reply parsing for the language model contract.
pub mod clean;
pub mod parse;
pub mod prompts;
pub mod response;
