//! Verified core of the open-course language learning tool.
pub mod curriculum;
pub mod error;
pub mod input;
pub mod learning_items;
pub mod llm;
pub mod modules;
pub mod profile;
pub mod session;
pub mod sync_protocol;
pub mod text;
pub mod ui;
pub mod update;
pub mod vocabulary;
pub mod words;
