//! Practice sessions: the exercises and their analysis.
pub mod models;
pub mod report;
pub mod scoring;
