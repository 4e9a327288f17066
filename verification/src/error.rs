//! Errors of the library.
use vstd::prelude::*;

use crate::text::{copy_str, push_str};

verus! {

/// An error of the library.
#[derive(Debug, Clone, PartialEq)]
pub enum AppError {
    /// The language model's reply was unusable.
    Llm(String),
    /// The configuration was invalid.
    Config(String),
}

/// The text of an error: its kind, a colon and its message.
pub open spec fn app_error_text(e: AppError) -> Seq<char> {
    match e {
        AppError::Llm(m) => "LLM error: "@ + m@,
        AppError::Config(m) => "Config error: "@ + m@,
    }
}

impl AppError {
    /// The text of the error, e.g. "LLM error: parsed JSON array is empty".
    pub fn to_string(&self) -> (r: String)
        ensures
            r@ == app_error_text(*self),
    {
        match self {
            AppError::Llm(m) => {
                let mut s = copy_str("LLM error: ");
                push_str(&mut s, m.as_str());
                s
            },
            AppError::Config(m) => {
                let mut s = copy_str("Config error: ");
                push_str(&mut s, m.as_str());
                s
            },
        }
    }
}

} // verus!
