//! The raw text of a model reply with its size.
use vstd::prelude::*;

verus! {

/// Raw text of a model reply together with its content and reasoning
/// sizes, used to build informative errors.
#[derive(Debug, Clone)]
pub struct LlmResponse {
    pub raw: String,
    pub content_chars: usize,
    pub reasoning_chars: usize,
}

impl LlmResponse {
    /// An empty reply.
    pub fn empty() -> (r: LlmResponse)
        ensures
            r.raw@ == Seq::<char>::empty(),
            r.content_chars == 0,
            r.reasoning_chars == 0,
    {
        LlmResponse { raw: String::new(), content_chars: 0, reasoning_chars: 0 }
    }

    /// A reply made of `text` alone, whose content size is its number of
    /// characters.
    pub fn from_text(text: String) -> (r: LlmResponse)
        ensures
            r.raw@ == text@,
            r.content_chars == text@.len(),
            r.reasoning_chars == 0,
    {
        let chars = text.as_str().unicode_len();
        LlmResponse { raw: text, content_chars: chars, reasoning_chars: 0 }
    }
}

} // verus!
