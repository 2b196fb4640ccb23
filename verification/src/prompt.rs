use vstd::prelude::*;

verus! {

/// A request from an element for a modal text input. `metadata` is an
/// opaque token the element uses to recognise the answer as its own; it
/// travels unchanged into the matching [`PromptResponse`].
#[derive(Debug, Clone, PartialEq)]
pub enum Prompt {
    Text { explanation: String, placeholder: String, value: String, metadata: String },
}

/// The user's answer to a [`Prompt`], carrying the same opaque token.
#[derive(Debug, Clone, PartialEq)]
pub enum PromptResponse {
    Text { response: String, metadata: String },
}

impl Prompt {
    pub fn metadata(&self) -> (m: String)
        ensures
            m@ == (match self {
                Prompt::Text { metadata, .. } => metadata@,
            }),
    {
        match self {
            Prompt::Text { metadata, .. } => metadata.clone(),
        }
    }
}

} // verus!
