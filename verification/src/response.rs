//! The events that a pipeline emits while it works on one request.

use vstd::prelude::*;

verus! {

/// What one choice gained in a partial chunk.
#[derive(Debug, Clone)]
pub struct Delta {
    pub content: Option<String>,
    pub role: String,
}

/// One choice of a partial chunk.
#[derive(Debug, Clone)]
pub struct ChunkChoice {
    /// Set on the last chunk of this choice.
    pub finish_reason: Option<String>,
    pub index: usize,
    pub delta: Delta,
}

/// A partial result of a chat completion.
#[derive(Debug, Clone)]
pub struct ChatCompletionChunkResponse {
    pub id: String,
    pub choices: Vec<ChunkChoice>,
    pub created: u64,
    pub model: String,
}

#[derive(Debug, Clone)]
pub struct ResponseMessage {
    pub content: Option<String>,
    pub role: String,
}

#[derive(Debug, Clone)]
pub struct Choice {
    pub finish_reason: String,
    pub index: usize,
    pub message: ResponseMessage,
}

/// A finished chat completion.
#[derive(Debug, Clone)]
pub struct ChatCompletionResponse {
    pub id: String,
    pub choices: Vec<Choice>,
    pub created: u64,
    pub model: String,
}

#[derive(Debug, Clone)]
pub struct CompletionChoice {
    pub finish_reason: String,
    pub index: usize,
    pub text: String,
}

/// A finished text completion.
#[derive(Debug, Clone)]
pub struct CompletionResponse {
    pub id: String,
    pub choices: Vec<CompletionChoice>,
    pub created: u64,
    pub model: String,
}

/// One event of a pipeline. Every event but `Chunk` ends the request.
#[derive(Debug, Clone)]
pub enum Response {
    /// The system failed; the text says how.
    InternalError(String),
    /// The request was refused; the text says why.
    ValidationError(String),
    /// The model failed: a message for the user, and what it had produced.
    ModelError(String, ChatCompletionResponse),
    Done(ChatCompletionResponse),
    Chunk(ChatCompletionChunkResponse),
    CompletionDone(CompletionResponse),
}

impl Response {
    /// Whether no event follows this one.
    pub open spec fn is_terminal(&self) -> bool {
        !(self is Chunk)
    }

    /// The message of a terminal failure.
    pub open spec fn failure(&self) -> Option<Seq<char>> {
        match *self {
            Response::InternalError(text) => Some(text@),
            Response::ValidationError(text) => Some(text@),
            Response::ModelError(text, _) => Some(text@),
            _ => None,
        }
    }

    pub fn ends_request(&self) -> (terminal: bool)
        ensures
            terminal == self.is_terminal(),
    {
        match self {
            Response::Chunk(_) => false,
            _ => true,
        }
    }
}

} // verus!
