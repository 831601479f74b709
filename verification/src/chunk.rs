//! OpenAI-shaped chat-completion chunks and their constructors.
//!
//! All chunks share the stream's request id and model name, carry
//! `object = "chat.completion.chunk"`, and have exactly one choice at index 0.
//! `created` is wall-clock seconds at construction time and is the one field
//! the contracts leave open.

use vstd::prelude::*;
use vstd::string::StringExecFns;

verus! {

#[derive(Debug)]
pub struct ChatCompletionChunk {
    pub id: String,
    pub object: String,
    pub created: u64,
    pub model: String,
    pub choices: Vec<Choice>,
}

#[derive(Debug)]
pub struct Choice {
    pub index: u32,
    pub delta: Delta,
    pub finish_reason: Option<String>,
}

#[derive(Debug)]
pub struct Delta {
    pub role: Option<String>,
    pub content: Option<String>,
}

impl Default for Delta {
    /// The empty delta, as carried by the final chunk.
    fn default() -> (r: Self)
        ensures
            r.role is None,
            r.content is None,
    {
        Delta { role: None, content: None }
    }
}

/// A terminal chunk: one that carries a non-null `finish_reason`.
pub open spec fn is_terminal_chunk(c: ChatCompletionChunk) -> bool {
    c.choices@.len() > 0 && c.choices@[0].finish_reason is Some
}

/// The user-visible token contribution of a chunk: the delta content of a
/// non-terminal (content) chunk, and empty for everything else.
pub open spec fn chunk_content(c: ChatCompletionChunk) -> Seq<char> {
    if c.choices@.len() > 0 && c.choices@[0].finish_reason is None {
        match c.choices@[0].delta.content {
            Some(s) => s@,
            None => Seq::empty(),
        }
    } else {
        Seq::empty()
    }
}

/// Shape shared by every chunk of one stream: id, object, model, one choice
/// at index 0.
pub open spec fn chunk_frame(c: ChatCompletionChunk, id: Seq<char>, model: Seq<char>) -> bool {
    &&& c.id@ == id
    &&& c.object@ == "chat.completion.chunk"@
    &&& c.model@ == model
    &&& c.choices@.len() == 1
    &&& c.choices@[0].index == 0
}

/// A content chunk: `delta = { role: "assistant", content }`, no finish
/// reason.
pub open spec fn is_content_chunk(
    c: ChatCompletionChunk,
    id: Seq<char>,
    model: Seq<char>,
    content: Seq<char>,
) -> bool {
    &&& chunk_frame(c, id, model)
    &&& c.choices@[0].finish_reason is None
    &&& (match c.choices@[0].delta.role {
        Some(r) => r@ == "assistant"@,
        None => false,
    })
    &&& (match c.choices@[0].delta.content {
        Some(s) => s@ == content,
        None => false,
    })
}

/// The final chunk: an empty delta and `finish_reason = "stop"`.
pub open spec fn is_final_chunk(c: ChatCompletionChunk, id: Seq<char>, model: Seq<char>) -> bool {
    &&& chunk_frame(c, id, model)
    &&& (match c.choices@[0].finish_reason {
        Some(f) => f@ == "stop"@,
        None => false,
    })
    &&& c.choices@[0].delta.role is None
    &&& c.choices@[0].delta.content is None
}

/// An error chunk: `delta.content = "[STREAM_ERROR]: " + msg` and
/// `finish_reason = "stop"`.
pub open spec fn is_error_chunk(
    c: ChatCompletionChunk,
    id: Seq<char>,
    model: Seq<char>,
    msg: Seq<char>,
) -> bool {
    &&& chunk_frame(c, id, model)
    &&& (match c.choices@[0].finish_reason {
        Some(f) => f@ == "stop"@,
        None => false,
    })
    &&& (match c.choices@[0].delta.role {
        Some(r) => r@ == "assistant"@,
        None => false,
    })
    &&& (match c.choices@[0].delta.content {
        Some(s) => s@ == "[STREAM_ERROR]: "@ + msg,
        None => false,
    })
}

/// Relies on `std::time::SystemTime::now`: seconds since the Unix epoch at
/// the moment of the call; nothing is promised of the value.
#[verifier::external_body]
fn unix_now() -> u64 {
    match std::time::SystemTime::now().duration_since(std::time::UNIX_EPOCH) {
        Ok(d) => d.as_secs(),
        Err(_) => 0,
    }
}

/// Builds the chunk that carries one content delta.
pub fn create_content_chunk(id: String, model: String, content: String) -> (r: ChatCompletionChunk)
    ensures
        is_content_chunk(r, id@, model@, content@),
        !is_terminal_chunk(r),
        chunk_content(r) == content@,
{
    ChatCompletionChunk {
        id,
        object: "chat.completion.chunk".to_owned(),
        created: unix_now(),
        model,
        choices: vec![
            Choice {
                index: 0,
                delta: Delta { role: Some("assistant".to_owned()), content: Some(content) },
                finish_reason: None,
            },
        ],
    }
}

/// Builds the single terminal chunk of a normally completed stream: an
/// empty delta and whatever finish reason it is given, `"stop"` in this
/// system.
pub fn create_final_chunk(id: String, model: String, finish_reason: String) -> (r: ChatCompletionChunk)
    ensures
        chunk_frame(r, id@, model@),
        (match r.choices@[0].finish_reason {
            Some(f) => f@ == finish_reason@,
            None => false,
        }),
        r.choices@[0].delta.role is None,
        r.choices@[0].delta.content is None,
        finish_reason@ == "stop"@ ==> is_final_chunk(r, id@, model@),
        is_terminal_chunk(r),
        chunk_content(r) == Seq::<char>::empty(),
{
    ChatCompletionChunk {
        id,
        object: "chat.completion.chunk".to_owned(),
        created: unix_now(),
        model,
        choices: vec![
            Choice {
                index: 0,
                delta: Delta::default(),
                finish_reason: Some(finish_reason),
            },
        ],
    }
}

/// Builds the terminal chunk that surfaces an upstream `error` event.
pub fn create_error_chunk(id: String, model: String, error_message: String) -> (r: ChatCompletionChunk)
    ensures
        is_error_chunk(r, id@, model@, error_message@),
        is_terminal_chunk(r),
        chunk_content(r) == Seq::<char>::empty(),
{
    let mut content = "[STREAM_ERROR]: ".to_owned();
    content.append(error_message.as_str());
    ChatCompletionChunk {
        id,
        object: "chat.completion.chunk".to_owned(),
        created: unix_now(),
        model,
        choices: vec![
            Choice {
                index: 0,
                delta: Delta { role: Some("assistant".to_owned()), content: Some(content) },
                finish_reason: Some("stop".to_owned()),
            },
        ],
    }
}

} // verus!
