//! A streaming translator between an upstream "Dev" chat SSE vocabulary and
//! OpenAI-shaped chat-completion chunks.
//!
//! The library is organised along the data path: bytes are framed into lines
//! (`framer`), lines are classified (`line`), assembled events drive a typed
//! accumulator (`accum`, `dispatch`), and the driver (`stream`) owns the whole
//! state and guarantees the termination protocol.
//!
//! The central guarantees are stated as contracts and proof functions:
//! at most one emitted chunk carries a non-null finish reason and it comes
//! last (`stream::lemma_terminal_is_last`), nothing follows an error chunk
//! (`stream::lemma_nothing_after_terminal`), the accumulated text is the
//! concatenation of the emitted content deltas (the `on_bytes` / `on_eof`
//! contracts with `stream::lemma_contents_concat`), derived related
//! questions are trimmed and non-empty (`accum::lemma_related_entries_clean`),
//! parsing a formatted SSE line gives the line back
//! (`line::lemma_parse_format_round_trip`), and the translation is
//! chunk-boundary-agnostic: an incomplete UTF-8 character at a batch edge is
//! held back as bytes, and over the decoded text the emitted chunks are a
//! function of the concatenation alone
//! (`stream::lemma_translator_boundary_agnostic`).

pub mod accum;
pub mod chunk;
pub mod dispatch;
pub mod framer;
pub mod json;
pub mod line;
pub mod stream;
pub mod textops;
