//! The wire protocol and the orchestration of a code-search agent that sits
//! between a host, which asks for searches, and a remote model, which runs
//! them with the help of a few restricted local commands.
//!
//! - `varint`, `protocol`: the tagged-field codec, the schema-agnostic
//!   scanner and the framed, gzip-compressed transport.
//! - `windsurf`: the request to the backend and the interpreter of its
//!   replies.
//! - `toolcall`: the recovery of a tool invocation from the model's text.
//! - `session`: one search as a turn-bounded state machine.
//! - `answer`: the text that a search hands back.
//! - `executor`, `listing`: the restricted commands and what they show.
//! - `prompt`: the system prompt and the definitions of the tools.
//! - `transport`, `server`: the framing of the host's messages and the
//!   answers to its requests.
//! - `json`, `pattern`, `text`: JSON values, regular expressions and text,
//!   as the other modules use them.

pub mod answer;
pub mod executor;
pub mod json;
pub mod listing;
pub mod pattern;
pub mod prompt;
pub mod protocol;
pub mod server;
pub mod session;
pub mod text;
pub mod toolcall;
pub mod transport;
pub mod varint;
pub mod windsurf;
