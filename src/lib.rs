//! The conversation core of a terminal coding assistant: it decodes the
//! model's streamed output into ordered deltas, runs each turn as a state
//! machine over an append-only history, decides what the tool executor does
//! with a request, and batches the events that the presentation layer shows.

pub mod batcher;
pub mod engine;
pub mod prompts;
pub mod protocol;
pub mod stream;
pub mod text;
pub mod tools;
pub mod ui;
pub mod ui_state;
