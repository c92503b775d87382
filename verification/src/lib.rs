//! The text engine of a small editor: a rope-backed buffer with an undo and
//! redo history of recorded edits, minimal edit computation between two
//! versions of a text, regular-expression search, and decoding of file bytes.

pub mod replace_action;
pub mod offsets;
pub mod rope_text;
pub mod edit;
pub mod pattern;
pub mod decode;
pub mod engine;
pub mod display;
pub mod search_laws;
