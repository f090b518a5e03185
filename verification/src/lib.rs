//! The core of a language server for Hurl files: the framing of messages
//! on a byte stream, the table of open documents, and what is derived from
//! a document: its section positions, the diagnostics of its asserts
//! section, the word under the cursor, and completions.
//!
//! - [`codec`] takes frames off a buffer and writes frames to one.
//! - [`dispatch`] reads a decoded message as a request and carries it out.
//! - [`sections`], [`diagnostics`], [`hover`] and [`completion`] work on
//!   the text of one document; [`store`] holds the documents.
//! - [`buffer`], [`json`], [`text`] and [`protocol`] describe the values
//!   that come from other crates: byte buffers, structured values, ropes
//!   and request parameters.

pub mod buffer;
pub mod bytes;
pub mod codec;
pub mod completion;
pub mod decimal;
pub mod diagnostics;
pub mod dispatch;
pub mod documentation;
pub mod hover;
pub mod json;
pub mod models;
pub mod protocol;
pub mod sections;
pub mod store;
pub mod text;
