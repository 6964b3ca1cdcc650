//! A small document-object-model library for element-tree markup.
//!
//! The heart of the crate is [`XmlDoc`](xmldoc::XmlDoc): an immutable tree of
//! elements built from the event stream of a tokenizer, together with a
//! read-only query API (name, text value, attributes, ordered children).
//! The companion modules hold the result counters of the two command-line
//! tools that consume such trees.

use vstd::prelude::*;

pub mod events;
pub mod hashchecker;
pub mod renamer;
pub mod xmldoc;

verus! {

/// Why a parse failed: the tokenizer itself reported an error, the stream
/// held an event kind that an element body cannot contain, or the stream
/// ended before the root element was closed.
#[derive(Debug, Clone, Copy, PartialEq, Eq, Structural)]
pub enum XmlError {
    /// The tokenizer could not produce the next event (malformed syntax).
    Tokenizer,
    /// A structurally valid but unsupported event kind appeared where only
    /// element-start, character-data or element-end is expected.
    UnexpectedEvent,
    /// The event stream ended without delivering a complete root element.
    UnexpectedEnd,
}

} // verus!
