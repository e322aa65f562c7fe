//! Structural parse events, as the document state machine consumes them.

use vstd::prelude::*;

verus! {

/// One structural event of the document stream. The event source surfaces
/// these with insignificant whitespace trimmed and comments skipped; element
/// attributes come in document order as name/value pairs.
#[derive(Debug, Clone, PartialEq)]
pub enum Event {
    /// The start of the document, before any element.
    DocumentStart,
    /// An opening tag with its attribute list.
    ElementStart { name: String, attributes: Vec<(String, String)> },
    /// A closing tag.
    ElementEnd { name: String },
    /// The end of the document stream.
    DocumentEnd,
    /// The tokenizer found malformed input; `detail` describes where and why.
    SyntaxError { detail: String },
    /// Any other kind of content the tokenizer surfaces (character data,
    /// CDATA, a processing instruction, a DOCTYPE declaration).
    Other,
}

/// The mathematical image of an [`Event`]: the same shape over sequences of
/// characters.
pub enum EventV {
    DocumentStart,
    ElementStart { name: Seq<char>, attributes: Seq<(Seq<char>, Seq<char>)> },
    ElementEnd { name: Seq<char> },
    DocumentEnd,
    SyntaxError { detail: Seq<char> },
    Other,
}

impl DeepView for Event {
    type V = EventV;

    open spec fn deep_view(&self) -> EventV {
        match self {
            Event::DocumentStart => EventV::DocumentStart,
            Event::ElementStart { name, attributes } => EventV::ElementStart {
                name: name@,
                attributes: attributes.deep_view(),
            },
            Event::ElementEnd { name } => EventV::ElementEnd { name: name@ },
            Event::DocumentEnd => EventV::DocumentEnd,
            Event::SyntaxError { detail } => EventV::SyntaxError { detail: detail@ },
            Event::Other => EventV::Other,
        }
    }
}

} // verus!
