//! The event source: raw text is handed to an outside tokenizer, which
//! yields the flat sequence of structural events that the tree builder
//! consumes.

use vstd::prelude::*;

verus! {

/// One structural event of the tokenizer, reduced to plain values.
///
/// Element names and attribute names are local names: any namespace prefix
/// has already been split off by the tokenizer. Attributes keep the order
/// in which the tokenizer delivered them.
pub enum RawEvent {
    /// The document prologue; emitted before the root element.
    StartDocument,
    /// An element opens, with its tag name and attribute pairs.
    StartElement { name: String, attributes: Vec<(String, String)> },
    /// Character data directly inside the open element.
    Characters(String),
    /// The innermost open element closes.
    EndElement,
    /// Any event kind the tree builder does not support (document end,
    /// processing instructions, CDATA, and the like).
    Other,
    /// The tokenizer could not produce a next event.
    Error,
}

/// The mathematical shape of one event: names and text as character
/// sequences.
#[verifier::ext_equal]
pub enum EventV {
    StartDocument,
    StartElement { name: Seq<char>, attributes: Seq<(Seq<char>, Seq<char>)> },
    Characters(Seq<char>),
    EndElement,
    Other,
    Error,
}

/// The views of a sequence of attribute pairs.
pub open spec fn pairs_view(pairs: Seq<(String, String)>) -> Seq<(Seq<char>, Seq<char>)> {
    pairs.map_values(|p: (String, String)| (p.0@, p.1@))
}

impl View for RawEvent {
    type V = EventV;

    open spec fn view(&self) -> EventV {
        match self {
            RawEvent::StartDocument => EventV::StartDocument,
            RawEvent::StartElement { name, attributes } => EventV::StartElement {
                name: name@,
                attributes: pairs_view(attributes@),
            },
            RawEvent::Characters(text) => EventV::Characters(text@),
            RawEvent::EndElement => EventV::EndElement,
            RawEvent::Other => EventV::Other,
            RawEvent::Error => EventV::Error,
        }
    }
}

/// The views of a sequence of events.
pub open spec fn events_view(events: Seq<RawEvent>) -> Seq<EventV> {
    events.map_values(|e: RawEvent| e@)
}

/// The event sequence that the tokenizer derives from a text. Tokenization
/// reads nothing but the text itself, so the sequence is a function of the
/// text alone; what it holds for a given text is left unstated here.
pub uninterp spec fn events_of(text: Seq<char>) -> Seq<EventV>;

/// Relies on `xml::EventReader` (crate `xml-rs`): configured to trim
/// whitespace, it yields the document's parse events in document order,
/// ending with a document-end event or with the first tokenization error.
/// The events are a function of the text alone.
#[verifier::external_body]
pub(crate) fn tokenize(doc: &str) -> (events: Vec<RawEvent>)
    ensures
        events_view(events@) == events_of(doc@),
{
    let reader = xml::ParserConfig::new().trim_whitespace(true).create_reader(doc.as_bytes());
    reader.into_iter().map(|ev| match ev {
        Ok(xml::reader::XmlEvent::StartDocument { .. }) => RawEvent::StartDocument,
        Ok(xml::reader::XmlEvent::StartElement { name, attributes, .. }) => RawEvent::StartElement {
            name: name.local_name,
            attributes: attributes.into_iter().map(|a| (a.name.local_name, a.value)).collect(),
        },
        Ok(xml::reader::XmlEvent::Characters(text)) => RawEvent::Characters(text),
        Ok(xml::reader::XmlEvent::EndElement { .. }) => RawEvent::EndElement,
        Ok(_) => RawEvent::Other,
        Err(_) => RawEvent::Error,
    }).collect()
}

} // verus!
