use vstd::prelude::*;

use xml::reader::XmlEvent;

use crate::errors::OdtError;

verus! {

/// One attribute of a markup element: its local name and its value.
#[derive(Debug)]
pub struct XmlAttr {
    pub name: String,
    pub value: String,
}

/// The mathematical view of an attribute.
pub struct AttrV {
    pub name: Seq<char>,
    pub value: Seq<char>,
}

impl View for XmlAttr {
    type V = AttrV;

    open spec fn view(&self) -> AttrV {
        AttrV { name: self.name@, value: self.value@ }
    }
}

/// One structural event of the content stream, in document order. Element
/// names are qualified; events that carry no structure or text are `Other`.
#[derive(Debug)]
pub enum RawEvent {
    /// An element opens, with its attributes in written order.
    Open { name: String, attrs: Vec<XmlAttr> },
    /// An element closes.
    Close { name: String },
    /// Character data between elements.
    Text { data: String },
    /// Any other event: document boundaries, processing instructions,
    /// comments, embedded data, insignificant whitespace.
    Other,
}

/// The mathematical view of a structural event.
pub enum EventV {
    Open { name: Seq<char>, attrs: Seq<AttrV> },
    Close { name: Seq<char> },
    Text { data: Seq<char> },
    Other,
}

/// The views of the attributes of a sequence, in order.
pub open spec fn attrs_view(s: Seq<XmlAttr>) -> Seq<AttrV> {
    s.map_values(|a: XmlAttr| a@)
}

impl View for RawEvent {
    type V = EventV;

    open spec fn view(&self) -> EventV {
        match self {
            RawEvent::Open { name, attrs } => EventV::Open {
                name: name@,
                attrs: attrs_view(attrs@),
            },
            RawEvent::Close { name } => EventV::Close { name: name@ },
            RawEvent::Text { data } => EventV::Text { data: data@ },
            RawEvent::Other => EventV::Other,
        }
    }
}

/// The views of the events of a sequence, in order.
pub open spec fn events_view(es: Seq<RawEvent>) -> Seq<EventV> {
    es.map_values(|e: RawEvent| e@)
}

/// The event stream that the markup parser yields for `text`: `None` when
/// the text is not well-formed markup, else every structural event in
/// document order. The stream depends on the text alone.
pub uninterp spec fn xml_events_of(text: Seq<char>) -> Option<Seq<EventV>>;

/// Relies on `xml::reader::EventReader` (crate `xml-rs`): pulling events from
/// a fully materialized string is deterministic, so the resulting stream and
/// whether parsing fails are functions of the text alone. Element names are
/// rendered qualified, as the reader's `OwnedName` displays them; attribute
/// names are local.
#[verifier::external_body]
pub(crate) fn parse_events(text: &String) -> (r: Result<Vec<RawEvent>, OdtError>)
    ensures
        r is Ok <==> xml_events_of(text@) is Some,
        r matches Ok(es) ==> events_view(es@) == xml_events_of(text@)->0,
        r matches Err(e) ==> e is MarkupParseError,
{
    let mut out: Vec<RawEvent> = Vec::new();
    for ev in xml::reader::EventReader::from_str(text) {
        match ev {
            Ok(XmlEvent::StartElement { name, attributes, .. }) => out.push(RawEvent::Open {
                name: name.to_string(),
                attrs: attributes.iter().map(|a| XmlAttr { name: a.name.local_name.clone(), value: a.value.clone() }).collect(),
            }),
            Ok(XmlEvent::EndElement { name }) => out.push(RawEvent::Close { name: name.to_string() }),
            Ok(XmlEvent::Characters(data)) => out.push(RawEvent::Text { data }),
            Ok(_) => out.push(RawEvent::Other),
            Err(e) => return Err(OdtError::MarkupParseError(e.to_string())),
        }
    }
    Ok(out)
}

} // verus!
