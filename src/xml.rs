use vstd::prelude::*;
use quick_xml::events::Event;
use vstd::utf8::{decode_utf8, valid_utf8};

verus! {

/// One event of a markup stream, as the decoder sees it.
#[derive(Debug, Clone, PartialEq, Eq)]
pub enum XmlEvent {
    /// An opening tag, with the element's name.
    Start(String),
    /// A closing tag, with the element's name.
    End(String),
    /// Character data between tags, as raw bytes.
    Text(Vec<u8>),
    /// Anything else: declarations, comments, empty elements.
    Other,
}

#[verifier::external_type_specification]
#[verifier::external_body]
pub struct ExXmlError(quick_xml::Error);

/// The events that quick_xml reads from the bytes, up to the end of the
/// input, with whitespace around text dropped; `None` where it finds the
/// bytes malformed.
pub uninterp spec fn xml_events_of(b: Seq<u8>) -> Option<Seq<XmlEvent>>;

/// Relies on quick_xml::Reader (from_reader, Config::trim_text, read_event):
/// reads the events of the bytes up to the end, or stops at the first error.
/// Names are taken as text, text as raw bytes.
#[verifier::external_body]
pub(crate) fn read_events(xml: &[u8]) -> (r: Result<Vec<XmlEvent>, quick_xml::Error>)
    ensures
        match xml_events_of(xml@) {
            Some(evs) => r is Ok && r->Ok_0@ == evs,
            None => r is Err,
        },
{
    let mut reader = quick_xml::Reader::from_reader(xml);
    reader.config_mut().trim_text(true);
    let name = |n: &[u8]| String::from_utf8_lossy(n).into_owned();
    std::iter::from_fn(|| match reader.read_event() {
        Ok(Event::Eof) => None,
        Ok(Event::Start(e)) => Some(Ok(XmlEvent::Start(name(e.name().as_ref())))),
        Ok(Event::End(e)) => Some(Ok(XmlEvent::End(name(e.name().as_ref())))),
        Ok(Event::Text(e)) => Some(Ok(XmlEvent::Text(e.to_vec()))),
        Ok(_) => Some(Ok(XmlEvent::Other)),
        Err(e) => Some(Err(e)),
    }).collect()
}

/// Relies on quick_xml::Error's Display: the diagnostic in words.
#[verifier::external_body]
pub(crate) fn error_text(e: &quick_xml::Error) -> String {
    e.to_string()
}

/// Relies on String::from_utf8: text exactly where the bytes are UTF-8.
#[verifier::external_body]
pub(crate) fn utf8_text(b: &[u8]) -> (r: Option<String>)
    ensures
        r is Some <==> valid_utf8(b@),
        r matches Some(s) ==> s@ == decode_utf8(b@),
{
    String::from_utf8(b.to_vec()).ok()
}

} // verus!
