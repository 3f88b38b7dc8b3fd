//! The boundary to the XML lexer.
//!
//! The lexer turns text into a stream of events, and a tag into its name
//! and its attributes. What is marked as trusted in this file is taken from
//! the `quick-xml` crate without proof; the rest of the crate is proved
//! against what is stated here. Nothing is decided here: an attribute that
//! the lexer finds malformed is handed on as such, with its diagnostic.

use vstd::prelude::*;
use quick_xml::events::{BytesStart, Event};
use quick_xml::Reader;

verus! {

/// One attribute of a tag as the lexer hands it out.
#[derive(Debug, Clone, PartialEq, Eq)]
pub enum RawAttribute {
    /// A key and its value, as raw bytes.
    Pair { key: Vec<u8>, value: Vec<u8> },
    /// Something that is no attribute: a value without quotes, a key
    /// without `=`, a key that occurred before. The text is the lexer's
    /// diagnostic.
    Malformed { diagnostic: String },
}

/// What a [`RawAttribute`] stands for.
pub enum RawAttributeView {
    Pair { key: Seq<u8>, value: Seq<u8> },
    Malformed { diagnostic: Seq<char> },
}

impl View for RawAttribute {
    type V = RawAttributeView;

    open spec fn view(&self) -> RawAttributeView {
        match self {
            RawAttribute::Pair { key, value } => RawAttributeView::Pair {
                key: key@,
                value: value@,
            },
            RawAttribute::Malformed { diagnostic } => RawAttributeView::Malformed {
                diagnostic: diagnostic@,
            },
        }
    }
}

impl DeepView for RawAttribute {
    type V = RawAttributeView;

    open spec fn deep_view(&self) -> RawAttributeView {
        self.view()
    }
}

/// The attributes of a tag, in the order they are written.
pub type RawAttributes = Seq<RawAttributeView>;

/// One event of the lexer, reduced to what the scan reads: the kind of
/// markup, the tag name, and the attributes.
#[derive(Debug, Clone, PartialEq, Eq)]
pub enum XmlEvent {
    /// An opening tag, `<name ..>`.
    Start { name: Vec<u8>, attributes: Vec<RawAttribute> },
    /// A self-closing tag, `<name ../>`.
    Empty { name: Vec<u8>, attributes: Vec<RawAttribute> },
    /// A closing tag, `</name>`.
    End { name: Vec<u8> },
    /// The end of the text.
    Eof,
    /// Anything else: text, comments, declarations and the like.
    Other,
}

/// What an [`XmlEvent`] stands for.
pub enum XmlEventView {
    Start { name: Seq<u8>, attributes: RawAttributes },
    Empty { name: Seq<u8>, attributes: RawAttributes },
    End { name: Seq<u8> },
    Eof,
    Other,
}

impl View for XmlEvent {
    type V = XmlEventView;

    open spec fn view(&self) -> XmlEventView {
        match self {
            XmlEvent::Start { name, attributes } => XmlEventView::Start {
                name: name@,
                attributes: attributes.deep_view(),
            },
            XmlEvent::Empty { name, attributes } => XmlEventView::Empty {
                name: name@,
                attributes: attributes.deep_view(),
            },
            XmlEvent::End { name } => XmlEventView::End { name: name@ },
            XmlEvent::Eof => XmlEventView::Eof,
            XmlEvent::Other => XmlEventView::Other,
        }
    }
}

impl DeepView for XmlEvent {
    type V = XmlEventView;

    open spec fn deep_view(&self) -> XmlEventView {
        self.view()
    }
}

/// What is still to come from a lexer.
pub struct XmlStream {
    /// The events that the lexer hands out, one per read, before it reports
    /// the end of the text or an error. There are finitely many: each takes
    /// up some of the text.
    pub events: Seq<XmlEventView>,
    /// Whether the read after those events reports the end of the text,
    /// rather than an error.
    pub reaches_end: bool,
    /// The lexer's diagnostic of that error, where it is an error.
    pub failure: Seq<char>,
}

/// Trusted. The lexer of `quick-xml`, opaque to the verifier.
#[verifier::external_type_specification]
#[verifier::external_body]
#[verifier::reject_recursive_types(R)]
pub struct ExReader<R>(Reader<R>);

/// Trusted. A tag as `quick-xml` holds it, opaque to the verifier: a name
/// and the attributes behind it.
#[verifier::external_type_specification]
#[verifier::external_body]
pub struct ExBytesStart<'a>(BytesStart<'a>);

/// Trusted name: what a lexer that `Reader::from_str` makes for `text`
/// yields, with the settings it is made with.
pub uninterp spec fn xml_stream(text: Seq<char>) -> XmlStream;

/// Trusted name: what is still to come from `reader`, in the state it is in.
pub uninterp spec fn pending(reader: Reader<&[u8]>) -> XmlStream;

/// Trusted name: the attributes that a tag holds, as its iterator hands
/// them out, the malformed ones among them.
pub uninterp spec fn tag_attributes(tag: BytesStart) -> RawAttributes;

/// Trusted name: the name of a tag.
pub uninterp spec fn tag_name(tag: BytesStart) -> Seq<u8>;

/// An event as the lexer hands it out, with its tag still unread.
pub enum LexerEvent {
    Start(BytesStart<'static>),
    Empty(BytesStart<'static>),
    End(Vec<u8>),
    Eof,
    Other,
}

impl View for LexerEvent {
    type V = XmlEventView;

    open spec fn view(&self) -> XmlEventView {
        match self {
            LexerEvent::Start(tag) => XmlEventView::Start {
                name: tag_name(*tag),
                attributes: tag_attributes(*tag),
            },
            LexerEvent::Empty(tag) => XmlEventView::Empty {
                name: tag_name(*tag),
                attributes: tag_attributes(*tag),
            },
            LexerEvent::End(name) => XmlEventView::End { name: name@ },
            LexerEvent::Eof => XmlEventView::Eof,
            LexerEvent::Other => XmlEventView::Other,
        }
    }
}

/// Trusted. Calls `Reader::from_str`. Claims that what the new lexer will
/// yield depends on the text alone.
#[verifier::external_body]
pub(crate) fn open_reader<'a>(xml: &'a str) -> (reader: Reader<&'a [u8]>)
    ensures
        pending(reader) == xml_stream(xml@),
{
    Reader::from_str(xml)
}

/// Trusted. Calls `Reader::read_event_into` with a fresh buffer. A tag is
/// handed on as it is, owned; of a closing tag the name (`BytesEnd::name`);
/// an error as its diagnostic, rendered by its `Display` impl.
///
/// Claims that what the call returns depends on the state of the lexer
/// alone: it hands out the first pending event and leaves the others
/// pending; where no event is pending it reports the end of the text, and
/// goes on reporting it, or fails with the diagnostic that the stream
/// names. Nothing is claimed of the lexer after it has failed.
#[verifier::external_body]
pub(crate) fn read_event(reader: &mut Reader<&[u8]>) -> (res: Result<LexerEvent, String>)
    ensures
        match res {
            Ok(event) => if event@ is Eof {
                pending(*old(reader)).events.len() == 0 && pending(*old(reader)).reaches_end
                    && pending(*final(reader)) == pending(*old(reader))
            } else {
                pending(*old(reader)).events.len() > 0 && pending(*old(reader)).events[0] == event@
                    && pending(*final(reader)) == (XmlStream {
                    events: pending(*old(reader)).events.drop_first(),
                    ..pending(*old(reader))
                })
            },
            Err(diagnostic) => pending(*old(reader)).events.len() == 0 && !pending(
                *old(reader),
            ).reaches_end && diagnostic@ == pending(*old(reader)).failure,
        },
{
    let mut buf = Vec::new();
    Ok(match reader.read_event_into(&mut buf).map_err(|e| e.to_string())? {
        Event::Start(e) => LexerEvent::Start(e.into_owned()),
        Event::Empty(e) => LexerEvent::Empty(e.into_owned()),
        Event::End(e) => LexerEvent::End(e.name().as_ref().to_vec()),
        Event::Eof => LexerEvent::Eof,
        _ => LexerEvent::Other,
    })
}

/// Trusted. Calls `BytesStart::name` and copies the bytes.
#[verifier::external_body]
pub(crate) fn read_tag_name(tag: &BytesStart) -> (name: Vec<u8>)
    ensures
        name@ == tag_name(*tag),
{
    tag.name().as_ref().to_vec()
}

/// Trusted. Calls `BytesStart::attributes` and hands out every item of the
/// iterator, one for one: an attribute as its key and value, an error as
/// its diagnostic, rendered as `quick_xml::Error` renders it. The iterator
/// ends: after an error it goes on behind what it could not read.
#[verifier::external_body]
pub(crate) fn read_tag_attributes(tag: &BytesStart) -> (attributes: Vec<RawAttribute>)
    ensures
        attributes.deep_view() == tag_attributes(*tag),
{
    tag.attributes().map(|item| match item {
        Ok(a) => RawAttribute::Pair { key: a.key.as_ref().to_vec(), value: a.value.to_vec() },
        Err(e) => RawAttribute::Malformed { diagnostic: quick_xml::Error::from(e).to_string() },
    }).collect()
}

/// Reads the tag of an event, if it has one.
pub(crate) fn read_tag(event: LexerEvent) -> (plain: XmlEvent)
    ensures
        plain@ == event@,
{
    match event {
        LexerEvent::Start(tag) => XmlEvent::Start {
            name: read_tag_name(&tag),
            attributes: read_tag_attributes(&tag),
        },
        LexerEvent::Empty(tag) => XmlEvent::Empty {
            name: read_tag_name(&tag),
            attributes: read_tag_attributes(&tag),
        },
        LexerEvent::End(name) => XmlEvent::End { name },
        LexerEvent::Eof => XmlEvent::Eof,
        LexerEvent::Other => XmlEvent::Other,
    }
}

} // verus!
