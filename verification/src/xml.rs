//! The boundary to the pull-style XML scanner.
//!
//! Tokenising is done by `quick_xml`; nothing in this crate re-implements
//! it. What the scanner yields on a given input is named here by
//! uninterpreted functions. The four functions of this file that call the
//! scanner have contracts that are taken on trust: each says that the
//! call's result is the named one.

use quick_xml::events::{BytesStart, Event};
use quick_xml::Reader;
use vstd::prelude::*;
use vstd::string::StringSliceAdditionalSpecFns;

verus! {

/// `quick_xml::Reader`, opaque to the verifier.
#[verifier::external_type_specification]
#[verifier::external_body]
#[verifier::reject_recursive_types(R)]
pub struct ExReader<R>(Reader<R>);

/// The content of a start or empty-element tag: the bytes between `<` and
/// `>` (without the `/` of an empty element), and how many of them make up
/// the name.
#[derive(Debug, Clone, PartialEq, Eq)]
pub struct XmlTag {
    pub content: Vec<u8>,
    pub name_len: usize,
}

/// One event of the scanner, reduced to what the gateway looks at.
#[derive(Debug, Clone, PartialEq, Eq)]
pub enum XmlEvent {
    /// `<name …>`
    Start(XmlTag),
    /// `<name …/>`
    Empty(XmlTag),
    /// `</name>`, with the name.
    End(Vec<u8>),
    /// Text, CDATA, a declaration, a processing instruction, a comment or
    /// a doctype.
    Other,
    /// The input is used up.
    Eof,
    /// The scanner reported an error.
    Failed,
}

/// One attribute of a tag, undecoded.
#[derive(Debug, Clone, PartialEq, Eq)]
pub struct XmlAttribute {
    pub key: Vec<u8>,
    pub value: Vec<u8>,
}

/// The mathematical content of an [`XmlTag`].
pub struct XmlTagView {
    pub content: Seq<u8>,
    pub name_len: nat,
}

/// The mathematical content of an [`XmlEvent`].
pub enum XmlEventView {
    Start(XmlTagView),
    Empty(XmlTagView),
    End(Seq<u8>),
    Other,
    Eof,
    Failed,
}

impl View for XmlTag {
    type V = XmlTagView;

    open spec fn view(&self) -> XmlTagView {
        XmlTagView { content: self.content@, name_len: self.name_len as nat }
    }
}

impl View for XmlEvent {
    type V = XmlEventView;

    open spec fn view(&self) -> XmlEventView {
        match self {
            XmlEvent::Start(tag) => XmlEventView::Start(tag@),
            XmlEvent::Empty(tag) => XmlEventView::Empty(tag@),
            XmlEvent::End(name) => XmlEventView::End(name@),
            XmlEvent::Other => XmlEventView::Other,
            XmlEvent::Eof => XmlEventView::Eof,
            XmlEvent::Failed => XmlEventView::Failed,
        }
    }
}

impl View for XmlAttribute {
    type V = (Seq<u8>, Seq<u8>);

    open spec fn view(&self) -> (Seq<u8>, Seq<u8>) {
        (self.key@, self.value@)
    }
}

impl XmlTagView {
    /// The tag's name: the first `name_len` bytes of its content.
    pub open spec fn name(self) -> Seq<u8> {
        if self.name_len <= self.content.len() {
            self.content.take(self.name_len as int)
        } else {
            self.content
        }
    }
}

impl XmlTag {
    /// The tag's name.
    pub fn name(&self) -> (name: &[u8])
        ensures
            name@ == self@.name(),
    {
        if self.name_len <= self.content.len() {
            &self.content[0..self.name_len]
        } else {
            assert(self.content@.subrange(0, self.content@.len() as int) == self.content@);
            &self.content[0..self.content.len()]
        }
    }
}

/// The attributes of a list, each by its content; `None` stands for an
/// attribute that the scanner could not read.
pub open spec fn attributes_view(attributes: Seq<Option<XmlAttribute>>) -> Seq<
    Option<(Seq<u8>, Seq<u8>)>,
> {
    attributes.map_values(
        |a: Option<XmlAttribute>|
            match a {
                Some(a) => Some(a@),
                None => None,
            },
    )
}

/// The input that a reader was opened on.
pub uninterp spec fn reader_input(reader: Reader<&[u8]>) -> Seq<u8>;

/// The number of events that were read from a reader.
pub uninterp spec fn reader_events(reader: Reader<&[u8]>) -> nat;

/// The event that the scanner yields on `input` after `index` earlier
/// events.
pub uninterp spec fn xml_event(input: Seq<u8>, index: nat) -> XmlEventView;

/// The byte position that the scanner reports on `input` after `index`
/// events.
pub uninterp spec fn xml_position(input: Seq<u8>, index: nat) -> nat;

/// The attributes that the scanner finds in a tag's content behind the
/// first `name_len` bytes, in order.
pub uninterp spec fn xml_attributes(content: Seq<char>, name_len: nat) -> Seq<
    Option<(Seq<u8>, Seq<u8>)>,
>;

/// `Reader::from_reader` on a byte slice, with end-tag names left
/// unchecked and text left untrimmed. The new reader stands at the start
/// of `input`, with no event read.
#[verifier::external_body]
pub(crate) fn reader_open<'a>(input: &'a [u8]) -> (reader: Reader<&'a [u8]>)
    ensures
        reader_input(reader) == input@,
        reader_events(reader) == 0,
{
    let mut reader = Reader::from_reader(input);
    reader.config_mut().trim_text(false);
    reader.config_mut().check_end_names = false;
    reader
}

/// `Reader::buffer_position`: the position that the scanner reports after
/// the events read so far. It depends on the input and on their number
/// alone.
#[verifier::external_body]
pub(crate) fn reader_position(reader: &Reader<&[u8]>) -> (position: usize)
    ensures
        position == xml_position(reader_input(*reader), reader_events(*reader)),
{
    reader.buffer_position() as usize
}

/// `Reader::read_event`: the next event. Which event comes depends on the
/// input and on the number of events read before alone; the reader then
/// has read one event more, on the same input.
#[verifier::external_body]
pub(crate) fn reader_next(reader: &mut Reader<&[u8]>) -> (event: XmlEvent)
    ensures
        event@ == xml_event(reader_input(*old(reader)), reader_events(*old(reader))),
        reader_input(*final(reader)) == reader_input(*old(reader)),
        reader_events(*final(reader)) == reader_events(*old(reader)) + 1,
{
    let tag = |e: BytesStart| XmlTag { content: e.to_vec(), name_len: e.name().as_ref().len() };
    match reader.read_event() {
        Ok(Event::Start(e)) => XmlEvent::Start(tag(e)),
        Ok(Event::Empty(e)) => XmlEvent::Empty(tag(e)),
        Ok(Event::End(e)) => XmlEvent::End(e.name().as_ref().to_vec()),
        Ok(Event::Eof) => XmlEvent::Eof,
        Ok(_) => XmlEvent::Other,
        Err(_) => XmlEvent::Failed,
    }
}

/// `BytesStart::attributes` on a tag made by `BytesStart::from_content`:
/// the attributes found in `content` behind its first `name_len` bytes, in
/// order, each with its undecoded key and value. An attribute that the
/// scanner reports as malformed or duplicated comes as `None`.
#[verifier::external_body]
pub(crate) fn tag_attributes(content: &str, name_len: usize) -> (attributes: Vec<
    Option<XmlAttribute>,
>)
    requires
        name_len <= content.spec_bytes().len(),
    ensures
        attributes_view(attributes@) == xml_attributes(content@, name_len as nat),
{
    BytesStart::from_content(content, name_len)
        .attributes()
        .map(|a| a.ok().map(|a| XmlAttribute { key: a.key.as_ref().to_vec(), value: a.value.to_vec() }))
        .collect()
}

} // verus!
