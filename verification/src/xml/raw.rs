use quick_xml::events::attributes::{Attribute, Attributes};
use quick_xml::events::Event;
use quick_xml::name::QName;
use quick_xml::Reader;
use std::borrow::Cow;
use vstd::prelude::*;
use vstd::string::StringSliceAdditionalSpecFns;
use vstd::utf8::{decode_utf8, valid_utf8};

verus! {

/// What kind of markup or text a raw event stands for. `Ref` is a reference
/// such as `&amp;` inside character data; `Other` is a comment, a processing
/// instruction, a declaration or a document type.
#[derive(Clone, Copy, Debug, PartialEq, Eq, Structural)]
pub enum RawKind {
    Start,
    Empty,
    End,
    Text,
    CData,
    Ref,
    Other,
    Eof,
}

/// One event as the tokenizer hands it out: its kind, its undecoded bytes,
/// for a tag the bytes of its name, and the offset in the input at which the
/// event ends.
#[derive(Clone, Debug)]
pub struct RawEvent {
    pub kind: RawKind,
    pub name: Vec<u8>,
    pub content: Vec<u8>,
    pub end: u64,
}

/// A document that is no well-formed XML: the byte offset at which reading
/// failed, and what the tokenizer or decoder said.
#[derive(Clone, Debug, PartialEq, Eq)]
pub struct ParseError {
    pub position: u64,
    pub message: String,
}

/// One attribute as written in a tag: the bytes of its name and of its value.
#[derive(Clone, Debug)]
pub struct RawAttr {
    pub key: Vec<u8>,
    pub value: Vec<u8>,
}

pub struct RawEventView {
    pub kind: RawKind,
    pub name: Seq<u8>,
    pub content: Seq<u8>,
    pub end: u64,
}

pub struct FaultView {
    pub position: u64,
    pub message: Seq<char>,
}

pub struct RawAttrView {
    pub key: Seq<u8>,
    pub value: Seq<u8>,
}

impl View for RawEvent {
    type V = RawEventView;

    open spec fn view(&self) -> RawEventView {
        RawEventView { kind: self.kind, name: self.name@, content: self.content@, end: self.end }
    }
}

impl View for ParseError {
    type V = FaultView;

    open spec fn view(&self) -> FaultView {
        FaultView { position: self.position, message: self.message@ }
    }
}

impl View for RawAttr {
    type V = RawAttrView;

    open spec fn view(&self) -> RawAttrView {
        RawAttrView { key: self.key@, value: self.value@ }
    }
}

pub open spec fn step_view(step: Result<RawEvent, ParseError>) -> Result<RawEventView, FaultView> {
    match step {
        Ok(e) => Ok(e@),
        Err(f) => Err(f@),
    }
}

pub open spec fn text_result_view(r: Result<String, String>) -> Result<Seq<char>, Seq<char>> {
    match r {
        Ok(s) => Ok(s@),
        Err(m) => Err(m@),
    }
}

pub open spec fn attr_step_view(r: Result<RawAttr, String>) -> Result<RawAttrView, Seq<char>> {
    match r {
        Ok(a) => Ok(a@),
        Err(m) => Err(m@),
    }
}

pub open spec fn attr_steps_view(items: Seq<Result<RawAttr, String>>) -> Seq<
    Result<RawAttrView, Seq<char>>,
> {
    items.map_values(|r: Result<RawAttr, String>| attr_step_view(r))
}

/// Whether a step is the last one of its stream: the end of input or a failure.
pub open spec fn is_final_step(step: Result<RawEventView, FaultView>) -> bool {
    match step {
        Ok(e) => e.kind == RawKind::Eof,
        Err(_) => true,
    }
}

#[verifier::external_type_specification]
#[verifier::external_body]
#[verifier::reject_recursive_types(R)]
pub struct ExReader<R>(Reader<R>);

/// The steps that tokenizing `xml` gives, in order, up to and including the
/// first end of input or failure.
pub uninterp spec fn document_steps(xml: Seq<char>) -> Seq<Result<RawEventView, FaultView>>;

/// The steps that a reader has yet to give, up to and including the first end
/// of input or failure.
pub uninterp spec fn pending_steps(reader: Reader<&[u8]>) -> Seq<Result<RawEventView, FaultView>>;

/// What the tokenizer's decoder says of bytes that are no UTF-8.
pub uninterp spec fn decode_fault(bytes: Seq<u8>) -> Seq<char>;

/// Character data with its references resolved, or what is wrong with them.
pub uninterp spec fn unescaped(raw: Seq<char>) -> Result<Seq<char>, Seq<char>>;

/// What parsing the attributes of a tag gives, item by item, from byte `pos`
/// of the tag's text on.
pub uninterp spec fn attribute_steps(tag: Seq<char>, pos: nat) -> Seq<Result<RawAttrView, Seq<char>>>;

/// An attribute's value, decoded and with its references resolved, or what is
/// wrong with it.
pub uninterp spec fn attribute_value(value: Seq<u8>) -> Result<Seq<char>, Seq<char>>;

/// `Reader::from_str`: a tokenizer at the start of `xml`, with the default
/// configuration. Everything that tokenizing `xml` gives is still pending,
/// and that is at least one step.
#[verifier::external_body]
pub(crate) fn open_reader(xml: &str) -> (reader: Reader<&[u8]>)
    ensures
        pending_steps(reader) == document_steps(xml@),
        pending_steps(reader).len() > 0,
{
    Reader::from_str(xml)
}

/// `Reader::read_event`: takes the next step off the reader. The event's
/// bytes and, for a tag, those of `BytesStart::name` (a prefix of the tag's
/// bytes) are copied out, with `Reader::buffer_position`; a failure carries
/// `Reader::error_position` and the error's own text. After the end of input
/// or a failure nothing is pending.
#[verifier::external_body]
pub(crate) fn read_step(reader: &mut Reader<&[u8]>) -> (step: Result<RawEvent, ParseError>)
    requires
        pending_steps(*old(reader)).len() > 0,
    ensures
        step_view(step) == pending_steps(*old(reader))[0],
        pending_steps(*final(reader)) == pending_steps(*old(reader)).skip(1),
        is_final_step(step_view(step)) <==> pending_steps(*final(reader)).len() == 0,
        step matches Ok(e) ==> e.name.len() <= e.content.len(),
{
    match reader.read_event() {
        Ok(e) => Ok(RawEvent {
            name: match &e { Event::Start(t) | Event::Empty(t) => t.name().0.to_vec(), _ => vec![] },
            content: e.to_vec(),
            end: reader.buffer_position(),
            kind: match e {
                Event::Start(_) => RawKind::Start, Event::Empty(_) => RawKind::Empty,
                Event::End(_) => RawKind::End, Event::Text(_) => RawKind::Text,
                Event::CData(_) => RawKind::CData, Event::GeneralRef(_) => RawKind::Ref,
                Event::Eof => RawKind::Eof, _ => RawKind::Other,
            },
        }),
        Err(e) => Err(ParseError { position: reader.error_position(), message: e.to_string() }),
    }
}

/// `Decoder::decode`, with the decoder of `Reader::decoder`: reads the bytes
/// as UTF-8. It gives the text where the bytes are UTF-8, and else fails.
#[verifier::external_body]
pub(crate) fn decode_text(reader: &Reader<&[u8]>, bytes: &[u8]) -> (r: Result<String, String>)
    ensures
        r is Ok <==> valid_utf8(bytes@),
        r matches Ok(s) ==> s@ == decode_utf8(bytes@),
        r matches Err(m) ==> m@ == decode_fault(bytes@),
{
    match reader.decoder().decode(bytes) {
        Ok(s) => Ok(s.into_owned()),
        Err(e) => Err(e.to_string()),
    }
}

/// `quick_xml::escape::unescape`: replaces each reference (`&lt;`, `&#38;`, ...)
/// by what it stands for, and fails on one that it does not know or cannot read.
#[verifier::external_body]
pub(crate) fn unescape_text(raw: &str) -> (r: Result<String, String>)
    ensures
        text_result_view(r) == unescaped(raw@),
{
    match quick_xml::escape::unescape(raw) {
        Ok(s) => Ok(s.into_owned()),
        Err(e) => Err(e.to_string()),
    }
}

/// `Attributes::new` with its checks for repeated names switched off by
/// `Attributes::with_checks`, walked to its end: each attribute found from
/// byte `pos` of `tag` on, or what is wrong at that place, in the order written.
#[verifier::external_body]
pub(crate) fn attribute_items(tag: &str, pos: usize) -> (items: Vec<Result<RawAttr, String>>)
    requires
        pos <= tag.spec_bytes().len(),
    ensures
        attr_steps_view(items@) == attribute_steps(tag@, pos as nat),
{
    Attributes::new(tag, pos)
        .with_checks(false)
        .map(|item| match item {
            Ok(a) => Ok(RawAttr { key: a.key.0.to_vec(), value: a.value.into_owned() }),
            Err(e) => Err(e.to_string()),
        })
        .collect()
}

/// `Attribute::decode_and_unescape_value`, with the decoder of
/// `Reader::decoder`: the value's bytes read as UTF-8 and its references resolved.
#[verifier::external_body]
pub(crate) fn attribute_text(reader: &Reader<&[u8]>, value: &[u8]) -> (r: Result<String, String>)
    ensures
        text_result_view(r) == attribute_value(value@),
{
    let attr = Attribute { key: QName(b""), value: Cow::Borrowed(value) };
    match attr.decode_and_unescape_value(reader.decoder()) {
        Ok(s) => Ok(s.into_owned()),
        Err(e) => Err(e.to_string()),
    }
}

} // verus!
