use crate::text::{lossy_string, lossy_text, push_char, push_text};
use crate::xml::raw::{
    attr_steps_view, attribute_items, attribute_steps, attribute_text, attribute_value,
    decode_fault, decode_text, document_steps, open_reader, pending_steps, read_step,
    unescape_text, unescaped, FaultView, ParseError, RawAttrView, RawEvent, RawEventView,
    RawKind,
};
use quick_xml::Reader;
use vstd::prelude::*;
use vstd::utf8::{decode_utf8, decode_utf8_encode_utf8, valid_utf8};

verus! {

/// One attribute of a tag: its name as written, and its value with the
/// references in it resolved.
#[derive(Clone, Debug)]
pub struct XmlAttr {
    pub key: String,
    pub value: String,
}

/// One structural event of a document. A `Text` is a whole run of character
/// data with its references resolved; a `CData` is the section's content as written.
#[derive(Clone, Debug)]
pub enum XmlEvent {
    Start { name: String, attrs: Vec<XmlAttr> },
    Empty { name: String, attrs: Vec<XmlAttr> },
    End { name: String },
    Text(String),
    CData(String),
}

pub struct AttrView {
    pub key: Seq<char>,
    pub value: Seq<char>,
}

pub enum EventView {
    Start { name: Seq<char>, attrs: Seq<AttrView> },
    Empty { name: Seq<char>, attrs: Seq<AttrView> },
    End { name: Seq<char> },
    Text(Seq<char>),
    CData(Seq<char>),
}

impl View for XmlAttr {
    type V = AttrView;

    open spec fn view(&self) -> AttrView {
        AttrView { key: self.key@, value: self.value@ }
    }
}

pub open spec fn attrs_view(attrs: Seq<XmlAttr>) -> Seq<AttrView> {
    attrs.map_values(|a: XmlAttr| a@)
}

impl View for XmlEvent {
    type V = EventView;

    open spec fn view(&self) -> EventView {
        match *self {
            XmlEvent::Start { name, attrs } => EventView::Start {
                name: name@,
                attrs: attrs_view(attrs@),
            },
            XmlEvent::Empty { name, attrs } => EventView::Empty {
                name: name@,
                attrs: attrs_view(attrs@),
            },
            XmlEvent::End { name } => EventView::End { name: name@ },
            XmlEvent::Text(t) => EventView::Text(t@),
            XmlEvent::CData(t) => EventView::CData(t@),
        }
    }
}

pub open spec fn events_view(events: Seq<XmlEvent>) -> Seq<EventView> {
    events.map_values(|e: XmlEvent| e@)
}

/// Which leaves a caller wants decoded. What is not wanted is not decoded,
/// cannot fail, and gives no event.
#[derive(Clone, Copy, Debug, PartialEq, Eq, Structural)]
pub struct Wanted {
    pub attributes: bool,
    pub text: bool,
    pub cdata: bool,
}

/// The events assembled so far, and the run of character data that is still
/// growing: its text as written, references included, and where it ends.
pub struct Assembly {
    pub events: Seq<EventView>,
    pub run: Option<Seq<char>>,
    pub run_end: u64,
}

/// A reference as written: its name between `&` and `;`.
pub open spec fn reference_text(name: Seq<char>) -> Seq<char> {
    seq!['&'] + name + seq![';']
}

pub open spec fn events_result_view(r: Result<Vec<XmlEvent>, ParseError>) -> Result<
    Seq<EventView>,
    FaultView,
> {
    match r {
        Ok(events) => Ok(events_view(events@)),
        Err(e) => Err(e@),
    }
}

/// The attributes that a tag's items stand for: each name read leniently,
/// each value decoded and unescaped; the first item that fails, fails the tag.
pub open spec fn decoded_attrs(items: Seq<Result<RawAttrView, Seq<char>>>, end: u64) -> Result<
    Seq<AttrView>,
    FaultView,
>
    decreases items.len(),
{
    if items.len() == 0 {
        Ok(Seq::empty())
    } else {
        match decoded_attrs(items.drop_last(), end) {
            Err(fault) => Err(fault),
            Ok(attrs) => match items.last() {
                Err(message) => Err(FaultView { position: end, message }),
                Ok(raw) => match attribute_value(raw.value) {
                    Err(message) => Err(FaultView { position: end, message }),
                    Ok(value) => Ok(attrs.push(AttrView { key: lossy_text(raw.key), value })),
                },
            },
        }
    }
}

/// The attributes of a tag, where they are wanted.
pub open spec fn tag_attrs(tag: RawEventView, want: Wanted) -> Result<Seq<AttrView>, FaultView> {
    if !want.attributes {
        Ok(Seq::empty())
    } else if !valid_utf8(tag.content) {
        Err(FaultView { position: tag.end, message: decode_fault(tag.content) })
    } else {
        decoded_attrs(attribute_steps(decode_utf8(tag.content), tag.name.len()), tag.end)
    }
}

impl Assembly {
    pub open spec fn start() -> Assembly {
        Assembly { events: Seq::empty(), run: None, run_end: 0 }
    }

    /// A piece of character data joins the growing run.
    pub open spec fn extend(self, piece: Seq<char>, end: u64) -> Assembly {
        Assembly {
            events: self.events,
            run: Some(
                match self.run {
                    Some(run) => run + piece,
                    None => piece,
                },
            ),
            run_end: end,
        }
    }

    /// The growing run, if there is one, ends: with its references resolved it
    /// becomes one text event.
    pub open spec fn flush(self) -> Result<Assembly, FaultView> {
        match self.run {
            None => Ok(self),
            Some(run) => match unescaped(run) {
                Ok(text) => Ok(
                    Assembly {
                        events: self.events.push(EventView::Text(text)),
                        run: None,
                        run_end: self.run_end,
                    },
                ),
                Err(message) => Err(FaultView { position: self.run_end, message }),
            },
        }
    }

    pub open spec fn with_event(self, event: EventView) -> Assembly {
        Assembly { events: self.events.push(event), ..self }
    }

    /// A piece of character data: text as written, or a reference.
    pub open spec fn absorb_piece(self, raw: RawEventView, want: Wanted) -> Result<
        Assembly,
        FaultView,
    > {
        if !want.text {
            Ok(self)
        } else if !valid_utf8(raw.content) {
            Err(FaultView { position: raw.end, message: decode_fault(raw.content) })
        } else if raw.kind == RawKind::Ref {
            Ok(self.extend(reference_text(decode_utf8(raw.content)), raw.end))
        } else {
            Ok(self.extend(decode_utf8(raw.content), raw.end))
        }
    }

    /// Markup, or the end of input, after any run has ended.
    pub open spec fn absorb_markup(self, raw: RawEventView, want: Wanted) -> Result<
        Assembly,
        FaultView,
    > {
        match raw.kind {
            RawKind::Start => match tag_attrs(raw, want) {
                Ok(attrs) => Ok(
                    self.with_event(EventView::Start { name: lossy_text(raw.name), attrs }),
                ),
                Err(fault) => Err(fault),
            },
            RawKind::Empty => match tag_attrs(raw, want) {
                Ok(attrs) => Ok(
                    self.with_event(EventView::Empty { name: lossy_text(raw.name), attrs }),
                ),
                Err(fault) => Err(fault),
            },
            RawKind::End => Ok(self.with_event(EventView::End { name: lossy_text(raw.content) })),
            RawKind::CData => if want.cdata {
                Ok(self.with_event(EventView::CData(lossy_text(raw.content))))
            } else {
                Ok(self)
            },
            _ => Ok(self),
        }
    }

    /// What one step of the tokenizer does to the assembly.
    pub open spec fn absorb(self, step: Result<RawEventView, FaultView>, want: Wanted) -> Result<
        Assembly,
        FaultView,
    > {
        match step {
            Err(fault) => Err(fault),
            Ok(raw) => if raw.kind == RawKind::Text || raw.kind == RawKind::Ref {
                self.absorb_piece(raw, want)
            } else {
                match self.flush() {
                    Ok(flushed) => flushed.absorb_markup(raw, want),
                    Err(fault) => Err(fault),
                }
            },
        }
    }
}

/// What a sequence of steps assembles to, first step first; the first failure ends it.
pub open spec fn assembled(steps: Seq<Result<RawEventView, FaultView>>, want: Wanted) -> Result<
    Assembly,
    FaultView,
>
    decreases steps.len(),
{
    if steps.len() == 0 {
        Ok(Assembly::start())
    } else {
        match assembled(steps.drop_last(), want) {
            Ok(assembly) => assembly.absorb(steps.last(), want),
            Err(fault) => Err(fault),
        }
    }
}

/// How many elements are still open after `events`. An end tag with nothing
/// open closes nothing.
pub open spec fn open_elements(events: Seq<EventView>) -> nat
    decreases events.len(),
{
    if events.len() == 0 {
        0
    } else {
        let before = open_elements(events.drop_last());
        match events.last() {
            EventView::Start { .. } => before + 1,
            EventView::End { .. } => if before > 0 {
                (before - 1) as nat
            } else {
                0
            },
            _ => before,
        }
    }
}

/// What is said of a document that ends with an element still open.
pub open spec fn unclosed_message() -> Seq<char> {
    "the document ends inside an element"@
}

/// The offset at which the last of the steps ends.
pub open spec fn end_offset(steps: Seq<Result<RawEventView, FaultView>>) -> u64 {
    if steps.len() == 0 {
        0
    } else {
        match steps.last() {
            Ok(raw) => raw.end,
            Err(fault) => fault.position,
        }
    }
}

/// The structural events of a document, or why it cannot be read: the first
/// failure of the tokenizer or of a decoder, or, where there is none, that
/// the document ends with an element still open.
pub open spec fn document_events(xml: Seq<char>, want: Wanted) -> Result<Seq<EventView>, FaultView> {
    let steps = document_steps(xml);
    match assembled(steps, want) {
        Ok(assembly) => if open_elements(assembly.events) > 0 {
            Err(FaultView { position: end_offset(steps), message: unclosed_message() })
        } else {
            Ok(assembly.events)
        },
        Err(fault) => Err(fault),
    }
}

/// Once a prefix of the steps has failed, the whole has failed in the same way.
pub proof fn lemma_failure_stays(
    steps: Seq<Result<RawEventView, FaultView>>,
    k: int,
    want: Wanted,
)
    requires
        0 <= k <= steps.len(),
        assembled(steps.take(k), want) is Err,
    ensures
        assembled(steps, want) == assembled(steps.take(k), want),
    decreases steps.len(),
{
    if k < steps.len() {
        assert(steps.drop_last().take(k) == steps.take(k));
        lemma_failure_stays(steps.drop_last(), k, want);
    } else {
        assert(steps.take(k) == steps);
    }
}

fn fault(position: u64, message: String) -> (e: ParseError)
    ensures
        e@ == (FaultView { position, message: message@ }),
{
    ParseError { position, message }
}

/// Decodes the attributes of a tag, where they are wanted.
fn read_attrs(reader: &Reader<&[u8]>, tag: &RawEvent, want: &Wanted) -> (r: Result<
    Vec<XmlAttr>,
    ParseError,
>)
    requires
        tag.name.len() <= tag.content.len(),
    ensures
        match r {
            Ok(attrs) => tag_attrs(tag@, *want) == Ok::<Seq<AttrView>, FaultView>(attrs_view(attrs@)),
            Err(e) => tag_attrs(tag@, *want) == Err::<Seq<AttrView>, FaultView>(e@),
        },
{
    let mut attrs: Vec<XmlAttr> = Vec::new();
    assert(attrs_view(attrs@) =~= Seq::empty());
    if !want.attributes {
        return Ok(attrs);
    }
    let text = match decode_text(reader, tag.content.as_slice()) {
        Ok(text) => text,
        Err(message) => {
            return Err(fault(tag.end, message));
        },
    };
    proof {
        decode_utf8_encode_utf8(tag.content@);
    }
    let items = attribute_items(text.as_str(), tag.name.len());
    let ghost steps = attribute_steps(text@, tag.name.len() as nat);
    let mut i: usize = 0;
    while i < items.len()
        invariant
            i <= items.len(),
            steps == attr_steps_view(items@),
            decoded_attrs(steps.take(i as int), tag.end) == Ok::<Seq<AttrView>, FaultView>(
                attrs_view(attrs@),
            ),
            tag_attrs(tag@, *want) == decoded_attrs(steps, tag.end),
        decreases items.len() - i,
    {
        proof {
            let next = steps.take(i + 1);
            assert(next.drop_last() == steps.take(i as int));
            assert(next.last() == steps[i as int]);
        }
        match &items[i] {
            Err(message) => {
                let e = fault(tag.end, message.clone());
                proof {
                    lemma_attrs_failure_stays(steps, i + 1, tag.end);
                }
                return Err(e);
            },
            Ok(raw) => {
                match attribute_text(reader, raw.value.as_slice()) {
                    Err(message) => {
                        let e = fault(tag.end, message);
                        proof {
                            lemma_attrs_failure_stays(steps, i + 1, tag.end);
                        }
                        return Err(e);
                    },
                    Ok(value) => {
                        let attr = XmlAttr { key: lossy_string(raw.key.as_slice()), value };
                        let ghost before = attrs_view(attrs@);
                        attrs.push(attr);
                        assert(attrs_view(attrs@) =~= before.push(attr@));
                    },
                }
            },
        }
        i = i + 1;
    }
    assert(steps.take(items.len() as int) == steps);
    Ok(attrs)
}

/// Once a prefix of a tag's items has failed, the whole tag has failed in the same way.
pub proof fn lemma_attrs_failure_stays(
    items: Seq<Result<RawAttrView, Seq<char>>>,
    k: int,
    end: u64,
)
    requires
        0 <= k <= items.len(),
        decoded_attrs(items.take(k), end) is Err,
    ensures
        decoded_attrs(items, end) == decoded_attrs(items.take(k), end),
    decreases items.len(),
{
    if k < items.len() {
        assert(items.drop_last().take(k) == items.take(k));
        lemma_attrs_failure_stays(items.drop_last(), k, end);
    } else {
        assert(items.take(k) == items);
    }
}

/// Ends the growing run, if there is one: one text event with the run's references resolved.
fn flush_run(events: &mut Vec<XmlEvent>, run: Option<String>, run_end: u64) -> (r: Result<(), ParseError>)
    ensures
        match r {
            Ok(_) => (Assembly {
                events: events_view(old(events)@),
                run: option_view(run),
                run_end,
            }).flush() == Ok::<Assembly, FaultView>(
                Assembly { events: events_view(final(events)@), run: None, run_end },
            ),
            Err(e) => (Assembly {
                events: events_view(old(events)@),
                run: option_view(run),
                run_end,
            }).flush() == Err::<Assembly, FaultView>(e@),
        },
        final(events).len() >= old(events).len(),
        open_elements(events_view(final(events)@)) == open_elements(events_view(old(events)@)),
{
    match run {
        None => Ok(()),
        Some(raw) => match unescape_text(raw.as_str()) {
            Ok(text) => {
                let event = XmlEvent::Text(text);
                events.push(event);
                assert(events_view(events@) =~= events_view(old(events)@).push(event@));
                assert(events_view(events@).drop_last() == events_view(old(events)@));
                Ok(())
            },
            Err(message) => Err(fault(run_end, message)),
        },
    }
}

pub open spec fn option_view(s: Option<String>) -> Option<Seq<char>> {
    match s {
        Some(s) => Some(s@),
        None => None,
    }
}

/// Reads a document into its structural events: tags with their decoded
/// attributes, whole runs of character data with their references resolved,
/// and CDATA sections. Comments, processing instructions, declarations and
/// document types give no event. The first failure of the tokenizer or of a
/// decoder ends the reading, and nothing is returned but the failure. A
/// document that ends with an element still open fails at its end.
pub fn read_events(xml: &str, want: &Wanted) -> (r: Result<Vec<XmlEvent>, ParseError>)
    ensures
        events_result_view(r) == document_events(xml@, *want),
{
    let mut reader = open_reader(xml);
    let mut events: Vec<XmlEvent> = Vec::new();
    let mut run: Option<String> = None;
    let mut run_end: u64 = 0;
    let ghost steps = document_steps(xml@);
    let ghost mut taken: int = 0;
    let mut done = false;
    let mut depth: usize = 0;
    let mut last_end: u64 = 0;
    assert(events_view(events@) =~= Seq::empty());
    assert(steps.take(0) =~= Seq::empty());
    assert(steps.skip(0) =~= steps);
    while !done
        invariant
            steps == document_steps(xml@),
            0 <= taken <= steps.len(),
            pending_steps(reader) == steps.skip(taken),
            done <==> taken == steps.len(),
            done ==> last_end == end_offset(steps),
            depth == open_elements(events_view(events@)),
            depth <= events.len(),
            assembled(steps.take(taken), *want) == Ok::<Assembly, FaultView>(
                Assembly { events: events_view(events@), run: option_view(run), run_end },
            ),
        decreases steps.len() - taken,
    {
        let ghost before = Assembly { events: events_view(events@), run: option_view(run), run_end };
        let step = read_step(&mut reader);
        proof {
            let next = steps.take(taken + 1);
            assert(next.drop_last() == steps.take(taken));
            assert(next.last() == steps[taken]);
            assert(steps.skip(taken)[0] == steps[taken]);
            assert(steps.skip(taken).skip(1) =~= steps.skip(taken + 1));
            taken = taken + 1;
        }
        let raw = match step {
            Ok(raw) => raw,
            Err(e) => {
                proof {
                    lemma_failure_stays(steps, taken, *want);
                }
                return Err(e);
            },
        };
        if raw.kind == RawKind::Text || raw.kind == RawKind::Ref {
            if want.text {
                let piece = match decode_text(&reader, raw.content.as_slice()) {
                    Ok(piece) => piece,
                    Err(message) => {
                        let e = fault(raw.end, message);
                        proof {
                            lemma_failure_stays(steps, taken, *want);
                        }
                        return Err(e);
                    },
                };
                let mut grown = match run {
                    Some(text) => text,
                    None => String::new(),
                };
                if raw.kind == RawKind::Ref {
                    push_char(&mut grown, '&');
                    push_text(&mut grown, piece.as_str());
                    push_char(&mut grown, ';');
                } else {
                    push_text(&mut grown, piece.as_str());
                }
                run = Some(grown);
                run_end = raw.end;
                assert(option_view(run) =~= before.absorb_piece(raw@, *want)->Ok_0.run);
            }
        } else {
            match flush_run(&mut events, run, run_end) {
                Ok(_) => {},
                Err(e) => {
                    proof {
                        lemma_failure_stays(steps, taken, *want);
                    }
                    return Err(e);
                },
            }
            run = None;
            match raw.kind {
                RawKind::Start | RawKind::Empty => {
                    let attrs = match read_attrs(&reader, &raw, want) {
                        Ok(attrs) => attrs,
                        Err(e) => {
                            proof {
                                lemma_failure_stays(steps, taken, *want);
                            }
                            return Err(e);
                        },
                    };
                    let name = lossy_string(raw.name.as_slice());
                    let event = if raw.kind == RawKind::Start {
                        XmlEvent::Start { name, attrs }
                    } else {
                        XmlEvent::Empty { name, attrs }
                    };
                    let ghost held = events_view(events@);
                    events.push(event);
                    assert(events_view(events@) =~= held.push(event@));
                    assert(events_view(events@).drop_last() == held);
                    if raw.kind == RawKind::Start {
                        assert(depth < events.len());
                        depth = depth + 1;
                    }
                },
                RawKind::End => {
                    let event = XmlEvent::End { name: lossy_string(raw.content.as_slice()) };
                    let ghost held = events_view(events@);
                    events.push(event);
                    assert(events_view(events@) =~= held.push(event@));
                    assert(events_view(events@).drop_last() == held);
                    if depth > 0 {
                        depth = depth - 1;
                    }
                },
                RawKind::CData => {
                    if want.cdata {
                        let event = XmlEvent::CData(lossy_string(raw.content.as_slice()));
                        let ghost held = events_view(events@);
                        events.push(event);
                        assert(events_view(events@) =~= held.push(event@));
                        assert(events_view(events@).drop_last() == held);
                    }
                },
                RawKind::Eof => {
                    done = true;
                    last_end = raw.end;
                },
                _ => {},
            }
        }
    }
    assert(steps.take(taken) == steps);
    if depth > 0 {
        return Err(fault(last_end, "the document ends inside an element".to_owned()));
    }
    Ok(events)
}

} // verus!
