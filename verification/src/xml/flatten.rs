use crate::cli::PathStyle;
use crate::text::{
    after_last, clip, clipped, decimal, push_char, push_decimal, push_text, tail_after, to_chars,
    trim, trimmed,
};
use crate::xml::counters::{ordinal_in, SiblingCounters};
use crate::xml::events::{
    attrs_view, document_events, events_view, read_events, AttrView, EventView, Wanted, XmlAttr,
    XmlEvent,
};
use crate::xml::raw::{FaultView, ParseError};
use crate::xml::options::FlattenOptions;
use vstd::prelude::*;

verus! {

/// What a flattened value was: the text of an element, or the value of an attribute.
#[derive(Debug, Clone, Copy, PartialEq, Eq, Structural)]
pub enum ValueKind {
    Text,
    Attr,
}

/// One leaf of a document: where it stands (`p`), what it is (`k`) and what
/// it holds (`v`). The value is never empty.
#[derive(Debug, Clone, PartialEq, Eq)]
pub struct FlatEntry {
    pub p: String,
    pub k: ValueKind,
    pub v: String,
}

/// One open element: its name, and how many elements of that name were
/// opened before it under the same parent.
#[derive(Debug, Clone, PartialEq, Eq)]
pub struct Frame {
    pub name: String,
    pub idx: usize,
}

pub struct EntryView {
    pub path: Seq<char>,
    pub kind: ValueKind,
    pub value: Seq<char>,
}

pub struct FrameView {
    pub name: Seq<char>,
    pub ordinal: nat,
}

impl View for FlatEntry {
    type V = EntryView;

    open spec fn view(&self) -> EntryView {
        EntryView { path: self.p@, kind: self.k, value: self.v@ }
    }
}

impl View for Frame {
    type V = FrameView;

    open spec fn view(&self) -> FrameView {
        FrameView { name: self.name@, ordinal: self.idx as nat }
    }
}

pub open spec fn entries_view(entries: Seq<FlatEntry>) -> Seq<EntryView> {
    entries.map_values(|e: FlatEntry| e@)
}

pub open spec fn frames_view(stack: Seq<Frame>) -> Seq<FrameView> {
    stack.map_values(|f: Frame| f@)
}

pub open spec fn levels_view(levels: Seq<SiblingCounters>) -> Seq<Map<Seq<char>, nat>> {
    levels.map_values(|c: SiblingCounters| c@)
}

/// The leaf marker of element text.
pub open spec fn text_marker() -> Seq<char> {
    seq!['#', 't', 'e', 'x', 't']
}

/// The leaf marker of a CDATA section.
pub open spec fn cdata_marker() -> Seq<char> {
    seq!['#', 'c', 'd', 'a', 't', 'a']
}

/// The leaf marker of the attribute `key`.
pub open spec fn attr_marker(key: Seq<char>) -> Seq<char> {
    seq!['@'] + key
}

pub open spec fn separator(style: PathStyle) -> char {
    match style {
        PathStyle::Slash => '/',
        PathStyle::Dot => '.',
    }
}

/// One segment of a path: the name, and the ordinal in square brackets.
pub open spec fn segment(frame: FrameView) -> Seq<char> {
    frame.name + seq!['['] + decimal(frame.ordinal) + seq![']']
}

/// The segments of all ancestors, joined by the separator; under the slash
/// style the separator also stands in front.
pub open spec fn ancestors_text(stack: Seq<FrameView>, style: PathStyle) -> Seq<char>
    decreases stack.len(),
{
    if stack.len() == 0 {
        Seq::empty()
    } else if stack.len() == 1 {
        if style == PathStyle::Slash {
            seq!['/'] + segment(stack[0])
        } else {
            segment(stack[0])
        }
    } else {
        ancestors_text(stack.drop_last(), style).push(separator(style)) + segment(stack.last())
    }
}

/// The path of `stack`, with the leaf marker behind one more separator where there is one.
pub open spec fn path_text(stack: Seq<FrameView>, style: PathStyle, leaf: Option<Seq<char>>) -> Seq<
    char,
> {
    match leaf {
        Some(marker) => ancestors_text(stack, style).push(separator(style)) + marker,
        None => ancestors_text(stack, style),
    }
}

/// A value as it is stored: trimmed, and with a limit above zero cut down to
/// the longest prefix of whole characters that fits in that many bytes of UTF-8.
pub open spec fn normalized(raw: Seq<char>, max_len: nat) -> Seq<char> {
    if max_len > 0 {
        clipped(trimmed(raw), max_len)
    } else {
        trimmed(raw)
    }
}

/// The name used for counting and in paths: what follows the last colon
/// where prefixes are stripped, else the name as written.
pub open spec fn local_name(name: Seq<char>, strip: bool) -> Seq<char> {
    if strip {
        after_last(name, ':')
    } else {
        name
    }
}

/// The state of a walk: the open elements from the root down, the counters of
/// each nesting level (one more than there are open elements: the first
/// counts the elements at the top), and the entries produced so far.
pub struct Walk {
    pub stack: Seq<FrameView>,
    pub counts: Seq<Map<Seq<char>, nat>>,
    pub out: Seq<EntryView>,
}

impl Walk {
    pub open spec fn start() -> Walk {
        Walk { stack: Seq::empty(), counts: seq![Map::empty()], out: Seq::empty() }
    }

    pub open spec fn wf(self) -> bool {
        self.counts.len() == self.stack.len() + 1
    }

    /// An element named `name` opens: it gets the count that its parent holds
    /// for the name, the parent counts one more, and a fresh level begins.
    pub open spec fn open(self, name: Seq<char>) -> Walk {
        let parent = self.counts.last();
        let ordinal = ordinal_in(parent, name);
        Walk {
            stack: self.stack.push(FrameView { name, ordinal }),
            counts: self.counts.drop_last().push(parent.insert(name, ordinal + 1)).push(
                Map::empty(),
            ),
            out: self.out,
        }
    }

    /// The innermost element closes. With no element open nothing changes.
    pub open spec fn close(self) -> Walk {
        if self.stack.len() == 0 {
            self
        } else {
            Walk {
                stack: self.stack.drop_last(),
                counts: self.counts.drop_last(),
                out: self.out,
            }
        }
    }

    /// A leaf is seen under the innermost element: it makes an entry unless
    /// its normalized value is empty.
    pub open spec fn emit(
        self,
        marker: Seq<char>,
        kind: ValueKind,
        raw: Seq<char>,
        opts: FlattenOptions,
    ) -> Walk {
        let value = normalized(raw, opts.max_text_len as nat);
        if value.len() == 0 {
            self
        } else {
            Walk {
                out: self.out.push(
                    EntryView {
                        path: path_text(self.stack, opts.path_style, Some(marker)),
                        kind,
                        value,
                    },
                ),
                ..self
            }
        }
    }

    /// The attributes of the innermost element are seen, in the order written.
    pub open spec fn emit_attrs(self, attrs: Seq<AttrView>, opts: FlattenOptions) -> Walk
        decreases attrs.len(),
    {
        if attrs.len() == 0 {
            self
        } else {
            self.emit_attrs(attrs.drop_last(), opts).emit(
                attr_marker(attrs.last().key),
                ValueKind::Attr,
                attrs.last().value,
                opts,
            )
        }
    }

    /// An element opens and, where attributes are included, its attributes are seen.
    pub open spec fn enter(self, name: Seq<char>, attrs: Seq<AttrView>, opts: FlattenOptions) -> Walk {
        let opened = self.open(local_name(name, opts.strip_namespace_prefix));
        if opts.include_attributes {
            opened.emit_attrs(attrs, opts)
        } else {
            opened
        }
    }

    /// What one event does to the walk.
    pub open spec fn step(self, event: EventView, opts: FlattenOptions) -> Walk {
        match event {
            EventView::Start { name, attrs } => self.enter(name, attrs, opts),
            EventView::Empty { name, attrs } => self.enter(name, attrs, opts).close(),
            EventView::End { name } => self.close(),
            EventView::Text(text) => if opts.include_text {
                self.emit(text_marker(), ValueKind::Text, text, opts)
            } else {
                self
            },
            EventView::CData(text) => if opts.include_cdata {
                self.emit(cdata_marker(), ValueKind::Text, text, opts)
            } else {
                self
            },
        }
    }

    /// What a sequence of events does to the walk, first event first.
    pub open spec fn run(self, events: Seq<EventView>, opts: FlattenOptions) -> Walk
        decreases events.len(),
    {
        if events.len() == 0 {
            self
        } else {
            self.run(events.drop_last(), opts).step(events.last(), opts)
        }
    }
}

/// The entries of a document, given as its events, in document order.
pub open spec fn flattened(events: Seq<EventView>, opts: FlattenOptions) -> Seq<EntryView> {
    Walk::start().run(events, opts).out
}

/// Renders the ancestor stack, and the leaf marker if there is one, as a path.
pub fn make_path(stack: &[Frame], style: PathStyle, leaf: Option<&str>) -> (path: String)
    ensures
        path@ == path_text(
            frames_view(stack@),
            style,
            match leaf {
                Some(marker) => Some(marker@),
                None => None,
            },
        ),
{
    let sep = match style {
        PathStyle::Slash => '/',
        PathStyle::Dot => '.',
    };
    let ghost frames = frames_view(stack@);
    let mut s = String::new();
    let mut i: usize = 0;
    while i < stack.len()
        invariant
            i <= stack.len(),
            frames == frames_view(stack@),
            sep == separator(style),
            s@ == ancestors_text(frames.take(i as int), style),
        decreases stack.len() - i,
    {
        let ghost before = s@;
        if i == 0 {
            if style == PathStyle::Slash {
                push_char(&mut s, '/');
            }
        } else {
            push_char(&mut s, sep);
        }
        push_text(&mut s, stack[i].name.as_str());
        push_char(&mut s, '[');
        push_decimal(&mut s, stack[i].idx);
        push_char(&mut s, ']');
        proof {
            let next = frames.take(i + 1);
            assert(next.drop_last() == frames.take(i as int));
            assert(next.last() == stack@[i as int]@);
            assert(s@ == ancestors_text(next, style));
        }
        i = i + 1;
    }
    assert(frames.take(stack.len() as int) == frames);
    if let Some(marker) = leaf {
        push_char(&mut s, sep);
        push_text(&mut s, marker);
    }
    s
}

/// Trims a value and, with a limit above zero, cuts it down to that many bytes.
pub fn normalize_text(s: String, max_len: usize) -> (r: String)
    ensures
        r@ == normalized(s@, max_len as nat),
{
    let t = trim(s.as_str());
    if t.as_str().is_empty() {
        return t;
    }
    if max_len > 0 {
        let chars = to_chars(t.as_str());
        return clip(&chars, max_len);
    }
    t
}

/// Every level is well formed and has counted at most `bound` children.
pub open spec fn levels_within(levels: Seq<SiblingCounters>, bound: nat) -> bool {
    forall|l: int| 0 <= l < levels.len() ==> (#[trigger] levels[l]).wf() && levels[l].total() <= bound
}

/// The walk that the three parts of the running state stand for.
pub open spec fn walk_of(
    stack: Seq<Frame>,
    levels: Seq<SiblingCounters>,
    out: Seq<FlatEntry>,
) -> Walk {
    Walk { stack: frames_view(stack), counts: levels_view(levels), out: entries_view(out) }
}

/// Opens an element: gives it its ordinal among the children of that name
/// under the current parent, counts it there, and starts a level for its own children.
fn push_element(
    stack: &mut Vec<Frame>,
    child_counts: &mut Vec<SiblingCounters>,
    raw_name: &str,
    opts: &FlattenOptions,
    Ghost(bound): Ghost<nat>,
)
    requires
        old(child_counts).len() == old(stack).len() + 1,
        levels_within(old(child_counts)@, bound),
        bound < usize::MAX,
    ensures
        final(child_counts).len() == final(stack).len() + 1,
        levels_within(final(child_counts)@, bound + 1),
        forall|out: Seq<FlatEntry>|
            walk_of(final(stack)@, final(child_counts)@, out) == (#[trigger] walk_of(
                old(stack)@,
                old(child_counts)@,
                out,
            )).open(local_name(raw_name@, opts.strip_namespace_prefix)),
{
    let name = if opts.strip_namespace_prefix {
        tail_after(raw_name, ':')
    } else {
        raw_name.to_owned()
    };
    let ghost levels = child_counts@;
    let ghost frames = stack@;
    let mut parent = child_counts.pop().unwrap();
    assert(parent == levels.last());
    let current_idx = parent.assign(name.as_str());
    let ghost frame = FrameView { name: name@, ordinal: current_idx as nat };
    stack.push(Frame { name, idx: current_idx });
    child_counts.push(parent);
    child_counts.push(SiblingCounters::fresh());
    proof {
        assert(frames_view(stack@) =~= frames_view(frames).push(frame));
        assert(levels_view(child_counts@) =~= levels_view(levels).drop_last().push(
            levels_view(levels).last().insert(frame.name, frame.ordinal + 1),
        ).push(Map::empty()));
        assert forall|l: int| 0 <= l < child_counts@.len() implies (#[trigger] child_counts@[l]).wf()
            && child_counts@[l].total() <= bound + 1 by {
            if l < levels.len() - 1 {
                assert(child_counts@[l] == levels[l]);
            }
        }
    }
}

/// Closes the innermost element, if one is open.
fn pop_element(stack: &mut Vec<Frame>, child_counts: &mut Vec<SiblingCounters>, Ghost(bound): Ghost<nat>)
    requires
        old(child_counts).len() == old(stack).len() + 1,
        levels_within(old(child_counts)@, bound),
    ensures
        final(child_counts).len() == final(stack).len() + 1,
        levels_within(final(child_counts)@, bound),
        forall|out: Seq<FlatEntry>|
            walk_of(final(stack)@, final(child_counts)@, out) == (#[trigger] walk_of(
                old(stack)@,
                old(child_counts)@,
                out,
            )).close(),
{
    if stack.len() > 0 {
        stack.pop();
        child_counts.pop();
        proof {
            assert(frames_view(stack@) =~= frames_view(old(stack)@).drop_last());
            assert(levels_view(child_counts@) =~= levels_view(old(child_counts)@).drop_last());
            assert forall|l: int| 0 <= l < child_counts@.len() implies (#[trigger] child_counts@[l]).wf()
                && child_counts@[l].total() <= bound by {
                assert(child_counts@[l] == old(child_counts)@[l]);
            }
        }
    }
}

/// Records one leaf under the innermost element, unless its value normalizes to nothing.
fn push_leaf(
    out: &mut Vec<FlatEntry>,
    stack: &[Frame],
    marker: &str,
    kind: ValueKind,
    raw: &str,
    opts: &FlattenOptions,
)
    ensures
        forall|levels: Seq<SiblingCounters>|
            walk_of(stack@, levels, final(out)@) == (#[trigger] walk_of(stack@, levels, old(out)@)).emit(
                marker@,
                kind,
                raw@,
                *opts,
            ),
{
    let value = normalize_text(raw.to_owned(), opts.max_text_len);
    if !value.as_str().is_empty() {
        let entry = FlatEntry { p: make_path(stack, opts.path_style, Some(marker)), k: kind, v: value };
        out.push(entry);
        assert(entries_view(out@) =~= entries_view(old(out)@).push(entry@));
    }
}

/// Records the attributes of the innermost element, in the order written.
fn push_attrs(out: &mut Vec<FlatEntry>, stack: &[Frame], attrs: &[XmlAttr], opts: &FlattenOptions)
    ensures
        forall|levels: Seq<SiblingCounters>|
            walk_of(stack@, levels, final(out)@) == (#[trigger] walk_of(
                stack@,
                levels,
                old(out)@,
            )).emit_attrs(attrs_view(attrs@), *opts),
{
    let ghost all = attrs_view(attrs@);
    let mut i: usize = 0;
    while i < attrs.len()
        invariant
            i <= attrs.len(),
            all == attrs_view(attrs@),
            forall|levels: Seq<SiblingCounters>|
                walk_of(stack@, levels, out@) == (#[trigger] walk_of(
                    stack@,
                    levels,
                    old(out)@,
                )).emit_attrs(all.take(i as int), *opts),
        decreases attrs.len() - i,
    {
        let mut marker = String::new();
        push_char(&mut marker, '@');
        push_text(&mut marker, attrs[i].key.as_str());
        assert(marker@ =~= attr_marker(attrs@[i as int].key@));
        let ghost before = out@;
        push_leaf(out, stack, marker.as_str(), ValueKind::Attr, attrs[i].value.as_str(), opts);
        proof {
            let next = all.take(i + 1);
            assert(next.drop_last() == all.take(i as int));
            assert(next.last() == attrs@[i as int]@);
            assert forall|levels: Seq<SiblingCounters>|
                walk_of(stack@, levels, out@) == (#[trigger] walk_of(
                    stack@,
                    levels,
                    old(out)@,
                )).emit_attrs(next, *opts) by {
                assert(walk_of(stack@, levels, out@) == walk_of(stack@, levels, before).emit(
                    marker@,
                    ValueKind::Attr,
                    attrs@[i as int].value@,
                    *opts,
                ));
            }
        }
        i = i + 1;
    }
    assert(all.take(attrs.len() as int) == all);
}

/// Flattens a document given as its structural events: one entry for each
/// text run, CDATA section and attribute whose value does not normalize to
/// nothing, in document order, each under the path of the element it stands in.
pub fn flatten_events(events: &[XmlEvent], opts: &FlattenOptions) -> (out: Vec<FlatEntry>)
    ensures
        entries_view(out@) == flattened(events_view(events@), *opts),
{
    let mut out: Vec<FlatEntry> = Vec::new();
    let mut stack: Vec<Frame> = Vec::new();
    let mut child_counts: Vec<SiblingCounters> = Vec::new();
    child_counts.push(SiblingCounters::fresh());
    let ghost all = events_view(events@);
    assert(walk_of(stack@, child_counts@, out@) =~= Walk::start()) by {
        assert(frames_view(stack@) =~= Seq::empty());
        assert(entries_view(out@) =~= Seq::empty());
        assert(levels_view(child_counts@) =~= seq![Map::empty()]);
    }
    let mut i: usize = 0;
    while i < events.len()
        invariant
            i <= events.len(),
            all == events_view(events@),
            child_counts.len() == stack.len() + 1,
            levels_within(child_counts@, i as nat),
            walk_of(stack@, child_counts@, out@) == Walk::start().run(all.take(i as int), *opts),
        decreases events.len() - i,
    {
        let ghost before = walk_of(stack@, child_counts@, out@);
        proof {
            let next = all.take(i + 1);
            assert(next.drop_last() == all.take(i as int));
            assert(next.last() == events@[i as int]@);
        }
        match &events[i] {
            XmlEvent::Start { name, attrs } => {
                push_element(&mut stack, &mut child_counts, name.as_str(), opts, Ghost(i as nat));
                if opts.include_attributes {
                    push_attrs(&mut out, stack.as_slice(), attrs.as_slice(), opts);
                }
            },
            XmlEvent::Empty { name, attrs } => {
                push_element(&mut stack, &mut child_counts, name.as_str(), opts, Ghost(i as nat));
                if opts.include_attributes {
                    push_attrs(&mut out, stack.as_slice(), attrs.as_slice(), opts);
                }
                pop_element(&mut stack, &mut child_counts, Ghost((i + 1) as nat));
            },
            XmlEvent::End { name } => {
                pop_element(&mut stack, &mut child_counts, Ghost(i as nat));
            },
            XmlEvent::Text(text) => {
                if opts.include_text {
                    proof {
                        reveal_strlit("#text");
                        assert("#text"@ =~= text_marker());
                    }
                    push_leaf(&mut out, stack.as_slice(), "#text", ValueKind::Text, text.as_str(), opts);
                }
            },
            XmlEvent::CData(text) => {
                if opts.include_cdata {
                    proof {
                        reveal_strlit("#cdata");
                        assert("#cdata"@ =~= cdata_marker());
                    }
                    push_leaf(&mut out, stack.as_slice(), "#cdata", ValueKind::Text, text.as_str(), opts);
                }
            },
        }
        assert(walk_of(stack@, child_counts@, out@) == before.step(events@[i as int]@, *opts));
        i = i + 1;
    }
    assert(all.take(events.len() as int) == all);
    out
}

/// Which leaves a flattening with these options reads.
pub open spec fn wanted_by(opts: FlattenOptions) -> Wanted {
    Wanted {
        attributes: opts.include_attributes,
        text: opts.include_text,
        cdata: opts.include_cdata,
    }
}

/// The entries of a document given as text, or why it cannot be read.
pub open spec fn flattened_document(xml: Seq<char>, opts: FlattenOptions) -> Result<
    Seq<EntryView>,
    FaultView,
> {
    match document_events(xml, wanted_by(opts)) {
        Ok(events) => Ok(flattened(events, opts)),
        Err(fault) => Err(fault),
    }
}

pub open spec fn flatten_result_view(r: Result<Vec<FlatEntry>, ParseError>) -> Result<
    Seq<EntryView>,
    FaultView,
> {
    match r {
        Ok(entries) => Ok(entries_view(entries@)),
        Err(e) => Err(e@),
    }
}

/// Flattens one document: reads it into its structural events and walks
/// them. A document that cannot be read gives the failure and no entry.
/// What comes back depends on the text and the options alone.
pub fn flatten_xml_str(xml: &str, opts: &FlattenOptions) -> (r: Result<Vec<FlatEntry>, ParseError>)
    ensures
        flatten_result_view(r) == flattened_document(xml@, *opts),
{
    let want = Wanted {
        attributes: opts.include_attributes,
        text: opts.include_text,
        cdata: opts.include_cdata,
    };
    match read_events(xml, &want) {
        Ok(events) => Ok(flatten_events(events.as_slice(), opts)),
        Err(e) => Err(e),
    }
}

} // verus!
