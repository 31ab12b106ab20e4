use crate::cli::PathStyle;
use crate::text::{
    decimal, is_digit, lemma_clipped, lemma_clipped_exact, lemma_decimal_digits,
    lemma_trimmed_ends, lemma_utf8_len_is_encoded_len, trimmed, utf8_len,
};
use crate::xml::events::{AttrView, EventView};
use crate::xml::flatten::{
    ancestors_text, attr_marker, cdata_marker, entries_view, flatten_result_view, flattened,
    flattened_document, local_name, normalized, path_text, separator, text_marker, EntryView,
    FlatEntry, FrameView, ValueKind, Walk,
};
use crate::xml::raw::ParseError;
use crate::xml::options::FlattenOptions;
use vstd::prelude::*;
use vstd::utf8::encode_utf8;

verus! {

/// The values of some entries, in their order.
pub open spec fn values_of(entries: Seq<EntryView>) -> Seq<Seq<char>> {
    entries.map_values(|e: EntryView| e.value)
}

/// The raw values of the leaves that one event shows, in the order written:
/// the attribute values of a tag where attributes are included, a text run
/// where text is included, a CDATA section where those are included.
pub open spec fn event_leaves(event: EventView, opts: FlattenOptions) -> Seq<Seq<char>> {
    match event {
        EventView::Start { name, attrs } => if opts.include_attributes {
            attrs.map_values(|a: AttrView| a.value)
        } else {
            Seq::empty()
        },
        EventView::Empty { name, attrs } => if opts.include_attributes {
            attrs.map_values(|a: AttrView| a.value)
        } else {
            Seq::empty()
        },
        EventView::End { name } => Seq::empty(),
        EventView::Text(text) => if opts.include_text {
            seq![text]
        } else {
            Seq::empty()
        },
        EventView::CData(text) => if opts.include_cdata {
            seq![text]
        } else {
            Seq::empty()
        },
    }
}

/// The raw values of all the leaves of a document, in document order.
pub open spec fn raw_leaves(events: Seq<EventView>, opts: FlattenOptions) -> Seq<Seq<char>>
    decreases events.len(),
{
    if events.len() == 0 {
        Seq::empty()
    } else {
        raw_leaves(events.drop_last(), opts) + event_leaves(events.last(), opts)
    }
}

/// The raw values normalized, without those that normalize to nothing.
pub open spec fn kept(raw: Seq<Seq<char>>, max_len: nat) -> Seq<Seq<char>>
    decreases raw.len(),
{
    if raw.len() == 0 {
        Seq::empty()
    } else if normalized(raw.last(), max_len).len() == 0 {
        kept(raw.drop_last(), max_len)
    } else {
        kept(raw.drop_last(), max_len).push(normalized(raw.last(), max_len))
    }
}

/// How many of the raw values are not empty.
pub open spec fn count_nonempty(raw: Seq<Seq<char>>) -> nat
    decreases raw.len(),
{
    if raw.len() == 0 {
        0
    } else if raw.last().len() == 0 {
        count_nonempty(raw.drop_last())
    } else {
        count_nonempty(raw.drop_last()) + 1
    }
}

/// Walking `a` and then `b` is walking `a + b`.
pub proof fn lemma_run_concat(w: Walk, a: Seq<EventView>, b: Seq<EventView>, opts: FlattenOptions)
    ensures
        w.run(a + b, opts) == w.run(a, opts).run(b, opts),
    decreases b.len(),
{
    if b.len() == 0 {
        assert(a + b == a);
    } else {
        assert((a + b).drop_last() == a + b.drop_last());
        lemma_run_concat(w, a, b.drop_last(), opts);
    }
}

proof fn lemma_kept_concat(a: Seq<Seq<char>>, b: Seq<Seq<char>>, max_len: nat)
    ensures
        kept(a + b, max_len) == kept(a, max_len) + kept(b, max_len),
    decreases b.len(),
{
    if b.len() == 0 {
        assert(a + b == a);
    } else {
        assert((a + b).drop_last() == a + b.drop_last());
        lemma_kept_concat(a, b.drop_last(), max_len);
    }
}

proof fn lemma_emit_values(
    w: Walk,
    marker: Seq<char>,
    kind: ValueKind,
    raw: Seq<char>,
    opts: FlattenOptions,
)
    ensures
        values_of(w.emit(marker, kind, raw, opts).out) == values_of(w.out) + kept(
            seq![raw],
            opts.max_text_len as nat,
        ),
        w.emit(marker, kind, raw, opts).stack == w.stack,
        w.emit(marker, kind, raw, opts).counts == w.counts,
{
    let max_len = opts.max_text_len as nat;
    assert(seq![raw].drop_last() == Seq::<Seq<char>>::empty());
    assert(kept(seq![raw].drop_last(), max_len) == Seq::<Seq<char>>::empty());
    if normalized(raw, max_len).len() == 0 {
        assert(values_of(w.out) + kept(seq![raw], max_len) == values_of(w.out));
    } else {
        assert(kept(seq![raw], max_len) == seq![normalized(raw, max_len)]);
        assert(values_of(w.emit(marker, kind, raw, opts).out) == values_of(w.out) + seq![
            normalized(raw, max_len),
        ]);
    }
}

proof fn lemma_attrs_values(w: Walk, attrs: Seq<AttrView>, opts: FlattenOptions)
    ensures
        values_of(w.emit_attrs(attrs, opts).out) == values_of(w.out) + kept(
            attrs.map_values(|a: AttrView| a.value),
            opts.max_text_len as nat,
        ),
        w.emit_attrs(attrs, opts).stack == w.stack,
        w.emit_attrs(attrs, opts).counts == w.counts,
    decreases attrs.len(),
{
    let max_len = opts.max_text_len as nat;
    let raw = attrs.map_values(|a: AttrView| a.value);
    if attrs.len() == 0 {
        assert(values_of(w.out) + kept(raw, max_len) == values_of(w.out));
    } else {
        let head = attrs.drop_last();
        lemma_attrs_values(w, head, opts);
        lemma_emit_values(
            w.emit_attrs(head, opts),
            attr_marker(attrs.last().key),
            ValueKind::Attr,
            attrs.last().value,
            opts,
        );
        assert(raw == head.map_values(|a: AttrView| a.value) + seq![attrs.last().value]);
        lemma_kept_concat(
            head.map_values(|a: AttrView| a.value),
            seq![attrs.last().value],
            max_len,
        );
    }
}

proof fn lemma_step_values(w: Walk, event: EventView, opts: FlattenOptions)
    ensures
        values_of(w.step(event, opts).out) == values_of(w.out) + kept(
            event_leaves(event, opts),
            opts.max_text_len as nat,
        ),
{
    let max_len = opts.max_text_len as nat;
    let empty = Seq::<Seq<char>>::empty();
    assert(kept(empty, max_len) == empty);
    assert(values_of(w.out) + empty == values_of(w.out));
    match event {
        EventView::Start { name, attrs } => {
            lemma_attrs_values(w.open(local_name(name, opts.strip_namespace_prefix)), attrs, opts);
        },
        EventView::Empty { name, attrs } => {
            lemma_attrs_values(w.open(local_name(name, opts.strip_namespace_prefix)), attrs, opts);
        },
        EventView::End { name } => {},
        EventView::Text(text) => {
            lemma_emit_values(w, text_marker(), ValueKind::Text, text, opts);
        },
        EventView::CData(text) => {
            lemma_emit_values(w, cdata_marker(), ValueKind::Text, text, opts);
        },
    }
}

proof fn lemma_run_values(w: Walk, events: Seq<EventView>, opts: FlattenOptions)
    ensures
        values_of(w.run(events, opts).out) == values_of(w.out) + kept(
            raw_leaves(events, opts),
            opts.max_text_len as nat,
        ),
    decreases events.len(),
{
    let max_len = opts.max_text_len as nat;
    if events.len() == 0 {
        assert(values_of(w.out) + kept(raw_leaves(events, opts), max_len) == values_of(w.out));
    } else {
        lemma_run_values(w, events.drop_last(), opts);
        lemma_step_values(w.run(events.drop_last(), opts), events.last(), opts);
        lemma_kept_concat(
            raw_leaves(events.drop_last(), opts),
            event_leaves(events.last(), opts),
            max_len,
        );
    }
}

/// The values of the entries are the normalized values of the document's
/// leaves, in document order, without those that normalize to nothing.
pub proof fn lemma_values_are_kept_leaves(events: Seq<EventView>, opts: FlattenOptions)
    ensures
        values_of(flattened(events, opts)) == kept(
            raw_leaves(events, opts),
            opts.max_text_len as nat,
        ),
{
    lemma_run_values(Walk::start(), events, opts);
    assert(values_of(Walk::start().out) == Seq::<Seq<char>>::empty());
    assert(Seq::<Seq<char>>::empty() + kept(raw_leaves(events, opts), opts.max_text_len as nat)
        == kept(raw_leaves(events, opts), opts.max_text_len as nat));
}

/// Nothing that is kept is empty, and there is at most one kept value for
/// each raw value that is not empty.
pub proof fn lemma_kept_nonempty(raw: Seq<Seq<char>>, max_len: nat)
    ensures
        forall|i: int| 0 <= i < kept(raw, max_len).len() ==> (#[trigger] kept(raw, max_len)[i]).len() > 0,
        kept(raw, max_len).len() <= count_nonempty(raw),
    decreases raw.len(),
{
    if raw.len() > 0 {
        lemma_kept_nonempty(raw.drop_last(), max_len);
        lemma_trimmed_ends(raw.last());
        lemma_clipped(trimmed(raw.last()), max_len);
    }
}

/// No entry has an empty value, and there are at most as many entries as the
/// document has leaves that are not empty.
pub proof fn lemma_no_empty_entries(events: Seq<EventView>, opts: FlattenOptions)
    ensures
        forall|i: int| 0 <= i < flattened(events, opts).len() ==> (#[trigger] flattened(
            events,
            opts,
        )[i]).value.len() > 0,
        flattened(events, opts).len() <= count_nonempty(raw_leaves(events, opts)),
{
    lemma_values_are_kept_leaves(events, opts);
    lemma_kept_nonempty(raw_leaves(events, opts), opts.max_text_len as nat);
    let out = flattened(events, opts);
    assert(values_of(out).len() == out.len());
    assert forall|i: int| 0 <= i < out.len() implies (#[trigger] out[i]).value.len() > 0 by {
        assert(values_of(out)[i] == out[i].value);
    }
}

/// With a limit above zero a normalized value takes at most that many bytes
/// of UTF-8; with a limit of zero it is the trimmed value, whatever its length.
pub proof fn lemma_normalized_within_limit(raw: Seq<char>, max_len: nat)
    ensures
        max_len > 0 ==> utf8_len(normalized(raw, max_len)) <= max_len,
        max_len == 0 ==> normalized(raw, max_len) == trimmed(raw),
        utf8_len(trimmed(raw)) <= max_len ==> normalized(raw, max_len) == trimmed(raw),
{
    lemma_clipped(trimmed(raw), max_len);
}

/// Where a character of the trimmed value ends exactly at a limit above
/// zero, the normalized value takes exactly that many bytes.
pub proof fn lemma_cut_is_exact(raw: Seq<char>, max_len: nat, k: int)
    requires
        max_len > 0,
        0 <= k <= trimmed(raw).len(),
        utf8_len(trimmed(raw).take(k)) == max_len,
    ensures
        normalized(raw, max_len) == trimmed(raw).take(k),
        utf8_len(normalized(raw, max_len)) == max_len,
{
    lemma_clipped_exact(trimmed(raw), max_len, k);
}

proof fn lemma_kept_within_limit(raw: Seq<Seq<char>>, max_len: nat)
    requires
        max_len > 0,
    ensures
        forall|i: int| 0 <= i < kept(raw, max_len).len() ==> utf8_len(#[trigger] kept(raw, max_len)[i])
            <= max_len,
    decreases raw.len(),
{
    if raw.len() > 0 {
        lemma_kept_within_limit(raw.drop_last(), max_len);
        lemma_normalized_within_limit(raw.last(), max_len);
        let head = kept(raw.drop_last(), max_len);
        assert forall|i: int| 0 <= i < kept(raw, max_len).len() implies utf8_len(
            #[trigger] kept(raw, max_len)[i],
        ) <= max_len by {
            if i < head.len() {
                assert(kept(raw, max_len)[i] == head[i]);
            }
        }
    }
}

/// With a limit above zero, the value of every entry takes
/// at most that many bytes of UTF-8, which is the length that `String::len` gives.
pub proof fn lemma_values_within_limit(events: Seq<EventView>, opts: FlattenOptions)
    requires
        opts.max_text_len > 0,
    ensures
        forall|i: int| 0 <= i < flattened(events, opts).len() ==> utf8_len(
            (#[trigger] flattened(events, opts)[i]).value,
        ) <= opts.max_text_len,
        forall|i: int| 0 <= i < flattened(events, opts).len() ==> encode_utf8(
            (#[trigger] flattened(events, opts)[i]).value,
        ).len() <= opts.max_text_len,
{
    lemma_values_are_kept_leaves(events, opts);
    lemma_kept_within_limit(raw_leaves(events, opts), opts.max_text_len as nat);
    let out = flattened(events, opts);
    assert(values_of(out).len() == out.len());
    assert forall|i: int| 0 <= i < out.len() implies utf8_len((#[trigger] out[i]).value)
        <= opts.max_text_len && encode_utf8(out[i].value).len() <= opts.max_text_len by {
        assert(values_of(out)[i] == out[i].value);
        lemma_utf8_len_is_encoded_len(out[i].value);
    }
}

/// Without a limit nothing is cut: the values of the entries are the trimmed
/// values of the document's leaves, without those that trim to nothing.
pub proof fn lemma_no_limit_no_cut(events: Seq<EventView>, opts: FlattenOptions)
    requires
        opts.max_text_len == 0,
    ensures
        values_of(flattened(events, opts)) == kept_trimmed(raw_leaves(events, opts)),
{
    lemma_values_are_kept_leaves(events, opts);
    lemma_kept_without_limit(raw_leaves(events, opts));
}

/// The raw values trimmed, without those that trim to nothing.
pub open spec fn kept_trimmed(raw: Seq<Seq<char>>) -> Seq<Seq<char>>
    decreases raw.len(),
{
    if raw.len() == 0 {
        Seq::empty()
    } else if trimmed(raw.last()).len() == 0 {
        kept_trimmed(raw.drop_last())
    } else {
        kept_trimmed(raw.drop_last()).push(trimmed(raw.last()))
    }
}

proof fn lemma_kept_without_limit(raw: Seq<Seq<char>>)
    ensures
        kept(raw, 0) == kept_trimmed(raw),
    decreases raw.len(),
{
    if raw.len() > 0 {
        lemma_kept_without_limit(raw.drop_last());
    }
}

/// A segment with the separator in front of it.
pub open spec fn led_segment(frame: FrameView, style: PathStyle) -> Seq<char> {
    seq![separator(style)] + frame.name + seq!['['] + decimal(frame.ordinal) + seq![']']
}

/// Whether `marker` is a leaf marker: `#text`, `#cdata`, or `@` and an attribute's name.
pub open spec fn is_leaf_marker(marker: Seq<char>) -> bool {
    marker == text_marker() || marker == cdata_marker() || (marker.len() > 0 && marker[0] == '@')
}

/// What the grammar of paths builds from one or more segments and an optional
/// leaf marker: under the slash style `("/" name "[" integer "]")+ ("/" marker)?`,
/// under the dot style the same with `.` and without the first separator.
pub open spec fn grammar_text(stack: Seq<FrameView>, style: PathStyle, leaf: Option<Seq<char>>) -> Seq<
    char,
> {
    let segments = stack.map_values(|f: FrameView| led_segment(f, style)).flatten();
    let tail = match leaf {
        Some(marker) => seq![separator(style)] + marker,
        None => Seq::empty(),
    };
    match style {
        PathStyle::Slash => segments + tail,
        PathStyle::Dot => segments.drop_first() + tail,
    }
}

/// Whether `path` is built by the grammar of paths from at least one segment
/// and a leaf marker.
pub open spec fn is_leaf_path(path: Seq<char>, style: PathStyle) -> bool {
    exists|stack: Seq<FrameView>, marker: Seq<char>|
        stack.len() > 0 && is_leaf_marker(marker) && path == #[trigger] grammar_text(
            stack,
            style,
            Some(marker),
        )
}

proof fn lemma_led_segments(stack: Seq<FrameView>, style: PathStyle)
    requires
        stack.len() > 0,
    ensures
        stack.map_values(|f: FrameView| led_segment(f, style)).flatten() == seq![separator(style)]
            + (if style == PathStyle::Slash {
            ancestors_text(stack, style).drop_first()
        } else {
            ancestors_text(stack, style)
        }),
    decreases stack.len(),
{
    let led = stack.map_values(|f: FrameView| led_segment(f, style));
    led.lemma_flatten_and_flatten_alt_are_equivalent();
    assert(led.last() == led_segment(stack.last(), style));
    if stack.len() == 1 {
        assert(led.drop_last().flatten_alt() == Seq::<char>::empty());
        assert(led.flatten_alt() =~= led_segment(stack[0], style));
        assert(led.flatten() =~= seq![separator(style)] + (if style == PathStyle::Slash {
            ancestors_text(stack, style).drop_first()
        } else {
            ancestors_text(stack, style)
        }));
    } else {
        let head = stack.drop_last();
        lemma_led_segments(head, style);
        let led_head = head.map_values(|f: FrameView| led_segment(f, style));
        assert(led.drop_last() == led_head);
        led_head.lemma_flatten_and_flatten_alt_are_equivalent();
        lemma_ancestors_nonempty(head, style);
        assert(led.flatten() =~= seq![separator(style)] + (if style == PathStyle::Slash {
            ancestors_text(stack, style).drop_first()
        } else {
            ancestors_text(stack, style)
        }));
    }
}

proof fn lemma_ancestors_nonempty(stack: Seq<FrameView>, style: PathStyle)
    requires
        stack.len() > 0,
    ensures
        ancestors_text(stack, style).len() > 0,
        style == PathStyle::Slash ==> ancestors_text(stack, style)[0] == '/',
    decreases stack.len(),
{
    lemma_decimal_digits(stack.last().ordinal);
    if stack.len() > 1 {
        lemma_ancestors_nonempty(stack.drop_last(), style);
    }
}

/// With at least one element open, a path is what the
/// grammar of paths builds from the open elements and the leaf marker. Under
/// the slash style it begins with `/`; every ordinal is written as a decimal integer.
pub proof fn lemma_path_grammar(stack: Seq<FrameView>, style: PathStyle, leaf: Option<Seq<char>>)
    requires
        stack.len() > 0,
    ensures
        path_text(stack, style, leaf) == grammar_text(stack, style, leaf),
        style == PathStyle::Slash ==> path_text(stack, style, leaf)[0] == '/',
        forall|k: int, i: int|
            0 <= k < stack.len() && 0 <= i < decimal(stack[k].ordinal).len() ==> is_digit(
                #[trigger] decimal(stack[k].ordinal)[i],
            ),
{
    lemma_led_segments(stack, style);
    lemma_ancestors_nonempty(stack, style);
    assert(path_text(stack, style, leaf) =~= grammar_text(stack, style, leaf));
    assert forall|k: int, i: int|
        0 <= k < stack.len() && 0 <= i < decimal(stack[k].ordinal).len() implies is_digit(
        #[trigger] decimal(stack[k].ordinal)[i],
    ) by {
        lemma_decimal_digits(stack[k].ordinal);
    }
}

/// Whether every text run and CDATA section of the document that is taken in
/// stands inside an element.
pub open spec fn leaves_inside(events: Seq<EventView>, opts: FlattenOptions) -> bool {
    forall|k: int|
        0 <= k < events.len() && takes_leaf(#[trigger] events[k], opts) ==> Walk::start().run(
            events.take(k),
            opts,
        ).stack.len() > 0
}

/// Whether the event is a text run or a CDATA section that the options take in.
pub open spec fn takes_leaf(event: EventView, opts: FlattenOptions) -> bool {
    match event {
        EventView::Text(_) => opts.include_text,
        EventView::CData(_) => opts.include_cdata,
        _ => false,
    }
}

spec fn all_leaf_paths(out: Seq<EntryView>, style: PathStyle) -> bool {
    forall|i: int| 0 <= i < out.len() ==> is_leaf_path((#[trigger] out[i]).path, style)
}

proof fn lemma_emit_paths(
    w: Walk,
    marker: Seq<char>,
    kind: ValueKind,
    raw: Seq<char>,
    opts: FlattenOptions,
)
    requires
        all_leaf_paths(w.out, opts.path_style),
        w.stack.len() > 0,
        is_leaf_marker(marker),
    ensures
        all_leaf_paths(w.emit(marker, kind, raw, opts).out, opts.path_style),
{
    lemma_path_grammar(w.stack, opts.path_style, Some(marker));
    let after = w.emit(marker, kind, raw, opts).out;
    assert forall|i: int| 0 <= i < after.len() implies is_leaf_path(
        (#[trigger] after[i]).path,
        opts.path_style,
    ) by {
        if i < w.out.len() {
            assert(after[i] == w.out[i]);
        } else {
            assert(after[i].path == grammar_text(w.stack, opts.path_style, Some(marker)));
        }
    }
}

proof fn lemma_attrs_paths(w: Walk, attrs: Seq<AttrView>, opts: FlattenOptions)
    requires
        all_leaf_paths(w.out, opts.path_style),
        w.stack.len() > 0,
    ensures
        all_leaf_paths(w.emit_attrs(attrs, opts).out, opts.path_style),
        w.emit_attrs(attrs, opts).stack == w.stack,
    decreases attrs.len(),
{
    if attrs.len() > 0 {
        lemma_attrs_paths(w, attrs.drop_last(), opts);
        let marker = attr_marker(attrs.last().key);
        assert(marker[0] == '@');
        lemma_emit_paths(
            w.emit_attrs(attrs.drop_last(), opts),
            marker,
            ValueKind::Attr,
            attrs.last().value,
            opts,
        );
    }
}

proof fn lemma_run_paths(events: Seq<EventView>, opts: FlattenOptions)
    requires
        leaves_inside(events, opts),
    ensures
        all_leaf_paths(Walk::start().run(events, opts).out, opts.path_style),
    decreases events.len(),
{
    if events.len() > 0 {
        let head = events.drop_last();
        assert forall|k: int| 0 <= k < head.len() && takes_leaf(#[trigger] head[k], opts) implies Walk::start().run(
            head.take(k),
            opts,
        ).stack.len() > 0 by {
            assert(head[k] == events[k]);
            assert(head.take(k) == events.take(k));
        }
        lemma_run_paths(head, opts);
        let w = Walk::start().run(head, opts);
        assert(events.take(events.len() - 1) == head);
        assert(events[events.len() - 1] == events.last());
        match events.last() {
            EventView::Start { name, attrs } => {
                lemma_attrs_paths(
                    w.open(local_name(name, opts.strip_namespace_prefix)),
                    attrs,
                    opts,
                );
            },
            EventView::Empty { name, attrs } => {
                lemma_attrs_paths(
                    w.open(local_name(name, opts.strip_namespace_prefix)),
                    attrs,
                    opts,
                );
            },
            EventView::End { name } => {},
            EventView::Text(text) => {
                if opts.include_text {
                    lemma_emit_paths(w, text_marker(), ValueKind::Text, text, opts);
                }
            },
            EventView::CData(text) => {
                if opts.include_cdata {
                    lemma_emit_paths(w, cdata_marker(), ValueKind::Text, text, opts);
                }
            },
        }
    }
}

/// Where every text run and CDATA
/// section stands inside an element, the path of every entry is built by the
/// grammar of paths from at least one segment and a leaf marker.
pub proof fn lemma_entry_paths_well_formed(events: Seq<EventView>, opts: FlattenOptions)
    requires
        leaves_inside(events, opts),
    ensures
        forall|i: int| 0 <= i < flattened(events, opts).len() ==> is_leaf_path(
            (#[trigger] flattened(events, opts)[i]).path,
            opts.path_style,
        ),
{
    lemma_run_paths(events, opts);
}

spec fn all_led_by_slash(out: Seq<EntryView>) -> bool {
    forall|i: int| 0 <= i < out.len() ==> (#[trigger] out[i]).path.len() > 0 && out[i].path[0] == '/'
}

proof fn lemma_emit_led(w: Walk, marker: Seq<char>, kind: ValueKind, raw: Seq<char>, opts: FlattenOptions)
    requires
        opts.path_style == PathStyle::Slash,
        all_led_by_slash(w.out),
    ensures
        all_led_by_slash(w.emit(marker, kind, raw, opts).out),
{
    if w.stack.len() > 0 {
        lemma_ancestors_nonempty(w.stack, opts.path_style);
    }
    let after = w.emit(marker, kind, raw, opts).out;
    assert forall|i: int| 0 <= i < after.len() implies (#[trigger] after[i]).path.len() > 0
        && after[i].path[0] == '/' by {
        if i < w.out.len() {
            assert(after[i] == w.out[i]);
        }
    }
}

proof fn lemma_attrs_led(w: Walk, attrs: Seq<AttrView>, opts: FlattenOptions)
    requires
        opts.path_style == PathStyle::Slash,
        all_led_by_slash(w.out),
    ensures
        all_led_by_slash(w.emit_attrs(attrs, opts).out),
    decreases attrs.len(),
{
    if attrs.len() > 0 {
        lemma_attrs_led(w, attrs.drop_last(), opts);
        lemma_emit_led(
            w.emit_attrs(attrs.drop_last(), opts),
            attr_marker(attrs.last().key),
            ValueKind::Attr,
            attrs.last().value,
            opts,
        );
    }
}

/// Under the slash style the path of every entry begins with `/`, wherever
/// its leaf stands.
pub proof fn lemma_slash_paths_begin_with_slash(events: Seq<EventView>, opts: FlattenOptions)
    requires
        opts.path_style == PathStyle::Slash,
    ensures
        forall|i: int| 0 <= i < flattened(events, opts).len() ==> (#[trigger] flattened(
            events,
            opts,
        )[i]).path.len() > 0 && flattened(events, opts)[i].path[0] == '/',
    decreases events.len(),
{
    if events.len() > 0 {
        lemma_slash_paths_begin_with_slash(events.drop_last(), opts);
        let w = Walk::start().run(events.drop_last(), opts);
        assert(all_led_by_slash(w.out));
        match events.last() {
            EventView::Start { name, attrs } => {
                lemma_attrs_led(w.open(local_name(name, opts.strip_namespace_prefix)), attrs, opts);
            },
            EventView::Empty { name, attrs } => {
                lemma_attrs_led(w.open(local_name(name, opts.strip_namespace_prefix)), attrs, opts);
            },
            EventView::End { name } => {},
            EventView::Text(text) => {
                lemma_emit_led(w, text_marker(), ValueKind::Text, text, opts);
            },
            EventView::CData(text) => {
                lemma_emit_led(w, cdata_marker(), ValueKind::Text, text, opts);
            },
        }
        assert(all_led_by_slash(flattened(events, opts)));
    }
}

/// Two flattenings of one document under the same options agree: both fail in
/// the same way, or both give the same entries, character for character and
/// in the same order. `first` and `second` are what two calls of
/// `flatten_xml_str` returned, as its contract describes them.
pub proof fn lemma_flattening_repeats(
    first: Result<Vec<FlatEntry>, ParseError>,
    second: Result<Vec<FlatEntry>, ParseError>,
    xml: Seq<char>,
    opts: FlattenOptions,
)
    requires
        flatten_result_view(first) == flattened_document(xml, opts),
        flatten_result_view(second) == flattened_document(xml, opts),
    ensures
        flatten_result_view(first) == flatten_result_view(second),
        first is Ok <==> second is Ok,
        first matches Ok(a) ==> second matches Ok(b) && a.len() == b.len() && forall|i: int|
            0 <= i < a.len() ==> (#[trigger] a[i]).p@ == b[i].p@ && a[i].k == b[i].k && a[i].v@
                == b[i].v@,
        first matches Err(e) ==> second matches Err(f) && e.position == f.position && e.message@
            == f.message@,
{
    if let Ok(a) = first {
        let b = second->Ok_0;
        assert(entries_view(a@) == entries_view(b@));
        assert(a.len() == entries_view(a@).len());
        assert(b.len() == entries_view(b@).len());
        assert forall|i: int| 0 <= i < a.len() implies (#[trigger] a[i]).p@ == b[i].p@ && a[i].k
            == b[i].k && a[i].v@ == b[i].v@ by {
            assert(entries_view(a@)[i] == a[i]@);
            assert(entries_view(b@)[i] == b[i]@);
        }
    }
}

} // verus!
