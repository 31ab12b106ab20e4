use crate::xml::counters::ordinal_in;
use crate::xml::events::{AttrView, EventView};
use crate::xml::flatten::{local_name, FrameView, Walk};
use crate::xml::laws::lemma_run_concat;
use crate::xml::options::FlattenOptions;
use vstd::prelude::*;

verus! {

/// How many elements are open after `events` that were not open before them;
/// `None` where an element closes that the events did not open.
pub open spec fn depth_after(events: Seq<EventView>) -> Option<nat>
    decreases events.len(),
{
    if events.len() == 0 {
        Some(0nat)
    } else {
        match depth_after(events.drop_last()) {
            None => None,
            Some(depth) => match events.last() {
                EventView::Start { .. } => Some(depth + 1),
                EventView::End { .. } => if depth == 0 {
                    None
                } else {
                    Some((depth - 1) as nat)
                },
                _ => Some(depth),
            },
        }
    }
}

/// Whether `item` is one whole element: a self-closing tag, or a start tag,
/// content in which every element closes, and the end tag.
pub open spec fn is_element(item: Seq<EventView>) -> bool {
    ||| item.len() == 1 && item[0] is Empty
    ||| item.len() >= 2 && item[0] is Start && item.last() is End && depth_after(
        item.subrange(1, item.len() - 1),
    ) == Some(0nat)
}

/// Whether `item` is one text run or one CDATA section.
pub open spec fn is_leaf(item: Seq<EventView>) -> bool {
    item.len() == 1 && (item[0] is Text || item[0] is CData)
}

/// The name under which an element is counted.
pub open spec fn element_name(item: Seq<EventView>, opts: FlattenOptions) -> Seq<char> {
    match item[0] {
        EventView::Start { name, attrs } => local_name(name, opts.strip_namespace_prefix),
        EventView::Empty { name, attrs } => local_name(name, opts.strip_namespace_prefix),
        _ => Seq::empty(),
    }
}

/// The events of all items, one item after the other.
pub open spec fn joined(items: Seq<Seq<EventView>>) -> Seq<EventView>
    decreases items.len(),
{
    if items.len() == 0 {
        Seq::empty()
    } else {
        joined(items.drop_last()) + items.last()
    }
}

/// How many of the first `k` items are elements counted under `name`.
pub open spec fn same_named_before(
    items: Seq<Seq<EventView>>,
    k: int,
    name: Seq<char>,
    opts: FlattenOptions,
) -> nat
    decreases k,
{
    if k <= 0 {
        0
    } else if is_element(items[k - 1]) && element_name(items[k - 1], opts) == name {
        same_named_before(items, k - 1, name, opts) + 1
    } else {
        same_named_before(items, k - 1, name, opts)
    }
}

proof fn lemma_run_one(w: Walk, event: EventView, opts: FlattenOptions)
    ensures
        w.run(seq![event], opts) == w.step(event, opts),
{
    let one = seq![event];
    assert(one.drop_last() == Seq::<EventView>::empty());
    assert(w.run(one.drop_last(), opts) == w);
    assert(one.last() == event);
}

proof fn lemma_attrs_keep_place(w: Walk, attrs: Seq<AttrView>, opts: FlattenOptions)
    ensures
        w.emit_attrs(attrs, opts).stack == w.stack,
        w.emit_attrs(attrs, opts).counts == w.counts,
    decreases attrs.len(),
{
    if attrs.len() > 0 {
        lemma_attrs_keep_place(w, attrs.drop_last(), opts);
    }
}

proof fn lemma_enter(w: Walk, name: Seq<char>, attrs: Seq<AttrView>, opts: FlattenOptions)
    ensures
        w.enter(name, attrs, opts).stack == w.open(
            local_name(name, opts.strip_namespace_prefix),
        ).stack,
        w.enter(name, attrs, opts).counts == w.open(
            local_name(name, opts.strip_namespace_prefix),
        ).counts,
{
    lemma_attrs_keep_place(w.open(local_name(name, opts.strip_namespace_prefix)), attrs, opts);
}

/// Content in which no element closes that it did not open leaves alone what
/// was open before it, and the counters of every level but the innermost.
proof fn lemma_content(w: Walk, events: Seq<EventView>, opts: FlattenOptions)
    requires
        w.wf(),
        depth_after(events) is Some,
    ensures
        w.run(events, opts).wf(),
        w.run(events, opts).stack.len() == w.stack.len() + depth_after(events)->0,
        w.run(events, opts).stack.take(w.stack.len() as int) == w.stack,
        w.run(events, opts).counts.take(w.stack.len() as int) == w.counts.drop_last(),
    decreases events.len(),
{
    let base = w.stack.len() as int;
    if events.len() == 0 {
        assert(w.stack.take(base) == w.stack);
        assert(w.counts.take(base) == w.counts.drop_last());
    } else {
        let head = events.drop_last();
        lemma_content(w, head, opts);
        let m = w.run(head, opts);
        let r = m.step(events.last(), opts);
        match events.last() {
            EventView::Start { name, attrs } => {
                lemma_enter(m, name, attrs, opts);
                assert(r.stack.take(base) == m.stack.take(base));
                assert(r.counts.take(base) == m.counts.take(base));
            },
            EventView::Empty { name, attrs } => {
                lemma_enter(m, name, attrs, opts);
                let e = m.enter(name, attrs, opts);
                assert(r.stack == m.stack);
                assert(r.counts.take(base) == m.counts.take(base));
            },
            EventView::End { name } => {
                assert(r.stack.take(base) == m.stack.take(base));
                assert(r.counts.take(base) == m.counts.take(base));
            },
            EventView::Text(text) => {},
            EventView::CData(text) => {},
        }
    }
}

/// One whole element leaves open what was open before it, and counts once
/// under its name at the level it stands in.
proof fn lemma_element(w: Walk, item: Seq<EventView>, opts: FlattenOptions)
    requires
        w.wf(),
        is_element(item),
    ensures
        w.run(item, opts).wf(),
        w.run(item, opts).stack == w.stack,
        w.run(item, opts).counts == w.counts.drop_last().push(
            w.counts.last().insert(
                element_name(item, opts),
                ordinal_in(w.counts.last(), element_name(item, opts)) + 1,
            ),
        ),
{
    let name = element_name(item, opts);
    let first = seq![item[0]];
    lemma_run_one(w, item[0], opts);
    if item.len() == 1 {
        assert(item == first);
        match item[0] {
            EventView::Empty { name: raw, attrs } => {
                lemma_enter(w, raw, attrs, opts);
                let e = w.enter(raw, attrs, opts);
                assert(e.stack.drop_last() == w.stack);
                assert(e.counts.drop_last() == w.open(name).counts.drop_last());
            },
            _ => {},
        }
    } else {
        let inner = item.subrange(1, item.len() - 1);
        let last = seq![item.last()];
        assert(item == first + inner + last);
        lemma_run_concat(w, first + inner, last, opts);
        lemma_run_concat(w, first, inner, opts);
        match item[0] {
            EventView::Start { name: raw, attrs } => {
                lemma_enter(w, raw, attrs, opts);
                let opened = w.step(item[0], opts);
                assert(opened.stack == w.stack.push(FrameView { name, ordinal: ordinal_in(w.counts.last(), name) }));
                lemma_content(opened, inner, opts);
                let within = opened.run(inner, opts);
                lemma_run_one(within, item.last(), opts);
                let closed = within.step(item.last(), opts);
                assert(within.stack.len() == opened.stack.len());
                assert(within.stack.take(opened.stack.len() as int) == within.stack);
                assert(closed.stack == opened.stack.drop_last());
                assert(opened.stack.drop_last() == w.stack);
                assert(within.counts.take(opened.stack.len() as int) == within.counts.drop_last());
                assert(closed.counts == opened.counts.drop_last());
                assert(opened.counts.drop_last() == w.open(name).counts.drop_last());
            },
            _ => {},
        }
    }
}

proof fn lemma_leaf(w: Walk, item: Seq<EventView>, opts: FlattenOptions)
    requires
        is_leaf(item),
    ensures
        w.run(item, opts).stack == w.stack,
        w.run(item, opts).counts == w.counts,
{
    lemma_run_one(w, item[0], opts);
    assert(item == seq![item[0]]);
}

/// After the first `k` children of an element, the walk stands where it stood
/// before them, and the element's counters hold, for every name, as many more
/// as there were children of that name.
proof fn lemma_children(w: Walk, items: Seq<Seq<EventView>>, k: int, opts: FlattenOptions)
    requires
        w.wf(),
        0 <= k <= items.len(),
        forall|i: int| 0 <= i < items.len() ==> is_element(#[trigger] items[i]) || is_leaf(items[i]),
    ensures
        w.run(joined(items.take(k)), opts).wf(),
        w.run(joined(items.take(k)), opts).stack == w.stack,
        w.run(joined(items.take(k)), opts).counts.drop_last() == w.counts.drop_last(),
        forall|name: Seq<char>|
            ordinal_in(w.run(joined(items.take(k)), opts).counts.last(), name) == ordinal_in(
                w.counts.last(),
                name,
            ) + #[trigger] same_named_before(items, k, name, opts),
    decreases k,
{
    if k == 0 {
        assert(items.take(0) == Seq::<Seq<EventView>>::empty());
    } else {
        lemma_children(w, items, k - 1, opts);
        let head = items.take(k - 1);
        let item = items[k - 1];
        assert(items.take(k).drop_last() == head);
        assert(items.take(k).last() == item);
        lemma_run_concat(w, joined(head), item, opts);
        let m = w.run(joined(head), opts);
        let r = m.run(item, opts);
        if is_element(item) {
            lemma_element(m, item, opts);
            let counted = element_name(item, opts);
            assert(r.counts.drop_last() == m.counts.drop_last());
            assert forall|name: Seq<char>|
                ordinal_in(r.counts.last(), name) == ordinal_in(w.counts.last(), name)
                    + #[trigger] same_named_before(items, k, name, opts) by {
                assert(ordinal_in(m.counts.last(), name) == ordinal_in(w.counts.last(), name)
                    + same_named_before(items, k - 1, name, opts));
                assert(ordinal_in(m.counts.last(), counted) == ordinal_in(
                    w.counts.last(),
                    counted,
                ) + same_named_before(items, k - 1, counted, opts));
            }
        } else {
            lemma_leaf(m, item, opts);
            assert forall|name: Seq<char>|
                ordinal_in(r.counts.last(), name) == ordinal_in(w.counts.last(), name)
                    + #[trigger] same_named_before(items, k, name, opts) by {
                assert(ordinal_in(m.counts.last(), name) == ordinal_in(w.counts.last(), name)
                    + same_named_before(items, k - 1, name, opts));
            }
        }
    }
}

/// Let `items` be the children of one element, each a
/// whole element, a text run or a CDATA section, and let the walk stand at `w`
/// before the first of them. Then the element `items[k]` opens with the
/// ordinal that `w` holds for its name plus the number of elements of that
/// name among `items[0..k]`, whatever else stands between them. Right after
/// the parent opened, `w` holds nothing for any name, so the ordinals of the
/// children of one name are 0, 1, 2, ... in document order.
pub proof fn lemma_sibling_ordinals(
    w: Walk,
    items: Seq<Seq<EventView>>,
    k: int,
    opts: FlattenOptions,
)
    requires
        w.wf(),
        0 <= k < items.len(),
        forall|i: int| 0 <= i < items.len() ==> is_element(#[trigger] items[i]) || is_leaf(items[i]),
        is_element(items[k]),
    ensures
        ({
            let before = w.run(joined(items.take(k)), opts);
            let name = element_name(items[k], opts);
            let ordinal = ordinal_in(w.counts.last(), name) + same_named_before(
                items,
                k,
                name,
                opts,
            );
            &&& before.stack == w.stack
            &&& before.open(name).stack == w.stack.push(FrameView { name, ordinal })
            &&& items[k][0] is Start ==> before.step(items[k][0], opts).stack == w.stack.push(
                FrameView { name, ordinal },
            )
            &&& w.counts.last() == Map::<Seq<char>, nat>::empty() ==> ordinal
                == same_named_before(items, k, name, opts)
        }),
{
    lemma_children(w, items, k, opts);
    let before = w.run(joined(items.take(k)), opts);
    match items[k][0] {
        EventView::Start { name: raw, attrs } => {
            lemma_enter(before, raw, attrs, opts);
        },
        _ => {},
    }
}

/// Under a parent that has just opened, a child element opens with the number
/// of elements of its name that stand before it among the parent's children:
/// the children of one name get 0, 1, 2, ... in document order, whatever
/// else stands between them.
pub proof fn lemma_ordinals_count_from_zero(
    v: Walk,
    parent: Seq<char>,
    attrs: Seq<AttrView>,
    items: Seq<Seq<EventView>>,
    k: int,
    opts: FlattenOptions,
)
    requires
        v.wf(),
        0 <= k < items.len(),
        forall|i: int| 0 <= i < items.len() ==> is_element(#[trigger] items[i]) || is_leaf(items[i]),
        is_element(items[k]),
    ensures
        ({
            let before = v.enter(parent, attrs, opts).run(joined(items.take(k)), opts);
            let name = element_name(items[k], opts);
            before.open(name).stack.last() == (FrameView {
                name,
                ordinal: same_named_before(items, k, name, opts),
            })
        }),
{
    let w = v.enter(parent, attrs, opts);
    lemma_enter(v, parent, attrs, opts);
    assert(w.counts.last() == Map::<Seq<char>, nat>::empty());
    lemma_sibling_ordinals(w, items, k, opts);
}

} // verus!
