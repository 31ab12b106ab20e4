use crate::text::{push_char, push_text};
use crate::xml::flatten::{entries_view, EntryView, FlatEntry};
use vstd::prelude::*;

verus! {

/// A character of a value as a line can hold it: line breaks are written out.
pub open spec fn escaped_char(c: char) -> Seq<char> {
    if c == '\n' {
        seq!['\\', 'n']
    } else if c == '\r' {
        seq!['\\', 'r']
    } else {
        seq![c]
    }
}

/// A value with each of its line breaks written out as `\n` or `\r`.
pub open spec fn escaped_value(v: Seq<char>) -> Seq<char>
    decreases v.len(),
{
    if v.len() == 0 {
        Seq::empty()
    } else {
        escaped_value(v.drop_last()) + escaped_char(v.last())
    }
}

/// One entry as a line: the path, ` = `, the escaped value, and a line break.
pub open spec fn entry_line(e: EntryView) -> Seq<char> {
    e.path + seq![' ', '=', ' '] + escaped_value(e.value) + seq!['\n']
}

/// The entries, one line each, in their order.
pub open spec fn toon_text(entries: Seq<EntryView>) -> Seq<char>
    decreases entries.len(),
{
    if entries.len() == 0 {
        Seq::empty()
    } else {
        toon_text(entries.drop_last()) + entry_line(entries.last())
    }
}

pub open spec fn doc_view(doc: (String, String)) -> (Seq<char>, Seq<char>) {
    (doc.0@, doc.1@)
}

pub open spec fn docs_view(docs: Seq<(String, String)>) -> Seq<(Seq<char>, Seq<char>)> {
    docs.map_values(|d: (String, String)| doc_view(d))
}

/// The heading that introduces the document `id`.
pub open spec fn doc_heading(id: Seq<char>) -> Seq<char> {
    seq!['#', '#', '#', ' ', 'f', 'i', 'l', 'e', ':', ' '] + id + seq!['\n']
}

/// Several rendered documents in one text: each body under a heading that
/// names it, with a line break between one document and the next.
pub open spec fn wrapped_text(docs: Seq<(Seq<char>, Seq<char>)>) -> Seq<char>
    decreases docs.len(),
{
    if docs.len() == 0 {
        Seq::empty()
    } else if docs.len() == 1 {
        doc_heading(docs[0].0) + docs[0].1
    } else {
        wrapped_text(docs.drop_last()).push('\n') + doc_heading(docs.last().0) + docs.last().1
    }
}

fn escape_value(v: &str) -> (r: String)
    ensures
        r@ == escaped_value(v@),
{
    let mut out = String::new();
    for c in it: v.chars()
        invariant
            it.seq() == v@,
            out@ == escaped_value(v@.take(it.index())),
    {
        assert(v@.take(it.index() + 1).drop_last() == v@.take(it.index()));
        if c == '\n' {
            push_char(&mut out, '\\');
            push_char(&mut out, 'n');
        } else if c == '\r' {
            push_char(&mut out, '\\');
            push_char(&mut out, 'r');
        } else {
            push_char(&mut out, c);
        }
    }
    assert(v@.take(v@.len() as int) == v@);
    out
}

/// Renders the entries one per line, as `path = value`.
pub fn render(entries: &[FlatEntry]) -> (s: String)
    ensures
        s@ == toon_text(entries_view(entries@)),
{
    let ghost all = entries_view(entries@);
    let mut s = String::new();
    let mut i: usize = 0;
    while i < entries.len()
        invariant
            i <= entries.len(),
            all == entries_view(entries@),
            s@ == toon_text(all.take(i as int)),
        decreases entries.len() - i,
    {
        proof {
            assert(all.take(i + 1).drop_last() == all.take(i as int));
            assert(all.take(i + 1).last() == entries@[i as int]@);
        }
        push_text(&mut s, entries[i].p.as_str());
        push_char(&mut s, ' ');
        push_char(&mut s, '=');
        push_char(&mut s, ' ');
        let value = escape_value(entries[i].v.as_str());
        push_text(&mut s, value.as_str());
        push_char(&mut s, '\n');
        assert(s@ =~= toon_text(all.take(i as int)) + entry_line(entries@[i as int]@));
        i = i + 1;
    }
    assert(all.take(entries.len() as int) == all);
    s
}

/// Joins rendered documents, each given with the name of its source, into one
/// text that keeps them apart.
pub fn wrap_many(docs: Vec<(String, String)>) -> (s: String)
    ensures
        s@ == wrapped_text(docs_view(docs@)),
{
    let ghost all = docs_view(docs@);
    let mut s = String::new();
    let mut i: usize = 0;
    while i < docs.len()
        invariant
            i <= docs.len(),
            all == docs_view(docs@),
            s@ == wrapped_text(all.take(i as int)),
        decreases docs.len() - i,
    {
        proof {
            assert(all.take(i + 1).drop_last() == all.take(i as int));
            assert(all.take(i + 1).last() == doc_view(docs@[i as int]));
            reveal_strlit("### file: ");
        }
        let ghost before = s@;
        if i > 0 {
            push_char(&mut s, '\n');
        }
        push_text(&mut s, "### file: ");
        push_text(&mut s, docs[i].0.as_str());
        push_char(&mut s, '\n');
        assert(s@ =~= (if i > 0 {
            before.push('\n')
        } else {
            before
        }) + doc_heading(docs@[i as int].0@));
        push_text(&mut s, docs[i].1.as_str());
        i = i + 1;
    }
    assert(all.take(docs.len() as int) == all);
    s
}

} // verus!
