use crate::render::toon::{doc_view, docs_view};
use crate::text::{push_char, push_text};
use crate::xml::flatten::{entries_view, EntryView, FlatEntry};
use vstd::prelude::*;

verus! {

/// A character as the one-line form can hold it: the characters that the
/// form itself uses, and line breaks, get a backslash in front.
pub open spec fn guarded_char(c: char) -> Seq<char> {
    if c == '\\' {
        seq!['\\', '\\']
    } else if c == '|' {
        seq!['\\', '|']
    } else if c == '=' {
        seq!['\\', '=']
    } else if c == '\n' {
        seq!['\\', 'n']
    } else if c == '\r' {
        seq!['\\', 'r']
    } else {
        seq![c]
    }
}

/// A text with each of its characters guarded.
pub open spec fn guarded(s: Seq<char>) -> Seq<char>
    decreases s.len(),
{
    if s.len() == 0 {
        Seq::empty()
    } else {
        guarded(s.drop_last()) + guarded_char(s.last())
    }
}

/// One entry: the path, `=`, and the guarded value.
pub open spec fn entry_part(e: EntryView) -> Seq<char> {
    e.path.push('=') + guarded(e.value)
}

/// The entries in their order, with `|` between one and the next.
pub open spec fn compact_text(entries: Seq<EntryView>) -> Seq<char>
    decreases entries.len(),
{
    if entries.len() == 0 {
        Seq::empty()
    } else if entries.len() == 1 {
        entry_part(entries[0])
    } else {
        compact_text(entries.drop_last()).push('|') + entry_part(entries.last())
    }
}

/// One document: `file=`, the guarded name of its source, `;`, and its body.
pub open spec fn doc_part(doc: (Seq<char>, Seq<char>)) -> Seq<char> {
    seq!['f', 'i', 'l', 'e', '='] + guarded(doc.0) + seq![';'] + doc.1
}

/// The documents in their order, one per line.
pub open spec fn wrapped_text(docs: Seq<(Seq<char>, Seq<char>)>) -> Seq<char>
    decreases docs.len(),
{
    if docs.len() == 0 {
        Seq::empty()
    } else if docs.len() == 1 {
        doc_part(docs[0])
    } else {
        wrapped_text(docs.drop_last()).push('\n') + doc_part(docs.last())
    }
}

fn esc(s: &str) -> (r: String)
    ensures
        r@ == guarded(s@),
{
    let mut out = String::new();
    for c in it: s.chars()
        invariant
            it.seq() == s@,
            out@ == guarded(s@.take(it.index())),
    {
        assert(s@.take(it.index() + 1).drop_last() == s@.take(it.index()));
        if c == '\\' || c == '|' || c == '=' {
            push_char(&mut out, '\\');
            push_char(&mut out, c);
        } else if c == '\n' {
            push_char(&mut out, '\\');
            push_char(&mut out, 'n');
        } else if c == '\r' {
            push_char(&mut out, '\\');
            push_char(&mut out, 'r');
        } else {
            push_char(&mut out, c);
        }
    }
    assert(s@.take(s@.len() as int) == s@);
    out
}

/// Renders the entries on one line, as `path=value|path=value|...`.
pub fn render(entries: &[FlatEntry]) -> (s: String)
    ensures
        s@ == compact_text(entries_view(entries@)),
{
    let ghost all = entries_view(entries@);
    let mut s = String::new();
    let mut i: usize = 0;
    while i < entries.len()
        invariant
            i <= entries.len(),
            all == entries_view(entries@),
            s@ == compact_text(all.take(i as int)),
        decreases entries.len() - i,
    {
        proof {
            assert(all.take(i + 1).drop_last() == all.take(i as int));
            assert(all.take(i + 1).last() == entries@[i as int]@);
        }
        let ghost before = s@;
        if i > 0 {
            push_char(&mut s, '|');
        }
        push_text(&mut s, entries[i].p.as_str());
        push_char(&mut s, '=');
        let value = esc(entries[i].v.as_str());
        push_text(&mut s, value.as_str());
        assert(s@ =~= (if i > 0 {
            before.push('|')
        } else {
            before
        }) + entry_part(entries@[i as int]@));
        i = i + 1;
    }
    assert(all.take(entries.len() as int) == all);
    s
}

/// Joins rendered documents, each given with the name of its source, one per line.
pub fn wrap_many(docs: Vec<(String, String)>) -> (s: String)
    ensures
        s@ == wrapped_text(docs_view(docs@)),
{
    let ghost all = docs_view(docs@);
    let mut s = String::new();
    let mut i: usize = 0;
    while i < docs.len()
        invariant
            i <= docs.len(),
            all == docs_view(docs@),
            s@ == wrapped_text(all.take(i as int)),
        decreases docs.len() - i,
    {
        proof {
            assert(all.take(i + 1).drop_last() == all.take(i as int));
            assert(all.take(i + 1).last() == doc_view(docs@[i as int]));
            reveal_strlit("file=");
        }
        let ghost before = s@;
        if i > 0 {
            push_char(&mut s, '\n');
        }
        push_text(&mut s, "file=");
        let name = esc(docs[i].0.as_str());
        push_text(&mut s, name.as_str());
        push_char(&mut s, ';');
        push_text(&mut s, docs[i].1.as_str());
        assert(s@ =~= (if i > 0 {
            before.push('\n')
        } else {
            before
        }) + doc_part(doc_view(docs@[i as int])));
        i = i + 1;
    }
    assert(all.take(docs.len() as int) == all);
    s
}

} // verus!
