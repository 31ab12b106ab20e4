use crate::cli::JsonMode;
use crate::render::json_value::{
    compact_json, json_array, json_compact_text, json_items, json_map_empty, json_map_insert,
    json_member, json_members, json_object, json_parse, json_pretty_text, json_string,
    json_text_of, json_tree, member_text, no_members, option_text, parsed_json, pretty_json,
    text_result, trees_of, JsonTree,
};
use crate::render::toon::{doc_view, docs_view};
use crate::text::same_text;
use crate::xml::flatten::{entries_view, EntryView, FlatEntry, ValueKind};
use serde_json::Value;
use vstd::prelude::*;

verus! {

/// A sequence of entries that could not be written as JSON: what the
/// serializer said.
#[derive(Debug, Clone, PartialEq, Eq)]
pub struct RenderError {
    pub message: String,
}

/// The name under which a kind is written.
pub open spec fn kind_name(kind: ValueKind) -> Seq<char> {
    match kind {
        ValueKind::Text => seq!['T', 'e', 'x', 't'],
        ValueKind::Attr => seq!['A', 't', 't', 'r'],
    }
}

/// One entry as a JSON object: its path under `p`, its kind under `k`, its
/// value under `v`.
pub open spec fn entry_tree(e: EntryView) -> JsonTree {
    JsonTree::Object(
        no_members().insert(seq!['p'], JsonTree::Text(e.path)).insert(
            seq!['k'],
            JsonTree::Text(kind_name(e.kind)),
        ).insert(seq!['v'], JsonTree::Text(e.value)),
    )
}

/// The list form: an array with one object for each entry, in their order.
pub open spec fn list_tree(entries: Seq<EntryView>) -> JsonTree {
    JsonTree::List(entries.map_values(|e: EntryView| entry_tree(e)))
}

/// The members of the map form: each path with its value; where a path
/// occurs more than once, the value of its last entry.
pub open spec fn path_members(entries: Seq<EntryView>) -> Map<Seq<char>, JsonTree>
    decreases entries.len(),
{
    if entries.len() == 0 {
        no_members()
    } else {
        path_members(entries.drop_last()).insert(
            entries.last().path,
            JsonTree::Text(entries.last().value),
        )
    }
}

/// The JSON value that stands for the entries in the given form.
pub open spec fn entries_tree(entries: Seq<EntryView>, mode: JsonMode) -> JsonTree {
    match mode {
        JsonMode::List => list_tree(entries),
        JsonMode::PathMap => JsonTree::Object(path_members(entries)),
    }
}

/// The text of a JSON value, on one line where it is minified.
pub open spec fn json_text(tree: JsonTree, minify: bool) -> Result<Seq<char>, Seq<char>> {
    if minify {
        compact_json(tree)
    } else {
        pretty_json(tree)
    }
}

/// One rendered document in a wrapper: the name of its source under `file`,
/// and under `data` the JSON value that its body stands for, or the body as a
/// string where it is no JSON.
pub open spec fn doc_tree(doc: (Seq<char>, Seq<char>)) -> JsonTree {
    JsonTree::Object(
        no_members().insert(seq!['f', 'i', 'l', 'e'], JsonTree::Text(doc.0)).insert(
            seq!['d', 'a', 't', 'a'],
            match parsed_json(doc.1) {
                Some(tree) => tree,
                None => JsonTree::Text(doc.1),
            },
        ),
    )
}

/// The wrapper of several documents: an array with one object for each, in their order.
pub open spec fn docs_tree(docs: Seq<(Seq<char>, Seq<char>)>) -> JsonTree {
    JsonTree::List(docs.map_values(|d: (Seq<char>, Seq<char>)| doc_tree(d)))
}

pub open spec fn render_view(r: Result<String, RenderError>) -> Result<Seq<char>, Seq<char>> {
    match r {
        Ok(s) => Ok(s@),
        Err(e) => Err(e.message@),
    }
}

/// The kind that a name stands for.
pub open spec fn named_kind(name: Seq<char>) -> Option<ValueKind> {
    if name == kind_name(ValueKind::Text) {
        Some(ValueKind::Text)
    } else if name == kind_name(ValueKind::Attr) {
        Some(ValueKind::Attr)
    } else {
        None
    }
}

/// The entry that a JSON object stands for: it needs the strings `p`, `k`
/// and `v`, and `k` must name a kind.
pub open spec fn tree_entry(tree: JsonTree) -> Option<EntryView> {
    match (
        member_text(tree, seq!['p']),
        member_text(tree, seq!['k']),
        member_text(tree, seq!['v']),
    ) {
        (Some(path), Some(name), Some(value)) => match named_kind(name) {
            Some(kind) => Some(EntryView { path, kind, value }),
            None => None,
        },
        _ => None,
    }
}

/// The entries that some JSON values stand for, if each stands for one.
pub open spec fn trees_entries(items: Seq<JsonTree>) -> Option<Seq<EntryView>>
    decreases items.len(),
{
    if items.len() == 0 {
        Some(Seq::empty())
    } else {
        match (trees_entries(items.drop_last()), tree_entry(items.last())) {
            (Some(head), Some(entry)) => Some(head.push(entry)),
            _ => None,
        }
    }
}

/// The entries that a JSON value in the list form stands for.
pub open spec fn tree_entries(tree: JsonTree) -> Option<Seq<EntryView>> {
    match tree {
        JsonTree::List(items) => trees_entries(items),
        _ => None,
    }
}

/// The entries that a text in the list form stands for.
pub open spec fn text_entries(text: Seq<char>) -> Option<Seq<EntryView>> {
    match parsed_json(text) {
        Some(tree) => tree_entries(tree),
        None => None,
    }
}

pub open spec fn entries_option_view(r: Option<Vec<FlatEntry>>) -> Option<Seq<EntryView>> {
    match r {
        Some(entries) => Some(entries_view(entries@)),
        None => None,
    }
}

/// Round trip of the list form, as far as the values go: the JSON value that
/// the list form builds from a sequence of entries stands for that sequence,
/// with the same paths, kinds and values in the same order.
pub proof fn lemma_list_round_trip(entries: Seq<EntryView>)
    ensures
        tree_entries(list_tree(entries)) == Some(entries),
    decreases entries.len(),
{
    let items = entries.map_values(|e: EntryView| entry_tree(e));
    if entries.len() == 0 {
        assert(entries == Seq::<EntryView>::empty());
    } else {
        lemma_list_round_trip(entries.drop_last());
        assert(items.drop_last() == entries.drop_last().map_values(|e: EntryView| entry_tree(e)));
        let e = entries.last();
        assert(items.last() == entry_tree(e));
        assert(seq!['p'] != seq!['k']) by {
            assert(seq!['p'][0] != seq!['k'][0]);
        }
        assert(seq!['p'] != seq!['v']) by {
            assert(seq!['p'][0] != seq!['v'][0]);
        }
        assert(seq!['k'] != seq!['v']) by {
            assert(seq!['k'][0] != seq!['v'][0]);
        }
        assert(kind_name(ValueKind::Text) != kind_name(ValueKind::Attr)) by {
            assert(kind_name(ValueKind::Text)[0] != kind_name(ValueKind::Attr)[0]);
        }
        assert(tree_entry(entry_tree(e)) == Some(e));
        assert(entries.drop_last().push(e) == entries);
    }
}

/// The JSON object of one entry.
fn entry_value(e: &FlatEntry) -> (value: Value)
    ensures
        json_tree(value) == entry_tree(e@),
{
    proof {
        reveal_strlit("p");
        reveal_strlit("k");
        reveal_strlit("v");
        reveal_strlit("Text");
        reveal_strlit("Attr");
        assert("p"@ =~= seq!['p']);
        assert("k"@ =~= seq!['k']);
        assert("v"@ =~= seq!['v']);
        assert("Text"@ =~= kind_name(ValueKind::Text));
        assert("Attr"@ =~= kind_name(ValueKind::Attr));
    }
    let kind = match e.k {
        ValueKind::Text => "Text",
        ValueKind::Attr => "Attr",
    };
    let mut members = json_map_empty();
    json_map_insert(&mut members, "p".to_owned(), json_string(e.p.as_str()));
    json_map_insert(&mut members, "k".to_owned(), json_string(kind));
    json_map_insert(&mut members, "v".to_owned(), json_string(e.v.as_str()));
    json_object(members)
}

/// The JSON value that stands for the entries: in the list form an array of
/// objects that keeps every entry, in the map form one object keyed by path,
/// in which the last entry of a path wins.
pub fn entries_value(entries: &[FlatEntry], mode: JsonMode) -> (value: Value)
    ensures
        json_tree(value) == entries_tree(entries_view(entries@), mode),
{
    let ghost all = entries_view(entries@);
    match mode {
        JsonMode::List => {
            let mut items: Vec<Value> = Vec::new();
            let mut i: usize = 0;
            while i < entries.len()
                invariant
                    i <= entries.len(),
                    all == entries_view(entries@),
                    items.len() == i,
                    forall|j: int| 0 <= j < i ==> json_tree(#[trigger] items@[j]) == entry_tree(all[j]),
                decreases entries.len() - i,
            {
                items.push(entry_value(&entries[i]));
                i = i + 1;
            }
            assert(trees_of(items@) =~= all.map_values(|e: EntryView| entry_tree(e)));
            json_array(items)
        },
        JsonMode::PathMap => {
            let mut members = json_map_empty();
            let mut i: usize = 0;
            while i < entries.len()
                invariant
                    i <= entries.len(),
                    all == entries_view(entries@),
                    json_members(members) == path_members(all.take(i as int)),
                decreases entries.len() - i,
            {
                proof {
                    assert(all.take(i + 1).drop_last() == all.take(i as int));
                    assert(all.take(i + 1).last() == entries@[i as int]@);
                }
                json_map_insert(
                    &mut members,
                    entries[i].p.clone(),
                    json_string(entries[i].v.as_str()),
                );
                i = i + 1;
            }
            assert(all.take(entries.len() as int) == all);
            json_object(members)
        },
    }
}

/// What a rendering returns for what the serializer gave.
pub fn finish(text: Result<String, String>) -> (r: Result<String, RenderError>)
    ensures
        render_view(r) == text_result(text),
{
    match text {
        Ok(s) => Ok(s),
        Err(message) => Err(RenderError { message }),
    }
}

fn value_text(value: &Value, minify: bool) -> (r: Result<String, RenderError>)
    ensures
        render_view(r) == json_text(json_tree(*value), minify),
{
    if minify {
        finish(json_compact_text(value))
    } else {
        finish(json_pretty_text(value))
    }
}

/// Renders the entries as JSON, in the list or the map form, on one line or
/// laid out over indented lines.
pub fn render(entries: &[FlatEntry], mode: JsonMode, minify: bool) -> (r: Result<
    String,
    RenderError,
>)
    ensures
        render_view(r) == json_text(entries_tree(entries_view(entries@), mode), minify),
{
    let value = entries_value(entries, mode);
    value_text(&value, minify)
}

/// The JSON value of a wrapper around rendered documents.
pub fn docs_value(docs: Vec<(String, String)>) -> (value: Value)
    ensures
        json_tree(value) == docs_tree(docs_view(docs@)),
{
    proof {
        reveal_strlit("file");
        reveal_strlit("data");
        assert("file"@ =~= seq!['f', 'i', 'l', 'e']);
        assert("data"@ =~= seq!['d', 'a', 't', 'a']);
    }
    let ghost all = docs_view(docs@);
    let mut items: Vec<Value> = Vec::new();
    let mut i: usize = 0;
    while i < docs.len()
        invariant
            i <= docs.len(),
            all == docs_view(docs@),
            items.len() == i,
            "file"@ == seq!['f', 'i', 'l', 'e'],
            "data"@ == seq!['d', 'a', 't', 'a'],
            forall|j: int| 0 <= j < i ==> json_tree(#[trigger] items@[j]) == doc_tree(all[j]),
        decreases docs.len() - i,
    {
        let data = match json_parse(docs[i].1.as_str()) {
            Some(value) => value,
            None => json_string(docs[i].1.as_str()),
        };
        let mut members = json_map_empty();
        json_map_insert(&mut members, "file".to_owned(), json_string(docs[i].0.as_str()));
        json_map_insert(&mut members, "data".to_owned(), data);
        items.push(json_object(members));
        assert(all[i as int] == doc_view(docs@[i as int]));
        i = i + 1;
    }
    assert(trees_of(items@) =~= all.map_values(|d: (Seq<char>, Seq<char>)| doc_tree(d)));
    json_array(items)
}

/// Joins rendered documents, each given with the name of its source, into one
/// JSON array. The form of the documents makes no difference to the wrapper.
pub fn wrap_many(docs: Vec<(String, String)>, mode: JsonMode, minify: bool) -> (r: Result<
    String,
    RenderError,
>)
    ensures
        render_view(r) == json_text(docs_tree(docs_view(docs@)), minify),
{
    let value = docs_value(docs);
    value_text(&value, minify)
}

/// The member `key` of a JSON object, where it is a string.
fn member_string(value: &Value, key: &str) -> (r: Option<String>)
    ensures
        option_text(r) == member_text(json_tree(*value), key@),
{
    match json_member(value, key) {
        Some(inner) => json_text_of(&inner),
        None => None,
    }
}

fn value_entry(value: &Value) -> (r: Option<FlatEntry>)
    ensures
        match r {
            Some(e) => tree_entry(json_tree(*value)) == Some(e@),
            None => tree_entry(json_tree(*value)) is None,
        },
{
    proof {
        reveal_strlit("p");
        reveal_strlit("k");
        reveal_strlit("v");
        reveal_strlit("Text");
        reveal_strlit("Attr");
        assert("p"@ =~= seq!['p']);
        assert("k"@ =~= seq!['k']);
        assert("v"@ =~= seq!['v']);
        assert("Text"@ =~= kind_name(ValueKind::Text));
        assert("Attr"@ =~= kind_name(ValueKind::Attr));
    }
    let p = match member_string(value, "p") {
        Some(p) => p,
        None => {
            return None;
        },
    };
    let name = match member_string(value, "k") {
        Some(name) => name,
        None => {
            return None;
        },
    };
    let v = match member_string(value, "v") {
        Some(v) => v,
        None => {
            return None;
        },
    };
    let k = if same_text(name.as_str(), "Text") {
        ValueKind::Text
    } else if same_text(name.as_str(), "Attr") {
        ValueKind::Attr
    } else {
        return None;
    };
    Some(FlatEntry { p, k, v })
}

/// The entries that a JSON value in the list form stands for, or nothing
/// where it is no array of entries.
pub fn entries_of(value: &Value) -> (r: Option<Vec<FlatEntry>>)
    ensures
        entries_option_view(r) == tree_entries(json_tree(*value)),
{
    let items = match json_items(value) {
        Some(items) => items,
        None => {
            return None;
        },
    };
    let ghost trees = trees_of(items@);
    let mut entries: Vec<FlatEntry> = Vec::new();
    assert(entries_view(entries@) =~= Seq::empty());
    let mut i: usize = 0;
    while i < items.len()
        invariant
            i <= items.len(),
            trees == trees_of(items@),
            json_tree(*value) == JsonTree::List(trees),
            trees_entries(trees.take(i as int)) == Some(entries_view(entries@)),
        decreases items.len() - i,
    {
        proof {
            assert(trees.take(i + 1).drop_last() == trees.take(i as int));
            assert(trees.take(i + 1).last() == json_tree(items@[i as int]));
        }
        match value_entry(&items[i]) {
            Some(entry) => {
                let ghost before = entries_view(entries@);
                entries.push(entry);
                assert(entries_view(entries@) =~= before.push(entry@));
            },
            None => {
                proof {
                    assert(trees_entries(trees.take(i + 1)) is None);
                    lemma_no_entries(trees, i + 1);
                }
                return None;
            },
        }
        i = i + 1;
    }
    assert(trees.take(items.len() as int) == trees);
    Some(entries)
}

proof fn lemma_no_entries(items: Seq<JsonTree>, k: int)
    requires
        0 <= k <= items.len(),
        trees_entries(items.take(k)) is None,
    ensures
        trees_entries(items) is None,
    decreases items.len(),
{
    if k < items.len() {
        assert(items.drop_last().take(k) == items.take(k));
        lemma_no_entries(items.drop_last(), k);
    } else {
        assert(items.take(k) == items);
    }
}

/// Reads a text in the list form back into its entries, or gives nothing
/// where the text is no JSON array of entries.
pub fn parse_list(text: &str) -> (r: Option<Vec<FlatEntry>>)
    ensures
        entries_option_view(r) == text_entries(text@),
{
    match json_parse(text) {
        Some(value) => entries_of(&value),
        None => None,
    }
}

} // verus!
