use crate::cli::{options_of, Cli, Format};
use crate::render::compact;
use crate::render::json;
use crate::render::json::{docs_tree, entries_tree, json_text, RenderError};
use crate::render::toon;
use crate::render::toon::{doc_view, docs_view};
use crate::xml::flatten::{
    entries_view, flatten_xml_str, flattened_document, EntryView, FlatEntry,
};
use crate::xml::options::FlattenOptions;
use crate::xml::raw::{FaultView, ParseError};
use vstd::prelude::*;

verus! {

/// Why a run gave no output: there was nothing to read, a document could not
/// be read, or a result could not be written down. A failure names the
/// document it belongs to, where it belongs to one.
#[derive(Debug, Clone, PartialEq, Eq)]
pub enum RunError {
    NoInputs,
    Parse { id: String, error: ParseError },
    Render { id: Option<String>, error: RenderError },
}

pub enum RunErrorView {
    NoInputs,
    Parse { id: Seq<char>, error: FaultView },
    Render { id: Option<Seq<char>>, message: Seq<char> },
}

impl View for RunError {
    type V = RunErrorView;

    open spec fn view(&self) -> RunErrorView {
        match *self {
            RunError::NoInputs => RunErrorView::NoInputs,
            RunError::Parse { id, error } => RunErrorView::Parse { id: id@, error: error@ },
            RunError::Render { id, error } => RunErrorView::Render {
                id: match id {
                    Some(id) => Some(id@),
                    None => None,
                },
                message: error.message@,
            },
        }
    }
}

pub open spec fn output_view(r: Result<String, RunError>) -> Result<Seq<char>, RunErrorView> {
    match r {
        Ok(s) => Ok(s@),
        Err(e) => Err(e@),
    }
}

/// The entries of a document in the encoding that the run asks for.
pub open spec fn rendered(entries: Seq<EntryView>, cli: Cli) -> Result<Seq<char>, Seq<char>> {
    match cli.format {
        Format::Json => json_text(entries_tree(entries, cli.json_mode), cli.minify),
        Format::Toon => Ok(toon::toon_text(entries)),
        Format::Compact => Ok(compact::compact_text(entries)),
    }
}

/// What one document of a run comes to: its rendered entries, or the
/// failure with the document's name.
pub open spec fn processed(id: Seq<char>, xml: Seq<char>, cli: Cli) -> Result<
    Seq<char>,
    RunErrorView,
> {
    match flattened_document(xml, options_of(cli)) {
        Err(fault) => Err(RunErrorView::Parse { id, error: fault }),
        Ok(entries) => match rendered(entries, cli) {
            Ok(text) => Ok(text),
            Err(message) => Err(RunErrorView::Render { id: Some(id), message }),
        },
    }
}

/// Several rendered documents in one text, in the encoding that the run asks for.
pub open spec fn wrapped(outputs: Seq<(Seq<char>, Seq<char>)>, cli: Cli) -> Result<
    Seq<char>,
    Seq<char>,
> {
    match cli.format {
        Format::Json => json_text(docs_tree(outputs), cli.minify),
        Format::Toon => Ok(toon::wrapped_text(outputs)),
        Format::Compact => Ok(compact::wrapped_text(outputs)),
    }
}

/// The output of a run from its rendered documents: nothing to read is a
/// failure; one document stands as it is unless wrapping is asked for; else
/// the documents are wrapped.
pub open spec fn combined(outputs: Seq<(Seq<char>, Seq<char>)>, cli: Cli) -> Result<
    Seq<char>,
    RunErrorView,
> {
    if outputs.len() == 0 {
        Err(RunErrorView::NoInputs)
    } else if outputs.len() == 1 && !cli.always_wrap {
        Ok(outputs[0].1)
    } else {
        match wrapped(outputs, cli) {
            Ok(text) => Ok(text),
            Err(message) => Err(RunErrorView::Render { id: None, message }),
        }
    }
}

/// The rendered documents of a run, each with its name, in the order given;
/// the first document that fails, fails the run.
pub open spec fn processed_all(docs: Seq<(Seq<char>, Seq<char>)>, cli: Cli) -> Result<
    Seq<(Seq<char>, Seq<char>)>,
    RunErrorView,
>
    decreases docs.len(),
{
    if docs.len() == 0 {
        Ok(Seq::empty())
    } else {
        match processed_all(docs.drop_last(), cli) {
            Err(e) => Err(e),
            Ok(head) => match processed(docs.last().0, docs.last().1, cli) {
                Ok(body) => Ok(head.push((docs.last().0, body))),
                Err(e) => Err(e),
            },
        }
    }
}

/// The output of a run over the given documents.
pub open spec fn batch_output(docs: Seq<(Seq<char>, Seq<char>)>, cli: Cli) -> Result<
    Seq<char>,
    RunErrorView,
> {
    if docs.len() == 0 {
        Err(RunErrorView::NoInputs)
    } else {
        match processed_all(docs, cli) {
            Ok(outputs) => combined(outputs, cli),
            Err(e) => Err(e),
        }
    }
}

/// The entries of each document, with its name, in the order given; the
/// first document that fails, fails them all.
pub open spec fn flattened_all(docs: Seq<(Seq<char>, Seq<char>)>, opts: FlattenOptions) -> Result<
    Seq<(Seq<char>, Seq<EntryView>)>,
    RunErrorView,
>
    decreases docs.len(),
{
    if docs.len() == 0 {
        Ok(Seq::empty())
    } else {
        match flattened_all(docs.drop_last(), opts) {
            Err(e) => Err(e),
            Ok(head) => match flattened_document(docs.last().1, opts) {
                Ok(entries) => Ok(head.push((docs.last().0, entries))),
                Err(fault) => Err(RunErrorView::Parse { id: docs.last().0, error: fault }),
            },
        }
    }
}

/// What a batch of documents flattens to: nothing to read is a failure.
pub open spec fn flattened_batch(docs: Seq<(Seq<char>, Seq<char>)>, opts: FlattenOptions) -> Result<
    Seq<(Seq<char>, Seq<EntryView>)>,
    RunErrorView,
> {
    if docs.len() == 0 {
        Err(RunErrorView::NoInputs)
    } else {
        flattened_all(docs, opts)
    }
}

pub open spec fn named_entries_view(item: (String, Vec<FlatEntry>)) -> (Seq<char>, Seq<EntryView>) {
    (item.0@, entries_view(item.1@))
}

pub open spec fn batch_view(r: Result<Vec<(String, Vec<FlatEntry>)>, RunError>) -> Result<
    Seq<(Seq<char>, Seq<EntryView>)>,
    RunErrorView,
> {
    match r {
        Ok(items) => Ok(items@.map_values(|i: (String, Vec<FlatEntry>)| named_entries_view(i))),
        Err(e) => Err(e@),
    }
}

proof fn lemma_processed_failure(docs: Seq<(Seq<char>, Seq<char>)>, k: int, cli: Cli)
    requires
        0 <= k <= docs.len(),
        processed_all(docs.take(k), cli) is Err,
    ensures
        processed_all(docs, cli) == processed_all(docs.take(k), cli),
    decreases docs.len(),
{
    if k < docs.len() {
        assert(docs.drop_last().take(k) == docs.take(k));
        lemma_processed_failure(docs.drop_last(), k, cli);
    } else {
        assert(docs.take(k) == docs);
    }
}

proof fn lemma_flattened_failure(docs: Seq<(Seq<char>, Seq<char>)>, k: int, opts: FlattenOptions)
    requires
        0 <= k <= docs.len(),
        flattened_all(docs.take(k), opts) is Err,
    ensures
        flattened_all(docs, opts) == flattened_all(docs.take(k), opts),
    decreases docs.len(),
{
    if k < docs.len() {
        assert(docs.drop_last().take(k) == docs.take(k));
        lemma_flattened_failure(docs.drop_last(), k, opts);
    } else {
        assert(docs.take(k) == docs);
    }
}

/// Renders the entries of one document in the encoding that the run asks for.
pub fn render_entries(entries: &[FlatEntry], cli: &Cli) -> (r: Result<String, RenderError>)
    ensures
        json::render_view(r) == rendered(entries_view(entries@), *cli),
{
    match cli.format {
        Format::Json => json::render(entries, cli.json_mode, cli.minify),
        Format::Toon => Ok(toon::render(entries)),
        Format::Compact => Ok(compact::render(entries)),
    }
}

/// Flattens and renders one document of a run. `id` names the document in a failure.
pub fn process_one(id: &str, xml: &str, cli: &Cli) -> (r: Result<String, RunError>)
    ensures
        output_view(r) == processed(id@, xml@, *cli),
{
    let opts = cli.flatten_options();
    let flat = match flatten_xml_str(xml, &opts) {
        Ok(flat) => flat,
        Err(error) => {
            return Err(RunError::Parse { id: id.to_owned(), error });
        },
    };
    match render_entries(flat.as_slice(), cli) {
        Ok(text) => Ok(text),
        Err(error) => Err(RunError::Render { id: Some(id.to_owned()), error }),
    }
}

/// Makes the output of a run from its rendered documents, each given with
/// its name.
pub fn combine(outputs: Vec<(String, String)>, cli: &Cli) -> (r: Result<String, RunError>)
    ensures
        output_view(r) == combined(docs_view(outputs@), *cli),
{
    let mut outputs = outputs;
    let ghost all = docs_view(outputs@);
    if outputs.len() == 0 {
        return Err(RunError::NoInputs);
    }
    if outputs.len() == 1 && !cli.always_wrap {
        assert(all[0] == doc_view(outputs@[0]));
        let only = outputs.pop().unwrap();
        return Ok(only.1);
    }
    let text = match cli.format {
        Format::Json => json::wrap_many(outputs, cli.json_mode, cli.minify),
        Format::Toon => Ok(toon::wrap_many(outputs)),
        Format::Compact => Ok(compact::wrap_many(outputs)),
    };
    match text {
        Ok(text) => Ok(text),
        Err(error) => Err(RunError::Render { id: None, error }),
    }
}

/// Runs over documents already read, each given as its name and its text, in
/// the order given: every document is flattened and rendered, and the
/// results are made into one output. No document at all is a failure, and
/// the first document that fails ends the run.
pub fn run_batch(docs: &[(String, String)], cli: &Cli) -> (r: Result<String, RunError>)
    ensures
        output_view(r) == batch_output(docs_view(docs@), *cli),
{
    let ghost all = docs_view(docs@);
    if docs.len() == 0 {
        return Err(RunError::NoInputs);
    }
    let mut outputs: Vec<(String, String)> = Vec::new();
    assert(docs_view(outputs@) =~= Seq::empty());
    let mut i: usize = 0;
    while i < docs.len()
        invariant
            i <= docs.len(),
            all == docs_view(docs@),
            processed_all(all.take(i as int), *cli) == Ok::<
                Seq<(Seq<char>, Seq<char>)>,
                RunErrorView,
            >(docs_view(outputs@)),
        decreases docs.len() - i,
    {
        proof {
            assert(all.take(i + 1).drop_last() == all.take(i as int));
            assert(all.take(i + 1).last() == doc_view(docs@[i as int]));
        }
        match process_one(docs[i].0.as_str(), docs[i].1.as_str(), cli) {
            Ok(body) => {
                let ghost before = docs_view(outputs@);
                let item = (docs[i].0.clone(), body);
                outputs.push(item);
                assert(docs_view(outputs@) =~= before.push(doc_view(item)));
            },
            Err(e) => {
                proof {
                    lemma_processed_failure(all, i + 1, *cli);
                }
                return Err(e);
            },
        }
        i = i + 1;
    }
    assert(all.take(docs.len() as int) == all);
    combine(outputs, cli)
}

/// Flattens documents already read, each given as its name and its text:
/// one sequence of entries for each document, with its name, in the order
/// given. No document at all is a failure, and the first document that fails
/// fails the batch.
pub fn flatten_batch(docs: &[(String, String)], opts: &FlattenOptions) -> (r: Result<
    Vec<(String, Vec<FlatEntry>)>,
    RunError,
>)
    ensures
        batch_view(r) == flattened_batch(docs_view(docs@), *opts),
{
    let ghost all = docs_view(docs@);
    if docs.len() == 0 {
        return Err(RunError::NoInputs);
    }
    let mut out: Vec<(String, Vec<FlatEntry>)> = Vec::new();
    assert(out@.map_values(|i: (String, Vec<FlatEntry>)| named_entries_view(i)) =~= Seq::empty());
    let mut i: usize = 0;
    while i < docs.len()
        invariant
            i <= docs.len(),
            all == docs_view(docs@),
            flattened_all(all.take(i as int), *opts) == Ok::<
                Seq<(Seq<char>, Seq<EntryView>)>,
                RunErrorView,
            >(out@.map_values(|i: (String, Vec<FlatEntry>)| named_entries_view(i))),
        decreases docs.len() - i,
    {
        proof {
            assert(all.take(i + 1).drop_last() == all.take(i as int));
            assert(all.take(i + 1).last() == doc_view(docs@[i as int]));
        }
        match flatten_xml_str(docs[i].1.as_str(), opts) {
            Ok(entries) => {
                let ghost before = out@.map_values(
                    |i: (String, Vec<FlatEntry>)| named_entries_view(i),
                );
                let item = (docs[i].0.clone(), entries);
                out.push(item);
                assert(out@.map_values(|i: (String, Vec<FlatEntry>)| named_entries_view(i))
                    =~= before.push(named_entries_view(item)));
            },
            Err(error) => {
                let e = RunError::Parse { id: docs[i].0.clone(), error };
                proof {
                    lemma_flattened_failure(all, i + 1, *opts);
                }
                return Err(e);
            },
        }
        i = i + 1;
    }
    assert(all.take(docs.len() as int) == all);
    Ok(out)
}

} // verus!
