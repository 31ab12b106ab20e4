use sfmeta_reader::batch::{combine, flatten_batch, process_one, render_entries, run_batch, RunError};
use sfmeta_reader::cli::{Cli, Format, JsonMode, PathStyle};
use sfmeta_reader::util::{estimate_tokens_approx, matches_glob};
use sfmeta_reader::xml::{FlatEntry, ValueKind};

fn cli(format: Format) -> Cli {
    let mut cli = Cli::with_defaults("in".to_string());
    cli.format = format;
    cli.minify = true;
    cli
}

fn doc(id: &str, xml: &str) -> (String, String) {
    (id.to_string(), xml.to_string())
}

#[test]
fn defaults_are_as_documented() {
    let cli = Cli::with_defaults("some/dir".to_string());
    assert_eq!(cli.input, "some/dir");
    assert_eq!(cli.output, None);
    assert!(cli.recursive);
    assert_eq!(cli.glob, "*.xml");
    assert_eq!(cli.format, Format::Toon);
    assert_eq!(cli.json_mode, JsonMode::List);
    assert_eq!(cli.max_text_len, 2048);
    assert_eq!(cli.path_style, PathStyle::Slash);
    assert!(!cli.minify && !cli.include_attributes && !cli.keep_ns_prefix);
    assert!(!cli.always_wrap && !cli.show_tokens && !cli.show_tokens_per_file);
    let opts = cli.flatten_options();
    assert!(opts.include_text && opts.include_cdata && opts.strip_namespace_prefix);
    assert!(!opts.include_attributes);
    assert_eq!(opts.max_text_len, 2048);
    assert_eq!(opts.path_style, PathStyle::Slash);
}

#[test]
fn options_follow_the_settings() {
    let mut cli = Cli::with_defaults(String::new());
    cli.include_attributes = true;
    cli.keep_ns_prefix = true;
    cli.max_text_len = 0;
    cli.path_style = PathStyle::Dot;
    let opts = cli.flatten_options();
    assert!(opts.include_attributes && !opts.strip_namespace_prefix);
    assert_eq!(opts.max_text_len, 0);
    assert_eq!(opts.path_style, PathStyle::Dot);
}

#[test]
fn no_inputs_is_an_error() {
    assert_eq!(run_batch(&[], &cli(Format::Toon)), Err(RunError::NoInputs));
    assert_eq!(combine(vec![], &cli(Format::Json)), Err(RunError::NoInputs));
    assert_eq!(
        flatten_batch(&[], &cli(Format::Toon).flatten_options()),
        Err(RunError::NoInputs)
    );
}

#[test]
fn one_document_stands_alone() {
    let docs = vec![doc("a.xml", "<a>x</a>")];
    assert_eq!(run_batch(&docs, &cli(Format::Toon)).unwrap(), "/a[0]/#text = x\n");
    assert_eq!(run_batch(&docs, &cli(Format::Compact)).unwrap(), "/a[0]/#text=x");
    assert_eq!(
        run_batch(&docs, &cli(Format::Json)).unwrap(),
        "[{\"k\":\"Text\",\"p\":\"/a[0]/#text\",\"v\":\"x\"}]"
    );
}

#[test]
fn one_document_is_wrapped_on_request() {
    let docs = vec![doc("a.xml", "<a>x</a>")];
    let mut c = cli(Format::Toon);
    c.always_wrap = true;
    assert_eq!(run_batch(&docs, &c).unwrap(), "### file: a.xml\n/a[0]/#text = x\n");
}

#[test]
fn several_documents_are_wrapped_in_order() {
    let docs = vec![doc("b.xml", "<b>2</b>"), doc("a.xml", "<a>1</a>")];
    assert_eq!(
        run_batch(&docs, &cli(Format::Toon)).unwrap(),
        "### file: b.xml\n/b[0]/#text = 2\n\n### file: a.xml\n/a[0]/#text = 1\n"
    );
    assert_eq!(
        run_batch(&docs, &cli(Format::Compact)).unwrap(),
        "file=b.xml;/b[0]/#text=2\nfile=a.xml;/a[0]/#text=1"
    );
    assert_eq!(
        run_batch(&docs, &cli(Format::Json)).unwrap(),
        "[{\"data\":[{\"k\":\"Text\",\"p\":\"/b[0]/#text\",\"v\":\"2\"}],\"file\":\"b.xml\"},\
         {\"data\":[{\"k\":\"Text\",\"p\":\"/a[0]/#text\",\"v\":\"1\"}],\"file\":\"a.xml\"}]"
    );
}

#[test]
fn the_first_failing_document_ends_the_run() {
    let docs = vec![doc("ok.xml", "<a>1</a>"), doc("bad.xml", "<a></b>"), doc("worse.xml", "<")];
    match run_batch(&docs, &cli(Format::Toon)) {
        Err(RunError::Parse { id, error }) => {
            assert_eq!(id, "bad.xml");
            assert_eq!(error.position, 3);
        },
        other => panic!("unexpected: {:?}", other),
    }
    match flatten_batch(&docs, &cli(Format::Toon).flatten_options()) {
        Err(RunError::Parse { id, .. }) => assert_eq!(id, "bad.xml"),
        other => panic!("unexpected: {:?}", other),
    }
}

#[test]
fn a_batch_flattens_each_document_under_its_name() {
    let docs = vec![doc("b.xml", "<b>2</b>"), doc("a.xml", "<a/>")];
    let got = flatten_batch(&docs, &cli(Format::Toon).flatten_options()).unwrap();
    assert_eq!(
        got,
        vec![
            (
                "b.xml".to_string(),
                vec![FlatEntry {
                    p: "/b[0]/#text".to_string(),
                    k: ValueKind::Text,
                    v: "2".to_string(),
                }]
            ),
            ("a.xml".to_string(), vec![]),
        ]
    );
}

#[test]
fn process_one_follows_the_settings() {
    let mut c = cli(Format::Compact);
    c.include_attributes = true;
    c.keep_ns_prefix = true;
    c.max_text_len = 2;
    c.path_style = PathStyle::Dot;
    assert_eq!(
        process_one("x", "<n:a k=\"value\">text</n:a>", &c).unwrap(),
        "n:a[0].@k=va|n:a[0].#text=te"
    );
    match process_one("doc-7", "<a", &c) {
        Err(RunError::Parse { id, error }) => {
            assert_eq!(id, "doc-7");
            assert_eq!(error.position, 0);
        },
        other => panic!("unexpected: {:?}", other),
    }
}

#[test]
fn render_entries_picks_the_encoding() {
    let entries = vec![FlatEntry {
        p: "/a[0]/#text".to_string(),
        k: ValueKind::Text,
        v: "x".to_string(),
    }];
    assert_eq!(render_entries(&entries, &cli(Format::Toon)).unwrap(), "/a[0]/#text = x\n");
    assert_eq!(render_entries(&entries, &cli(Format::Compact)).unwrap(), "/a[0]/#text=x");
    let mut c = cli(Format::Json);
    c.json_mode = JsonMode::PathMap;
    assert_eq!(render_entries(&entries, &c).unwrap(), "{\"/a[0]/#text\":\"x\"}");
}

#[test]
fn glob_takes_names_by_their_ending() {
    assert!(matches_glob("a.xml", "*.xml"));
    assert!(matches_glob(".xml", "*.xml"));
    assert!(!matches_glob("a.xml.bak", "*.xml"));
    assert!(!matches_glob("xml", "*.xml"));
    assert!(matches_glob("anything", "*"));
    assert!(matches_glob("", "*"));
    assert!(matches_glob("a.object-meta.xml", "*-meta.xml"));
    assert!(matches_glob("whatever.txt", "name.xml"));
    assert!(matches_glob("whatever.txt", ""));
    assert!(!matches_glob("a.XML", "*.xml"));
}

#[test]
fn tokens_are_estimated_from_the_bytes() {
    assert_eq!(estimate_tokens_approx(""), 0);
    assert_eq!(estimate_tokens_approx("a"), 1);
    assert_eq!(estimate_tokens_approx("abcd"), 1);
    assert_eq!(estimate_tokens_approx("abcde"), 2);
    assert_eq!(estimate_tokens_approx("\u{e9}\u{e9}\u{e9}"), 2);
}
