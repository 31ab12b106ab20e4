use sfmeta_reader::cli::JsonMode;
use sfmeta_reader::render::{render_compact, render_json, render_toon};
use sfmeta_reader::xml::{FlatEntry, ValueKind};

fn entry(p: &str, k: ValueKind, v: &str) -> FlatEntry {
    FlatEntry { p: p.to_string(), k, v: v.to_string() }
}

fn sample() -> Vec<FlatEntry> {
    vec![
        entry("/a[0]/@x", ValueKind::Attr, "1"),
        entry("/a[0]/#text", ValueKind::Text, "hi"),
        entry("/a[0]/#text", ValueKind::Text, "bye"),
    ]
}

fn docs() -> Vec<(String, String)> {
    vec![
        ("one.xml".to_string(), "body one".to_string()),
        ("dir/two=2.xml".to_string(), "body two".to_string()),
    ]
}

#[test]
fn toon_renders_one_entry_per_line() {
    assert_eq!(
        render_toon::render(&sample()),
        "/a[0]/@x = 1\n/a[0]/#text = hi\n/a[0]/#text = bye\n"
    );
    assert_eq!(render_toon::render(&[]), "");
}

#[test]
fn toon_writes_line_breaks_out() {
    let entries = vec![entry("/a[0]/#text", ValueKind::Text, "l1\nl2\r\nl3 \\ |=")];
    assert_eq!(render_toon::render(&entries), "/a[0]/#text = l1\\nl2\\r\\nl3 \\ |=\n");
}

#[test]
fn toon_wraps_documents_under_headings() {
    assert_eq!(
        render_toon::wrap_many(docs()),
        "### file: one.xml\nbody one\n### file: dir/two=2.xml\nbody two"
    );
    assert_eq!(render_toon::wrap_many(vec![]), "");
    assert_eq!(
        render_toon::wrap_many(vec![("a".to_string(), "x\n".to_string())]),
        "### file: a\nx\n"
    );
}

#[test]
fn compact_renders_one_line() {
    assert_eq!(
        render_compact::render(&sample()),
        "/a[0]/@x=1|/a[0]/#text=hi|/a[0]/#text=bye"
    );
    assert_eq!(render_compact::render(&[]), "");
}

#[test]
fn compact_guards_its_own_characters() {
    let entries = vec![entry("/a[0]/#text", ValueKind::Text, "a|b=c\\d\ne\rf")];
    assert_eq!(render_compact::render(&entries), "/a[0]/#text=a\\|b\\=c\\\\d\\ne\\rf");
}

#[test]
fn compact_wraps_documents_one_per_line() {
    assert_eq!(
        render_compact::wrap_many(docs()),
        "file=one.xml;body one\nfile=dir/two\\=2.xml;body two"
    );
    assert_eq!(render_compact::wrap_many(vec![]), "");
}

#[test]
fn json_list_keeps_every_entry() {
    let text = render_json::render(&sample(), JsonMode::List, true).unwrap();
    assert_eq!(
        text,
        "[{\"k\":\"Attr\",\"p\":\"/a[0]/@x\",\"v\":\"1\"},\
         {\"k\":\"Text\",\"p\":\"/a[0]/#text\",\"v\":\"hi\"},\
         {\"k\":\"Text\",\"p\":\"/a[0]/#text\",\"v\":\"bye\"}]"
    );
}

#[test]
fn json_list_pretty_is_indented() {
    let entries = vec![entry("/a[0]/@x", ValueKind::Attr, "1")];
    let text = render_json::render(&entries, JsonMode::List, false).unwrap();
    assert_eq!(
        text,
        "[\n  {\n    \"k\": \"Attr\",\n    \"p\": \"/a[0]/@x\",\n    \"v\": \"1\"\n  }\n]"
    );
}

#[test]
fn json_map_lets_the_last_entry_of_a_path_win() {
    let text = render_json::render(&sample(), JsonMode::PathMap, true).unwrap();
    assert_eq!(text, "{\"/a[0]/#text\":\"bye\",\"/a[0]/@x\":\"1\"}");
}

#[test]
fn json_of_no_entries() {
    assert_eq!(render_json::render(&[], JsonMode::List, true).unwrap(), "[]");
    assert_eq!(render_json::render(&[], JsonMode::PathMap, true).unwrap(), "{}");
}

#[test]
fn json_list_reads_back_the_same_entries() {
    let entries = vec![
        entry("/a[0]/@x", ValueKind::Attr, "1 \"quoted\" \\ \n line"),
        entry("/a[0]/#text", ValueKind::Text, "h\u{e9}llo"),
        entry("/a[0]/#text", ValueKind::Text, "again"),
    ];
    for minify in [true, false] {
        let text = render_json::render(&entries, JsonMode::List, minify).unwrap();
        assert_eq!(render_json::parse_list(&text), Some(entries.clone()));
    }
    assert_eq!(render_json::parse_list("[]"), Some(vec![]));
}

#[test]
fn json_list_read_back_refuses_other_texts() {
    assert_eq!(render_json::parse_list("not json"), None);
    assert_eq!(render_json::parse_list("{\"p\":\"x\"}"), None);
    assert_eq!(render_json::parse_list("[{\"p\":\"x\",\"k\":\"Text\"}]"), None);
    assert_eq!(render_json::parse_list("[{\"p\":\"x\",\"k\":\"Other\",\"v\":\"y\"}]"), None);
    assert_eq!(render_json::parse_list("[{\"p\":\"x\",\"k\":\"Text\",\"v\":7}]"), None);
}

#[test]
fn json_values_can_be_read_directly() {
    let value: serde_json::Value =
        serde_json::from_str("[{\"v\":\"y\",\"k\":\"Attr\",\"p\":\"x\",\"more\":1}]").unwrap();
    assert_eq!(
        render_json::entries_of(&value),
        Some(vec![entry("x", ValueKind::Attr, "y")])
    );
    let built = render_json::entries_value(&sample(), JsonMode::List);
    assert_eq!(render_json::entries_of(&built), Some(sample()));
}

#[test]
fn json_wrapper_embeds_bodies_that_are_json() {
    let docs = vec![
        ("a.xml".to_string(), "[{\"k\":\"Text\",\"p\":\"/a[0]/#text\",\"v\":\"x\"}]".to_string()),
        ("b.xml".to_string(), "plain body".to_string()),
    ];
    let text = render_json::wrap_many(docs, JsonMode::List, true).unwrap();
    assert_eq!(
        text,
        "[{\"data\":[{\"k\":\"Text\",\"p\":\"/a[0]/#text\",\"v\":\"x\"}],\"file\":\"a.xml\"},\
         {\"data\":\"plain body\",\"file\":\"b.xml\"}]"
    );
    assert_eq!(render_json::wrap_many(vec![], JsonMode::PathMap, true).unwrap(), "[]");
}

#[test]
fn finish_keeps_text_and_wraps_the_failure() {
    assert_eq!(render_json::finish(Ok("x".to_string())), Ok("x".to_string()));
    assert_eq!(
        render_json::finish(Err("bad".to_string())),
        Err(render_json::RenderError { message: "bad".to_string() })
    );
}
