use sfmeta_reader::cli::PathStyle;
use sfmeta_reader::xml::flatten::{flatten_xml_str, make_path, normalize_text, Frame};
use sfmeta_reader::xml::{flatten_events, FlatEntry, FlattenOptions, ValueKind, XmlAttr, XmlEvent};

fn options() -> FlattenOptions {
    FlattenOptions {
        include_attributes: true,
        include_text: true,
        include_cdata: true,
        strip_namespace_prefix: true,
        max_text_len: 2048,
        path_style: PathStyle::Slash,
    }
}

fn entry(p: &str, k: ValueKind, v: &str) -> FlatEntry {
    FlatEntry { p: p.to_string(), k, v: v.to_string() }
}

#[test]
fn attributes_and_repeated_siblings() {
    let got = flatten_xml_str("<a><b x=\"1\">hi</b><b>bye</b></a>", &options()).unwrap();
    assert_eq!(
        got,
        vec![
            entry("/a[0]/b[0]/@x", ValueKind::Attr, "1"),
            entry("/a[0]/b[0]/#text", ValueKind::Text, "hi"),
            entry("/a[0]/b[1]/#text", ValueKind::Text, "bye"),
        ]
    );
}

#[test]
fn cdata_is_taken_verbatim() {
    let got = flatten_xml_str("<r><![CDATA[raw & text]]></r>", &options()).unwrap();
    assert_eq!(got, vec![entry("/r[0]/#cdata", ValueKind::Text, "raw & text")]);
}

#[test]
fn unterminated_root_is_a_parse_error() {
    let err = flatten_xml_str("<root attr=\"1\"", &options()).unwrap_err();
    assert_eq!(err.position, 0);
    assert!(!err.message.is_empty());
}

#[test]
fn root_left_open_is_a_parse_error() {
    let xml = "<root><child>text</child>";
    let err = flatten_xml_str(xml, &options()).unwrap_err();
    assert_eq!(err.position, xml.len() as u64);
    assert_eq!(err.message, "the document ends inside an element");
}

#[test]
fn inner_element_left_open_is_a_parse_error() {
    let xml = "<a><b>text</a>";
    assert!(flatten_xml_str(xml, &options()).is_err());
    let xml = "<a><b>text";
    let err = flatten_xml_str(xml, &options()).unwrap_err();
    assert_eq!(err.position, 10);
}

#[test]
fn a_closed_document_is_read_whole() {
    let got = flatten_xml_str("<a><b/><c></c></a>\n", &options()).unwrap();
    assert!(got.is_empty());
}

#[test]
fn mismatched_end_tag_is_a_parse_error() {
    let err = flatten_xml_str("<a><b>text</c></a>", &options()).unwrap_err();
    assert_eq!(err.position, 10);
    assert!(err.message.contains("ill-formed"));
}

#[test]
fn references_in_text_are_resolved() {
    let got = flatten_xml_str("<f>A &amp;&amp; B &lt; &#67;</f>", &options()).unwrap();
    assert_eq!(got, vec![entry("/f[0]/#text", ValueKind::Text, "A && B < C")]);
}

#[test]
fn unknown_reference_in_text_is_a_parse_error() {
    let err = flatten_xml_str("<f>A &nope; B</f>", &options()).unwrap_err();
    assert_eq!(err.position, 13);
    assert!(!err.message.is_empty());
}

#[test]
fn references_in_attributes_are_resolved() {
    let got = flatten_xml_str("<f v=\"a &lt; b\"/>", &options()).unwrap();
    assert_eq!(got, vec![entry("/f[0]/@v", ValueKind::Attr, "a < b")]);
}

#[test]
fn malformed_attribute_is_a_parse_error() {
    let err = flatten_xml_str("<f v=1></f>", &options()).unwrap_err();
    assert_eq!(err.position, 7);
    let mut without = options();
    without.include_attributes = false;
    assert_eq!(flatten_xml_str("<f v=1></f>", &without).unwrap(), vec![]);
}

#[test]
fn namespace_prefix_is_stripped_unless_kept() {
    let xml = "<ns:a><ns:b>x</ns:b><other:b>y</other:b></ns:a>";
    let got = flatten_xml_str(xml, &options()).unwrap();
    assert_eq!(
        got,
        vec![
            entry("/a[0]/b[0]/#text", ValueKind::Text, "x"),
            entry("/a[0]/b[1]/#text", ValueKind::Text, "y"),
        ]
    );
    let mut keep = options();
    keep.strip_namespace_prefix = false;
    let got = flatten_xml_str(xml, &keep).unwrap();
    assert_eq!(
        got,
        vec![
            entry("/ns:a[0]/ns:b[0]/#text", ValueKind::Text, "x"),
            entry("/ns:a[0]/other:b[0]/#text", ValueKind::Text, "y"),
        ]
    );
}

#[test]
fn mixed_content_shares_one_path() {
    let got = flatten_xml_str("<p>one<i>two</i>three</p>", &options()).unwrap();
    assert_eq!(
        got,
        vec![
            entry("/p[0]/#text", ValueKind::Text, "one"),
            entry("/p[0]/i[0]/#text", ValueKind::Text, "two"),
            entry("/p[0]/#text", ValueKind::Text, "three"),
        ]
    );
}

#[test]
fn comments_and_instructions_are_ignored() {
    let xml = "<?xml version=\"1.0\"?><!-- c --><a><?pi x?>v<!-- d --></a>";
    let got = flatten_xml_str(xml, &options()).unwrap();
    assert_eq!(got, vec![entry("/a[0]/#text", ValueKind::Text, "v")]);
}

#[test]
fn self_closing_element_shows_its_attributes_and_counts() {
    let got = flatten_xml_str("<a><b k=\"1\"/><c/><b k=\"2\"/></a>", &options()).unwrap();
    assert_eq!(
        got,
        vec![
            entry("/a[0]/b[0]/@k", ValueKind::Attr, "1"),
            entry("/a[0]/b[1]/@k", ValueKind::Attr, "2"),
        ]
    );
}

#[test]
fn ordinals_ignore_other_names_in_between() {
    let xml = "<r><x>1</x><y>2</y><x>3</x><y>4</y><x>5</x></r>";
    let got = flatten_xml_str(xml, &options()).unwrap();
    let paths: Vec<&str> = got.iter().map(|e| e.p.as_str()).collect();
    assert_eq!(
        paths,
        vec![
            "/r[0]/x[0]/#text",
            "/r[0]/y[0]/#text",
            "/r[0]/x[1]/#text",
            "/r[0]/y[1]/#text",
            "/r[0]/x[2]/#text",
        ]
    );
}

#[test]
fn counters_start_again_under_each_parent() {
    let xml = "<r><g><x>1</x><x>2</x></g><g><x>3</x></g></r>";
    let got = flatten_xml_str(xml, &options()).unwrap();
    let paths: Vec<&str> = got.iter().map(|e| e.p.as_str()).collect();
    assert_eq!(
        paths,
        vec!["/r[0]/g[0]/x[0]/#text", "/r[0]/g[0]/x[1]/#text", "/r[0]/g[1]/x[0]/#text"]
    );
}

#[test]
fn whitespace_only_values_give_no_entry() {
    let got = flatten_xml_str("<a x=\"  \">  \n <b> </b><![CDATA[   ]]></a>", &options()).unwrap();
    assert_eq!(got, vec![]);
}

#[test]
fn values_are_trimmed() {
    let got = flatten_xml_str("<a x=\" v \">  t  </a>", &options()).unwrap();
    assert_eq!(
        got,
        vec![
            entry("/a[0]/@x", ValueKind::Attr, "v"),
            entry("/a[0]/#text", ValueKind::Text, "t"),
        ]
    );
}

#[test]
fn values_are_cut_to_the_limit() {
    let mut opts = options();
    opts.max_text_len = 3;
    let got = flatten_xml_str("<a x=\"12345\">abcdef</a>", &opts).unwrap();
    assert_eq!(
        got,
        vec![
            entry("/a[0]/@x", ValueKind::Attr, "123"),
            entry("/a[0]/#text", ValueKind::Text, "abc"),
        ]
    );
    opts.max_text_len = 0;
    let got = flatten_xml_str("<a>abcdef</a>", &opts).unwrap();
    assert_eq!(got, vec![entry("/a[0]/#text", ValueKind::Text, "abcdef")]);
}

#[test]
fn dot_style_has_no_leading_separator() {
    let mut opts = options();
    opts.path_style = PathStyle::Dot;
    let got = flatten_xml_str("<a><b x=\"1\">hi</b></a>", &opts).unwrap();
    assert_eq!(
        got,
        vec![
            entry("a[0].b[0].@x", ValueKind::Attr, "1"),
            entry("a[0].b[0].#text", ValueKind::Text, "hi"),
        ]
    );
}

#[test]
fn excluded_kinds_give_no_entry() {
    let xml = "<a x=\"1\">t<![CDATA[c]]></a>";
    let mut opts = options();
    opts.include_attributes = false;
    opts.include_text = false;
    assert_eq!(
        flatten_xml_str(xml, &opts).unwrap(),
        vec![entry("/a[0]/#cdata", ValueKind::Text, "c")]
    );
    opts.include_text = true;
    opts.include_cdata = false;
    assert_eq!(
        flatten_xml_str(xml, &opts).unwrap(),
        vec![entry("/a[0]/#text", ValueKind::Text, "t")]
    );
}

#[test]
fn flattening_twice_gives_the_same() {
    let xml = "<a><b x=\"1\">hi</b><b>bye &amp; more</b></a>";
    assert_eq!(flatten_xml_str(xml, &options()), flatten_xml_str(xml, &options()));
    let bad = "<a><b></a>";
    assert_eq!(flatten_xml_str(bad, &options()), flatten_xml_str(bad, &options()));
}

#[test]
fn empty_document_has_no_entries() {
    assert_eq!(flatten_xml_str("", &options()).unwrap(), vec![]);
}

#[test]
fn events_can_be_flattened_directly() {
    let events = vec![
        XmlEvent::Start {
            name: "ns:a".to_string(),
            attrs: vec![XmlAttr { key: "id".to_string(), value: " 7 ".to_string() }],
        },
        XmlEvent::Text("hello".to_string()),
        XmlEvent::Empty { name: "b".to_string(), attrs: vec![] },
        XmlEvent::CData(" raw ".to_string()),
        XmlEvent::End { name: "ns:a".to_string() },
        XmlEvent::End { name: "stray".to_string() },
        XmlEvent::Text("after".to_string()),
    ];
    let got = flatten_events(&events, &options());
    assert_eq!(
        got,
        vec![
            entry("/a[0]/@id", ValueKind::Attr, "7"),
            entry("/a[0]/#text", ValueKind::Text, "hello"),
            entry("/a[0]/#cdata", ValueKind::Text, "raw"),
            entry("/#text", ValueKind::Text, "after"),
        ]
    );
}

#[test]
fn make_path_renders_both_styles() {
    let stack = vec![
        Frame { name: "root".to_string(), idx: 0 },
        Frame { name: "item".to_string(), idx: 12 },
    ];
    assert_eq!(make_path(&stack, PathStyle::Slash, None), "/root[0]/item[12]");
    assert_eq!(make_path(&stack, PathStyle::Dot, None), "root[0].item[12]");
    assert_eq!(make_path(&stack, PathStyle::Slash, Some("@id")), "/root[0]/item[12]/@id");
    assert_eq!(make_path(&stack, PathStyle::Dot, Some("#text")), "root[0].item[12].#text");
    assert_eq!(make_path(&[], PathStyle::Slash, None), "");
    assert_eq!(make_path(&[], PathStyle::Slash, Some("#text")), "/#text");
}

#[test]
fn normalize_text_trims_and_cuts() {
    assert_eq!(normalize_text("  hello  ".to_string(), 0), "hello");
    assert_eq!(normalize_text("  hello  ".to_string(), 4), "hell");
    assert_eq!(normalize_text("hello".to_string(), 5), "hello");
    assert_eq!(normalize_text(" \t\n ".to_string(), 10), "");
    assert_eq!(normalize_text("\u{a0}x\u{2003}".to_string(), 0), "x");
}

#[test]
fn normalize_text_cuts_at_whole_characters() {
    // each of these letters takes two bytes
    assert_eq!(normalize_text("\u{e9}\u{e9}\u{e9}".to_string(), 4), "\u{e9}\u{e9}");
    assert_eq!(normalize_text("\u{e9}\u{e9}\u{e9}".to_string(), 3), "\u{e9}");
    assert_eq!(normalize_text("\u{e9}\u{e9}\u{e9}".to_string(), 1), "");
    assert_eq!(normalize_text("a\u{1f600}b".to_string(), 5), "a\u{1f600}");
}
