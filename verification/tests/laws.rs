use sfmeta_reader::cli::PathStyle;
use sfmeta_reader::xml::{flatten_xml_str, FlatEntry, FlattenOptions, ValueKind};

const DOCUMENT: &str = "<root xmlns:n=\"urn:x\" id=\" 1 \">
  lead
  <n:item code=\"a\" empty=\"\">first &amp; <b>bold</b> tail</n:item>
  <other/>
  <n:item code=\"bb\"><![CDATA[ raw <data> ]]></n:item>
  <item code=\"   \">third<deep><deeper k=\"v\">x</deeper></deep></item>
</root>";

fn options(style: PathStyle, max_text_len: usize) -> FlattenOptions {
    FlattenOptions {
        include_attributes: true,
        include_text: true,
        include_cdata: true,
        strip_namespace_prefix: true,
        max_text_len,
        path_style: style,
    }
}

/// Splits `name[digits]` into its two parts.
fn segment_parts(segment: &str) -> Option<(&str, &str)> {
    let open = segment.rfind('[')?;
    let inner = segment[open + 1..].strip_suffix(']')?;
    Some((&segment[..open], inner))
}

fn is_ordinal(text: &str) -> bool {
    !text.is_empty()
        && text.chars().all(|c| c.is_ascii_digit())
        && (text == "0" || !text.starts_with('0'))
}

fn assert_well_formed(entry: &FlatEntry, sep: char) {
    let path = entry.p.as_str();
    let body = if sep == '/' {
        path.strip_prefix('/').expect("a slash path begins with a slash")
    } else {
        assert!(!path.starts_with('.'));
        path
    };
    let mut parts: Vec<&str> = body.split(sep).collect();
    let leaf = parts.pop().unwrap();
    match entry.k {
        ValueKind::Attr => assert!(leaf.starts_with('@') && leaf.len() > 1, "{}", path),
        ValueKind::Text => assert!(leaf == "#text" || leaf == "#cdata", "{}", path),
    }
    assert!(!parts.is_empty(), "{}", path);
    for part in parts {
        let (name, ordinal) = segment_parts(part).expect(path);
        assert!(!name.is_empty(), "{}", path);
        assert!(is_ordinal(ordinal), "{}", path);
    }
}

#[test]
fn every_path_follows_the_grammar() {
    for (style, sep) in [(PathStyle::Slash, '/'), (PathStyle::Dot, '.')] {
        let entries = flatten_xml_str(DOCUMENT, &options(style, 0)).unwrap();
        assert_eq!(entries.len(), 12);
        for entry in &entries {
            assert_well_formed(entry, sep);
        }
    }
}

#[test]
fn the_whole_document_flattens_as_expected() {
    let entries = flatten_xml_str(DOCUMENT, &options(PathStyle::Slash, 0)).unwrap();
    let got: Vec<(&str, &str)> = entries.iter().map(|e| (e.p.as_str(), e.v.as_str())).collect();
    assert_eq!(
        got,
        vec![
            ("/root[0]/@xmlns:n", "urn:x"),
            ("/root[0]/@id", "1"),
            ("/root[0]/#text", "lead"),
            ("/root[0]/item[0]/@code", "a"),
            ("/root[0]/item[0]/#text", "first &"),
            ("/root[0]/item[0]/b[0]/#text", "bold"),
            ("/root[0]/item[0]/#text", "tail"),
            ("/root[0]/item[1]/@code", "bb"),
            ("/root[0]/item[1]/#cdata", "raw <data>"),
            ("/root[0]/item[2]/#text", "third"),
            ("/root[0]/item[2]/deep[0]/deeper[0]/@k", "v"),
            ("/root[0]/item[2]/deep[0]/deeper[0]/#text", "x"),
        ]
    );
}

#[test]
fn no_entry_is_empty_and_none_exceeds_the_leaves() {
    let entries = flatten_xml_str(DOCUMENT, &options(PathStyle::Slash, 0)).unwrap();
    for entry in &entries {
        assert!(!entry.v.is_empty());
        assert_eq!(entry.v, entry.v.trim());
    }
    // the document has 7 attributes, of which one is empty, and 11 runs of
    // text or CDATA, none of them empty
    let raw_leaves_not_empty = 6 + 11;
    assert!(entries.len() <= raw_leaves_not_empty);
}

#[test]
fn every_value_keeps_within_the_limit() {
    for limit in 1..12usize {
        let entries = flatten_xml_str(DOCUMENT, &options(PathStyle::Slash, limit)).unwrap();
        let unlimited = flatten_xml_str(DOCUMENT, &options(PathStyle::Slash, 0)).unwrap();
        assert_eq!(entries.len(), unlimited.len());
        for (cut, whole) in entries.iter().zip(unlimited.iter()) {
            assert!(cut.v.len() <= limit);
            assert!(whole.v.starts_with(cut.v.as_str()));
            assert_eq!(cut.p, whole.p);
            if whole.v.len() <= limit {
                assert_eq!(cut.v, whole.v);
            }
        }
    }
}

#[test]
fn a_value_cut_down_to_nothing_gives_no_entry() {
    let entries = flatten_xml_str("<a>\u{20ac}uro</a>", &options(PathStyle::Slash, 2)).unwrap();
    assert_eq!(entries, vec![]);
    let entries = flatten_xml_str("<a>\u{20ac}uro</a>", &options(PathStyle::Slash, 4)).unwrap();
    assert_eq!(entries.len(), 1);
    assert_eq!(entries[0].v, "\u{20ac}u");
}

#[test]
fn text_outside_any_element_has_no_segment() {
    let entries = flatten_xml_str("before<a/>after", &options(PathStyle::Slash, 0)).unwrap();
    let got: Vec<(&str, &str)> = entries.iter().map(|e| (e.p.as_str(), e.v.as_str())).collect();
    assert_eq!(got, vec![("/#text", "before"), ("/#text", "after")]);
}
