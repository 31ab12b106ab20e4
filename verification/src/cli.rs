use crate::xml::options::FlattenOptions;
use vstd::prelude::*;

verus! {

/// The text encoding of the output.
#[derive(Copy, Clone, Debug, PartialEq, Eq, Structural)]
pub enum Format {
    Json,
    Toon,
    Compact,
}

/// How the JSON encoding lays out the entries: as a list that keeps every
/// entry in order, or as one object keyed by path.
#[derive(Copy, Clone, Debug, PartialEq, Eq, Structural)]
pub enum JsonMode {
    List,
    PathMap,
}

/// How the segments of a path are joined.
#[derive(Copy, Clone, Debug, PartialEq, Eq, Structural)]
pub enum PathStyle {
    Slash,
    Dot,
}

/// What a run was asked to do: where to read and write, which files to take,
/// how to flatten them and how to render the result.
#[derive(Clone, Debug, PartialEq, Eq)]
pub struct Cli {
    pub input: String,
    pub output: Option<String>,
    pub recursive: bool,
    pub glob: String,
    pub format: Format,
    pub minify: bool,
    pub json_mode: JsonMode,
    pub include_attributes: bool,
    pub keep_ns_prefix: bool,
    pub max_text_len: usize,
    pub path_style: PathStyle,
    pub always_wrap: bool,
    pub show_tokens: bool,
    pub show_tokens_per_file: bool,
}

/// The options that a run flattens its documents with: text and CDATA are
/// always taken in, attributes on request, and prefixes are stripped unless
/// they are to be kept.
pub open spec fn options_of(cli: Cli) -> FlattenOptions {
    FlattenOptions {
        include_attributes: cli.include_attributes,
        include_text: true,
        include_cdata: true,
        strip_namespace_prefix: !cli.keep_ns_prefix,
        max_text_len: cli.max_text_len,
        path_style: cli.path_style,
    }
}

impl Cli {
    /// A run over `input` with every setting at its default: all `*.xml`
    /// files below it, rendered one entry per line, values cut to 2048 bytes.
    pub fn with_defaults(input: String) -> (cli: Cli)
        ensures
            cli.input == input,
            cli.output is None,
            cli.recursive,
            cli.glob@ == "*.xml"@,
            cli.format == Format::Toon,
            !cli.minify,
            cli.json_mode == JsonMode::List,
            !cli.include_attributes,
            !cli.keep_ns_prefix,
            cli.max_text_len == 2048,
            cli.path_style == PathStyle::Slash,
            !cli.always_wrap,
            !cli.show_tokens,
            !cli.show_tokens_per_file,
    {
        Cli {
            input,
            output: None,
            recursive: true,
            glob: "*.xml".to_owned(),
            format: Format::Toon,
            minify: false,
            json_mode: JsonMode::List,
            include_attributes: false,
            keep_ns_prefix: false,
            max_text_len: 2048,
            path_style: PathStyle::Slash,
            always_wrap: false,
            show_tokens: false,
            show_tokens_per_file: false,
        }
    }

    /// The options that this run flattens its documents with.
    pub fn flatten_options(&self) -> (opts: FlattenOptions)
        ensures
            opts == options_of(*self),
    {
        FlattenOptions {
            include_attributes: self.include_attributes,
            include_text: true,
            include_cdata: true,
            strip_namespace_prefix: !self.keep_ns_prefix,
            max_text_len: self.max_text_len,
            path_style: self.path_style,
        }
    }
}

} // verus!
