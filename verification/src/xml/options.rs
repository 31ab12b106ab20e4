use crate::cli::PathStyle;
use vstd::prelude::*;

verus! {

/// What one flattening call takes in and how it renders it. A `max_text_len`
/// of zero means that values are not shortened.
#[derive(Clone, Debug)]
pub struct FlattenOptions {
    pub include_attributes: bool,
    pub include_text: bool,
    pub include_cdata: bool,
    pub strip_namespace_prefix: bool,
    pub max_text_len: usize,
    pub path_style: PathStyle,
}

} // verus!
