use vstd::prelude::*;

verus! {

#[derive(Debug, Clone, PartialEq, Eq)]
pub struct Layout {
    pub name: String,
    pub sections: Vec<LayoutSection>,
}

#[derive(Debug, Clone, PartialEq, Eq)]
pub struct LayoutSection {
    pub label: String,
    pub fields: Vec<String>,
}

#[derive(Debug, Clone, PartialEq, Eq)]
pub struct Tab {
    pub name: String,
    pub object: Option<String>,
}

} // verus!
