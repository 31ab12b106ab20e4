use vstd::prelude::*;

verus! {

#[derive(Debug, Clone, PartialEq, Eq)]
pub struct Report {
    pub name: String,
    pub report_type: Option<String>,
    pub columns: Vec<String>,
}

#[derive(Debug, Clone, PartialEq, Eq)]
pub struct Dashboard {
    pub name: String,
    pub components: Vec<String>,
}

#[derive(Debug, Clone, PartialEq, Eq)]
pub struct LightningComponent {
    pub name: String,
    pub api_version: Option<String>,
    pub is_exposed: bool,
}

#[derive(Debug, Clone, PartialEq, Eq)]
pub struct EmailTemplate {
    pub name: String,
    pub template_type: Option<String>,
    pub available: bool,
}

} // verus!
