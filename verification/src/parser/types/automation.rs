use crate::parser::types::object::text_view;
use vstd::prelude::*;

verus! {

#[derive(Debug, Clone, PartialEq, Eq)]
pub struct Flow {
    pub name: String,
    pub label: Option<String>,
    pub process_type: Option<String>,
    pub active: bool,
}

#[derive(Debug, Clone, PartialEq, Eq)]
pub struct ApexClass {
    pub name: String,
    pub api_version: Option<String>,
    pub status: Option<String>,
}

#[derive(Debug, Clone, PartialEq, Eq)]
pub struct ApexTrigger {
    pub name: String,
    pub object: Option<String>,
    pub active: bool,
}

pub struct FlowView {
    pub name: Seq<char>,
    pub label: Option<Seq<char>>,
    pub process_type: Option<Seq<char>>,
    pub active: bool,
}

impl View for Flow {
    type V = FlowView;

    open spec fn view(&self) -> FlowView {
        FlowView {
            name: self.name@,
            label: text_view(self.label),
            process_type: text_view(self.process_type),
            active: self.active,
        }
    }
}

} // verus!
