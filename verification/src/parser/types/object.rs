use vstd::prelude::*;

verus! {

#[derive(Debug, Clone, PartialEq, Eq)]
pub struct Field {
    pub name: String,
    pub field_type: Option<String>,
    pub label: Option<String>,
    pub required: bool,
    pub unique: bool,
    pub length: Option<u32>,
    pub description: Option<String>,
}

#[derive(Debug, Clone, PartialEq, Eq)]
pub struct ValidationRule {
    pub name: String,
    pub active: bool,
    pub formula: Option<String>,
}

#[derive(Debug, Clone, PartialEq, Eq)]
pub struct Workflow {
    pub name: String,
    pub active: bool,
}

#[derive(Debug, Clone, PartialEq, Eq)]
pub struct RecordType {
    pub name: String,
    pub label: Option<String>,
    pub active: bool,
    pub business_process: Option<String>,
}

/// The characters of an optional text.
pub open spec fn text_view(s: Option<String>) -> Option<Seq<char>> {
    match s {
        Some(s) => Some(s@),
        None => None,
    }
}

pub struct FieldView {
    pub name: Seq<char>,
    pub field_type: Option<Seq<char>>,
    pub label: Option<Seq<char>>,
    pub required: bool,
    pub unique: bool,
    pub length: Option<u32>,
    pub description: Option<Seq<char>>,
}

pub struct ValidationRuleView {
    pub name: Seq<char>,
    pub active: bool,
    pub formula: Option<Seq<char>>,
}

pub struct WorkflowView {
    pub name: Seq<char>,
    pub active: bool,
}

pub struct RecordTypeView {
    pub name: Seq<char>,
    pub label: Option<Seq<char>>,
    pub active: bool,
    pub business_process: Option<Seq<char>>,
}

impl View for Field {
    type V = FieldView;

    open spec fn view(&self) -> FieldView {
        FieldView {
            name: self.name@,
            field_type: text_view(self.field_type),
            label: text_view(self.label),
            required: self.required,
            unique: self.unique,
            length: self.length,
            description: text_view(self.description),
        }
    }
}

impl View for ValidationRule {
    type V = ValidationRuleView;

    open spec fn view(&self) -> ValidationRuleView {
        ValidationRuleView {
            name: self.name@,
            active: self.active,
            formula: text_view(self.formula),
        }
    }
}

impl View for Workflow {
    type V = WorkflowView;

    open spec fn view(&self) -> WorkflowView {
        WorkflowView { name: self.name@, active: self.active }
    }
}

impl View for RecordType {
    type V = RecordTypeView;

    open spec fn view(&self) -> RecordTypeView {
        RecordTypeView {
            name: self.name@,
            label: text_view(self.label),
            active: self.active,
            business_process: text_view(self.business_process),
        }
    }
}

} // verus!
