use crate::parser::types::automation::{Flow, FlowView};
use crate::parser::types::object::{
    text_view, Field, FieldView, RecordType, RecordTypeView, ValidationRule, ValidationRuleView,
    Workflow, WorkflowView,
};
use crate::parser::types::security::{PermissionSet, PermissionSetView, Profile, ProfileView};
use vstd::prelude::*;

verus! {

/// What is known of one metadata document: its own name, type and label, and
/// the fields, rules, record types and permissions found in it.
#[derive(Debug, Clone, PartialEq, Eq)]
pub struct SalesforceMetadata {
    pub full_name: Option<String>,
    pub object_type: Option<String>,
    pub label: Option<String>,
    pub description: Option<String>,
    pub fields: Vec<Field>,
    pub validation_rules: Vec<ValidationRule>,
    pub workflows: Vec<Workflow>,
    pub record_types: Vec<RecordType>,
    pub profile: Option<Profile>,
    pub permission_set: Option<PermissionSet>,
    pub flow: Option<Flow>,
}

pub struct MetadataView {
    pub full_name: Option<Seq<char>>,
    pub object_type: Option<Seq<char>>,
    pub label: Option<Seq<char>>,
    pub description: Option<Seq<char>>,
    pub fields: Seq<FieldView>,
    pub validation_rules: Seq<ValidationRuleView>,
    pub workflows: Seq<WorkflowView>,
    pub record_types: Seq<RecordTypeView>,
    pub profile: Option<ProfileView>,
    pub permission_set: Option<PermissionSetView>,
    pub flow: Option<FlowView>,
}

impl View for SalesforceMetadata {
    type V = MetadataView;

    open spec fn view(&self) -> MetadataView {
        MetadataView {
            full_name: text_view(self.full_name),
            object_type: text_view(self.object_type),
            label: text_view(self.label),
            description: text_view(self.description),
            fields: self.fields@.map_values(|f: Field| f@),
            validation_rules: self.validation_rules@.map_values(|r: ValidationRule| r@),
            workflows: self.workflows@.map_values(|w: Workflow| w@),
            record_types: self.record_types@.map_values(|t: RecordType| t@),
            profile: match self.profile {
                Some(p) => Some(p@),
                None => None,
            },
            permission_set: match self.permission_set {
                Some(p) => Some(p@),
                None => None,
            },
            flow: match self.flow {
                Some(f) => Some(f@),
                None => None,
            },
        }
    }
}

impl MetadataView {
    /// A document of which nothing is known yet.
    pub open spec fn empty() -> MetadataView {
        MetadataView {
            full_name: None,
            object_type: None,
            label: None,
            description: None,
            fields: Seq::empty(),
            validation_rules: Seq::empty(),
            workflows: Seq::empty(),
            record_types: Seq::empty(),
            profile: None,
            permission_set: None,
            flow: None,
        }
    }
}

impl Default for SalesforceMetadata {
    fn default() -> (m: SalesforceMetadata)
        ensures
            m@ == MetadataView::empty(),
    {
        let m = SalesforceMetadata {
            full_name: None,
            object_type: None,
            label: None,
            description: None,
            fields: Vec::new(),
            validation_rules: Vec::new(),
            workflows: Vec::new(),
            record_types: Vec::new(),
            profile: None,
            permission_set: None,
            flow: None,
        };
        assert(m@.fields =~= Seq::empty());
        assert(m@.validation_rules =~= Seq::empty());
        assert(m@.workflows =~= Seq::empty());
        assert(m@.record_types =~= Seq::empty());
        m
    }
}

/// Whether a flag is unset.
pub fn is_false(value: &bool) -> (r: bool)
    ensures
        r == !*value,
{
    !*value
}

} // verus!
