use crate::parser::metadata::{MetadataView, SalesforceMetadata};
use crate::parser::types::automation::{Flow, FlowView};
use crate::parser::types::object::{
    Field, FieldView, RecordType, RecordTypeView, ValidationRule, ValidationRuleView, Workflow,
    WorkflowView,
};
use crate::parser::types::security::{
    FieldPermission, FieldPermissionView, ObjectPermission, ObjectPermissionView, PermissionSet,
    PermissionSetView, Profile, ProfileView,
};
use crate::text::{is_true, is_true_word, parse_u32, parsed_u32, same_text, trim, trimmed};
use crate::xml::events::{
    document_events, events_view, read_events, EventView, Wanted, XmlEvent,
};
use crate::xml::raw::{FaultView, ParseError};
use vstd::prelude::*;

verus! {

/// What is known while a document is read: the record so far, the name of
/// the tag opened last, the parts that are being filled, and which kinds of
/// part the reading is inside of.
pub struct Extraction {
    pub metadata: MetadataView,
    pub current_tag: Seq<char>,
    pub field: Option<FieldView>,
    pub validation: Option<ValidationRuleView>,
    pub workflow: Option<WorkflowView>,
    pub record_type: Option<RecordTypeView>,
    pub obj_perm: Option<ObjectPermissionView>,
    pub field_perm: Option<FieldPermissionView>,
    pub in_field: bool,
    pub in_validation: bool,
    pub in_workflow: bool,
    pub in_record_type: bool,
    pub in_profile: bool,
    pub in_permission_set: bool,
    pub in_obj_permission: bool,
    pub in_field_permission: bool,
}

pub open spec fn blank_field() -> FieldView {
    FieldView {
        name: Seq::empty(),
        field_type: None,
        label: None,
        required: false,
        unique: false,
        length: None,
        description: None,
    }
}

pub open spec fn blank_validation() -> ValidationRuleView {
    ValidationRuleView { name: Seq::empty(), active: false, formula: None }
}

pub open spec fn blank_workflow() -> WorkflowView {
    WorkflowView { name: Seq::empty(), active: false }
}

pub open spec fn blank_record_type() -> RecordTypeView {
    RecordTypeView { name: Seq::empty(), label: None, active: false, business_process: None }
}

pub open spec fn blank_profile() -> ProfileView {
    ProfileView {
        name: Seq::empty(),
        object_permissions: Seq::empty(),
        field_permissions: Seq::empty(),
        application_visibilities: Seq::empty(),
    }
}

pub open spec fn blank_permission_set() -> PermissionSetView {
    PermissionSetView {
        name: Seq::empty(),
        label: None,
        object_permissions: Seq::empty(),
        field_permissions: Seq::empty(),
    }
}

pub open spec fn blank_obj_perm() -> ObjectPermissionView {
    ObjectPermissionView {
        object: Seq::empty(),
        allow_create: false,
        allow_read: false,
        allow_edit: false,
        allow_delete: false,
    }
}

pub open spec fn blank_field_perm() -> FieldPermissionView {
    FieldPermissionView { field: Seq::empty(), readable: false, editable: false }
}

pub open spec fn blank_flow() -> FlowView {
    FlowView { name: Seq::empty(), label: None, process_type: None, active: false }
}

/// A field with what the text under `tag` says of it.
pub open spec fn field_with(f: FieldView, tag: Seq<char>, text: Seq<char>, keep: bool) -> FieldView {
    if tag == "fullName"@ {
        FieldView { name: text, ..f }
    } else if tag == "type"@ {
        FieldView { field_type: Some(text), ..f }
    } else if tag == "label"@ {
        FieldView { label: Some(text), ..f }
    } else if tag == "required"@ {
        FieldView { required: is_true_word(text), ..f }
    } else if tag == "unique"@ {
        FieldView { unique: is_true_word(text), ..f }
    } else if tag == "length"@ {
        FieldView { length: parsed_u32(text), ..f }
    } else if tag == "description"@ && keep {
        FieldView { description: Some(text), ..f }
    } else {
        f
    }
}

pub open spec fn validation_with(v: ValidationRuleView, tag: Seq<char>, text: Seq<char>) -> ValidationRuleView {
    if tag == "fullName"@ {
        ValidationRuleView { name: text, ..v }
    } else if tag == "active"@ {
        ValidationRuleView { active: is_true_word(text), ..v }
    } else if tag == "errorConditionFormula"@ {
        ValidationRuleView { formula: Some(text), ..v }
    } else {
        v
    }
}

pub open spec fn workflow_with(w: WorkflowView, tag: Seq<char>, text: Seq<char>) -> WorkflowView {
    if tag == "fullName"@ {
        WorkflowView { name: text, ..w }
    } else if tag == "active"@ {
        WorkflowView { active: is_true_word(text), ..w }
    } else {
        w
    }
}

pub open spec fn record_type_with(r: RecordTypeView, tag: Seq<char>, text: Seq<char>) -> RecordTypeView {
    if tag == "fullName"@ {
        RecordTypeView { name: text, ..r }
    } else if tag == "label"@ {
        RecordTypeView { label: Some(text), ..r }
    } else if tag == "active"@ {
        RecordTypeView { active: is_true_word(text), ..r }
    } else if tag == "businessProcess"@ {
        RecordTypeView { business_process: Some(text), ..r }
    } else {
        r
    }
}

pub open spec fn obj_perm_with(p: ObjectPermissionView, tag: Seq<char>, text: Seq<char>) -> ObjectPermissionView {
    if tag == "object"@ {
        ObjectPermissionView { object: text, ..p }
    } else if tag == "allowCreate"@ {
        ObjectPermissionView { allow_create: is_true_word(text), ..p }
    } else if tag == "allowRead"@ {
        ObjectPermissionView { allow_read: is_true_word(text), ..p }
    } else if tag == "allowEdit"@ {
        ObjectPermissionView { allow_edit: is_true_word(text), ..p }
    } else if tag == "allowDelete"@ {
        ObjectPermissionView { allow_delete: is_true_word(text), ..p }
    } else {
        p
    }
}

pub open spec fn field_perm_with(p: FieldPermissionView, tag: Seq<char>, text: Seq<char>) -> FieldPermissionView {
    if tag == "field"@ {
        FieldPermissionView { field: text, ..p }
    } else if tag == "readable"@ {
        FieldPermissionView { readable: is_true_word(text), ..p }
    } else if tag == "editable"@ {
        FieldPermissionView { editable: is_true_word(text), ..p }
    } else {
        p
    }
}

/// The record with what the text under `tag` says of the document itself.
pub open spec fn metadata_with(m: MetadataView, tag: Seq<char>, text: Seq<char>, keep: bool) -> MetadataView {
    if tag == "fullName"@ {
        MetadataView { full_name: Some(text), ..m }
    } else if tag == "type"@ {
        MetadataView { object_type: Some(text), ..m }
    } else if tag == "label"@ {
        MetadataView { label: Some(text), ..m }
    } else if tag == "description"@ && keep {
        MetadataView { description: Some(text), ..m }
    } else {
        m
    }
}

/// The record with an object permission added to its profile, where the
/// reading is inside a profile and the record has one; else to its
/// permission set, under the same conditions; else unchanged.
pub open spec fn with_obj_perm(
    m: MetadataView,
    perm: ObjectPermissionView,
    in_profile: bool,
    in_permission_set: bool,
) -> MetadataView {
    if in_profile && m.profile is Some {
        MetadataView {
            profile: Some(
                ProfileView {
                    object_permissions: m.profile->0.object_permissions.push(perm),
                    ..m.profile->0
                },
            ),
            ..m
        }
    } else if in_permission_set && m.permission_set is Some {
        MetadataView {
            permission_set: Some(
                PermissionSetView {
                    object_permissions: m.permission_set->0.object_permissions.push(perm),
                    ..m.permission_set->0
                },
            ),
            ..m
        }
    } else {
        m
    }
}

/// The same for a field permission.
pub open spec fn with_field_perm(
    m: MetadataView,
    perm: FieldPermissionView,
    in_profile: bool,
    in_permission_set: bool,
) -> MetadataView {
    if in_profile && m.profile is Some {
        MetadataView {
            profile: Some(
                ProfileView {
                    field_permissions: m.profile->0.field_permissions.push(perm),
                    ..m.profile->0
                },
            ),
            ..m
        }
    } else if in_permission_set && m.permission_set is Some {
        MetadataView {
            permission_set: Some(
                PermissionSetView {
                    field_permissions: m.permission_set->0.field_permissions.push(perm),
                    ..m.permission_set->0
                },
            ),
            ..m
        }
    } else {
        m
    }
}

impl Extraction {
    pub open spec fn start() -> Extraction {
        Extraction {
            metadata: MetadataView::empty(),
            current_tag: Seq::empty(),
            field: None,
            validation: None,
            workflow: None,
            record_type: None,
            obj_perm: None,
            field_perm: None,
            in_field: false,
            in_validation: false,
            in_workflow: false,
            in_record_type: false,
            in_profile: false,
            in_permission_set: false,
            in_obj_permission: false,
            in_field_permission: false,
        }
    }

    /// A tag named `name` opens, or stands alone. A known name starts a
    /// blank part of its kind; every name becomes the tag opened last.
    pub open spec fn opened(self, name: Seq<char>) -> Extraction {
        let marked = if name == "fields"@ {
            Extraction { in_field: true, field: Some(blank_field()), ..self }
        } else if name == "validationRules"@ {
            Extraction { in_validation: true, validation: Some(blank_validation()), ..self }
        } else if name == "workflow"@ || name == "workflowRules"@ {
            Extraction { in_workflow: true, workflow: Some(blank_workflow()), ..self }
        } else if name == "recordTypes"@ {
            Extraction { in_record_type: true, record_type: Some(blank_record_type()), ..self }
        } else if name == "Profile"@ {
            Extraction {
                in_profile: true,
                metadata: MetadataView { profile: Some(blank_profile()), ..self.metadata },
                ..self
            }
        } else if name == "PermissionSet"@ {
            Extraction {
                in_permission_set: true,
                metadata: MetadataView {
                    permission_set: Some(blank_permission_set()),
                    ..self.metadata
                },
                ..self
            }
        } else if name == "objectPermissions"@ {
            Extraction { in_obj_permission: true, obj_perm: Some(blank_obj_perm()), ..self }
        } else if name == "fieldPermissions"@ {
            Extraction { in_field_permission: true, field_perm: Some(blank_field_perm()), ..self }
        } else if name == "Flow"@ {
            Extraction { metadata: MetadataView { flow: Some(blank_flow()), ..self.metadata }, ..self }
        } else {
            self
        };
        Extraction { current_tag: name, ..marked }
    }

    /// A run of text is seen. Trimmed, and unless that leaves nothing, it
    /// goes to the innermost kind of part that the reading is inside of, under
    /// the tag opened last; outside every part it goes to the record itself.
    pub open spec fn texted(self, raw: Seq<char>, keep: bool) -> Extraction {
        let text = trimmed(raw);
        let tag = self.current_tag;
        if text.len() == 0 {
            self
        } else if self.in_field {
            match self.field {
                Some(f) => Extraction { field: Some(field_with(f, tag, text, keep)), ..self },
                None => self,
            }
        } else if self.in_validation {
            match self.validation {
                Some(v) => Extraction { validation: Some(validation_with(v, tag, text)), ..self },
                None => self,
            }
        } else if self.in_workflow {
            match self.workflow {
                Some(w) => Extraction { workflow: Some(workflow_with(w, tag, text)), ..self },
                None => self,
            }
        } else if self.in_record_type {
            match self.record_type {
                Some(r) => Extraction { record_type: Some(record_type_with(r, tag, text)), ..self },
                None => self,
            }
        } else if self.in_obj_permission {
            match self.obj_perm {
                Some(p) => Extraction { obj_perm: Some(obj_perm_with(p, tag, text)), ..self },
                None => self,
            }
        } else if self.in_field_permission {
            match self.field_perm {
                Some(p) => Extraction { field_perm: Some(field_perm_with(p, tag, text)), ..self },
                None => self,
            }
        } else {
            Extraction { metadata: metadata_with(self.metadata, tag, text, keep), ..self }
        }
    }

    /// A tag named `name` closes. A part of that kind that is being filled
    /// is finished: it joins the record if it has its name, and is dropped if not.
    pub open spec fn closed(self, name: Seq<char>) -> Extraction {
        if name == "fields"@ {
            if self.in_field {
                Extraction {
                    in_field: false,
                    field: None,
                    metadata: match self.field {
                        Some(f) => if f.name.len() > 0 {
                            MetadataView { fields: self.metadata.fields.push(f), ..self.metadata }
                        } else {
                            self.metadata
                        },
                        None => self.metadata,
                    },
                    ..self
                }
            } else {
                self
            }
        } else if name == "validationRules"@ {
            if self.in_validation {
                Extraction {
                    in_validation: false,
                    validation: None,
                    metadata: match self.validation {
                        Some(v) => if v.name.len() > 0 {
                            MetadataView {
                                validation_rules: self.metadata.validation_rules.push(v),
                                ..self.metadata
                            }
                        } else {
                            self.metadata
                        },
                        None => self.metadata,
                    },
                    ..self
                }
            } else {
                self
            }
        } else if name == "workflow"@ || name == "workflowRules"@ {
            if self.in_workflow {
                Extraction {
                    in_workflow: false,
                    workflow: None,
                    metadata: match self.workflow {
                        Some(w) => if w.name.len() > 0 {
                            MetadataView { workflows: self.metadata.workflows.push(w), ..self.metadata }
                        } else {
                            self.metadata
                        },
                        None => self.metadata,
                    },
                    ..self
                }
            } else {
                self
            }
        } else if name == "recordTypes"@ {
            if self.in_record_type {
                Extraction {
                    in_record_type: false,
                    record_type: None,
                    metadata: match self.record_type {
                        Some(r) => if r.name.len() > 0 {
                            MetadataView {
                                record_types: self.metadata.record_types.push(r),
                                ..self.metadata
                            }
                        } else {
                            self.metadata
                        },
                        None => self.metadata,
                    },
                    ..self
                }
            } else {
                self
            }
        } else if name == "objectPermissions"@ {
            if self.in_obj_permission {
                Extraction {
                    in_obj_permission: false,
                    obj_perm: None,
                    metadata: match self.obj_perm {
                        Some(p) => if p.object.len() > 0 {
                            with_obj_perm(
                                self.metadata,
                                p,
                                self.in_profile,
                                self.in_permission_set,
                            )
                        } else {
                            self.metadata
                        },
                        None => self.metadata,
                    },
                    ..self
                }
            } else {
                self
            }
        } else if name == "fieldPermissions"@ {
            if self.in_field_permission {
                Extraction {
                    in_field_permission: false,
                    field_perm: None,
                    metadata: match self.field_perm {
                        Some(p) => if p.field.len() > 0 {
                            with_field_perm(
                                self.metadata,
                                p,
                                self.in_profile,
                                self.in_permission_set,
                            )
                        } else {
                            self.metadata
                        },
                        None => self.metadata,
                    },
                    ..self
                }
            } else {
                self
            }
        } else if name == "Profile"@ {
            Extraction { in_profile: false, ..self }
        } else if name == "PermissionSet"@ {
            Extraction { in_permission_set: false, ..self }
        } else {
            self
        }
    }

    /// What one event does to the extraction. CDATA sections are passed over.
    pub open spec fn step(self, event: EventView, keep: bool) -> Extraction {
        match event {
            EventView::Start { name, attrs } => self.opened(name),
            EventView::Empty { name, attrs } => self.opened(name),
            EventView::End { name } => self.closed(name),
            EventView::Text(text) => self.texted(text, keep),
            EventView::CData(text) => self,
        }
    }

    /// What a sequence of events does to the extraction, first event first.
    pub open spec fn run(self, events: Seq<EventView>, keep: bool) -> Extraction
        decreases events.len(),
    {
        if events.len() == 0 {
            self
        } else {
            self.run(events.drop_last(), keep).step(events.last(), keep)
        }
    }
}

/// The record that a document, given as its events, stands for.
pub open spec fn extracted(events: Seq<EventView>, keep: bool) -> MetadataView {
    Extraction::start().run(events, keep).metadata
}

/// What the extraction reads of a document: tags and text, no attributes and
/// no CDATA.
pub open spec fn extraction_wants() -> Wanted {
    Wanted { attributes: false, text: true, cdata: false }
}

/// The record that a document given as text stands for, or why it cannot be read.
pub open spec fn extracted_document(xml: Seq<char>, keep: bool) -> Result<MetadataView, FaultView> {
    match document_events(xml, extraction_wants()) {
        Ok(events) => Ok(extracted(events, keep)),
        Err(fault) => Err(fault),
    }
}

pub open spec fn metadata_result_view(r: Result<SalesforceMetadata, ParseError>) -> Result<
    MetadataView,
    FaultView,
> {
    match r {
        Ok(m) => Ok(m@),
        Err(e) => Err(e@),
    }
}

struct Extractor {
    metadata: SalesforceMetadata,
    current_tag: String,
    field: Option<Field>,
    validation: Option<ValidationRule>,
    workflow: Option<Workflow>,
    record_type: Option<RecordType>,
    obj_perm: Option<ObjectPermission>,
    field_perm: Option<FieldPermission>,
    in_field: bool,
    in_validation: bool,
    in_workflow: bool,
    in_record_type: bool,
    in_profile: bool,
    in_permission_set: bool,
    in_obj_permission: bool,
    in_field_permission: bool,
}

impl View for Extractor {
    type V = Extraction;

    closed spec fn view(&self) -> Extraction {
        Extraction {
            metadata: self.metadata@,
            current_tag: self.current_tag@,
            field: match self.field {
                Some(x) => Some(x@),
                None => None,
            },
            validation: match self.validation {
                Some(x) => Some(x@),
                None => None,
            },
            workflow: match self.workflow {
                Some(x) => Some(x@),
                None => None,
            },
            record_type: match self.record_type {
                Some(x) => Some(x@),
                None => None,
            },
            obj_perm: match self.obj_perm {
                Some(x) => Some(x@),
                None => None,
            },
            field_perm: match self.field_perm {
                Some(x) => Some(x@),
                None => None,
            },
            in_field: self.in_field,
            in_validation: self.in_validation,
            in_workflow: self.in_workflow,
            in_record_type: self.in_record_type,
            in_profile: self.in_profile,
            in_permission_set: self.in_permission_set,
            in_obj_permission: self.in_obj_permission,
            in_field_permission: self.in_field_permission,
        }
    }
}

fn field_from(f: Field, tag: &str, text: String, keep: bool) -> (r: Field)
    ensures
        r@ == field_with(f@, tag@, text@, keep),
{
    if same_text(tag, "fullName") {
        Field { name: text, ..f }
    } else if same_text(tag, "type") {
        Field { field_type: Some(text), ..f }
    } else if same_text(tag, "label") {
        Field { label: Some(text), ..f }
    } else if same_text(tag, "required") {
        Field { required: is_true(text.as_str()), ..f }
    } else if same_text(tag, "unique") {
        Field { unique: is_true(text.as_str()), ..f }
    } else if same_text(tag, "length") {
        Field { length: parse_u32(text.as_str()), ..f }
    } else if same_text(tag, "description") && keep {
        Field { description: Some(text), ..f }
    } else {
        f
    }
}

fn validation_from(v: ValidationRule, tag: &str, text: String) -> (r: ValidationRule)
    ensures
        r@ == validation_with(v@, tag@, text@),
{
    if same_text(tag, "fullName") {
        ValidationRule { name: text, ..v }
    } else if same_text(tag, "active") {
        ValidationRule { active: is_true(text.as_str()), ..v }
    } else if same_text(tag, "errorConditionFormula") {
        ValidationRule { formula: Some(text), ..v }
    } else {
        v
    }
}

fn workflow_from(w: Workflow, tag: &str, text: String) -> (r: Workflow)
    ensures
        r@ == workflow_with(w@, tag@, text@),
{
    if same_text(tag, "fullName") {
        Workflow { name: text, ..w }
    } else if same_text(tag, "active") {
        Workflow { active: is_true(text.as_str()), ..w }
    } else {
        w
    }
}

fn record_type_from(r: RecordType, tag: &str, text: String) -> (out: RecordType)
    ensures
        out@ == record_type_with(r@, tag@, text@),
{
    if same_text(tag, "fullName") {
        RecordType { name: text, ..r }
    } else if same_text(tag, "label") {
        RecordType { label: Some(text), ..r }
    } else if same_text(tag, "active") {
        RecordType { active: is_true(text.as_str()), ..r }
    } else if same_text(tag, "businessProcess") {
        RecordType { business_process: Some(text), ..r }
    } else {
        r
    }
}

fn obj_perm_from(p: ObjectPermission, tag: &str, text: String) -> (r: ObjectPermission)
    ensures
        r@ == obj_perm_with(p@, tag@, text@),
{
    if same_text(tag, "object") {
        ObjectPermission { object: text, ..p }
    } else if same_text(tag, "allowCreate") {
        ObjectPermission { allow_create: is_true(text.as_str()), ..p }
    } else if same_text(tag, "allowRead") {
        ObjectPermission { allow_read: is_true(text.as_str()), ..p }
    } else if same_text(tag, "allowEdit") {
        ObjectPermission { allow_edit: is_true(text.as_str()), ..p }
    } else if same_text(tag, "allowDelete") {
        ObjectPermission { allow_delete: is_true(text.as_str()), ..p }
    } else {
        p
    }
}

fn field_perm_from(p: FieldPermission, tag: &str, text: String) -> (r: FieldPermission)
    ensures
        r@ == field_perm_with(p@, tag@, text@),
{
    if same_text(tag, "field") {
        FieldPermission { field: text, ..p }
    } else if same_text(tag, "readable") {
        FieldPermission { readable: is_true(text.as_str()), ..p }
    } else if same_text(tag, "editable") {
        FieldPermission { editable: is_true(text.as_str()), ..p }
    } else {
        p
    }
}

fn metadata_from(m: SalesforceMetadata, tag: &str, text: String, keep: bool) -> (r: SalesforceMetadata)
    ensures
        r@ == metadata_with(m@, tag@, text@, keep),
{
    if same_text(tag, "fullName") {
        SalesforceMetadata { full_name: Some(text), ..m }
    } else if same_text(tag, "type") {
        SalesforceMetadata { object_type: Some(text), ..m }
    } else if same_text(tag, "label") {
        SalesforceMetadata { label: Some(text), ..m }
    } else if same_text(tag, "description") && keep {
        SalesforceMetadata { description: Some(text), ..m }
    } else {
        m
    }
}

fn add_obj_perm(
    m: SalesforceMetadata,
    perm: ObjectPermission,
    in_profile: bool,
    in_permission_set: bool,
) -> (r: SalesforceMetadata)
    ensures
        r@ == with_obj_perm(m@, perm@, in_profile, in_permission_set),
{
    let mut m = m;
    if in_profile && m.profile.is_some() {
        let mut profile = m.profile.take().unwrap();
        let ghost before = profile@;
        profile.object_permissions.push(perm);
        assert(profile@.object_permissions =~= before.object_permissions.push(perm@));
        m.profile = Some(profile);
        m
    } else if in_permission_set && m.permission_set.is_some() {
        let mut set = m.permission_set.take().unwrap();
        let ghost before = set@;
        set.object_permissions.push(perm);
        assert(set@.object_permissions =~= before.object_permissions.push(perm@));
        m.permission_set = Some(set);
        m
    } else {
        m
    }
}

fn add_field_perm(
    m: SalesforceMetadata,
    perm: FieldPermission,
    in_profile: bool,
    in_permission_set: bool,
) -> (r: SalesforceMetadata)
    ensures
        r@ == with_field_perm(m@, perm@, in_profile, in_permission_set),
{
    let mut m = m;
    if in_profile && m.profile.is_some() {
        let mut profile = m.profile.take().unwrap();
        let ghost before = profile@;
        profile.field_permissions.push(perm);
        assert(profile@.field_permissions =~= before.field_permissions.push(perm@));
        m.profile = Some(profile);
        m
    } else if in_permission_set && m.permission_set.is_some() {
        let mut set = m.permission_set.take().unwrap();
        let ghost before = set@;
        set.field_permissions.push(perm);
        assert(set@.field_permissions =~= before.field_permissions.push(perm@));
        m.permission_set = Some(set);
        m
    } else {
        m
    }
}

impl Extractor {
    fn start() -> (r: Extractor)
        ensures
            r@ == Extraction::start(),
    {
        Extractor {
            metadata: SalesforceMetadata::default(),
            current_tag: String::new(),
            field: None,
            validation: None,
            workflow: None,
            record_type: None,
            obj_perm: None,
            field_perm: None,
            in_field: false,
            in_validation: false,
            in_workflow: false,
            in_record_type: false,
            in_profile: false,
            in_permission_set: false,
            in_obj_permission: false,
            in_field_permission: false,
        }
    }

    fn begin_field(self) -> (r: Extractor)
        ensures
            r@ == (Extraction { in_field: true, field: Some(blank_field()), ..self@ }),
    {
        let mut s = self;
        s.in_field = true;
        s.field = Some(
            Field {
                name: String::new(),
                field_type: None,
                label: None,
                required: false,
                unique: false,
                length: None,
                description: None,
            },
        );
        s
    }

    fn begin_validation(self) -> (r: Extractor)
        ensures
            r@ == (Extraction { in_validation: true, validation: Some(blank_validation()), ..self@ }),
    {
        let mut s = self;
        s.in_validation = true;
        s.validation = Some(ValidationRule { name: String::new(), active: false, formula: None });
        s
    }

    fn begin_workflow(self) -> (r: Extractor)
        ensures
            r@ == (Extraction { in_workflow: true, workflow: Some(blank_workflow()), ..self@ }),
    {
        let mut s = self;
        s.in_workflow = true;
        s.workflow = Some(Workflow { name: String::new(), active: false });
        s
    }

    fn begin_record_type(self) -> (r: Extractor)
        ensures
            r@ == (Extraction {
                in_record_type: true,
                record_type: Some(blank_record_type()),
                ..self@
            }),
    {
        let mut s = self;
        s.in_record_type = true;
        s.record_type = Some(
            RecordType { name: String::new(), label: None, active: false, business_process: None },
        );
        s
    }

    fn begin_profile(self) -> (r: Extractor)
        ensures
            r@ == (Extraction {
                in_profile: true,
                metadata: MetadataView { profile: Some(blank_profile()), ..self@.metadata },
                ..self@
            }),
    {
        let mut s = self;
        s.in_profile = true;
        let profile = Profile {
            name: String::new(),
            object_permissions: Vec::new(),
            field_permissions: Vec::new(),
            application_visibilities: Vec::new(),
        };
        assert(profile@ =~= blank_profile()) by {
            assert(profile@.object_permissions =~= Seq::empty());
            assert(profile@.field_permissions =~= Seq::empty());
            assert(profile@.application_visibilities =~= Seq::empty());
        }
        s.metadata.profile = Some(profile);
        s
    }

    fn begin_permission_set(self) -> (r: Extractor)
        ensures
            r@ == (Extraction {
                in_permission_set: true,
                metadata: MetadataView {
                    permission_set: Some(blank_permission_set()),
                    ..self@.metadata
                },
                ..self@
            }),
    {
        let mut s = self;
        s.in_permission_set = true;
        let set = PermissionSet {
            name: String::new(),
            label: None,
            object_permissions: Vec::new(),
            field_permissions: Vec::new(),
        };
        assert(set@ =~= blank_permission_set()) by {
            assert(set@.object_permissions =~= Seq::empty());
            assert(set@.field_permissions =~= Seq::empty());
        }
        s.metadata.permission_set = Some(set);
        s
    }

    fn begin_obj_perm(self) -> (r: Extractor)
        ensures
            r@ == (Extraction { in_obj_permission: true, obj_perm: Some(blank_obj_perm()), ..self@ }),
    {
        let mut s = self;
        s.in_obj_permission = true;
        s.obj_perm = Some(
            ObjectPermission {
                object: String::new(),
                allow_create: false,
                allow_read: false,
                allow_edit: false,
                allow_delete: false,
            },
        );
        s
    }

    fn begin_field_perm(self) -> (r: Extractor)
        ensures
            r@ == (Extraction {
                in_field_permission: true,
                field_perm: Some(blank_field_perm()),
                ..self@
            }),
    {
        let mut s = self;
        s.in_field_permission = true;
        s.field_perm = Some(FieldPermission { field: String::new(), readable: false, editable: false });
        s
    }

    fn begin_flow(self) -> (r: Extractor)
        ensures
            r@ == (Extraction {
                metadata: MetadataView { flow: Some(blank_flow()), ..self@.metadata },
                ..self@
            }),
    {
        let mut s = self;
        s.metadata.flow = Some(
            Flow { name: String::new(), label: None, process_type: None, active: false },
        );
        s
    }

    fn tagged(self, name: &str) -> (r: Extractor)
        ensures
            r@ == (Extraction { current_tag: name@, ..self@ }),
    {
        let mut s = self;
        s.current_tag = name.to_owned();
        s
    }

    fn on_open(self, name: &str) -> (r: Extractor)
        ensures
            r@ == self@.opened(name@),
    {
        let marked = if same_text(name, "fields") {
            self.begin_field()
        } else if same_text(name, "validationRules") {
            self.begin_validation()
        } else if same_text(name, "workflow") || same_text(name, "workflowRules") {
            self.begin_workflow()
        } else if same_text(name, "recordTypes") {
            self.begin_record_type()
        } else if same_text(name, "Profile") {
            self.begin_profile()
        } else if same_text(name, "PermissionSet") {
            self.begin_permission_set()
        } else if same_text(name, "objectPermissions") {
            self.begin_obj_perm()
        } else if same_text(name, "fieldPermissions") {
            self.begin_field_perm()
        } else if same_text(name, "Flow") {
            self.begin_flow()
        } else {
            self
        };
        marked.tagged(name)
    }

    fn on_text(self, raw: &str, keep: bool) -> (r: Extractor)
        ensures
            r@ == self@.texted(raw@, keep),
    {
        let mut s = self;
        let text = trim(raw);
        if text.as_str().is_empty() {
            return s;
        }
        if s.in_field {
            match s.field.take() {
                Some(f) => {
                    s.field = Some(field_from(f, s.current_tag.as_str(), text, keep));
                },
                None => {},
            }
        } else if s.in_validation {
            match s.validation.take() {
                Some(v) => {
                    s.validation = Some(validation_from(v, s.current_tag.as_str(), text));
                },
                None => {},
            }
        } else if s.in_workflow {
            match s.workflow.take() {
                Some(w) => {
                    s.workflow = Some(workflow_from(w, s.current_tag.as_str(), text));
                },
                None => {},
            }
        } else if s.in_record_type {
            match s.record_type.take() {
                Some(t) => {
                    s.record_type = Some(record_type_from(t, s.current_tag.as_str(), text));
                },
                None => {},
            }
        } else if s.in_obj_permission {
            match s.obj_perm.take() {
                Some(p) => {
                    s.obj_perm = Some(obj_perm_from(p, s.current_tag.as_str(), text));
                },
                None => {},
            }
        } else if s.in_field_permission {
            match s.field_perm.take() {
                Some(p) => {
                    s.field_perm = Some(field_perm_from(p, s.current_tag.as_str(), text));
                },
                None => {},
            }
        } else {
            let Extractor {
                metadata,
                current_tag,
                field,
                validation,
                workflow,
                record_type,
                obj_perm,
                field_perm,
                in_field,
                in_validation,
                in_workflow,
                in_record_type,
                in_profile,
                in_permission_set,
                in_obj_permission,
                in_field_permission,
            } = s;
            let metadata = metadata_from(metadata, current_tag.as_str(), text, keep);
            return Extractor {
                metadata,
                current_tag,
                field,
                validation,
                workflow,
                record_type,
                obj_perm,
                field_perm,
                in_field,
                in_validation,
                in_workflow,
                in_record_type,
                in_profile,
                in_permission_set,
                in_obj_permission,
                in_field_permission,
            };
        }
        s
    }

    fn on_close(self, name: &str) -> (r: Extractor)
        ensures
            r@ == self@.closed(name@),
    {
        let Extractor {
            metadata,
            current_tag,
            field,
            validation,
            workflow,
            record_type,
            obj_perm,
            field_perm,
            in_field,
            in_validation,
            in_workflow,
            in_record_type,
            in_profile,
            in_permission_set,
            in_obj_permission,
            in_field_permission,
        } = self;
        let mut metadata = metadata;
        let mut field = field;
        let mut validation = validation;
        let mut workflow = workflow;
        let mut record_type = record_type;
        let mut obj_perm = obj_perm;
        let mut field_perm = field_perm;
        let mut in_field = in_field;
        let mut in_validation = in_validation;
        let mut in_workflow = in_workflow;
        let mut in_record_type = in_record_type;
        let mut in_profile = in_profile;
        let mut in_permission_set = in_permission_set;
        let mut in_obj_permission = in_obj_permission;
        let mut in_field_permission = in_field_permission;
        let ghost before = metadata@;
        if same_text(name, "fields") {
            if in_field {
                match field.take() {
                    Some(f) => {
                        if !f.name.as_str().is_empty() {
                            metadata.fields.push(f);
                            assert(metadata@.fields =~= before.fields.push(f@));
                        }
                    },
                    None => {},
                }
                in_field = false;
            }
        } else if same_text(name, "validationRules") {
            if in_validation {
                match validation.take() {
                    Some(v) => {
                        if !v.name.as_str().is_empty() {
                            metadata.validation_rules.push(v);
                            assert(metadata@.validation_rules =~= before.validation_rules.push(v@));
                        }
                    },
                    None => {},
                }
                in_validation = false;
            }
        } else if same_text(name, "workflow") || same_text(name, "workflowRules") {
            if in_workflow {
                match workflow.take() {
                    Some(w) => {
                        if !w.name.as_str().is_empty() {
                            metadata.workflows.push(w);
                            assert(metadata@.workflows =~= before.workflows.push(w@));
                        }
                    },
                    None => {},
                }
                in_workflow = false;
            }
        } else if same_text(name, "recordTypes") {
            if in_record_type {
                match record_type.take() {
                    Some(t) => {
                        if !t.name.as_str().is_empty() {
                            metadata.record_types.push(t);
                            assert(metadata@.record_types =~= before.record_types.push(t@));
                        }
                    },
                    None => {},
                }
                in_record_type = false;
            }
        } else if same_text(name, "objectPermissions") {
            if in_obj_permission {
                match obj_perm.take() {
                    Some(p) => {
                        if !p.object.as_str().is_empty() {
                            metadata = add_obj_perm(metadata, p, in_profile, in_permission_set);
                        }
                    },
                    None => {},
                }
                in_obj_permission = false;
            }
        } else if same_text(name, "fieldPermissions") {
            if in_field_permission {
                match field_perm.take() {
                    Some(p) => {
                        if !p.field.as_str().is_empty() {
                            metadata = add_field_perm(metadata, p, in_profile, in_permission_set);
                        }
                    },
                    None => {},
                }
                in_field_permission = false;
            }
        } else if same_text(name, "Profile") {
            in_profile = false;
        } else if same_text(name, "PermissionSet") {
            in_permission_set = false;
        }
        Extractor {
            metadata,
            current_tag,
            field,
            validation,
            workflow,
            record_type,
            obj_perm,
            field_perm,
            in_field,
            in_validation,
            in_workflow,
            in_record_type,
            in_profile,
            in_permission_set,
            in_obj_permission,
            in_field_permission,
        }
    }
}

/// Reads the record that a document stands for from its structural events:
/// its own name, type and label, and the fields, validation rules, workflows,
/// record types and permissions found in it. Names that are not known are
/// passed over.
pub fn extract_metadata(events: &[XmlEvent], include_descriptions: bool) -> (m: SalesforceMetadata)
    ensures
        m@ == extracted(events_view(events@), include_descriptions),
{
    let ghost all = events_view(events@);
    let mut state = Extractor::start();
    let mut i: usize = 0;
    while i < events.len()
        invariant
            i <= events.len(),
            all == events_view(events@),
            state@ == Extraction::start().run(all.take(i as int), include_descriptions),
        decreases events.len() - i,
    {
        proof {
            assert(all.take(i + 1).drop_last() == all.take(i as int));
            assert(all.take(i + 1).last() == events@[i as int]@);
        }
        state = match &events[i] {
            XmlEvent::Start { name, attrs } => state.on_open(name.as_str()),
            XmlEvent::Empty { name, attrs } => state.on_open(name.as_str()),
            XmlEvent::End { name } => state.on_close(name.as_str()),
            XmlEvent::Text(text) => state.on_text(text.as_str(), include_descriptions),
            XmlEvent::CData(text) => state,
        };
        i = i + 1;
    }
    assert(all.take(events.len() as int) == all);
    state.metadata
}

/// Reads the record that a metadata document stands for. With
/// `include_descriptions` the descriptions of the document and of its fields
/// are kept. A document that cannot be read gives the failure and no record.
pub fn parse_salesforce_xml(xml: &str, include_descriptions: bool) -> (r: Result<
    SalesforceMetadata,
    ParseError,
>)
    ensures
        metadata_result_view(r) == extracted_document(xml@, include_descriptions),
{
    let want = Wanted { attributes: false, text: true, cdata: false };
    match read_events(xml, &want) {
        Ok(events) => Ok(extract_metadata(events.as_slice(), include_descriptions)),
        Err(e) => Err(e),
    }
}

} // verus!
