use crate::parser::types::object::text_view;
use vstd::prelude::*;

verus! {

#[derive(Debug, Clone, PartialEq, Eq)]
pub struct Profile {
    pub name: String,
    pub object_permissions: Vec<ObjectPermission>,
    pub field_permissions: Vec<FieldPermission>,
    pub application_visibilities: Vec<String>,
}

#[derive(Debug, Clone, PartialEq, Eq)]
pub struct PermissionSet {
    pub name: String,
    pub label: Option<String>,
    pub object_permissions: Vec<ObjectPermission>,
    pub field_permissions: Vec<FieldPermission>,
}

#[derive(Debug, Clone, PartialEq, Eq)]
pub struct ObjectPermission {
    pub object: String,
    pub allow_create: bool,
    pub allow_read: bool,
    pub allow_edit: bool,
    pub allow_delete: bool,
}

#[derive(Debug, Clone, PartialEq, Eq)]
pub struct FieldPermission {
    pub field: String,
    pub readable: bool,
    pub editable: bool,
}

#[derive(Debug, Clone, PartialEq, Eq)]
pub struct SharingRule {
    pub name: String,
    pub access_level: Option<String>,
}

pub struct ObjectPermissionView {
    pub object: Seq<char>,
    pub allow_create: bool,
    pub allow_read: bool,
    pub allow_edit: bool,
    pub allow_delete: bool,
}

pub struct FieldPermissionView {
    pub field: Seq<char>,
    pub readable: bool,
    pub editable: bool,
}

pub struct ProfileView {
    pub name: Seq<char>,
    pub object_permissions: Seq<ObjectPermissionView>,
    pub field_permissions: Seq<FieldPermissionView>,
    pub application_visibilities: Seq<Seq<char>>,
}

pub struct PermissionSetView {
    pub name: Seq<char>,
    pub label: Option<Seq<char>>,
    pub object_permissions: Seq<ObjectPermissionView>,
    pub field_permissions: Seq<FieldPermissionView>,
}

impl View for ObjectPermission {
    type V = ObjectPermissionView;

    open spec fn view(&self) -> ObjectPermissionView {
        ObjectPermissionView {
            object: self.object@,
            allow_create: self.allow_create,
            allow_read: self.allow_read,
            allow_edit: self.allow_edit,
            allow_delete: self.allow_delete,
        }
    }
}

impl View for FieldPermission {
    type V = FieldPermissionView;

    open spec fn view(&self) -> FieldPermissionView {
        FieldPermissionView { field: self.field@, readable: self.readable, editable: self.editable }
    }
}

impl View for Profile {
    type V = ProfileView;

    open spec fn view(&self) -> ProfileView {
        ProfileView {
            name: self.name@,
            object_permissions: self.object_permissions@.map_values(|p: ObjectPermission| p@),
            field_permissions: self.field_permissions@.map_values(|p: FieldPermission| p@),
            application_visibilities: self.application_visibilities@.map_values(|s: String| s@),
        }
    }
}

impl View for PermissionSet {
    type V = PermissionSetView;

    open spec fn view(&self) -> PermissionSetView {
        PermissionSetView {
            name: self.name@,
            label: text_view(self.label),
            object_permissions: self.object_permissions@.map_values(|p: ObjectPermission| p@),
            field_permissions: self.field_permissions@.map_values(|p: FieldPermission| p@),
        }
    }
}

} // verus!
