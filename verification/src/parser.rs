pub mod format;
pub mod metadata;
pub mod parse;
pub mod types;

pub use format::{to_compact_format, to_toon_format};
pub use metadata::{is_false, SalesforceMetadata};
pub use parse::{extract_metadata, parse_salesforce_xml};
pub use types::{
    ApexClass, ApexTrigger, Dashboard, EmailTemplate, Field, FieldPermission, Flow, Layout,
    LayoutSection, LightningComponent, ObjectPermission, PermissionSet, Profile, RecordType,
    Report, SharingRule, Tab, ValidationRule, Workflow,
};
