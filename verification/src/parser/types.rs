pub mod analytics;
pub mod automation;
pub mod object;
pub mod security;
pub mod ui;

pub use analytics::{Dashboard, EmailTemplate, LightningComponent, Report};
pub use automation::{ApexClass, ApexTrigger, Flow};
pub use object::{Field, RecordType, ValidationRule, Workflow};
pub use security::{FieldPermission, ObjectPermission, PermissionSet, Profile, SharingRule};
pub use ui::{Layout, LayoutSection, Tab};
