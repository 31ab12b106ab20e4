pub mod counters;
pub mod events;
pub mod flatten;
pub mod laws;
pub mod options;
pub mod raw;
pub mod siblings;

pub use events::{XmlAttr, XmlEvent};
pub use flatten::{flatten_events, flatten_xml_str, FlatEntry, ValueKind};
pub use raw::ParseError;
pub use options::FlattenOptions;
