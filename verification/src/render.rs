pub mod compact;
pub mod json;
pub mod json_value;
pub mod toon;

pub use compact as render_compact;
pub use json as render_json;
pub use toon as render_toon;
