pub mod batch;
pub mod cli;
pub mod parser;
pub mod render;
pub mod text;
pub mod util;
pub mod xml;
