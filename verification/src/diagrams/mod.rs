pub mod drawio;
pub mod laws;
pub mod mermaid;
pub mod pages;

pub use drawio::{parse_drawio, DrawioDiagram};
pub use mermaid::extract_mermaid_text;
