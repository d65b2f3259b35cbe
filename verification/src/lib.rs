pub mod app;
pub mod atlassian;
pub mod chat;
pub mod chunking;
pub mod codec;
pub mod config;
pub mod diagrams;
pub mod embedding;
pub mod ingest;
pub mod json;
pub mod lists;
pub mod llm;
pub mod review;
pub mod review_laws;
pub mod service_laws;
pub mod text;
pub mod text_laws;
pub mod vectordb;
pub mod vision;
pub mod xml;
