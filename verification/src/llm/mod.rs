//! Language models.
use crate::chat::{Citation, CitationView};
use vstd::prelude::*;

pub mod claude;
pub mod gemini;
pub mod laws;

verus! {

/// What a language model is asked.
#[derive(Debug, Clone)]
pub struct LlmRequest {
    pub system: String,
    pub user: String,
    /// Earlier messages, the oldest first, without the present one.
    pub history: Vec<HistoryMessage>,
    /// The documents that the answer should rest on.
    pub documents: Vec<RagDocument>,
    pub model: String,
}

/// An earlier message.
#[derive(Debug, Clone)]
pub struct HistoryMessage {
    pub role: HistoryRole,
    pub content: String,
}

/// Who wrote an earlier message.
#[derive(Debug, Clone, Copy, PartialEq, Eq, Structural)]
pub enum HistoryRole {
    User,
    Assistant,
}

/// A document that an answer should rest on.
#[derive(Debug, Clone)]
pub struct RagDocument {
    pub title: String,
    pub url: String,
    pub source_type: String,
    pub text: String,
}

/// What a language model answered.
#[derive(Debug, Clone)]
pub struct LlmResponse {
    pub content: String,
    pub citations: Vec<Citation>,
}

/// The model of what a language model is asked.
pub struct RequestView {
    pub system: Seq<char>,
    pub user: Seq<char>,
    pub history: Seq<HistoryView>,
    pub documents: Seq<RagView>,
    pub model: Seq<char>,
}

/// The model of an earlier message.
pub struct HistoryView {
    pub role: HistoryRole,
    pub content: Seq<char>,
}

/// The model of a document that an answer should rest on.
pub struct RagView {
    pub title: Seq<char>,
    pub url: Seq<char>,
    pub source_type: Seq<char>,
    pub text: Seq<char>,
}

/// The model of what a language model answered.
pub struct ResponseView {
    pub content: Seq<char>,
    pub citations: Seq<CitationView>,
}

impl DeepView for LlmRequest {
    type V = RequestView;

    open spec fn deep_view(&self) -> RequestView {
        RequestView {
            system: self.system@,
            user: self.user@,
            history: self.history.deep_view(),
            documents: self.documents.deep_view(),
            model: self.model@,
        }
    }
}

impl DeepView for HistoryMessage {
    type V = HistoryView;

    open spec fn deep_view(&self) -> HistoryView {
        HistoryView { role: self.role, content: self.content@ }
    }
}

impl DeepView for RagDocument {
    type V = RagView;

    open spec fn deep_view(&self) -> RagView {
        RagView {
            title: self.title@,
            url: self.url@,
            source_type: self.source_type@,
            text: self.text@,
        }
    }
}

impl DeepView for LlmResponse {
    type V = ResponseView;

    open spec fn deep_view(&self) -> ResponseView {
        ResponseView { content: self.content@, citations: self.citations.deep_view() }
    }
}

/// A document as a citation.
pub open spec fn cited(d: RagView) -> CitationView {
    CitationView { title: d.title, url: d.url, source_type: d.source_type }
}

/// A document as a citation.
pub fn cite(d: &RagDocument) -> (r: Citation)
    ensures
        r.deep_view() == cited(d.deep_view()),
{
    Citation { title: d.title.clone(), url: d.url.clone(), source_type: d.source_type.clone() }
}

/// Whether an HTTP status says that a request was served.
pub fn is_success(status: u16) -> (r: bool)
    ensures
        r == (200 <= status < 300),
{
    200 <= status && status < 300
}

} // verus!
