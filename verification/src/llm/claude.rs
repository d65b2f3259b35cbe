//! Requests to the Messages interface of Anthropic.
use crate::chat::{Citation, CitationView};
use crate::llm::{
    HistoryRole, HistoryView, LlmRequest, LlmResponse, RagDocument, RagView, RequestView,
    ResponseView,
};
use crate::text;
use vstd::prelude::*;

verus! {

/// The address of the interface.
pub const ANTHROPIC_API: &'static str = "https://api.anthropic.com/v1/messages";

/// The version of the interface.
pub const ANTHROPIC_VERSION: &'static str = "2023-06-01";

/// The largest number of tokens in an answer.
pub const MAX_TOKENS: u32 = 2048;

/// A request.
#[derive(Debug)]
pub struct MessagesRequest {
    pub model: String,
    pub max_tokens: u32,
    pub system: String,
    pub messages: Vec<Message>,
}

/// A message of a request.
#[derive(Debug)]
pub struct Message {
    pub role: String,
    pub content: Vec<ContentBlock>,
}

/// A part of a message.
#[derive(Debug)]
pub enum ContentBlock {
    Text { text: String },
    /// A document that may be cited.
    Document { title: String, data: String },
}

/// A part of an answer.
#[derive(Debug)]
pub enum ResponseBlock {
    Text { text: String, citations: Vec<ResponseCitation> },
    Other,
}

/// A citation in an answer.
#[derive(Debug)]
pub struct ResponseCitation {
    pub document_index: Option<usize>,
    pub document_title: Option<String>,
}

/// The model of a request.
pub struct MessagesView {
    pub model: Seq<char>,
    pub max_tokens: u32,
    pub system: Seq<char>,
    pub messages: Seq<ClaudeMessageView>,
}

/// The model of a message of a request.
pub struct ClaudeMessageView {
    pub role: Seq<char>,
    pub content: Seq<BlockView>,
}

/// The model of a part of a message.
pub enum BlockView {
    Text(Seq<char>),
    /// Title and text.
    Document(Seq<char>, Seq<char>),
}

/// The model of a part of an answer.
pub enum AnswerView {
    Text(Seq<char>, Seq<AnswerCitationView>),
    Other,
}

/// The model of a citation in an answer.
pub struct AnswerCitationView {
    pub document_index: Option<usize>,
    pub document_title: Option<Seq<char>>,
}

impl DeepView for MessagesRequest {
    type V = MessagesView;

    open spec fn deep_view(&self) -> MessagesView {
        MessagesView {
            model: self.model@,
            max_tokens: self.max_tokens,
            system: self.system@,
            messages: self.messages.deep_view(),
        }
    }
}

impl DeepView for Message {
    type V = ClaudeMessageView;

    open spec fn deep_view(&self) -> ClaudeMessageView {
        ClaudeMessageView { role: self.role@, content: self.content.deep_view() }
    }
}

impl DeepView for ContentBlock {
    type V = BlockView;

    open spec fn deep_view(&self) -> BlockView {
        match self {
            ContentBlock::Text { text } => BlockView::Text(text@),
            ContentBlock::Document { title, data } => BlockView::Document(title@, data@),
        }
    }
}

impl DeepView for ResponseBlock {
    type V = AnswerView;

    open spec fn deep_view(&self) -> AnswerView {
        match self {
            ResponseBlock::Text { text, citations } => AnswerView::Text(
                text@,
                citations.deep_view(),
            ),
            ResponseBlock::Other => AnswerView::Other,
        }
    }
}

impl DeepView for ResponseCitation {
    type V = AnswerCitationView;

    open spec fn deep_view(&self) -> AnswerCitationView {
        AnswerCitationView {
            document_index: self.document_index,
            document_title: self.document_title.deep_view(),
        }
    }
}

// ---------------------------------------------------------------------------
// Requests

/// What the writer of an earlier message is called.
pub open spec fn role_name(role: HistoryRole) -> Seq<char> {
    match role {
        HistoryRole::User => "user"@,
        HistoryRole::Assistant => "assistant"@,
    }
}

/// An earlier message in a request.
pub open spec fn earlier_message(m: HistoryView) -> ClaudeMessageView {
    ClaudeMessageView { role: role_name(m.role), content: seq![BlockView::Text(m.content)] }
}

/// A document in a request.
pub open spec fn document_block(d: RagView) -> BlockView {
    BlockView::Document(d.title, d.text)
}

/// The present message: the documents, and the question behind them.
pub open spec fn question_message(req: RequestView) -> ClaudeMessageView {
    ClaudeMessageView {
        role: "user"@,
        content: req.documents.map_values(|d: RagView| document_block(d)).push(
            BlockView::Text(req.user),
        ),
    }
}

/// A request to the Messages interface.
pub open spec fn claude_request(req: RequestView) -> MessagesView {
    MessagesView {
        model: req.model,
        max_tokens: MAX_TOKENS,
        system: req.system,
        messages: req.history.map_values(|m: HistoryView| earlier_message(m)).push(
            question_message(req),
        ),
    }
}

/// A message with a single text.
fn text_message(role: &str, body: &String) -> (r: Message)
    ensures
        r.deep_view() == (ClaudeMessageView { role: role@, content: seq![BlockView::Text(body@)] }),
{
    let mut content: Vec<ContentBlock> = Vec::new();
    content.push(ContentBlock::Text { text: body.clone() });
    assert(content.deep_view() =~= seq![BlockView::Text(body@)]);
    Message { role: role.to_owned(), content }
}

/// The present message.
fn question_of(req: &LlmRequest) -> (r: Message)
    ensures
        r.deep_view() == question_message(req.deep_view()),
{
    let ghost docs = req.documents.deep_view();
    let mut content: Vec<ContentBlock> = Vec::new();
    assert(content.deep_view() =~= Seq::empty());
    for i in 0..req.documents.len()
        invariant
            docs == req.documents.deep_view(),
            content.deep_view() == docs.take(i as int).map_values(|d: RagView| document_block(d)),
    {
        let ghost before = content.deep_view();
        assert(docs[i as int] == req.documents@[i as int].deep_view());
        let b = ContentBlock::Document {
            title: req.documents[i].title.clone(),
            data: req.documents[i].text.clone(),
        };
        content.push(b);
        assert(content.deep_view() =~= before.push(b.deep_view()));
        assert(docs.take(i + 1) =~= docs.take(i as int).push(docs[i as int]));
        assert(content.deep_view() =~= docs.take(i + 1).map_values(
            |d: RagView| document_block(d),
        ));
    }
    assert(docs.take(req.documents.len() as int) =~= docs);
    let ghost before = content.deep_view();
    let b = ContentBlock::Text { text: req.user.clone() };
    content.push(b);
    assert(content.deep_view() =~= before.push(b.deep_view()));
    Message { role: "user".to_owned(), content }
}

/// A request to the Messages interface.
pub fn build_messages(req: &LlmRequest) -> (r: MessagesRequest)
    ensures
        r.deep_view() == claude_request(req.deep_view()),
{
    let ghost history = req.history.deep_view();
    let mut messages: Vec<Message> = Vec::new();
    assert(messages.deep_view() =~= Seq::empty());
    for i in 0..req.history.len()
        invariant
            history == req.history.deep_view(),
            messages.deep_view() == history.take(i as int).map_values(
                |m: HistoryView| earlier_message(m),
            ),
    {
        let ghost before = messages.deep_view();
        assert(history[i as int] == req.history@[i as int].deep_view());
        let m = match req.history[i].role {
            HistoryRole::User => text_message("user", &req.history[i].content),
            HistoryRole::Assistant => text_message("assistant", &req.history[i].content),
        };
        messages.push(m);
        assert(messages.deep_view() =~= before.push(m.deep_view()));
        assert(history.take(i + 1) =~= history.take(i as int).push(history[i as int]));
        assert(messages.deep_view() =~= history.take(i + 1).map_values(
            |m: HistoryView| earlier_message(m),
        ));
    }
    assert(history.take(req.history.len() as int) =~= history);
    let ghost before = messages.deep_view();
    let m = question_of(req);
    messages.push(m);
    assert(messages.deep_view() =~= before.push(m.deep_view()));
    MessagesRequest {
        model: req.model.clone(),
        max_tokens: MAX_TOKENS,
        system: req.system.clone(),
        messages,
    }
}

// ---------------------------------------------------------------------------
// Answers

/// The document that a citation is of, if there is one with its number; without
/// a number it is the first.
pub open spec fn document_at(docs: Seq<RagView>, index: Option<usize>) -> Option<RagView> {
    let i = match index {
        Some(i) => i as int,
        None => 0,
    };
    if i < docs.len() {
        Some(docs[i])
    } else {
        None
    }
}

/// A citation in an answer: under the title that it gives, or else under that
/// of the document.
pub open spec fn resolved(docs: Seq<RagView>, c: AnswerCitationView) -> CitationView {
    let title = text::text_or_empty(c.document_title);
    match document_at(docs, c.document_index) {
        Some(d) => CitationView {
            title: if title.len() == 0 {
                d.title
            } else {
                title
            },
            url: d.url,
            source_type: d.source_type,
        },
        None => CitationView { title, url: Seq::empty(), source_type: Seq::empty() },
    }
}

/// An answer: the texts one after another, and all citations in order.
pub open spec fn claude_answer(docs: Seq<RagView>, blocks: Seq<AnswerView>) -> ResponseView
    decreases blocks.len(),
{
    if blocks.len() == 0 {
        ResponseView { content: Seq::empty(), citations: Seq::empty() }
    } else {
        let before = claude_answer(docs, blocks.drop_last());
        match blocks.last() {
            AnswerView::Text(body, citations) => ResponseView {
                content: before.content + body,
                citations: before.citations + citations.map_values(
                    |c: AnswerCitationView| resolved(docs, c),
                ),
            },
            AnswerView::Other => before,
        }
    }
}

/// `resolved`, executable.
fn resolve(docs: &Vec<RagDocument>, c: &ResponseCitation) -> (r: Citation)
    ensures
        r.deep_view() == resolved(docs.deep_view(), c.deep_view()),
{
    let title = text::or_empty(&c.document_title);
    let i: usize = match c.document_index {
        Some(i) => i,
        None => 0,
    };
    if i < docs.len() {
        let d = &docs[i];
        assert(docs.deep_view()[i as int] == d.deep_view());
        Citation {
            title: if title.as_str().is_empty() {
                d.title.clone()
            } else {
                title
            },
            url: d.url.clone(),
            source_type: d.source_type.clone(),
        }
    } else {
        Citation { title, url: String::new(), source_type: String::new() }
    }
}

/// The citations of a part of an answer.
fn resolve_all(docs: &Vec<RagDocument>, citations: &Vec<ResponseCitation>) -> (r: Vec<Citation>)
    ensures
        r.deep_view() == citations.deep_view().map_values(
            |c: AnswerCitationView| resolved(docs.deep_view(), c),
        ),
{
    let ghost all = citations.deep_view();
    let ghost ds = docs.deep_view();
    let mut out: Vec<Citation> = Vec::new();
    assert(out.deep_view() =~= Seq::empty());
    for i in 0..citations.len()
        invariant
            all == citations.deep_view(),
            ds == docs.deep_view(),
            out.deep_view() == all.take(i as int).map_values(
                |c: AnswerCitationView| resolved(ds, c),
            ),
    {
        let ghost before = out.deep_view();
        assert(all[i as int] == citations@[i as int].deep_view());
        let c = resolve(docs, &citations[i]);
        out.push(c);
        assert(out.deep_view() =~= before.push(c.deep_view()));
        assert(all.take(i + 1) =~= all.take(i as int).push(all[i as int]));
        assert(out.deep_view() =~= all.take(i + 1).map_values(
            |c: AnswerCitationView| resolved(ds, c),
        ));
    }
    assert(all.take(citations.len() as int) =~= all);
    out
}

/// An answer of the Messages interface to a request with these documents.
pub fn read_answer(docs: &Vec<RagDocument>, blocks: &Vec<ResponseBlock>) -> (r: LlmResponse)
    ensures
        r.deep_view() == claude_answer(docs.deep_view(), blocks.deep_view()),
{
    let ghost all = blocks.deep_view();
    let ghost ds = docs.deep_view();
    let mut content = String::new();
    let mut citations: Vec<Citation> = Vec::new();
    assert(citations.deep_view() =~= Seq::empty());
    for i in 0..blocks.len()
        invariant
            all == blocks.deep_view(),
            ds == docs.deep_view(),
            content@ == claude_answer(ds, all.take(i as int)).content,
            citations.deep_view() == claude_answer(ds, all.take(i as int)).citations,
    {
        assert(all.take(i + 1).drop_last() =~= all.take(i as int));
        assert(all.take(i + 1).last() == blocks@[i as int].deep_view());
        match &blocks[i] {
            ResponseBlock::Text { text, citations: cs } => {
                let ghost before = citations.deep_view();
                content.append(text.as_str());
                let mut more = resolve_all(docs, cs);
                let ghost added = more.deep_view();
                citations.append(&mut more);
                assert(citations.deep_view() =~= before + added);
            },
            ResponseBlock::Other => {},
        }
    }
    assert(all.take(blocks.len() as int) =~= all);
    LlmResponse { content, citations }
}

} // verus!
