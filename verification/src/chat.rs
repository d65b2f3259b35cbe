//! Questions about the collected knowledge.
use crate::llm::{
    HistoryMessage, HistoryRole, HistoryView, LlmRequest, RagDocument, RagView, RequestView,
};
use crate::vectordb::{HitView, SearchHit};
use vstd::prelude::*;

verus! {

/// A message of a conversation.
#[derive(Debug)]
pub struct ChatMessage {
    pub role: Role,
    pub content: String,
    pub citations: Vec<Citation>,
}

/// Who wrote a message.
#[derive(Debug, Clone, Copy, PartialEq, Eq, Structural)]
pub enum Role {
    User,
    Assistant,
}

/// A document that an answer rests on.
#[derive(Debug)]
pub struct Citation {
    pub title: String,
    pub url: String,
    pub source_type: String,
}

/// The model of a document that an answer rests on.
pub struct CitationView {
    pub title: Seq<char>,
    pub url: Seq<char>,
    pub source_type: Seq<char>,
}

impl DeepView for Citation {
    type V = CitationView;

    open spec fn deep_view(&self) -> CitationView {
        CitationView { title: self.title@, url: self.url@, source_type: self.source_type@ }
    }
}

impl Clone for Citation {
    fn clone(&self) -> (r: Self)
        ensures
            r.deep_view() == self.deep_view(),
    {
        Citation {
            title: self.title.clone(),
            url: self.url.clone(),
            source_type: self.source_type.clone(),
        }
    }
}

/// The model of a message of a conversation.
pub struct MessageView {
    pub role: Role,
    pub content: Seq<char>,
    pub citations: Seq<CitationView>,
}

impl DeepView for ChatMessage {
    type V = MessageView;

    open spec fn deep_view(&self) -> MessageView {
        MessageView {
            role: self.role,
            content: self.content@,
            citations: self.citations.deep_view(),
        }
    }
}

impl Clone for ChatMessage {
    fn clone(&self) -> (r: Self)
        ensures
            r.deep_view() == self.deep_view(),
    {
        let citations = self.citations.clone();
        assert(citations.deep_view() =~= self.citations.deep_view());
        ChatMessage { role: self.role, content: self.content.clone(), citations }
    }
}

/// What the language model is told to do.
pub const SYSTEM_PROMPT: &'static str = "\
あなたは社内ナレッジ検索アシスタントです。\
ユーザーの質問に対し、提供された Jira / Confluence の抜粋に基づいて日本語で回答してください。\
方針:\n\
- 抜粋に該当する根拠がある場合: その内容を優先し、引用元を明示する\n\
- 抜粋に該当情報がない、または抜粋が空の場合: 一般的な範囲で答えつつ、\"ナレッジ内に該当情報は見つかりませんでした\" と一言添える\n\
- 推測で具体的な値や手順を断定しない。曖昧な場合は曖昧と伝える\n\
- ドキュメント間で食い違いを見つけた場合は ⚠️ を付けて明示する\n\
- 過去の会話履歴も踏まえて自然に応答する\
";

/// The largest number of earlier messages that the language model is given.
pub const HISTORY_LIMIT: usize = 8;

/// The number of records that a question is answered from.
pub const TOP_K: usize = 10;

/// A hit as a document for the language model.
pub open spec fn rag_document(h: HitView) -> RagView {
    RagView {
        title: h.chunk.title + " ("@ + h.chunk.source_id + ")"@,
        url: h.chunk.url,
        source_type: h.chunk.source_type,
        text: h.chunk.text,
    }
}

/// An earlier message as the language model is given it.
pub open spec fn history_message(m: MessageView) -> HistoryView {
    HistoryView {
        role: match m.role {
            Role::User => HistoryRole::User,
            Role::Assistant => HistoryRole::Assistant,
        },
        content: m.content,
    }
}

/// The last messages, no more than `HISTORY_LIMIT`, the oldest first.
pub open spec fn recent(history: Seq<MessageView>) -> Seq<MessageView> {
    if history.len() <= HISTORY_LIMIT {
        history
    } else {
        history.skip(history.len() - HISTORY_LIMIT)
    }
}

/// What the language model is asked.
pub open spec fn rag_request(
    model: Seq<char>,
    question: Seq<char>,
    history: Seq<MessageView>,
    hits: Seq<HitView>,
) -> RequestView {
    RequestView {
        system: SYSTEM_PROMPT@,
        user: question,
        history: recent(history).map_values(|m: MessageView| history_message(m)),
        documents: hits.map_values(|h: HitView| rag_document(h)),
        model,
    }
}

/// A hit as a document for the language model.
pub fn document_of(h: &SearchHit) -> (r: RagDocument)
    ensures
        r.deep_view() == rag_document(h.deep_view()),
{
    let mut title = h.chunk.title.clone();
    title.append(" (");
    title.append(h.chunk.source_id.as_str());
    title.append(")");
    RagDocument {
        title,
        url: h.chunk.url.clone(),
        source_type: h.chunk.source_type.clone(),
        text: h.chunk.text.clone(),
    }
}

/// Hits as documents for the language model.
pub fn documents_of(hits: &Vec<SearchHit>) -> (r: Vec<RagDocument>)
    ensures
        r.deep_view() == hits.deep_view().map_values(|h: HitView| rag_document(h)),
{
    let ghost all = hits.deep_view();
    let mut out: Vec<RagDocument> = Vec::new();
    assert(out.deep_view() =~= all.take(0).map_values(|h: HitView| rag_document(h)));
    for i in 0..hits.len()
        invariant
            all == hits.deep_view(),
            out.deep_view() == all.take(i as int).map_values(|h: HitView| rag_document(h)),
    {
        let ghost before = out.deep_view();
        assert(all[i as int] == hits@[i as int].deep_view());
        let d = document_of(&hits[i]);
        out.push(d);
        assert(out.deep_view() =~= before.push(d.deep_view()));
        assert(all.take(i + 1) =~= all.take(i as int).push(all[i as int]));
        assert(out.deep_view() =~= all.take(i + 1).map_values(|h: HitView| rag_document(h)));
    }
    assert(all.take(hits.len() as int) =~= all);
    out
}

/// The last messages as the language model is given them.
pub fn trimmed_history(history: &Vec<ChatMessage>) -> (r: Vec<HistoryMessage>)
    ensures
        r.deep_view() == recent(history.deep_view()).map_values(
            |m: MessageView| history_message(m),
        ),
        r@.len() <= HISTORY_LIMIT,
{
    let ghost all = history.deep_view();
    let n = history.len();
    let from: usize = if n <= HISTORY_LIMIT {
        0
    } else {
        n - HISTORY_LIMIT
    };
    assert(recent(all) =~= all.skip(from as int));
    let mut out: Vec<HistoryMessage> = Vec::new();
    assert(out.deep_view() =~= Seq::empty());
    let mut i: usize = from;
    while i < n
        invariant
            from <= i <= n,
            n == history@.len(),
            all == history.deep_view(),
            out@.len() == i - from,
            out.deep_view() == all.subrange(from as int, i as int).map_values(
                |m: MessageView| history_message(m),
            ),
        decreases n - i,
    {
        let ghost before = out.deep_view();
        assert(all[i as int] == history@[i as int].deep_view());
        let role = match history[i].role {
            Role::User => HistoryRole::User,
            Role::Assistant => HistoryRole::Assistant,
        };
        let m = HistoryMessage { role, content: history[i].content.clone() };
        out.push(m);
        assert(out.deep_view() =~= before.push(m.deep_view()));
        assert(all.subrange(from as int, i + 1) =~= all.subrange(from as int, i as int).push(
            all[i as int],
        ));
        i += 1;
        assert(out.deep_view() =~= all.subrange(from as int, i as int).map_values(
            |m: MessageView| history_message(m),
        ));
    }
    assert(all.subrange(from as int, n as int) =~= recent(all));
    out
}

/// What the language model is asked: the question, the last of the messages
/// before it, and the hits as documents.
pub fn build_request(
    model: &str,
    question: &str,
    history: &Vec<ChatMessage>,
    hits: &Vec<SearchHit>,
) -> (r: LlmRequest)
    ensures
        r.deep_view() == rag_request(
            model@,
            question@,
            history.deep_view(),
            hits.deep_view(),
        ),
{
    LlmRequest {
        system: SYSTEM_PROMPT.to_owned(),
        user: question.to_owned(),
        history: trimmed_history(history),
        documents: documents_of(hits),
        model: model.to_owned(),
    }
}

/// The vector of the question: the first that came, empty where none did.
pub fn question_vector(vectors: &Vec<Vec<u32>>) -> (r: Vec<u32>)
    ensures
        r@ == (if vectors@.len() == 0 {
            Seq::empty()
        } else {
            vectors@[0]@
        }),
{
    if vectors.len() == 0 {
        Vec::new()
    } else {
        let r = vectors[0].clone();
        assert(r@ =~= vectors@[0]@);
        r
    }
}

/// The hits that a question is answered from: those of the search, none where
/// it failed.
pub fn hits_or_none(search: Option<Vec<SearchHit>>) -> (r: Vec<SearchHit>)
    ensures
        r.deep_view() == (match search.deep_view() {
            Some(hits) => hits,
            None => Seq::empty(),
        }),
{
    match search {
        Some(hits) => hits,
        None => {
            let r: Vec<SearchHit> = Vec::new();
            assert(r.deep_view() =~= Seq::empty());
            r
        },
    }
}

// ---------------------------------------------------------------------------
// Laws

/// The messages that the language model is given are the last ones, in order,
/// and no more than `HISTORY_LIMIT`; a short conversation is given whole.
pub proof fn law_recent_messages(history: Seq<MessageView>)
    ensures
        recent(history).len() <= HISTORY_LIMIT,
        recent(history).is_suffix_of(history),
        history.len() <= HISTORY_LIMIT ==> recent(history) == history,
        history.len() >= HISTORY_LIMIT ==> recent(history).len() == HISTORY_LIMIT,
{
    let r = recent(history);
    assert(r =~= history.subrange(history.len() - r.len(), history.len() as int));
}

} // verus!
