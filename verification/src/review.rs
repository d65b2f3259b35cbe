//! Reviews of documents against the collected knowledge.
use crate::chat;
use crate::chat::document_of;
use crate::chunking;
use crate::chunking::{split, CHUNK_CHARS};
use crate::llm::{HistoryMessage, LlmRequest, RagDocument, RagView, RequestView};
use crate::text;
use crate::text::{
    chars_of, last_position, number, position_from, replaced, same, starts_with, text_between,
    trimmed,
};
use crate::vectordb::{HitView, SearchHit};
use vstd::prelude::*;

verus! {

/// The result of a review.
#[derive(Debug, Clone)]
pub struct ReviewResult {
    pub doc_title: String,
    pub doc_source_id: String,
    pub doc_url: String,
    /// The UNIX time of the review, in seconds.
    pub reviewed_at: i64,
    pub contradictions: Vec<ContradictionFinding>,
    pub duplicates: Vec<DuplicateFinding>,
    pub gaps: Vec<String>,
    pub terminology: Vec<TerminologyFinding>,
    pub overall_grade: String,
    pub summary: String,
    /// The answer of the language model, where it could not be read.
    pub raw_response: String,
}

/// A contradiction to what is known.
#[derive(Debug, Clone)]
pub struct ContradictionFinding {
    pub new_excerpt: String,
    pub existing_title: String,
    pub existing_url: String,
    pub explanation: String,
}

/// A repetition of what is known.
#[derive(Debug, Clone)]
pub struct DuplicateFinding {
    pub new_section: String,
    pub existing_title: String,
    pub existing_url: String,
    pub overlap_note: String,
}

/// A word that is used otherwise than before.
#[derive(Debug, Clone)]
pub struct TerminologyFinding {
    pub new_term: String,
    pub existing_term: String,
    pub suggestion: String,
}

impl ReviewResult {
    /// Whether nothing was found.
    pub open spec fn finds_nothing(&self) -> bool {
        self.contradictions@.len() == 0 && self.duplicates@.len() == 0 && self.gaps@.len() == 0
            && self.terminology@.len() == 0
    }

    /// Whether all is empty.
    pub open spec fn is_empty_view(&self) -> bool {
        &&& self.finds_nothing()
        &&& self.doc_title@.len() == 0
        &&& self.doc_source_id@.len() == 0
        &&& self.doc_url@.len() == 0
        &&& self.reviewed_at == 0
        &&& self.overall_grade@.len() == 0
        &&& self.summary@.len() == 0
        &&& self.raw_response@.len() == 0
    }
}

impl Default for ReviewResult {
    fn default() -> (r: Self)
        ensures
            r.is_empty_view(),
    {
        ReviewResult {
            doc_title: String::new(),
            doc_source_id: String::new(),
            doc_url: String::new(),
            reviewed_at: 0,
            contradictions: Vec::new(),
            duplicates: Vec::new(),
            gaps: Vec::new(),
            terminology: Vec::new(),
            overall_grade: String::new(),
            summary: String::new(),
            raw_response: String::new(),
        }
    }
}

/// What the language model is told to do.
pub const SYSTEM: &'static str = "\
あなたはドキュメント品質レビュアーです。\
新規ドキュメント [NEW] と、関連既存ナレッジ [EXISTING] を比較し、4観点で問題を抽出します:\n\
1. 矛盾 (contradictions): NEW の主張と EXISTING の主張が食い違う\n\
2. 重複 (duplicates): NEW が EXISTING の内容を再記述している\n\
3. 欠落 (gaps): NEW が触れるべきだが抜けているトピック\n\
4. 用語不整合 (terminology): NEW が EXISTING と命名・略称が揃っていない\n\
\n\
回答は必ず JSON のみ。前後にマークダウンや説明文を含めないこと。日本語で記述。\
";

/// The question, with places for the title, the text and what is known.
pub const USER_TEMPLATE: &'static str = "\
## NEW ドキュメント\n\
タイトル: {TITLE}\n\
本文:\n\
{NEW_BODY}\n\
\n\
## EXISTING 関連ナレッジ\n\
{EXISTING_DOCS}\n\
\n\
以下の JSON スキーマで回答してください:\n\
```json\n\
{\n\
  \"contradictions\": [\n\
    {\"new_excerpt\": \"\", \"existing_title\": \"\", \"existing_url\": \"\", \"explanation\": \"\"}\n\
  ],\n\
  \"duplicates\": [\n\
    {\"new_section\": \"\", \"existing_title\": \"\", \"existing_url\": \"\", \"overlap_note\": \"\"}\n\
  ],\n\
  \"gaps\": [\"\"],\n\
  \"terminology\": [\n\
    {\"new_term\": \"\", \"existing_term\": \"\", \"suggestion\": \"\"}\n\
  ],\n\
  \"overall_grade\": \"A\",\n\
  \"summary\": \"\"\n\
}\n\
```\n\
\n\
該当なしの観点は空配列にしてください。回答は JSON 1個のみ。\
";

/// The number of records that each search of a review asks for.
pub const TOP_K: usize = 5;

// ---------------------------------------------------------------------------
// What is known

/// The texts that are searched for: the document, or its chunks where it is
/// long.
pub open spec fn queries(body: Seq<char>) -> Seq<Seq<char>> {
    if body.len() > CHUNK_CHARS {
        chunking::split_text(body)
    } else {
        seq![body]
    }
}

/// The texts that are searched for.
pub fn review_queries(body: &str) -> (r: Vec<String>)
    ensures
        r.deep_view() == queries(body@),
{
    if body.unicode_len() > CHUNK_CHARS {
        split(body)
    } else {
        let mut r: Vec<String> = Vec::new();
        r.push(body.to_owned());
        assert(r.deep_view() =~= seq![body@]);
        r
    }
}

/// Related documents, and the ids of the records that they are from.
pub struct Related {
    pub docs: Vec<RagDocument>,
    pub ids: Vec<String>,
}

/// The model of related documents.
pub struct RelatedView {
    pub docs: Seq<RagView>,
    pub ids: Seq<Seq<char>>,
}

impl DeepView for Related {
    type V = RelatedView;

    open spec fn deep_view(&self) -> RelatedView {
        RelatedView { docs: self.docs.deep_view(), ids: self.ids.deep_view() }
    }
}

/// Nothing.
pub open spec fn nothing_related() -> RelatedView {
    RelatedView { docs: Seq::empty(), ids: Seq::empty() }
}

/// With one hit more: it is left out where it is of the document itself or its
/// record is there already.
pub open spec fn with_hit(s: RelatedView, source_id: Seq<char>, h: HitView) -> RelatedView {
    if h.chunk.source_id == source_id || s.ids.contains(h.chunk.id) {
        s
    } else {
        RelatedView {
            docs: s.docs.push(chat::rag_document(h)),
            ids: s.ids.push(h.chunk.id),
        }
    }
}

/// With the hits of a search more.
pub open spec fn with_hits(s: RelatedView, source_id: Seq<char>, hits: Seq<HitView>) -> RelatedView
    decreases hits.len(),
{
    if hits.len() == 0 {
        s
    } else {
        with_hit(with_hits(s, source_id, hits.drop_last()), source_id, hits.last())
    }
}

impl Related {
    /// Nothing yet.
    pub fn new() -> (r: Self)
        ensures
            r.deep_view() == nothing_related(),
    {
        let r = Related { docs: Vec::new(), ids: Vec::new() };
        assert(r.docs.deep_view() =~= Seq::empty());
        assert(r.ids.deep_view() =~= Seq::empty());
        r
    }

    /// Whether the record with this id is there already.
    fn has(&self, id: &str) -> (r: bool)
        ensures
            r == self.deep_view().ids.contains(id@),
    {
        let ghost all = self.ids.deep_view();
        let mut i: usize = 0;
        while i < self.ids.len()
            invariant
                i <= self.ids@.len(),
                all == self.ids.deep_view(),
                forall|k: int| 0 <= k < i ==> all[k] != id@,
            decreases self.ids@.len() - i,
        {
            assert(all[i as int] == self.ids@[i as int]@);
            if same(self.ids[i].as_str(), id) {
                assert(all.contains(id@));
                return true;
            }
            i += 1;
        }
        false
    }

    /// Takes in one hit.
    fn add_hit(&mut self, source_id: &str, h: &SearchHit)
        ensures
            final(self).deep_view() == with_hit(
                old(self).deep_view(),
                source_id@,
                h.deep_view(),
            ),
    {
        if same(h.chunk.source_id.as_str(), source_id) || self.has(h.chunk.id.as_str()) {
            return;
        }
        let ghost before = self.deep_view();
        let d = document_of(h);
        self.docs.push(d);
        self.ids.push(h.chunk.id.clone());
        assert(self.docs.deep_view() =~= before.docs.push(d.deep_view()));
        assert(self.ids.deep_view() =~= before.ids.push(h.chunk.id@));
    }

    /// Takes in the hits of a search for the document with this source id.
    pub fn add_hits(&mut self, source_id: &str, hits: &Vec<SearchHit>)
        ensures
            final(self).deep_view() == with_hits(
                old(self).deep_view(),
                source_id@,
                hits.deep_view(),
            ),
    {
        let ghost start = self.deep_view();
        let ghost all = hits.deep_view();
        assert(all.take(0) =~= Seq::empty());
        for i in 0..hits.len()
            invariant
                all == hits.deep_view(),
                self.deep_view() == with_hits(start, source_id@, all.take(i as int)),
        {
            assert(all.take(i + 1).drop_last() =~= all.take(i as int));
            assert(all.take(i + 1).last() == hits@[i as int].deep_view());
            self.add_hit(source_id, &hits[i]);
        }
        assert(all.take(hits.len() as int) =~= all);
    }
}

// ---------------------------------------------------------------------------
// The question

/// The related documents, numbered from one on.
pub open spec fn document_list(docs: Seq<RagView>) -> Seq<char>
    decreases docs.len(),
{
    if docs.len() == 0 {
        Seq::empty()
    } else {
        let d = docs.last();
        document_list(docs.drop_last()) + "["@ + text::decimal(docs.len()) + "] "@ + d.title
            + " ("@ + d.source_type + ")\nURL: "@ + d.url + "\n"@ + d.text + "\n\n"@
    }
}

/// The related documents, or that there are none.
pub open spec fn existing_block(docs: Seq<RagView>) -> Seq<char> {
    if docs.len() == 0 {
        "(関連既存ナレッジは見つかりませんでした)\n"@
    } else {
        document_list(docs)
    }
}

/// The question: title, text and related documents put in their places, one
/// after another.
pub open spec fn review_prompt(title: Seq<char>, body: Seq<char>, docs: Seq<RagView>) -> Seq<char> {
    text::replace(
        text::replace(
            text::replace(USER_TEMPLATE@, "{TITLE}"@, title),
            "{NEW_BODY}"@,
            body,
        ),
        "{EXISTING_DOCS}"@,
        existing_block(docs),
    )
}

/// What the language model is asked in a review.
pub open spec fn review_request(
    model: Seq<char>,
    title: Seq<char>,
    body: Seq<char>,
    docs: Seq<RagView>,
) -> RequestView {
    RequestView {
        system: SYSTEM@,
        user: review_prompt(title, body, docs),
        history: Seq::empty(),
        documents: Seq::empty(),
        model,
    }
}

/// The related documents, or that there are none.
pub fn existing_text(docs: &Vec<RagDocument>) -> (r: String)
    ensures
        r@ == existing_block(docs.deep_view()),
{
    if docs.len() == 0 {
        return "(関連既存ナレッジは見つかりませんでした)\n".to_owned();
    }
    let ghost all = docs.deep_view();
    let mut out = String::new();
    assert(out@ =~= document_list(all.take(0)));
    for i in 0..docs.len()
        invariant
            all == docs.deep_view(),
            out@ == document_list(all.take(i as int)),
    {
        let d = &docs[i];
        assert(all.take(i + 1).drop_last() =~= all.take(i as int));
        assert(all.take(i + 1).last() == d.deep_view());
        out.append("[");
        out.append(number(i as u64 + 1).as_str());
        out.append("] ");
        out.append(d.title.as_str());
        out.append(" (");
        out.append(d.source_type.as_str());
        out.append(")\nURL: ");
        out.append(d.url.as_str());
        out.append("\n");
        out.append(d.text.as_str());
        out.append("\n\n");
    }
    assert(all.take(docs.len() as int) =~= all);
    out
}

/// The question of a review.
pub fn build_prompt(title: &str, body: &str, docs: &Vec<RagDocument>) -> (r: String)
    ensures
        r@ == review_prompt(title@, body@, docs.deep_view()),
{
    proof {
        reveal_strlit("{TITLE}");
        reveal_strlit("{NEW_BODY}");
        reveal_strlit("{EXISTING_DOCS}");
    }
    let existing = existing_text(docs);
    let with_title = replaced(USER_TEMPLATE, "{TITLE}", title);
    let with_body = replaced(with_title.as_str(), "{NEW_BODY}", body);
    replaced(with_body.as_str(), "{EXISTING_DOCS}", existing.as_str())
}

/// What the language model is asked in a review.
pub fn build_request(model: &str, title: &str, body: &str, docs: &Vec<RagDocument>) -> (r: LlmRequest)
    ensures
        r.deep_view() == review_request(model@, title@, body@, docs.deep_view()),
{
    let history: Vec<HistoryMessage> = Vec::new();
    let documents: Vec<RagDocument> = Vec::new();
    assert(history.deep_view() =~= Seq::empty());
    assert(documents.deep_view() =~= Seq::empty());
    LlmRequest {
        system: SYSTEM.to_owned(),
        user: build_prompt(title, body, docs),
        history,
        documents,
        model: model.to_owned(),
    }
}

// ---------------------------------------------------------------------------
// The answer

/// What stands behind the first `open` and before the next fence, trimmed.
pub open spec fn fenced(s: Seq<char>, open: Seq<char>) -> Option<Seq<char>> {
    match text::find(s, open) {
        Some(i) => {
            let from = i + open.len();
            match text::find_from(s, "```"@, from) {
                Some(end) => Some(text::trim(s.subrange(from, end))),
                None => None,
            }
        },
        None => None,
    }
}

/// What stands from the first opening brace to the last closing one.
pub open spec fn braced(s: Seq<char>) -> Option<Seq<char>> {
    match (text::find(s, "{"@), text::rfind_char(s, '}')) {
        (Some(first), Some(last)) => if last > first {
            Some(s.subrange(first, last + 1))
        } else {
            None
        },
        _ => None,
    }
}

/// The JSON in an answer: in a fence that is marked as JSON, or else in any
/// fence if it begins with a brace, or else between the outermost braces.
pub open spec fn json_block(s: Seq<char>) -> Option<Seq<char>> {
    let marked = fenced(s, "```json"@);
    let plain = fenced(s, "```"@);
    if marked is Some {
        marked
    } else if plain is Some && "{"@.is_prefix_of(plain->0) {
        plain
    } else {
        braced(s)
    }
}

/// `fenced`, executable.
fn find_fenced(v: &Vec<char>, open: &str) -> (r: Option<String>)
    ensures
        r.deep_view() == fenced(v@, open@),
{
    let o = chars_of(open);
    let fence = chars_of("```");
    match position_from(v, &o, 0) {
        Some(i) => {
            let from = i + o.len();
            match position_from(v, &fence, from) {
                Some(end) => Some(trimmed(text_between(v, from, end).as_str())),
                None => None,
            }
        },
        None => None,
    }
}

/// The JSON in an answer.
pub fn extract_json_block(s: &str) -> (r: Option<String>)
    ensures
        r.deep_view() == json_block(s@),
{
    let v = chars_of(s);
    if let Some(inner) = find_fenced(&v, "```json") {
        return Some(inner);
    }
    if let Some(inner) = find_fenced(&v, "```") {
        if starts_with(inner.as_str(), "{") {
            return Some(inner);
        }
    }
    let brace = chars_of("{");
    match (position_from(&v, &brace, 0), last_position(&v, '}')) {
        (Some(first), Some(last)) => if last > first {
            Some(text_between(&v, first, last + 1))
        } else {
            None
        },
        _ => None,
    }
}

/// What stands in place of a summary where no JSON could be read.
pub const UNREADABLE: &'static str = "(JSON 解析失敗 — raw_response を参照)";

/// The result of a review, of which `parsed` was read from the answer
/// `content`. The answer is kept where it could not be read.
pub fn finish_review(
    title: &str,
    source_id: &str,
    url: &str,
    reviewed_at: i64,
    content: String,
    parsed: Option<ReviewResult>,
) -> (r: ReviewResult)
    ensures
        r.doc_title@ == title@,
        r.doc_source_id@ == source_id@,
        r.doc_url@ == url@,
        r.reviewed_at == reviewed_at,
        match parsed {
            Some(p) => r.contradictions == p.contradictions && r.duplicates == p.duplicates
                && r.gaps == p.gaps && r.terminology == p.terminology && r.overall_grade
                == p.overall_grade && r.summary == p.summary && r.raw_response@.len() == 0,
            None => r.finds_nothing() && r.overall_grade@.len() == 0 && r.summary@ == UNREADABLE@
                && r.raw_response@ == content@,
        },
{
    let mut r = match parsed {
        Some(p) => {
            let mut p = p;
            p.raw_response = String::new();
            p
        },
        None => {
            let mut p = ReviewResult::default();
            p.summary = UNREADABLE.to_owned();
            p.raw_response = content;
            p
        },
    };
    r.doc_title = title.to_owned();
    r.doc_source_id = source_id.to_owned();
    r.doc_url = url.to_owned();
    r.reviewed_at = reviewed_at;
    r
}

// ---------------------------------------------------------------------------
// The course of a review

/// A review that is going on: the texts that are searched for, one after
/// another, and what was found so far.
pub struct ReviewRun {
    pub title: String,
    pub source_id: String,
    pub url: String,
    pub body: String,
    pub model: String,
    pub queries: Vec<String>,
    /// How many searches are done.
    pub done: usize,
    pub related: Related,
}

impl ReviewRun {
    /// Before the first search.
    pub fn new(title: &str, source_id: &str, url: &str, body: &str, model: &str) -> (r: Self)
        ensures
            r.title@ == title@,
            r.source_id@ == source_id@,
            r.url@ == url@,
            r.body@ == body@,
            r.model@ == model@,
            r.queries.deep_view() == queries(body@),
            r.done == 0,
            r.related.deep_view() == nothing_related(),
    {
        ReviewRun {
            title: title.to_owned(),
            source_id: source_id.to_owned(),
            url: url.to_owned(),
            body: body.to_owned(),
            model: model.to_owned(),
            queries: review_queries(body),
            done: 0,
            related: Related::new(),
        }
    }

    /// The text that is searched for next, `None` once all searches are done.
    pub fn next_query(&self) -> (r: Option<String>)
        ensures
            r.deep_view() == (if self.done < self.queries@.len() {
                Some(self.queries.deep_view()[self.done as int])
            } else {
                None
            }),
    {
        if self.done < self.queries.len() {
            Some(self.queries[self.done].clone())
        } else {
            None
        }
    }

    /// Takes in the hits of the search.
    pub fn receive(&mut self, hits: &Vec<SearchHit>)
        requires
            old(self).done < old(self).queries@.len(),
        ensures
            final(self).title == old(self).title,
            final(self).source_id == old(self).source_id,
            final(self).url == old(self).url,
            final(self).body == old(self).body,
            final(self).model == old(self).model,
            final(self).queries == old(self).queries,
            final(self).done == old(self).done + 1,
            final(self).related.deep_view() == with_hits(
                old(self).related.deep_view(),
                old(self).source_id@,
                hits.deep_view(),
            ),
    {
        self.related.add_hits(self.source_id.as_str(), hits);
        assert(self.done < self.queries.len());
        self.done = self.done + 1;
    }

    /// What the language model is asked.
    pub fn request(&self) -> (r: LlmRequest)
        ensures
            r.deep_view() == review_request(
                self.model@,
                self.title@,
                self.body@,
                self.related.deep_view().docs,
            ),
    {
        build_request(
            self.model.as_str(),
            self.title.as_str(),
            self.body.as_str(),
            &self.related.docs,
        )
    }
}

// ---------------------------------------------------------------------------
// Laws

/// No record is among the related documents twice, none is of the document
/// itself, and what was there stays.
pub proof fn law_related_documents(s: RelatedView, source_id: Seq<char>, hits: Seq<HitView>)
    requires
        s.docs.len() == s.ids.len(),
        s.ids.no_duplicates(),
    ensures
        with_hits(s, source_id, hits).docs.len() == with_hits(s, source_id, hits).ids.len(),
        with_hits(s, source_id, hits).ids.no_duplicates(),
        s.ids.is_prefix_of(with_hits(s, source_id, hits).ids),
        forall|i: int|
            s.ids.len() <= i < with_hits(s, source_id, hits).ids.len() ==> exists|k: int|
                0 <= k < hits.len() && (#[trigger] hits[k]).chunk.id == #[trigger] with_hits(
                    s,
                    source_id,
                    hits,
                ).ids[i] && hits[k].chunk.source_id != source_id,
    decreases hits.len(),
{
    let r = with_hits(s, source_id, hits);
    if hits.len() == 0 {
        assert(s.ids =~= s.ids.subrange(0, s.ids.len() as int));
    } else {
        let prev = hits.drop_last();
        let q = with_hits(s, source_id, prev);
        let h = hits.last();
        law_related_documents(s, source_id, prev);
        assert(s.ids =~= r.ids.subrange(0, s.ids.len() as int)) by {
            assert(s.ids == q.ids.subrange(0, s.ids.len() as int));
            assert forall|k: int| 0 <= k < s.ids.len() implies s.ids[k] == r.ids[k] by {
                assert(q.ids.subrange(0, s.ids.len() as int)[k] == q.ids[k]);
            }
        }
        assert forall|i: int| s.ids.len() <= i < r.ids.len() implies exists|k: int|
            0 <= k < hits.len() && (#[trigger] hits[k]).chunk.id == #[trigger] r.ids[i]
                && hits[k].chunk.source_id != source_id by {
            if i < q.ids.len() {
                assert(r.ids[i] == q.ids[i]);
                let k = choose|k: int|
                    0 <= k < prev.len() && (#[trigger] prev[k]).chunk.id == q.ids[i]
                        && prev[k].chunk.source_id != source_id;
                assert(hits[k] == prev[k]);
            } else {
                assert(hits[hits.len() - 1].chunk.id == r.ids[i]);
            }
        }
    }
}

/// Taking in the hits of two searches is taking in those of both as one.
pub proof fn law_searches_add_up(
    s: RelatedView,
    source_id: Seq<char>,
    a: Seq<HitView>,
    b: Seq<HitView>,
)
    ensures
        with_hits(with_hits(s, source_id, a), source_id, b) == with_hits(s, source_id, a + b),
    decreases b.len(),
{
    if b.len() == 0 {
        assert(a + b =~= a);
    } else {
        law_searches_add_up(s, source_id, a, b.drop_last());
        assert((a + b).drop_last() =~= a + b.drop_last());
        assert((a + b).last() == b.last());
    }
}

} // verus!
