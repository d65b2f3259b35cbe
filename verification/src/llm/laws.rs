//! Laws on what language models are asked and what is read from their answers.
use crate::chat;
use crate::chat::{CitationView, MessageView, Role};
use crate::llm;
use crate::llm::claude;
use crate::llm::claude::{AnswerCitationView, AnswerView, BlockView};
use crate::llm::gemini;
use crate::llm::{HistoryRole, RagView, RequestView};
use crate::text;
use crate::vectordb::HitView;
use vstd::prelude::*;

verus! {

// ---------------------------------------------------------------------------
// What is asked

/// The question of a conversation is handed on whole, with every hit as a
/// document, in order, and the last messages, in order, each with its author.
pub proof fn law_question_is_handed_on(
    model: Seq<char>,
    question: Seq<char>,
    history: Seq<MessageView>,
    hits: Seq<HitView>,
)
    ensures
        ({
            let r = chat::rag_request(model, question, history, hits);
            let n = r.history.len();
            &&& r.user == question
            &&& r.model == model
            &&& r.system == chat::SYSTEM_PROMPT@
            &&& r.documents.len() == hits.len()
            &&& forall|i: int|
                0 <= i < hits.len() ==> {
                    let d = #[trigger] r.documents[i];
                    let c = hits[i].chunk;
                    &&& d.text == c.text
                    &&& d.url == c.url
                    &&& d.source_type == c.source_type
                    &&& d.title == c.title + " ("@ + c.source_id + ")"@
                }
            &&& n == (if history.len() <= 8 {
                history.len()
            } else {
                8
            })
            &&& forall|i: int|
                0 <= i < n ==> {
                    let m = history[history.len() - n + i];
                    let h = #[trigger] r.history[i];
                    &&& h.content == m.content
                    &&& (h.role == HistoryRole::User) == (m.role == Role::User)
                }
        }),
{
}

/// The messages for the one model are the earlier ones, in order, each with its
/// author and whole, and then the question behind every document, in order and
/// whole.
pub proof fn law_messages_hold_everything(req: RequestView)
    ensures
        ({
            let r = claude::claude_request(req);
            let n = req.history.len() as int;
            &&& r.model == req.model
            &&& r.system == req.system
            &&& r.max_tokens == 2048
            &&& r.messages.len() == n + 1
            &&& forall|i: int|
                0 <= i < n ==> {
                    let m = #[trigger] r.messages[i];
                    &&& m.content == seq![BlockView::Text(req.history[i].content)]
                    &&& req.history[i].role == HistoryRole::User ==> m.role == "user"@
                    &&& req.history[i].role == HistoryRole::Assistant ==> m.role == "assistant"@
                }
            &&& r.messages[n].role == "user"@
            &&& r.messages[n].content.len() == req.documents.len() + 1
            &&& r.messages[n].content.last() == BlockView::Text(req.user)
            &&& forall|i: int|
                0 <= i < req.documents.len() ==> #[trigger] r.messages[n].content[i]
                    == BlockView::Document(req.documents[i].title, req.documents[i].text)
        }),
{
}

/// The contents for Gemini are the earlier messages, in order, each with its
/// author and whole, and then the question with the documents.
pub proof fn law_contents_hold_everything(req: RequestView)
    ensures
        ({
            let r = gemini::gemini_request(req);
            let n = req.history.len() as int;
            &&& r.system_instruction == req.system
            &&& r.max_output_tokens == 2048
            &&& r.contents.len() == n + 1
            &&& forall|i: int|
                0 <= i < n ==> {
                    let m = #[trigger] r.contents[i];
                    &&& m.text == req.history[i].content
                    &&& req.history[i].role == HistoryRole::User ==> m.role == "user"@
                    &&& req.history[i].role == HistoryRole::Assistant ==> m.role == "model"@
                }
            &&& r.contents[n].role == "user"@
            &&& r.contents[n].text == gemini::question_text(req.documents, req.user)
        }),
{
}

/// The list of documents is that of the first ones, and behind it the last one
/// whole: its number, which is its place in the list, its title, its source and
/// its text.
pub proof fn law_document_is_listed_whole(docs: Seq<RagView>, d: RagView)
    ensures
        gemini::document_list(Seq::empty()) == Seq::<char>::empty(),
        gemini::document_list(docs.push(d)) == gemini::document_list(docs) + (("["@
            + text::decimal(docs.len() + 1) + "] "@ + d.title + " ("@ + d.source_type + ")\n"@)
            + d.text + "\n\n"@),
{
    let all = docs.push(d);
    assert(all.drop_last() =~= docs);
    assert(gemini::document_list(all) =~= gemini::document_list(docs) + (("["@ + text::decimal(
        docs.len() + 1,
    ) + "] "@ + d.title + " ("@ + d.source_type + ")\n"@) + d.text + "\n\n"@));
}

/// Every document stands whole in the list, behind those before it: its number,
/// its title, its source and its text.
pub proof fn law_every_document_is_listed(docs: Seq<RagView>, i: int)
    requires
        0 <= i < docs.len(),
    ensures
        (gemini::document_list(docs.take(i)) + "["@ + text::decimal((i + 1) as nat) + "] "@
            + docs[i].title + " ("@ + docs[i].source_type + ")\n"@ + docs[i].text
            + "\n\n"@).is_prefix_of(gemini::document_list(docs)),
    decreases docs.len(),
{
    let head = docs.take(i);
    let d = docs[i];
    let block = gemini::document_list(head) + "["@ + text::decimal((i + 1) as nat) + "] "@ + d.title
        + " ("@ + d.source_type + ")\n"@ + d.text + "\n\n"@;
    let prev = docs.drop_last();
    law_document_is_listed_whole(prev, docs.last());
    assert(prev.push(docs.last()) =~= docs);
    let all = gemini::document_list(docs);
    if i == docs.len() - 1 {
        assert(prev =~= head);
        assert(block =~= all);
        assert(all =~= all.subrange(0, all.len() as int));
    } else {
        law_every_document_is_listed(prev, i);
        assert(prev.take(i) =~= head);
        let p = gemini::document_list(prev);
        assert(block =~= p.subrange(0, block.len() as int));
        assert(p =~= all.subrange(0, p.len() as int));
        assert(block =~= all.subrange(0, block.len() as int));
    }
}

/// The question stands whole behind all documents.
pub proof fn law_question_stands_behind_the_documents(docs: Seq<RagView>, question: Seq<char>)
    ensures
        docs.len() == 0 ==> gemini::question_text(docs, question) == "## 質問\n\n"@ + question,
        docs.len() > 0 ==> gemini::question_text(docs, question) == "## 参考ドキュメント\n\n"@
            + gemini::document_list(docs) + gemini::question_text(Seq::empty(), question)
            + "\n\n回答時は根拠となる参照を `[n]` 形式で本文中に明示してください。"@,
{
    if docs.len() > 0 {
        assert(gemini::question_text(docs, question) =~= "## 参考ドキュメント\n\n"@
            + gemini::document_list(docs) + gemini::question_text(Seq::empty(), question)
            + "\n\n回答時は根拠となる参照を `[n]` 形式で本文中に明示してください。"@);
    }
}

// ---------------------------------------------------------------------------
// What is read

/// The answer in blocks is that of the first ones followed by that of the
/// others: all their texts and all their citations, in order.
pub proof fn law_blocks_add_up(docs: Seq<RagView>, a: Seq<AnswerView>, b: Seq<AnswerView>)
    ensures
        claude::claude_answer(docs, a + b).content == claude::claude_answer(docs, a).content
            + claude::claude_answer(docs, b).content,
        claude::claude_answer(docs, a + b).citations == claude::claude_answer(docs, a).citations
            + claude::claude_answer(docs, b).citations,
    decreases b.len(),
{
    let x = claude::claude_answer(docs, a);
    if b.len() == 0 {
        assert(a + b =~= a);
        assert(x.content + claude::claude_answer(docs, b).content =~= x.content);
        assert(x.citations + claude::claude_answer(docs, b).citations =~= x.citations);
    } else {
        assert((a + b).drop_last() =~= a + b.drop_last());
        law_blocks_add_up(docs, a, b.drop_last());
        let y = claude::claude_answer(docs, b.drop_last());
        if let AnswerView::Text(body, citations) = b.last() {
            let more = citations.map_values(|c: AnswerCitationView| claude::resolved(docs, c));
            assert(x.content + (y.content + body) =~= (x.content + y.content) + body);
            assert(x.citations + (y.citations + more) =~= (x.citations + y.citations) + more);
        }
    }
}

/// A block of text gives its text whole, and each citation in it; any other
/// block gives nothing.
pub proof fn law_one_block(
    docs: Seq<RagView>,
    body: Seq<char>,
    citations: Seq<AnswerCitationView>,
)
    ensures
        claude::claude_answer(docs, seq![AnswerView::Text(body, citations)]).content == body,
        claude::claude_answer(docs, seq![AnswerView::Text(body, citations)]).citations.len()
            == citations.len(),
        forall|i: int|
            0 <= i < citations.len() ==> #[trigger] claude::claude_answer(
                docs,
                seq![AnswerView::Text(body, citations)],
            ).citations[i] == claude::resolved(docs, citations[i]),
        claude::claude_answer(docs, seq![AnswerView::Other]).content.len() == 0,
        claude::claude_answer(docs, seq![AnswerView::Other]).citations.len() == 0,
{
    let one = seq![AnswerView::Text(body, citations)];
    let other = seq![AnswerView::Other];
    assert(one.drop_last() =~= Seq::empty());
    assert(other.drop_last() =~= Seq::empty());
    let before = claude::claude_answer(docs, one.drop_last());
    assert(before.content.len() == 0 && before.citations.len() == 0);
    assert(before.content + body =~= body);
    let more = citations.map_values(|c: AnswerCitationView| claude::resolved(docs, c));
    assert(before.citations + more =~= more);
}

/// A citation leads to the document that it names by its place, under the title
/// that it gives or else that of the document. One that names no document leads
/// nowhere.
pub proof fn law_citation_leads_to_its_document(docs: Seq<RagView>, c: AnswerCitationView)
    ensures
        c.document_index matches Some(i) && i < docs.len() ==> {
            let r = claude::resolved(docs, c);
            let d = docs[c.document_index->0 as int];
            &&& r.url == d.url
            &&& r.source_type == d.source_type
            &&& (c.document_title is None || c.document_title->0.len() == 0) ==> r.title == d.title
            &&& (c.document_title matches Some(t) && t.len() > 0) ==> r.title
                == c.document_title->0
        },
        c.document_index is None && docs.len() > 0 ==> claude::resolved(docs, c)
            == claude::resolved(docs, AnswerCitationView { document_index: Some(0), ..c }),
        (c.document_index matches Some(i) && i >= docs.len()) || docs.len() == 0
            ==> claude::resolved(docs, c).url.len() == 0 && claude::resolved(
            docs,
            c,
        ).source_type.len() == 0 && claude::resolved(docs, c).title == (match c.document_title {
            Some(t) => t,
            None => Seq::<char>::empty(),
        }),
{
}

/// The text of a candidate is that of its first parts followed by that of the
/// others; a part without text adds nothing.
pub proof fn law_parts_add_up(a: Seq<Option<Seq<char>>>, b: Seq<Option<Seq<char>>>, t: Seq<char>)
    ensures
        gemini::parts_text(a + b) == gemini::parts_text(a) + gemini::parts_text(b),
        gemini::parts_text(seq![Some(t)]) == t,
        gemini::parts_text(seq![None]).len() == 0,
    decreases b.len(),
{
    let one = seq![Some(t)];
    let none: Seq<Option<Seq<char>>> = seq![None];
    assert(one.drop_last() =~= Seq::empty());
    assert(none.drop_last() =~= Seq::empty());
    assert(gemini::parts_text(Seq::empty()) == Seq::<char>::empty());
    assert(Seq::<char>::empty() + t =~= t);
    assert(Seq::<char>::empty() + Seq::<char>::empty() =~= Seq::empty());
    if b.len() == 0 {
        assert(a + b =~= a);
        assert(gemini::parts_text(a) + gemini::parts_text(b) =~= gemini::parts_text(a));
    } else {
        assert((a + b).drop_last() =~= a + b.drop_last());
        law_parts_add_up(a, b.drop_last(), t);
        let x = gemini::parts_text(a);
        let y = gemini::parts_text(b.drop_last());
        let z = text::text_or_empty(b.last());
        assert(x + (y + z) =~= (x + y) + z);
    }
}

/// An answer is read from the first candidate, and a description of an image
/// from the last; where there is none, both are empty.
pub proof fn law_which_candidate_is_read(
    first: Seq<Option<Seq<char>>>,
    rest: Seq<Seq<Option<Seq<char>>>>,
)
    ensures
        gemini::first_text(seq![first] + rest) == gemini::parts_text(first),
        gemini::last_text(rest.push(first)) == gemini::parts_text(first),
        gemini::first_text(Seq::empty()).len() == 0,
        gemini::last_text(Seq::empty()).len() == 0,
{
}

/// The answer of Gemini is the text of the first candidate, with the documents
/// that it cites.
pub proof fn law_gemini_answer(docs: Seq<RagView>, candidates: Seq<Seq<Option<Seq<char>>>>)
    ensures
        gemini::gemini_answer(docs, candidates).content == gemini::first_text(candidates),
        gemini::gemini_answer(docs, candidates).citations == gemini::cited_documents(
            gemini::first_text(candidates),
            docs,
        ),
{
}

/// The citations are in the order of the documents: those of the first ones,
/// and then the last one where its number stands in brackets.
pub proof fn law_citations_keep_the_order(s: Seq<char>, docs: Seq<RagView>, d: RagView)
    ensures
        gemini::cited_documents(s, Seq::empty()) == Seq::<CitationView>::empty(),
        gemini::cited_documents(s, docs.push(d)) == gemini::cited_documents(s, docs) + (
        if gemini::cites(s, (docs.len() + 1) as int) {
            seq![CitationView { title: d.title, url: d.url, source_type: d.source_type }]
        } else {
            Seq::empty()
        }),
{
    let all = docs.push(d);
    assert(all.drop_last() =~= docs);
    let before = gemini::cited_documents(s, docs);
    assert(before.push(llm::cited(d)) =~= before + seq![llm::cited(d)]);
    assert(before + Seq::<CitationView>::empty() =~= before);
}

/// A document is cited wherever its number stands in brackets in the answer.
pub proof fn law_number_in_brackets_cites(before: Seq<char>, n: nat, behind: Seq<char>)
    ensures
        gemini::cites(before + "["@ + text::decimal(n) + "]"@ + behind, n as int),
{
    reveal_strlit("[");
    reveal_strlit("]");
    text::lemma_decimal_digits(n);
    let d = text::decimal(n);
    let s = before + "["@ + d + "]"@ + behind;
    let i = before.len() as int;
    let j = i + 1 + d.len();
    assert(s.subrange(i + 1, j) =~= d);
    assert(s[i] == '[' && s[j] == ']');
    assert(gemini::bracketed(s, i, j, n as int));
}

/// A document is cited only where there are brackets with nothing but digits
/// between them that say its number.
pub proof fn law_cited_numbers_stand_in_brackets(s: Seq<char>, n: int)
    requires
        gemini::cites(s, n),
    ensures
        exists|i: int, j: int|
            0 <= i && i + 1 < j < s.len() && #[trigger] s[i] == '[' && #[trigger] s[j] == ']' && (
            forall|k: int| i < k < j ==> '0' <= #[trigger] s[k] <= '9') && text::decimal_value(
                s.subrange(i + 1, j),
            ) == n,
{
    let (i, j) = choose|i: int, j: int| #[trigger] gemini::bracketed(s, i, j, n);
    let d = s.subrange(i + 1, j);
    assert forall|k: int| i < k < j implies '0' <= #[trigger] s[k] <= '9' by {
        assert(text::is_digit(d[k - i - 1]));
    }
    assert(s[i] == '[' && s[j] == ']');
}

/// Any digits in brackets cite the document with that number.
pub proof fn law_digits_in_brackets_cite(before: Seq<char>, digits: Seq<char>, behind: Seq<char>)
    requires
        digits.len() > 0,
        forall|k: int| 0 <= k < digits.len() ==> '0' <= #[trigger] digits[k] <= '9',
    ensures
        gemini::cites(before + "["@ + digits + "]"@ + behind, text::decimal_value(digits)),
{
    reveal_strlit("[");
    reveal_strlit("]");
    let s = before + "["@ + digits + "]"@ + behind;
    let i = before.len() as int;
    let j = i + 1 + digits.len();
    assert(s[i] == '[');
    assert(s[j] == ']');
    assert(s.subrange(i + 1, j) =~= digits);
    assert(gemini::bracketed(s, i, j, text::decimal_value(digits)));
}

/// The address of a model names it.
pub proof fn law_model_address(model: Seq<char>)
    ensures
        gemini::generate_address(model)
            == "https://generativelanguage.googleapis.com/v1beta/models"@ + "/"@ + model
            + ":generateContent"@,
{
}

} // verus!
