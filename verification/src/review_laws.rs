//! Laws on reviews.
use crate::chunking;
use crate::llm::RagView;
use crate::review;
use crate::review::RelatedView;
use crate::text;
use crate::text_laws;
use crate::vectordb::HitView;
use vstd::prelude::*;

verus! {

// ---------------------------------------------------------------------------
// Reading the answer

/// Whether `p` is at position `k` of `s`.
pub open spec fn at(s: Seq<char>, p: Seq<char>, k: int) -> bool {
    0 <= k && k + p.len() <= s.len() && s.subrange(k, k + p.len()) == p
}

proof fn lemma_find_none(s: Seq<char>, p: Seq<char>, from: int)
    requires
        0 <= from <= s.len(),
        forall|k: int| from <= k ==> !#[trigger] at(s, p, k),
    ensures
        text::find_from(s, p, from) is None,
{
    text_laws::law_find_from(s, p, from);
    if let Some(i) = text::find_from(s, p, from) {
        assert(at(s, p, i));
    }
}

proof fn lemma_find_first(s: Seq<char>, p: Seq<char>, from: int, i: int)
    requires
        0 <= from <= i,
        at(s, p, i),
        forall|k: int| from <= k < i ==> !#[trigger] at(s, p, k),
    ensures
        text::find_from(s, p, from) == Some(i),
{
    text_laws::law_find_from(s, p, from);
    assert(s.subrange(i, i + p.len()) == p);
    if let Some(j) = text::find_from(s, p, from) {
        if j < i {
            assert(at(s, p, j));
        }
    }
}

/// Whether a fence that is marked as JSON begins at `i` of `s` and the fence at
/// `e` may close it.
pub open spec fn marked_fence(s: Seq<char>, i: int, e: int) -> bool {
    at(s, "```json"@, i) && i + 7 <= e && at(s, "```"@, e)
}

/// Whether the first fence of `s` is at `i` and the next one at `e`.
pub open spec fn first_fence(s: Seq<char>, i: int, e: int) -> bool {
    &&& at(s, "```"@, i)
    &&& i + 3 <= e
    &&& at(s, "```"@, e)
    &&& forall|k: int| 0 <= k < i || i + 3 <= k < e ==> !#[trigger] at(s, "```"@, k)
}

proof fn lemma_not_marked(s: Seq<char>)
    requires
        forall|i: int, e: int| !#[trigger] marked_fence(s, i, e),
    ensures
        review::fenced(s, "```json"@) is None,
{
    reveal_strlit("```json");
    text_laws::law_find_from(s, "```json"@, 0);
    if let Some(i) = text::find(s, "```json"@) {
        text_laws::law_find_from(s, "```"@, i + 7);
        if let Some(e) = text::find_from(s, "```"@, i + 7) {
            assert(marked_fence(s, i, e));
        }
    }
}

proof fn lemma_first_fence(s: Seq<char>)
    ensures
        review::fenced(s, "```"@) matches Some(inner) ==> exists|i: int, e: int|
            #[trigger] first_fence(s, i, e) && inner == text::trim(s.subrange(i + 3, e)),
{
    reveal_strlit("```");
    text_laws::law_find_from(s, "```"@, 0);
    if let Some(i) = text::find(s, "```"@) {
        text_laws::law_find_from(s, "```"@, i + 3);
        if let Some(e) = text::find_from(s, "```"@, i + 3) {
            assert(at(s, "```"@, i) && at(s, "```"@, e));
            assert forall|k: int| 0 <= k < i || i + 3 <= k < e implies !#[trigger] at(
                s,
                "```"@,
                k,
            ) by {
                if at(s, "```"@, k) {
                    assert(s.subrange(k, k + "```"@.len()) == "```"@);
                }
            }
            assert(first_fence(s, i, e));
        }
    }
}

/// Where no marked fence is closed, and what stands in the first fence does not
/// begin with an opening brace, or there is no fence, the JSON is what stands from
/// the first opening brace up to the last closing one, with both. There is none
/// where either brace is missing or the last closing one is before the first
/// opening one.
pub proof fn law_json_stands_between_braces(s: Seq<char>)
    requires
        forall|i: int, e: int| !#[trigger] marked_fence(s, i, e),
        forall|i: int, e: int| #[trigger]
            first_fence(s, i, e) ==> text::trim(s.subrange(i + 3, e)).len() == 0 || text::trim(
                s.subrange(i + 3, e),
            )[0] != '{',
    ensures
        match review::json_block(s) {
            Some(b) => exists|i: int, j: int|
                0 <= i < j < s.len() && b == #[trigger] s.subrange(i, j + 1) && s[i] == '{' && s[j]
                    == '}' && (forall|k: int| 0 <= k < i ==> #[trigger] s[k] != '{') && (
                forall|k: int| j < k < s.len() ==> #[trigger] s[k] != '}'),
            None => forall|i: int, j: int|
                0 <= i < j < s.len() ==> !(#[trigger] s[i] == '{' && #[trigger] s[j] == '}'),
        },
{
    reveal_strlit("{");
    lemma_not_marked(s);
    lemma_first_fence(s);
    if let Some(inner) = review::fenced(s, "```"@) {
        let (i, e) = choose|i: int, e: int| #[trigger]
            first_fence(s, i, e) && inner == text::trim(s.subrange(i + 3, e));
        assert(first_fence(s, i, e));
        if "{"@.is_prefix_of(inner) {
            assert("{"@[0] == inner[0]);
        }
    }
    let open = "{"@;
    text_laws::law_find_from(s, open, 0);
    text_laws::law_rfind_char(s, '}');
    assert forall|k: int| 0 <= k < s.len() implies (#[trigger] s[k] == '{') == (s.subrange(
        k,
        k + 1,
    ) == open) by {
        assert(open =~= seq!['{']);
        assert(s.subrange(k, k + 1) =~= seq![s[k]]);
        assert(seq![s[k]][0] == s[k] && open[0] == '{');
    }
    match review::json_block(s) {
        Some(b) => {
            let i = text::find(s, open)->0;
            let j = text::rfind_char(s, '}')->0;
            assert(b == s.subrange(i, j + 1));
            assert forall|k: int| 0 <= k < i implies #[trigger] s[k] != '{' by {
                assert(s.subrange(k, k + 1) != open);
            }
        },
        None => {
            assert forall|i: int, j: int| 0 <= i < j < s.len() implies !(#[trigger] s[i] == '{'
                && #[trigger] s[j] == '}') by {
                if s[i] == '{' && s[j] == '}' {
                    assert(s.subrange(i, i + 1) == open);
                }
            }
        },
    }
}

/// An answer that is JSON alone, from an opening to a closing brace and without
/// a fence, is taken whole.
pub proof fn law_bare_json_is_taken_whole(s: Seq<char>)
    requires
        s.len() >= 2,
        s[0] == '{',
        s.last() == '}',
        forall|k: int| !#[trigger] at(s, "```"@, k),
    ensures
        review::json_block(s) == Some(s),
{
    assert forall|i: int, e: int| !#[trigger] marked_fence(s, i, e) by {
        assert(!at(s, "```"@, e));
    }
    assert forall|i: int, e: int| #[trigger] first_fence(s, i, e) implies false by {
        assert(!at(s, "```"@, i));
    }
    law_json_stands_between_braces(s);
    match review::json_block(s) {
        Some(b) => {
            let (i, j) = choose|i: int, j: int|
                0 <= i < j < s.len() && b == #[trigger] s.subrange(i, j + 1) && s[i] == '{' && s[j]
                    == '}' && (forall|k: int| 0 <= k < i ==> #[trigger] s[k] != '{') && (
                forall|k: int| j < k < s.len() ==> #[trigger] s[k] != '}');
            assert(s[0] == '{');
            assert(s[s.len() - 1] == '}');
            assert(i == 0 && j == s.len() - 1);
            assert(s.subrange(0, s.len() as int) =~= s);
        },
        None => {
            assert(s[0] == '{' && s[s.len() - 1] == '}');
        },
    }
}

/// In an answer with a fence that is marked as JSON, the JSON is what stands
/// between the first such mark and the fence behind it, without the white space
/// around it.
pub proof fn law_marked_fence_is_read(before: Seq<char>, inner: Seq<char>, behind: Seq<char>)
    requires
        ({
            let s = before + "```json"@ + inner + "```"@ + behind;
            let from = before.len() + 7;
            &&& forall|k: int| 0 <= k < before.len() ==> !#[trigger] at(s, "```json"@, k)
            &&& forall|k: int| from <= k < from + inner.len() ==> !#[trigger] at(s, "```"@, k)
        }),
    ensures
        review::json_block(before + "```json"@ + inner + "```"@ + behind) == Some(
            text::trim(inner),
        ),
{
    reveal_strlit("```json");
    reveal_strlit("```");
    let s = before + "```json"@ + inner + "```"@ + behind;
    let from = (before.len() + 7) as int;
    let end = from + inner.len();
    assert(s.subrange(before.len() as int, from) =~= "```json"@);
    assert(s.subrange(end, end + 3) =~= "```"@);
    assert(s.subrange(from, end) =~= inner);
    assert(at(s, "```json"@, before.len() as int));
    assert(at(s, "```"@, end));
    lemma_find_first(s, "```json"@, 0, before.len() as int);
    lemma_find_first(s, "```"@, from, end);
}

/// In an answer in which no marked fence is closed, what stands in the first
/// fence is taken where it begins with an opening brace.
pub proof fn law_plain_fence_is_read(before: Seq<char>, inner: Seq<char>, behind: Seq<char>)
    requires
        ({
            let s = before + "```"@ + inner + "```"@ + behind;
            let from = before.len() + 3;
            &&& forall|i: int, e: int| !#[trigger] marked_fence(s, i, e)
            &&& forall|k: int|
                0 <= k < before.len() || from <= k < from + inner.len() ==> !#[trigger] at(
                    s,
                    "```"@,
                    k,
                )
        }),
        text::trim(inner).len() > 0,
        text::trim(inner)[0] == '{',
    ensures
        review::json_block(before + "```"@ + inner + "```"@ + behind) == Some(text::trim(inner)),
{
    reveal_strlit("```");
    reveal_strlit("{");
    let s = before + "```"@ + inner + "```"@ + behind;
    let from = (before.len() + 3) as int;
    let end = from + inner.len();
    assert(s.subrange(before.len() as int, from) =~= "```"@);
    assert(s.subrange(end, end + 3) =~= "```"@);
    assert(s.subrange(from, end) =~= inner);
    assert(at(s, "```"@, before.len() as int));
    assert(at(s, "```"@, end));
    lemma_not_marked(s);
    lemma_find_first(s, "```"@, 0, before.len() as int);
    lemma_find_first(s, "```"@, from, end);
    let t = text::trim(inner);
    assert("{"@ =~= t.subrange(0, 1));
}

// ---------------------------------------------------------------------------
// What is searched for

/// A document of at most 1200 characters is searched for whole, and a longer one
/// by all its chunks.
pub proof fn law_queries_cover_the_document(body: Seq<char>)
    ensures
        body.len() <= 1200 ==> review::queries(body) == seq![body],
        body.len() > 1200 ==> review::queries(body) == chunking::split_text(body),
{
}

/// A hit is taken in, behind those before it and with its whole text, unless it
/// is of the document itself or its record is there already.
pub proof fn law_hit_is_taken_in(
    s: RelatedView,
    source_id: Seq<char>,
    hits: Seq<HitView>,
    h: HitView,
)
    ensures
        ({
            let before = review::with_hits(s, source_id, hits);
            let r = review::with_hits(s, source_id, hits.push(h));
            let c = h.chunk;
            &&& c.source_id == source_id || before.ids.contains(c.id) ==> r == before
            &&& c.source_id != source_id && !before.ids.contains(c.id) ==> {
                &&& r.ids == before.ids.push(c.id)
                &&& r.docs == before.docs.push(
                    RagView {
                        title: c.title + " ("@ + c.source_id + ")"@,
                        url: c.url,
                        source_type: c.source_type,
                        text: c.text,
                    },
                )
            }
        }),
        review::with_hits(s, source_id, Seq::empty()) == s,
{
    assert(hits.push(h).drop_last() =~= hits);
}

/// No record that was found is left out but those of the document itself.
pub proof fn law_no_hit_is_left_out(
    s: RelatedView,
    source_id: Seq<char>,
    hits: Seq<HitView>,
    k: int,
)
    requires
        0 <= k < hits.len(),
        hits[k].chunk.source_id != source_id,
    ensures
        review::with_hits(s, source_id, hits).ids.contains(hits[k].chunk.id),
    decreases hits.len(),
{
    let prev = hits.drop_last();
    let before = review::with_hits(s, source_id, prev);
    let r = review::with_hits(s, source_id, hits);
    let id = hits[k].chunk.id;
    if k < prev.len() {
        law_no_hit_is_left_out(s, source_id, prev, k);
        let i = choose|i: int| 0 <= i < before.ids.len() && before.ids[i] == id;
        assert(r.ids[i] == id);
    } else if !before.ids.contains(id) {
        assert(r.ids[before.ids.len() as int] == id);
    }
}

// ---------------------------------------------------------------------------
// What is asked

/// The list of known documents is that of the first ones, and behind it the last
/// one whole: its number, title, source, address and text.
pub proof fn law_known_document_is_listed_whole(docs: Seq<RagView>, d: RagView)
    ensures
        review::document_list(Seq::empty()) == Seq::<char>::empty(),
        review::document_list(docs.push(d)) == review::document_list(docs) + (("["@
            + text::decimal(docs.len() + 1) + "] "@ + d.title + " ("@ + d.source_type
            + ")\nURL: "@ + d.url + "\n"@) + d.text + "\n\n"@),
        review::existing_block(docs.push(d)) == review::document_list(docs.push(d)),
        review::existing_block(Seq::empty()) == "(関連既存ナレッジは見つかりませんでした)\n"@,
{
    let all = docs.push(d);
    assert(all.drop_last() =~= docs);
    assert(review::document_list(all) =~= review::document_list(docs) + (("["@ + text::decimal(
        docs.len() + 1,
    ) + "] "@ + d.title + " ("@ + d.source_type + ")\nURL: "@ + d.url + "\n"@) + d.text + "\n\n"@));
}

/// Every known document stands whole in the list, behind those before it.
pub proof fn law_every_known_document_is_listed(docs: Seq<RagView>, i: int)
    requires
        0 <= i < docs.len(),
    ensures
        (review::document_list(docs.take(i)) + "["@ + text::decimal((i + 1) as nat) + "] "@
            + docs[i].title + " ("@ + docs[i].source_type + ")\nURL: "@ + docs[i].url + "\n"@
            + docs[i].text + "\n\n"@).is_prefix_of(review::document_list(docs)),
    decreases docs.len(),
{
    let head = docs.take(i);
    let d = docs[i];
    let block = review::document_list(head) + "["@ + text::decimal((i + 1) as nat) + "] "@ + d.title
        + " ("@ + d.source_type + ")\nURL: "@ + d.url + "\n"@ + d.text + "\n\n"@;
    let prev = docs.drop_last();
    law_known_document_is_listed_whole(prev, docs.last());
    assert(prev.push(docs.last()) =~= docs);
    let all = review::document_list(docs);
    if i == docs.len() - 1 {
        assert(prev =~= head);
        assert(block =~= all);
        assert(all =~= all.subrange(0, all.len() as int));
    } else {
        law_every_known_document_is_listed(prev, i);
        assert(prev.take(i) =~= head);
        let p = review::document_list(prev);
        assert(block =~= p.subrange(0, block.len() as int));
        assert(p =~= all.subrange(0, p.len() as int));
        assert(block =~= all.subrange(0, block.len() as int));
    }
}

/// The request of a review asks the model that was given, with the prompt for
/// the title, the text and the documents, and with nothing else.
pub proof fn law_review_request(
    model: Seq<char>,
    title: Seq<char>,
    body: Seq<char>,
    docs: Seq<RagView>,
)
    ensures
        ({
            let r = review::review_request(model, title, body, docs);
            &&& r.model == model
            &&& r.system == review::SYSTEM@
            &&& r.user == review::review_prompt(title, body, docs)
            &&& r.history.len() == 0
            &&& r.documents.len() == 0
        }),
{
}

/// A place in a text at which there is no opening brace is not one for a mark.
proof fn lemma_no_mark(s: Seq<char>, p: Seq<char>, k: int)
    requires
        0 <= k < s.len(),
        p.len() > 0,
        p[0] == '{',
        s[k] != '{',
    ensures
        !p.is_prefix_of(s.skip(k)),
{
    if p.is_prefix_of(s.skip(k)) {
        assert(s.skip(k).subrange(0, p.len() as int)[0] == s[k]);
    }
}

/// Whether a text holds no opening brace.
pub open spec fn unbraced(s: Seq<char>) -> bool {
    forall|k: int| 0 <= k < s.len() ==> #[trigger] s[k] != '{'
}

/// One mark of a template is filled in, where no opening brace is before it and
/// the mark is not behind it.
proof fn lemma_mark_is_filled(a: Seq<char>, p: Seq<char>, b: Seq<char>, w: Seq<char>)
    requires
        p.len() > 0,
        p[0] == '{',
        unbraced(a),
        forall|k: int| 0 <= k < b.len() ==> !p.is_prefix_of(#[trigger] b.skip(k)),
    ensures
        text::replace(a + p + b, p, w) == a + w + b,
{
    let s = a + p + b;
    assert forall|k: int| 0 <= k < a.len() implies !p.is_prefix_of(#[trigger] s.skip(k)) by {
        assert(s[k] == a[k]);
        lemma_no_mark(s, p, k);
    }
    text_laws::law_replace_first(a, p, b, w);
    text_laws::law_replace_nothing(b, p, w);
}

/// A mark is not in a text that is made of one without an opening brace, another
/// mark and one without the mark.
proof fn lemma_mark_not_in(p: Seq<char>, a: Seq<char>, q: Seq<char>, b: Seq<char>)
    requires
        p.len() > 1,
        p[0] == '{',
        unbraced(a),
        q.len() > 1,
        q[0] == '{',
        q[1] != p[1],
        forall|k: int| 1 <= k < q.len() ==> #[trigger] q[k] != '{',
        forall|k: int| 0 <= k < b.len() ==> !p.is_prefix_of(#[trigger] b.skip(k)),
    ensures
        forall|k: int|
            0 <= k < (a + q + b).len() ==> !p.is_prefix_of(#[trigger] (a + q + b).skip(k)),
{
    let s = a + q + b;
    assert forall|k: int| 0 <= k < s.len() implies !p.is_prefix_of(#[trigger] s.skip(k)) by {
        if k < a.len() {
            assert(s[k] == a[k]);
            lemma_no_mark(s, p, k);
        } else if k == a.len() {
            if p.is_prefix_of(s.skip(k)) {
                assert(s.skip(k).subrange(0, p.len() as int)[1] == s[k + 1]);
                assert(s[k + 1] == q[1]);
            }
        } else if k < a.len() + q.len() {
            assert(s[k] == q[k - a.len()]);
            lemma_no_mark(s, p, k);
        } else {
            let j = k - a.len() - q.len();
            assert(s.skip(k) =~= b.skip(j));
        }
    }
}

/// The prompt of a review is its template with the title, the text and the known
/// documents in it, each whole and in its place. The template has a mark for each
/// of them, `t0` to `t3` are what is around the marks, and neither the title nor
/// the text holds an opening brace.
pub proof fn law_prompt_holds_everything(
    t0: Seq<char>,
    t1: Seq<char>,
    t2: Seq<char>,
    t3: Seq<char>,
    title: Seq<char>,
    body: Seq<char>,
    docs: Seq<RagView>,
)
    requires
        review::USER_TEMPLATE@ == t0 + "{TITLE}"@ + (t1 + "{NEW_BODY}"@ + (t2 + "{EXISTING_DOCS}"@
            + t3)),
        unbraced(t0),
        unbraced(t1),
        unbraced(t2),
        unbraced(title),
        unbraced(body),
        forall|k: int| 0 <= k < t3.len() ==> !"{TITLE}"@.is_prefix_of(#[trigger] t3.skip(k)),
        forall|k: int| 0 <= k < t3.len() ==> !"{NEW_BODY}"@.is_prefix_of(#[trigger] t3.skip(k)),
        forall|k: int| 0 <= k < t3.len() ==> !"{EXISTING_DOCS}"@.is_prefix_of(#[trigger] t3.skip(k)),
    ensures
        review::review_prompt(title, body, docs) == t0 + title + t1 + body + t2
            + review::existing_block(docs) + t3,
{
    reveal_strlit("{TITLE}");
    reveal_strlit("{NEW_BODY}");
    reveal_strlit("{EXISTING_DOCS}");
    let p = "{TITLE}"@;
    let q = "{NEW_BODY}"@;
    let r = "{EXISTING_DOCS}"@;
    let tail = t2 + r + t3;
    lemma_mark_not_in(p, t2, r, t3);
    lemma_mark_not_in(p, t1, q, tail);
    lemma_mark_is_filled(t0, p, t1 + q + tail, title);
    let a = t0 + title + t1;
    assert forall|k: int| 0 <= k < a.len() implies #[trigger] a[k] != '{' by {
        if k < t0.len() {
            assert(a[k] == t0[k]);
        } else if k < t0.len() + title.len() {
            assert(a[k] == title[k - t0.len()]);
        } else {
            assert(a[k] == t1[k - t0.len() - title.len()]);
        }
    }
    assert(t0 + title + (t1 + q + tail) =~= a + q + tail);
    lemma_mark_not_in(q, t2, r, t3);
    lemma_mark_is_filled(a, q, tail, body);
    let b = a + body + t2;
    assert forall|k: int| 0 <= k < b.len() implies #[trigger] b[k] != '{' by {
        if k < a.len() {
            assert(b[k] == a[k]);
        } else if k < a.len() + body.len() {
            assert(b[k] == body[k - a.len()]);
        } else {
            assert(b[k] == t2[k - a.len() - body.len()]);
        }
    }
    assert(a + body + tail =~= b + r + t3);
    lemma_mark_is_filled(b, r, t3, review::existing_block(docs));
}

} // verus!
