//! Requests to Gemini.
use crate::chat::{Citation, CitationView};
use crate::llm;
use crate::llm::{
    cite, HistoryRole, HistoryView, LlmRequest, LlmResponse, RagDocument, RagView, RequestView,
    ResponseView,
};
use crate::text;
use crate::text::{chars_of, number, parse_unsigned, text_between};
use vstd::prelude::*;

verus! {

/// The address of the models.
pub const GEMINI_API: &'static str = "https://generativelanguage.googleapis.com/v1beta/models";

/// The largest number of tokens in an answer.
pub const MAX_OUTPUT_TOKENS: u32 = 2048;

/// The address for generating text with a model.
pub open spec fn generate_address(model: Seq<char>) -> Seq<char> {
    GEMINI_API@ + "/"@ + model + ":generateContent"@
}

/// The address for generating text with a model.
pub fn generate_url(model: &str) -> (r: String)
    ensures
        r@ == generate_address(model@),
{
    let mut url = GEMINI_API.to_owned();
    url.append("/");
    url.append(model);
    url.append(":generateContent");
    url
}

// ---------------------------------------------------------------------------
// Requests

/// A request.
#[derive(Debug)]
pub struct GenerateRequest {
    pub system_instruction: String,
    pub contents: Vec<Content>,
    pub max_output_tokens: u32,
}

/// A message of a request.
#[derive(Debug)]
pub struct Content {
    pub role: String,
    pub text: String,
}

/// The model of a request.
pub struct GenerateView {
    pub system_instruction: Seq<char>,
    pub contents: Seq<ContentView>,
    pub max_output_tokens: u32,
}

/// The model of a message of a request.
pub struct ContentView {
    pub role: Seq<char>,
    pub text: Seq<char>,
}

impl DeepView for GenerateRequest {
    type V = GenerateView;

    open spec fn deep_view(&self) -> GenerateView {
        GenerateView {
            system_instruction: self.system_instruction@,
            contents: self.contents.deep_view(),
            max_output_tokens: self.max_output_tokens,
        }
    }
}

impl DeepView for Content {
    type V = ContentView;

    open spec fn deep_view(&self) -> ContentView {
        ContentView { role: self.role@, text: self.text@ }
    }
}

/// What the writer of an earlier message is called.
pub open spec fn role_name(role: HistoryRole) -> Seq<char> {
    match role {
        HistoryRole::User => "user"@,
        HistoryRole::Assistant => "model"@,
    }
}

/// An earlier message in a request.
pub open spec fn earlier_message(m: HistoryView) -> ContentView {
    ContentView { role: role_name(m.role), text: m.content }
}

/// The documents, numbered from one on.
pub open spec fn document_list(docs: Seq<RagView>) -> Seq<char>
    decreases docs.len(),
{
    if docs.len() == 0 {
        Seq::empty()
    } else {
        let d = docs.last();
        document_list(docs.drop_last()) + "["@ + text::decimal(docs.len()) + "] "@ + d.title
            + " ("@ + d.source_type + ")\n"@ + d.text + "\n\n"@
    }
}

/// The present message: the documents, the question, and the demand to cite by
/// number; without documents the question alone.
pub open spec fn question_text(docs: Seq<RagView>, question: Seq<char>) -> Seq<char> {
    if docs.len() == 0 {
        "## 質問\n\n"@ + question
    } else {
        "## 参考ドキュメント\n\n"@ + document_list(docs) + "## 質問\n\n"@ + question
            + "\n\n回答時は根拠となる参照を `[n]` 形式で本文中に明示してください。"@
    }
}

/// A request to Gemini.
pub open spec fn gemini_request(req: RequestView) -> GenerateView {
    GenerateView {
        system_instruction: req.system,
        contents: req.history.map_values(|m: HistoryView| earlier_message(m)).push(
            ContentView { role: "user"@, text: question_text(req.documents, req.user) },
        ),
        max_output_tokens: MAX_OUTPUT_TOKENS,
    }
}

/// `document_list`, executable.
fn list_documents(docs: &Vec<RagDocument>) -> (r: String)
    ensures
        r@ == document_list(docs.deep_view()),
{
    let ghost all = docs.deep_view();
    let mut out = String::new();
    assert(out@ =~= document_list(all.take(0)));
    for i in 0..docs.len()
        invariant
            all == docs.deep_view(),
            out@ == document_list(all.take(i as int)),
    {
        let d = &docs[i];
        assert(all.take(i + 1).drop_last() =~= all.take(i as int));
        assert(all.take(i + 1).last() == d.deep_view());
        out.append("[");
        out.append(number(i as u64 + 1).as_str());
        out.append("] ");
        out.append(d.title.as_str());
        out.append(" (");
        out.append(d.source_type.as_str());
        out.append(")\n");
        out.append(d.text.as_str());
        out.append("\n\n");
    }
    assert(all.take(docs.len() as int) =~= all);
    out
}

/// `question_text`, executable.
pub fn question_of(docs: &Vec<RagDocument>, question: &str) -> (r: String)
    ensures
        r@ == question_text(docs.deep_view(), question@),
{
    if docs.len() == 0 {
        let mut out = "## 質問\n\n".to_owned();
        out.append(question);
        out
    } else {
        let mut out = "## 参考ドキュメント\n\n".to_owned();
        out.append(list_documents(docs).as_str());
        out.append("## 質問\n\n");
        out.append(question);
        out.append("\n\n回答時は根拠となる参照を `[n]` 形式で本文中に明示してください。");
        out
    }
}

/// A request to Gemini.
pub fn build_contents(req: &LlmRequest) -> (r: GenerateRequest)
    ensures
        r.deep_view() == gemini_request(req.deep_view()),
{
    let ghost history = req.history.deep_view();
    let mut contents: Vec<Content> = Vec::new();
    assert(contents.deep_view() =~= Seq::empty());
    for i in 0..req.history.len()
        invariant
            history == req.history.deep_view(),
            contents.deep_view() == history.take(i as int).map_values(
                |m: HistoryView| earlier_message(m),
            ),
    {
        let ghost before = contents.deep_view();
        assert(history[i as int] == req.history@[i as int].deep_view());
        let role = match req.history[i].role {
            HistoryRole::User => "user".to_owned(),
            HistoryRole::Assistant => "model".to_owned(),
        };
        let c = Content { role, text: req.history[i].content.clone() };
        contents.push(c);
        assert(contents.deep_view() =~= before.push(c.deep_view()));
        assert(history.take(i + 1) =~= history.take(i as int).push(history[i as int]));
        assert(contents.deep_view() =~= history.take(i + 1).map_values(
            |m: HistoryView| earlier_message(m),
        ));
    }
    assert(history.take(req.history.len() as int) =~= history);
    let ghost before = contents.deep_view();
    let c = Content {
        role: "user".to_owned(),
        text: question_of(&req.documents, req.user.as_str()),
    };
    contents.push(c);
    assert(contents.deep_view() =~= before.push(c.deep_view()));
    GenerateRequest {
        system_instruction: req.system.clone(),
        contents,
        max_output_tokens: MAX_OUTPUT_TOKENS,
    }
}

// ---------------------------------------------------------------------------
// Answers

/// An answer.
#[derive(Debug)]
pub struct GenerateResponse {
    pub candidates: Option<Vec<Candidate>>,
}

/// One of several answers.
#[derive(Debug)]
pub struct Candidate {
    pub content: Option<CandidateContent>,
}

/// The content of an answer.
#[derive(Debug)]
pub struct CandidateContent {
    pub parts: Option<Vec<RespPart>>,
}

/// A part of an answer.
#[derive(Debug)]
pub struct RespPart {
    pub text: Option<String>,
}

impl DeepView for RespPart {
    type V = Option<Seq<char>>;

    open spec fn deep_view(&self) -> Option<Seq<char>> {
        self.text.deep_view()
    }
}

impl DeepView for Candidate {
    /// The parts of the answer; there are none where it has no content.
    type V = Seq<Option<Seq<char>>>;

    open spec fn deep_view(&self) -> Seq<Option<Seq<char>>> {
        match self.content {
            Some(c) => match c.parts {
                Some(parts) => parts.deep_view(),
                None => Seq::empty(),
            },
            None => Seq::empty(),
        }
    }
}

impl DeepView for GenerateResponse {
    /// The answers; there are none where the list is missing.
    type V = Seq<Seq<Option<Seq<char>>>>;

    open spec fn deep_view(&self) -> Seq<Seq<Option<Seq<char>>>> {
        match self.candidates {
            Some(c) => c.deep_view(),
            None => Seq::empty(),
        }
    }
}

/// The texts of the parts, one after another.
pub open spec fn parts_text(parts: Seq<Option<Seq<char>>>) -> Seq<char>
    decreases parts.len(),
{
    if parts.len() == 0 {
        Seq::empty()
    } else {
        parts_text(parts.drop_last()) + text::text_or_empty(parts.last())
    }
}

/// The text of one of several answers.
pub fn candidate_text(c: &Candidate) -> (r: String)
    ensures
        r@ == parts_text(c.deep_view()),
{
    let mut out = String::new();
    if let Some(content) = &c.content {
        if let Some(parts) = &content.parts {
            let ghost all = parts.deep_view();
            assert(out@ =~= parts_text(all.take(0)));
            for i in 0..parts.len()
                invariant
                    all == parts.deep_view(),
                    out@ == parts_text(all.take(i as int)),
            {
                assert(all.take(i + 1).drop_last() =~= all.take(i as int));
                assert(all.take(i + 1).last() == parts@[i as int].deep_view());
                let ghost before = out@;
                match &parts[i].text {
                    Some(t) => out.append(t.as_str()),
                    None => {
                        assert(before + Seq::<char>::empty() =~= before);
                    },
                }
            }
            assert(all.take(parts.len() as int) =~= all);
            assert(c.deep_view() == all);
        }
    }
    out
}

/// The text of the first answer, empty where there is none.
pub open spec fn first_text(candidates: Seq<Seq<Option<Seq<char>>>>) -> Seq<char> {
    if candidates.len() == 0 {
        Seq::empty()
    } else {
        parts_text(candidates[0])
    }
}

/// The text of the last answer, empty where there is none.
pub open spec fn last_text(candidates: Seq<Seq<Option<Seq<char>>>>) -> Seq<char> {
    if candidates.len() == 0 {
        Seq::empty()
    } else {
        parts_text(candidates.last())
    }
}

impl GenerateResponse {
    /// The text of the first answer, empty where there is none.
    pub fn first(&self) -> (r: String)
        ensures
            r@ == first_text(self.deep_view()),
    {
        match &self.candidates {
            Some(c) => if c.len() > 0 {
                assert(c.deep_view()[0] == c@[0].deep_view());
                candidate_text(&c[0])
            } else {
                String::new()
            },
            None => String::new(),
        }
    }

    /// The text of the last answer, empty where there is none.
    pub fn last(&self) -> (r: String)
        ensures
            r@ == last_text(self.deep_view()),
    {
        match &self.candidates {
            Some(c) => if c.len() > 0 {
                assert(c.deep_view().last() == c@[c@.len() - 1].deep_view());
                candidate_text(&c[c.len() - 1])
            } else {
                String::new()
            },
            None => String::new(),
        }
    }
}

// ---------------------------------------------------------------------------
// Citations

/// Whether a number in square brackets begins at position `i` of `s` and ends
/// at `j`, and is `n`.
pub open spec fn bracketed(s: Seq<char>, i: int, j: int, n: int) -> bool {
    &&& 0 <= i
    &&& i + 1 < j < s.len()
    &&& s[i] == '['
    &&& s[j] == ']'
    &&& text::all_digits(s.subrange(i + 1, j))
    &&& text::decimal_value(s.subrange(i + 1, j)) == n
}

/// Whether `s` holds the number `n` in square brackets before position `end`.
pub open spec fn cites_before(s: Seq<char>, n: int, end: int) -> bool {
    exists|i: int, j: int| i < end && #[trigger] bracketed(s, i, j, n)
}

/// Whether `s` holds the number `n` in square brackets.
pub open spec fn cites(s: Seq<char>, n: int) -> bool {
    exists|i: int, j: int| #[trigger] bracketed(s, i, j, n)
}

/// The documents that `s` cites by their numbers, counted from one, each once
/// and in the order of the documents.
pub open spec fn cited_documents(s: Seq<char>, docs: Seq<RagView>) -> Seq<CitationView>
    decreases docs.len(),
{
    if docs.len() == 0 {
        Seq::empty()
    } else {
        let before = cited_documents(s, docs.drop_last());
        if cites(s, docs.len() as int) {
            before.push(llm::cited(docs.last()))
        } else {
            before
        }
    }
}

/// Where the digits that begin at `from` end.
fn digits_end(v: &Vec<char>, from: usize) -> (r: usize)
    requires
        from <= v@.len(),
    ensures
        from <= r <= v@.len(),
        text::all_digits(v@.subrange(from as int, r as int)),
        r < v@.len() ==> !text::is_digit(v@[r as int]),
{
    let mut j: usize = from;
    while j < v.len() && '0' <= v[j] && v[j] <= '9'
        invariant
            from <= j <= v@.len(),
            forall|k: int| from <= k < j ==> text::is_digit(#[trigger] v@[k]),
        decreases v@.len() - j,
    {
        j += 1;
    }
    assert forall|k: int| 0 <= k < j - from implies text::is_digit(
        #[trigger] v@.subrange(from as int, j as int)[k],
    ) by {
        assert(v@.subrange(from as int, j as int)[k] == v@[from + k]);
    }
    j
}

/// A number in brackets ends where its digits end.
proof fn lemma_bracket_end(s: Seq<char>, i: int, j: int, n: int, end: int)
    requires
        bracketed(s, i, j, n),
        i + 1 <= end <= s.len(),
        text::all_digits(s.subrange(i + 1, end)),
        end < s.len() ==> !text::is_digit(s[end]),
    ensures
        j == end,
{
    if j < end {
        assert(s.subrange(i + 1, end)[j - i - 1] == s[j]);
        assert(text::is_digit(s[j]));
    } else if end < j {
        assert(s.subrange(i + 1, j)[end - i - 1] == s[end]);
    }
}

/// The number in brackets that begins at position `i`, if one does and it is
/// not zero and at most `max`.
fn number_at(v: &Vec<char>, i: usize, max: usize) -> (r: Option<usize>)
    requires
        i < v.len(),
    ensures
        match r {
            Some(n) => 1 <= n <= max && exists|j: int| #[trigger]
                bracketed(v@, i as int, j, n as int) && forall|j: int, m: int| #[trigger]
                bracketed(v@, i as int, j, m) ==> m == n,
            None => forall|j: int, m: int| #[trigger]
                bracketed(v@, i as int, j, m) ==> !(1 <= m <= max),
        },
{
    if v[i] != '[' {
        return None;
    }
    let j = digits_end(v, i + 1);
    assert forall|k: int, m: int| #[trigger] bracketed(v@, i as int, k, m) implies k == j by {
        lemma_bracket_end(v@, i as int, k, m, j as int);
    }
    if j == i + 1 || j >= v.len() || v[j] != ']' {
        return None;
    }
    let digits = chars_of(text_between(v, i + 1, j).as_str());
    assert(digits@ == v@.subrange(i + 1, j as int));
    assert(text::is_digit(digits@[0]));
    match parse_unsigned(&digits, max as u64) {
        Some(n) => {
            assert(text::decimal_value(digits@) == n);
            if n >= 1 {
                assert(bracketed(v@, i as int, j as int, n as int));
                Some(n as usize)
            } else {
                None
            }
        },
        None => {
            assert(text::decimal_value(digits@) > max);
            None
        },
    }
}

/// The documents that a text cites by their numbers in square brackets.
pub fn extract_citations(s: &str, docs: &Vec<RagDocument>) -> (r: Vec<Citation>)
    ensures
        r.deep_view() == cited_documents(s@, docs.deep_view()),
{
    let v = chars_of(s);
    let n = docs.len();
    let mut seen: Vec<bool> = Vec::new();
    for k in 0..n
        invariant
            seen@.len() == k,
            forall|m: int| 0 <= m < k ==> !seen@[m],
    {
        seen.push(false);
    }
    let mut i: usize = 0;
    while i < v.len()
        invariant
            i <= v@.len(),
            v@ == s@,
            seen@.len() == n,
            forall|m: int| 0 <= m < n ==> #[trigger] seen@[m] == cites_before(s@, m + 1, i as int),
        decreases v@.len() - i,
    {
        let ghost before = seen@;
        let found = number_at(&v, i, n);
        if let Some(k) = found {
            seen.set(k - 1, true);
        }
        i += 1;
        assert forall|m: int| 0 <= m < n implies #[trigger] seen@[m] == cites_before(
            s@,
            m + 1,
            i as int,
        ) by {
            let end = i - 1;
            assert(before[m] == cites_before(s@, m + 1, end));
            if cites_before(s@, m + 1, i as int) {
                let (a, b) = choose|a: int, b: int|
                    a < i && #[trigger] bracketed(s@, a, b, m + 1);
                if a < end {
                    assert(cites_before(s@, m + 1, end));
                } else {
                    assert(a == end);
                    assert(bracketed(v@, end, b, m + 1));
                }
            }
            if before[m] {
                let (a, b) = choose|a: int, b: int|
                    a < end && #[trigger] bracketed(s@, a, b, m + 1);
                assert(a < i && bracketed(s@, a, b, m + 1));
            }
            if let Some(k) = found {
                if m == k - 1 {
                    let b = choose|b: int| #[trigger] bracketed(v@, end, b, k as int);
                    assert(end < i && bracketed(s@, end, b, m + 1));
                }
            }
        }
    }
    assert forall|m: int| 0 <= m < n implies #[trigger] seen@[m] == cites(s@, m + 1) by {
        if cites(s@, m + 1) {
            let (a, b) = choose|a: int, b: int| #[trigger] bracketed(s@, a, b, m + 1);
            assert(a < i && bracketed(s@, a, b, m + 1));
        }
    }
    let ghost all = docs.deep_view();
    let mut out: Vec<Citation> = Vec::new();
    assert(out.deep_view() =~= cited_documents(s@, all.take(0)));
    for k in 0..n
        invariant
            n == docs@.len(),
            all == docs.deep_view(),
            seen@.len() == n,
            forall|m: int| 0 <= m < n ==> #[trigger] seen@[m] == cites(s@, m + 1),
            out.deep_view() == cited_documents(s@, all.take(k as int)),
    {
        assert(all.take(k + 1).drop_last() =~= all.take(k as int));
        assert(all.take(k + 1).last() == docs@[k as int].deep_view());
        if seen[k] {
            let ghost before = out.deep_view();
            let c = cite(&docs[k]);
            out.push(c);
            assert(out.deep_view() =~= before.push(c.deep_view()));
        }
    }
    assert(all.take(n as int) =~= all);
    out
}

/// An answer of Gemini to a request with these documents.
pub open spec fn gemini_answer(
    docs: Seq<RagView>,
    candidates: Seq<Seq<Option<Seq<char>>>>,
) -> ResponseView {
    ResponseView {
        content: first_text(candidates),
        citations: cited_documents(first_text(candidates), docs),
    }
}

/// An answer of Gemini to a request with these documents.
pub fn read_answer(docs: &Vec<RagDocument>, response: &GenerateResponse) -> (r: LlmResponse)
    ensures
        r.deep_view() == gemini_answer(docs.deep_view(), response.deep_view()),
{
    let content = response.first();
    let citations = extract_citations(content.as_str(), docs);
    LlmResponse { content, citations }
}

// ---------------------------------------------------------------------------
// Laws

/// No more documents are cited than there are, each citation is one of the
/// documents, and a document is cited if and only if its number is.
pub proof fn law_citations(s: Seq<char>, docs: Seq<RagView>)
    ensures
        cited_documents(s, docs).len() <= docs.len(),
        forall|c: CitationView| #[trigger]
            cited_documents(s, docs).contains(c) <==> exists|k: int|
                0 <= k < docs.len() && cites(s, k + 1) && c == llm::cited(#[trigger] docs[k]),
    decreases docs.len(),
{
    let r = cited_documents(s, docs);
    if docs.len() > 0 {
        let prev = docs.drop_last();
        let before = cited_documents(s, prev);
        law_citations(s, prev);
        assert forall|c: CitationView| #[trigger] r.contains(c) <==> exists|k: int|
            0 <= k < docs.len() && cites(s, k + 1) && c == llm::cited(#[trigger] docs[k]) by {
            if r.contains(c) {
                let i = choose|i: int| 0 <= i < r.len() && r[i] == c;
                if i < before.len() {
                    assert(before[i] == c);
                    assert(before.contains(c));
                    let k = choose|k: int|
                        0 <= k < prev.len() && cites(s, k + 1) && c == llm::cited(
                            #[trigger] prev[k],
                        );
                    assert(docs[k] == prev[k]);
                } else {
                    assert(c == llm::cited(docs[docs.len() - 1]));
                }
            }
            if exists|k: int|
                0 <= k < docs.len() && cites(s, k + 1) && c == llm::cited(#[trigger] docs[k]) {
                let k = choose|k: int|
                    0 <= k < docs.len() && cites(s, k + 1) && c == llm::cited(#[trigger] docs[k]);
                if k < prev.len() {
                    assert(prev[k] == docs[k]);
                    assert(before.contains(c));
                    let i = choose|i: int| 0 <= i < before.len() && before[i] == c;
                    assert(r[i] == c);
                } else {
                    assert(r[r.len() - 1] == c);
                }
            }
        }
    }
}

} // verus!
