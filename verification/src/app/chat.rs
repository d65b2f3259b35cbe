//! The state of a conversation.
use crate::chat::{ChatMessage, Citation, CitationView, MessageView, Role};
use crate::text;
use crate::text::{is_blank, on_one_line, take_chars};
use vstd::prelude::*;

verus! {

/// What comes of a question.
#[derive(Debug)]
pub enum ChatEvent {
    Response(String, Vec<Citation>),
    Failed(String),
}

/// The model of what comes of a question.
pub enum ChatEventView {
    Response(Seq<char>, Seq<CitationView>),
    Failed(Seq<char>),
}

impl DeepView for ChatEvent {
    type V = ChatEventView;

    open spec fn deep_view(&self) -> ChatEventView {
        match self {
            ChatEvent::Response(s, c) => ChatEventView::Response(s@, c.deep_view()),
            ChatEvent::Failed(s) => ChatEventView::Failed(s@),
        }
    }
}

/// A conversation.
#[derive(Debug)]
pub struct ChatState {
    pub input: String,
    pub history: Vec<ChatMessage>,
    pub busy: bool,
}

/// A question that is to be answered.
#[derive(Debug)]
pub struct Question {
    pub text: String,
    /// The messages before it.
    pub history: Vec<ChatMessage>,
}

/// The message that an event adds.
pub open spec fn answer_message(e: ChatEventView) -> MessageView {
    match e {
        ChatEventView::Response(content, citations) => MessageView {
            role: Role::Assistant,
            content,
            citations,
        },
        ChatEventView::Failed(msg) => MessageView {
            role: Role::Assistant,
            content: "エラー: "@ + msg,
            citations: Seq::empty(),
        },
    }
}

/// A question as a message.
pub open spec fn question_message(body: Seq<char>) -> MessageView {
    MessageView { role: Role::User, content: body, citations: Seq::empty() }
}

/// No citations.
fn no_citations() -> (r: Vec<Citation>)
    ensures
        r.deep_view() == Seq::<CitationView>::empty(),
{
    let r: Vec<Citation> = Vec::new();
    assert(r.deep_view() =~= Seq::empty());
    r
}

impl ChatState {
    /// An empty conversation.
    pub fn new() -> (r: Self)
        ensures
            r.input@.len() == 0,
            r.history.deep_view() == Seq::<MessageView>::empty(),
            !r.busy,
    {
        let r = ChatState { input: String::new(), history: Vec::new(), busy: false };
        assert(r.history.deep_view() =~= Seq::empty());
        r
    }

    /// Takes in what came of a question.
    pub fn apply(&mut self, event: ChatEvent)
        ensures
            final(self).history.deep_view() == old(self).history.deep_view().push(
                answer_message(event.deep_view()),
            ),
            !final(self).busy,
            final(self).input == old(self).input,
    {
        let ghost before = self.history.deep_view();
        let m = match event {
            ChatEvent::Response(content, citations) => ChatMessage {
                role: Role::Assistant,
                content,
                citations,
            },
            ChatEvent::Failed(msg) => {
                let mut content = "エラー: ".to_owned();
                content.append(msg.as_str());
                ChatMessage { role: Role::Assistant, content, citations: no_citations() }
            },
        };
        self.history.push(m);
        assert(self.history.deep_view() =~= before.push(m.deep_view()));
        self.busy = false;
    }

    /// Asks what was typed in, unless it is blank.
    pub fn submit(&mut self) -> (r: Option<Question>)
        ensures
            match r {
                Some(q) => {
                    &&& !text::blank(old(self).input@)
                    &&& q.text@ == old(self).input@
                    &&& q.history.deep_view() == old(self).history.deep_view()
                    &&& final(self).input@.len() == 0
                    &&& final(self).history.deep_view() == old(self).history.deep_view().push(
                        question_message(old(self).input@),
                    )
                    &&& final(self).busy
                },
                None => text::blank(old(self).input@) && *final(self) == *old(self),
            },
    {
        if is_blank(self.input.as_str()) {
            return None;
        }
        let question = self.input.clone();
        self.input = String::new();
        let history = self.history.clone();
        let ghost before = self.history.deep_view();
        assert(history.deep_view() =~= before);
        let m = ChatMessage {
            role: Role::User,
            content: question.clone(),
            citations: no_citations(),
        };
        self.history.push(m);
        assert(self.history.deep_view() =~= before.push(m.deep_view()));
        self.busy = true;
        Some(Question { text: question, history })
    }
}

// ---------------------------------------------------------------------------
// The list of questions

/// The number of characters of a question that the list shows.
pub const LABEL_CHARS: usize = 22;

/// A question in one line, cut where it is long.
pub open spec fn short_label(s: Seq<char>) -> Seq<char> {
    let line = text::one_line(s);
    if line.len() > LABEL_CHARS {
        line.take(LABEL_CHARS as int) + "…"@
    } else {
        line
    }
}

/// A question in one line, cut where it is long.
pub fn history_label(s: &str) -> (r: String)
    ensures
        r@ == short_label(s@),
{
    let one = on_one_line(s);
    let mut short = take_chars(one.as_str(), LABEL_CHARS);
    if one.as_str().unicode_len() > LABEL_CHARS {
        short.append("…");
    }
    short
}

/// The questions among messages, each with its position and its label.
pub open spec fn question_list(history: Seq<MessageView>) -> Seq<(int, Seq<char>)>
    decreases history.len(),
{
    if history.len() == 0 {
        Seq::empty()
    } else {
        let before = question_list(history.drop_last());
        if history.last().role == Role::User {
            before.push((history.len() - 1, short_label(history.last().content)))
        } else {
            before
        }
    }
}

/// The model of a list of positions and labels.
pub open spec fn labelled(v: Seq<(usize, String)>) -> Seq<(int, Seq<char>)> {
    v.map_values(|p: (usize, String)| (p.0 as int, p.1@))
}

/// The questions among messages, each with its position and its label.
pub fn questions(history: &Vec<ChatMessage>) -> (r: Vec<(usize, String)>)
    ensures
        labelled(r@) == question_list(history.deep_view()),
{
    let ghost all = history.deep_view();
    let mut out: Vec<(usize, String)> = Vec::new();
    assert(labelled(out@) =~= question_list(all.take(0)));
    for i in 0..history.len()
        invariant
            all == history.deep_view(),
            labelled(out@) == question_list(all.take(i as int)),
    {
        assert(all.take(i + 1).drop_last() =~= all.take(i as int));
        assert(all.take(i + 1).last() == history@[i as int].deep_view());
        if history[i].role == Role::User {
            let ghost before = labelled(out@);
            let label = history_label(history[i].content.as_str());
            out.push((i, label));
            assert(labelled(out@) =~= before.push((i as int, label@)));
        }
    }
    assert(all.take(history.len() as int) =~= all);
    out
}

// ---------------------------------------------------------------------------
// Laws

/// A label has no line feed and is at most one character longer than the part
/// that is shown.
pub proof fn law_label_is_short(s: Seq<char>)
    ensures
        short_label(s).len() <= LABEL_CHARS + 1,
        !short_label(s).contains('\n'),
{
    reveal_strlit("…");
    let line = text::one_line(s);
    let r = short_label(s);
    assert forall|i: int| 0 <= i < r.len() implies r[i] != '\n' by {
        if i < line.len() && i < LABEL_CHARS {
            assert(r[i] == line[i]);
        }
    }
}

} // verus!
