//! Laws on what the screens show.
use crate::app::browse;
use crate::app::chat;
use crate::app::chat::ChatEventView;
use crate::app::review;
use crate::app::review::{ReviewEvent, ReviewState};
use crate::app::sync;
use crate::app::sync::{SyncEventView, SyncStatusView};
use crate::chat::{CitationView, MessageView, Role};
use crate::config::SyncStateView;
use crate::text;
use crate::text_laws;
use crate::vectordb::ChunkView;
use vstd::prelude::*;

verus! {

// ---------------------------------------------------------------------------
// Synchronisation

/// Events are taken in one after another, and none is left out.
pub proof fn law_events_add_up(
    s: SyncStatusView,
    t: SyncStateView,
    a: Seq<SyncEventView>,
    b: Seq<SyncEventView>,
    auto_review: bool,
)
    ensures
        sync::after_events(s, a + b, auto_review) == sync::after_events(
            sync::after_events(s, a, auto_review),
            b,
            auto_review,
        ),
        sync::times_after_events(t, a + b) == sync::times_after_events(
            sync::times_after_events(t, a),
            b,
        ),
    decreases b.len(),
{
    if b.len() == 0 {
        assert(a + b =~= a);
    } else {
        law_events_add_up(s, t, a, b.drop_last(), auto_review);
        assert((a + b).drop_last() =~= a + b.drop_last());
        assert((a + b).last() == b.last());
    }
}

/// What one event changes: the log gets its line, the time of what is done is
/// kept, new pages are kept for review where that is asked for, and the end of the
/// run ends the waiting. Nothing else changes.
pub proof fn law_one_event(s: SyncStatusView, e: SyncEventView, auto_review: bool)
    ensures
        ({
            let r = sync::after_events(s, seq![e], auto_review);
            match e {
                SyncEventView::Log(line) => r == SyncStatusView { log: s.log + seq![line], ..s },
                SyncEventView::JiraDone(ts) => r == SyncStatusView {
                    log: s.log + seq!["Jira sync 完了"@],
                    jira_last_synced: Some(ts),
                    ..s
                },
                SyncEventView::ConfluenceDone(ts) => r == SyncStatusView {
                    log: s.log + seq!["Confluence sync 完了"@],
                    confluence_last_synced: Some(ts),
                    ..s
                },
                SyncEventView::NewPagesDetected(pages) => r == SyncStatusView {
                    log: s.log + seq![
                        "新規 "@ + text::decimal(pages.len()) + " 件を自動レビュー候補に"@,
                    ],
                    to_review: if auto_review {
                        s.to_review + pages
                    } else {
                        s.to_review
                    },
                    ..s
                },
                SyncEventView::Finished => r == SyncStatusView { busy: false, ..s },
                SyncEventView::Failed(msg) => r == SyncStatusView {
                    log: s.log + seq!["エラー: "@ + msg],
                    busy: false,
                    ..s
                },
            }
        }),
{
    let one = seq![e];
    assert(one.drop_last() =~= Seq::empty());
    assert(sync::after_events(s, one.drop_last(), auto_review) == s);
    assert(sync::after_events(s, one, auto_review) == sync::after_event(s, e, auto_review));
    match e {
        SyncEventView::Log(line) => {
            assert(s.log.push(line) =~= s.log + seq![line]);
        },
        SyncEventView::JiraDone(_) => {
            assert(s.log.push("Jira sync 完了"@) =~= s.log + seq!["Jira sync 完了"@]);
        },
        SyncEventView::ConfluenceDone(_) => {
            assert(s.log.push("Confluence sync 完了"@) =~= s.log + seq!["Confluence sync 完了"@]);
        },
        SyncEventView::NewPagesDetected(pages) => {
            let line = "新規 "@ + text::decimal(pages.len()) + " 件を自動レビュー候補に"@;
            assert(s.log.push(line) =~= s.log + seq![line]);
        },
        SyncEventView::Finished => {},
        SyncEventView::Failed(msg) => {
            assert(s.log.push("エラー: "@ + msg) =~= s.log + seq!["エラー: "@ + msg]);
        },
    }
}

/// A run is over when it has finished or failed, and only then.
pub proof fn law_end_of_run(e: SyncEventView)
    ensures
        sync::is_over(e) <==> e is Finished || e is Failed,
        sync::ends_in(seq![e]) <==> e is Finished || e is Failed,
{
    assert(seq![e][0] == e);
}

/// The time of a synchronisation is that of the last event of its kind; without
/// one it stays.
pub proof fn law_last_time_counts(
    t: SyncStateView,
    a: Seq<SyncEventView>,
    ts: Seq<char>,
    b: Seq<SyncEventView>,
)
    ensures
        (forall|i: int| 0 <= i < b.len() ==> !((#[trigger] b[i]) is JiraDone)) ==> (
        sync::times_after_events(t, a + seq![SyncEventView::JiraDone(ts)] + b).jira_last_synced
            == Some(ts) && sync::times_after_events(t, b).jira_last_synced == t.jira_last_synced),
        (forall|i: int| 0 <= i < b.len() ==> !((#[trigger] b[i]) is ConfluenceDone)) ==> (
        sync::times_after_events(
            t,
            a + seq![SyncEventView::ConfluenceDone(ts)] + b,
        ).confluence_last_synced == Some(ts) && sync::times_after_events(
            t,
            b,
        ).confluence_last_synced == t.confluence_last_synced),
    decreases b.len(),
{
    let j = a + seq![SyncEventView::JiraDone(ts)];
    let c = a + seq![SyncEventView::ConfluenceDone(ts)];
    if b.len() == 0 {
        assert(j + b =~= j);
        assert(c + b =~= c);
        assert(j.last() == SyncEventView::JiraDone(ts));
        assert(c.last() == SyncEventView::ConfluenceDone(ts));
    } else {
        let prev = b.drop_last();
        law_last_time_counts(t, a, ts, prev);
        assert((j + b).drop_last() =~= j + prev);
        assert((c + b).drop_last() =~= c + prev);
        assert((j + b).last() == b.last());
        assert((c + b).last() == b.last());
        assert(b.last() == b[b.len() - 1]);
        assert forall|i: int| 0 <= i < prev.len() implies #[trigger] prev[i] == b[i] by {}
    }
}

/// The last 200 lines of the log are shown, the latest first.
pub proof fn law_latest_lines_are_shown(log: Seq<Seq<char>>)
    ensures
        sync::shown_lines(log).len() == (if log.len() <= 200 {
            log.len()
        } else {
            200
        }),
        forall|k: int|
            0 <= k < sync::shown_lines(log).len() ==> #[trigger] sync::shown_lines(log)[k]
                == log[log.len() - 1 - k],
{
}

// ---------------------------------------------------------------------------
// Browsing

/// A chunk is shown if and only if what is looked for is empty or occurs in its
/// text or its title, without regard to case.
pub proof fn law_what_is_visible(c: ChunkView, needle: Seq<char>)
    ensures
        browse::is_visible(c, needle) <==> needle.len() == 0 || (exists|i: int|
            0 <= i && i + needle.len() <= text::lowercase(c.text).len()
                && #[trigger] text::lowercase(c.text).subrange(i, i + needle.len()) == needle) || (
        exists|i: int|
            0 <= i && i + needle.len() <= text::lowercase(c.title).len()
                && #[trigger] text::lowercase(c.title).subrange(i, i + needle.len()) == needle),
{
    text_laws::law_find_from(text::lowercase(c.text), needle, 0);
    text_laws::law_find_from(text::lowercase(c.title), needle, 0);
}

/// The chunks that are shown keep their places: adding chunks adds to what is
/// shown.
pub proof fn law_visible_adds_up(chunks: Seq<ChunkView>, c: ChunkView, needle: Seq<char>)
    ensures
        browse::visible_positions(chunks.push(c), needle) == (if browse::is_visible(c, needle) {
            browse::visible_positions(chunks, needle) + seq![chunks.len() as int]
        } else {
            browse::visible_positions(chunks, needle)
        }),
{
    let all = chunks.push(c);
    assert(all.drop_last() =~= chunks);
    let before = browse::visible_positions(chunks, needle);
    assert(before.push(chunks.len() as int) =~= before + seq![chunks.len() as int]);
}

/// What is looked for is the keyword, trimmed and in lower case.
pub proof fn law_needle(keyword: Seq<char>)
    ensures
        browse::needle_of(keyword) == text::lowercase(text::trim(keyword)),
{
}

/// A preview is the whole text on one line, or its first 120 characters and an
/// ellipsis.
pub proof fn law_preview(body: Seq<char>)
    ensures
        body.len() < 120 ==> browse::preview(body) == text::one_line(body),
        body.len() >= 120 ==> browse::preview(body) == text::one_line(body.take(120)) + "…"@,
{
    text_laws::law_first_chars(body, 120);
    text_laws::law_one_line(body);
    text_laws::law_one_line(body.take(120));
    text_laws::law_one_line(text::first_chars(body, 120));
}

/// The line of a chunk names its source and title and shows its preview.
pub proof fn law_summary_line(c: ChunkView)
    ensures
        browse::summary_line(c) == "["@ + c.source_type + "] "@ + c.title + "  —  "@
            + browse::preview(c.text),
        browse::source_name(Seq::empty()) == "すべて"@,
        browse::source_name("jira"@) == "Jira"@,
        browse::source_name("confluence"@) == "Confluence"@,
        c.source_type.len() > 0 && c.source_type != "jira"@ && c.source_type != "confluence"@
            ==> browse::source_name(c.source_type) == c.source_type,
{
    reveal_strlit("jira");
    reveal_strlit("confluence");
    assert("jira"@.len() == 4 && "confluence"@.len() == 10);
}

// ---------------------------------------------------------------------------
// Questions and answers

/// A label is the whole text on one line, or its first 22 characters and an
/// ellipsis.
pub proof fn law_label(s: Seq<char>)
    ensures
        s.len() <= 22 ==> chat::short_label(s) == text::one_line(s),
        s.len() > 22 ==> chat::short_label(s) == text::one_line(s).take(22) + "…"@,
{
    text_laws::law_one_line(s);
}

/// An answer is kept whole with all its citations; a failure is kept with its
/// message; a question is kept whole.
pub proof fn law_messages_are_whole(body: Seq<char>, citations: Seq<CitationView>)
    ensures
        chat::answer_message(ChatEventView::Response(body, citations)) == (MessageView {
            role: Role::Assistant,
            content: body,
            citations,
        }),
        chat::answer_message(ChatEventView::Failed(body)) == (MessageView {
            role: Role::Assistant,
            content: "エラー: "@ + body,
            citations: Seq::empty(),
        }),
        chat::question_message(body) == (MessageView {
            role: Role::User,
            content: body,
            citations: Seq::empty(),
        }),
{
}

/// Every question is listed, with its place and its label, in order, and nothing
/// else is.
pub proof fn law_questions_are_listed(history: Seq<MessageView>, m: MessageView)
    ensures
        chat::question_list(history.push(m)) == (if m.role == Role::User {
            chat::question_list(history) + seq![
                (history.len() as int, chat::short_label(m.content)),
            ]
        } else {
            chat::question_list(history)
        }),
        chat::question_list(Seq::empty()).len() == 0,
{
    let all = history.push(m);
    assert(all.drop_last() =~= history);
    let before = chat::question_list(history);
    let one = (history.len() as int, chat::short_label(m.content));
    assert(before.push(one) =~= before + seq![one]);
}

// ---------------------------------------------------------------------------
// Reviews

/// A review that was asked for is shown; one after a synchronisation, and a
/// failure, leave one less to come. Nothing else changes.
pub proof fn law_review_events(s: ReviewState, e: ReviewEvent)
    ensures
        ({
            let r = review::after_event(s, e);
            &&& r.paste_title == s.paste_title && r.paste_text == s.paste_text
            &&& r.auto_results == s.auto_results && r.expanded_idx == s.expanded_idx
            &&& match e {
                ReviewEvent::Manual(v) => r.manual_result == Some(v) && !r.busy && r.pending_auto
                    == s.pending_auto,
                ReviewEvent::Auto(_) => r.manual_result == s.manual_result && r.busy == s.busy
                    && r.pending_auto == (if s.pending_auto == 0 {
                    0
                } else {
                    s.pending_auto - 1
                }),
                ReviewEvent::Failed(_) => r.manual_result == s.manual_result && !r.busy
                    && r.pending_auto == (if s.pending_auto == 0 {
                    0
                } else {
                    s.pending_auto - 1
                }),
            }
        }),
{
}

/// Reviews that begin are all to come, and as many of them that end leave none.
pub proof fn law_started_reviews_are_counted(s: ReviewState, count: nat)
    requires
        s.pending_auto + count <= usize::MAX,
    ensures
        review::with_started(s, count as int).pending_auto == s.pending_auto + count,
        review::with_started(s, count as int) == (ReviewState {
            pending_auto: (s.pending_auto + count) as usize,
            ..s
        }),
{
}

} // verus!
