//! The state of a synchronisation.
use crate::app::review;
use crate::app::review::ReviewState;
use crate::app::{NewPageInfo, NewPageView};
use crate::config::{IngestOptions, SyncState, SyncStateView};
use crate::lists;
use crate::text;
use crate::text::number;
use vstd::prelude::*;

verus! {

/// What a synchronisation reports.
#[derive(Debug)]
pub enum SyncEvent {
    Log(String),
    /// The issues are done, at this time.
    JiraDone(String),
    /// The pages are done, at this time.
    ConfluenceDone(String),
    /// Pages in their first version were found.
    NewPagesDetected(Vec<NewPageInfo>),
    Finished,
    Failed(String),
}

/// The model of what a synchronisation reports.
pub enum SyncEventView {
    Log(Seq<char>),
    JiraDone(Seq<char>),
    ConfluenceDone(Seq<char>),
    NewPagesDetected(Seq<NewPageView>),
    Finished,
    Failed(Seq<char>),
}

impl DeepView for SyncEvent {
    type V = SyncEventView;

    open spec fn deep_view(&self) -> SyncEventView {
        match self {
            SyncEvent::Log(s) => SyncEventView::Log(s@),
            SyncEvent::JiraDone(s) => SyncEventView::JiraDone(s@),
            SyncEvent::ConfluenceDone(s) => SyncEventView::ConfluenceDone(s@),
            SyncEvent::NewPagesDetected(pages) => SyncEventView::NewPagesDetected(
                pages.deep_view(),
            ),
            SyncEvent::Finished => SyncEventView::Finished,
            SyncEvent::Failed(s) => SyncEventView::Failed(s@),
        }
    }
}

/// What is shown of synchronisations, and the pages that are reviewed when the
/// present one is over.
#[derive(Debug)]
pub struct SyncStatus {
    pub busy: bool,
    pub jira_last_synced: Option<String>,
    pub confluence_last_synced: Option<String>,
    pub log: Vec<String>,
    pub to_review: Vec<NewPageInfo>,
}

/// The model of what is shown of synchronisations.
pub struct SyncStatusView {
    pub busy: bool,
    pub jira_last_synced: Option<Seq<char>>,
    pub confluence_last_synced: Option<Seq<char>>,
    pub log: Seq<Seq<char>>,
    pub to_review: Seq<NewPageView>,
}

impl DeepView for SyncStatus {
    type V = SyncStatusView;

    open spec fn deep_view(&self) -> SyncStatusView {
        SyncStatusView {
            busy: self.busy,
            jira_last_synced: self.jira_last_synced.deep_view(),
            confluence_last_synced: self.confluence_last_synced.deep_view(),
            log: self.log.deep_view(),
            to_review: self.to_review.deep_view(),
        }
    }
}

/// The line on new pages.
pub open spec fn candidates_line(count: nat) -> Seq<char> {
    "新規 "@ + text::decimal(count) + " 件を自動レビュー候補に"@
}

/// The status after an event.
pub open spec fn after_event(s: SyncStatusView, e: SyncEventView, auto_review: bool) -> SyncStatusView {
    match e {
        SyncEventView::Log(line) => SyncStatusView { log: s.log.push(line), ..s },
        SyncEventView::JiraDone(ts) => SyncStatusView {
            jira_last_synced: Some(ts),
            log: s.log.push("Jira sync 完了"@),
            ..s
        },
        SyncEventView::ConfluenceDone(ts) => SyncStatusView {
            confluence_last_synced: Some(ts),
            log: s.log.push("Confluence sync 完了"@),
            ..s
        },
        SyncEventView::NewPagesDetected(pages) => SyncStatusView {
            log: s.log.push(candidates_line(pages.len())),
            to_review: if auto_review {
                s.to_review + pages
            } else {
                s.to_review
            },
            ..s
        },
        SyncEventView::Finished => SyncStatusView { busy: false, ..s },
        SyncEventView::Failed(msg) => SyncStatusView {
            busy: false,
            log: s.log.push("エラー: "@ + msg),
            ..s
        },
    }
}

/// The kept times after an event.
pub open spec fn times_after(t: SyncStateView, e: SyncEventView) -> SyncStateView {
    match e {
        SyncEventView::JiraDone(ts) => SyncStateView { jira_last_synced: Some(ts), ..t },
        SyncEventView::ConfluenceDone(ts) => SyncStateView {
            confluence_last_synced: Some(ts),
            ..t
        },
        _ => t,
    }
}

/// Whether a synchronisation is over with an event.
pub open spec fn is_over(e: SyncEventView) -> bool {
    e is Finished || e is Failed
}

/// The status after events, one after another.
pub open spec fn after_events(
    s: SyncStatusView,
    events: Seq<SyncEventView>,
    auto_review: bool,
) -> SyncStatusView
    decreases events.len(),
{
    if events.len() == 0 {
        s
    } else {
        after_event(after_events(s, events.drop_last(), auto_review), events.last(), auto_review)
    }
}

/// The kept times after events, one after another.
pub open spec fn times_after_events(t: SyncStateView, events: Seq<SyncEventView>) -> SyncStateView
    decreases events.len(),
{
    if events.len() == 0 {
        t
    } else {
        times_after(times_after_events(t, events.drop_last()), events.last())
    }
}

/// Whether a synchronisation is over with one of these events.
pub open spec fn ends_in(events: Seq<SyncEventView>) -> bool {
    exists|i: int| 0 <= i < events.len() && is_over(#[trigger] events[i])
}

/// The status after the events that have come by now. The pages that were put
/// down for it are given away once the synchronisation is over.
pub open spec fn drained(
    s: SyncStatusView,
    events: Seq<SyncEventView>,
    auto_review: bool,
) -> SyncStatusView {
    let t = after_events(s, events, auto_review);
    if ends_in(events) {
        SyncStatusView { to_review: Seq::empty(), ..t }
    } else {
        t
    }
}

/// The pages that are reviewed after these events: where the synchronisation is
/// over with them, those that were put down for it, `max` at most.
pub open spec fn reviewed(
    s: SyncStatusView,
    events: Seq<SyncEventView>,
    auto_review: bool,
    max: u32,
) -> Option<Seq<NewPageView>> {
    if ends_in(events) {
        Some(lists::at_most(after_events(s, events, auto_review).to_review, max as int))
    } else {
        None
    }
}

impl SyncStatus {
    /// Before the first synchronisation since the start.
    pub fn new(times: &SyncState) -> (r: Self)
        ensures
            r.deep_view() == (SyncStatusView {
                busy: false,
                jira_last_synced: times.deep_view().jira_last_synced,
                confluence_last_synced: times.deep_view().confluence_last_synced,
                log: Seq::empty(),
                to_review: Seq::empty(),
            }),
    {
        let r = SyncStatus {
            busy: false,
            jira_last_synced: times.jira_last_synced.clone(),
            confluence_last_synced: times.confluence_last_synced.clone(),
            log: Vec::new(),
            to_review: Vec::new(),
        };
        assert(r.log.deep_view() =~= Seq::empty());
        assert(r.to_review.deep_view() =~= Seq::empty());
        r
    }

    fn push_line(&mut self, line: String)
        ensures
            final(self).deep_view() == (SyncStatusView {
                log: old(self).deep_view().log.push(line@),
                ..old(self).deep_view()
            }),
    {
        let ghost before = self.log.deep_view();
        self.log.push(line);
        assert(self.log.deep_view() =~= before.push(line@));
    }

    /// Takes in an event, and keeps its time in the settings. The result says
    /// whether the synchronisation is over with it.
    pub fn apply(&mut self, event: SyncEvent, times: &mut SyncState, options: &IngestOptions) -> (r: bool)
        ensures
            final(self).deep_view() == after_event(
                old(self).deep_view(),
                event.deep_view(),
                options.auto_review_new_pages,
            ),
            final(times).deep_view() == times_after(old(times).deep_view(), event.deep_view()),
            r == is_over(event.deep_view()),
    {
        match event {
            SyncEvent::Log(line) => {
                self.push_line(line);
                false
            },
            SyncEvent::JiraDone(ts) => {
                times.jira_last_synced = Some(ts.clone());
                self.jira_last_synced = Some(ts);
                self.push_line("Jira sync 完了".to_owned());
                false
            },
            SyncEvent::ConfluenceDone(ts) => {
                times.confluence_last_synced = Some(ts.clone());
                self.confluence_last_synced = Some(ts);
                self.push_line("Confluence sync 完了".to_owned());
                false
            },
            SyncEvent::NewPagesDetected(pages) => {
                let mut line = "新規 ".to_owned();
                line.append(number(pages.len() as u64).as_str());
                line.append(" 件を自動レビュー候補に");
                self.push_line(line);
                if options.auto_review_new_pages {
                    let ghost before = self.to_review.deep_view();
                    let ghost added = pages.deep_view();
                    let mut pages = pages;
                    self.to_review.append(&mut pages);
                    assert(self.to_review.deep_view() =~= before + added);
                }
                false
            },
            SyncEvent::Finished => {
                self.busy = false;
                true
            },
            SyncEvent::Failed(msg) => {
                self.busy = false;
                let mut line = "エラー: ".to_owned();
                line.append(msg.as_str());
                self.push_line(line);
                true
            },
        }
    }

    /// The pages that are reviewed now that a synchronisation is over, as many
    /// as the settings allow; none is kept for later.
    pub fn take_reviews(&mut self, options: &IngestOptions) -> (r: Vec<NewPageInfo>)
        ensures
            r.deep_view() == lists::at_most(
                old(self).deep_view().to_review,
                options.max_auto_reviews as int,
            ),
            r@.len() <= options.max_auto_reviews,
            final(self).deep_view() == (SyncStatusView {
                to_review: Seq::empty(),
                ..old(self).deep_view()
            }),
    {
        let ghost before = self.to_review.deep_view();
        let mut pages: Vec<NewPageInfo> = Vec::new();
        pages.append(&mut self.to_review);
        assert(pages.deep_view() =~= before);
        assert(self.to_review.deep_view() =~= Seq::empty());
        if pages.len() > options.max_auto_reviews as usize {
            pages.truncate(options.max_auto_reviews as usize);
            assert(pages.deep_view() =~= before.take(options.max_auto_reviews as int));
        }
        pages
    }

    /// Takes in the events that have come by now, and keeps their times in the
    /// settings. The result is there where the synchronisation is over: the
    /// pages that are reviewed now.
    pub fn drain(
        &mut self,
        events: Vec<SyncEvent>,
        times: &mut SyncState,
        options: &IngestOptions,
    ) -> (r: Option<Vec<NewPageInfo>>)
        ensures
            final(self).deep_view() == drained(
                old(self).deep_view(),
                events.deep_view(),
                options.auto_review_new_pages,
            ),
            final(times).deep_view() == times_after_events(
                old(times).deep_view(),
                events.deep_view(),
            ),
            r.deep_view() == reviewed(
                old(self).deep_view(),
                events.deep_view(),
                options.auto_review_new_pages,
                options.max_auto_reviews,
            ),
    {
        let ghost all = events.deep_view();
        let ghost start = self.deep_view();
        let ghost known = times.deep_view();
        let ghost auto_review = options.auto_review_new_pages;
        let n = events.len();
        let mut left = events;
        let mut over = false;
        let mut i: usize = 0;
        assert(all.take(0) =~= Seq::empty());
        while i < n
            invariant
                i <= n,
                n == all.len(),
                left.deep_view() == all.skip(i as int),
                auto_review == options.auto_review_new_pages,
                self.deep_view() == after_events(start, all.take(i as int), auto_review),
                times.deep_view() == times_after_events(known, all.take(i as int)),
                over == ends_in(all.take(i as int)),
            decreases n - i,
        {
            let ghost before = all.take(i as int);
            let ghost now = all.take(i + 1);
            let ghost whole = left@;
            let ghost views = left.deep_view();
            assert(views[0] == all[i as int] && views.len() == whole.len());
            let event = left.remove(0);
            assert(event.deep_view() == views[0]);
            assert(left@ =~= whole.drop_first());
            assert(left.deep_view() =~= views.drop_first());
            assert(left.deep_view() =~= all.skip(i + 1));
            assert(now.drop_last() =~= before);
            if self.apply(event, times, options) {
                over = true;
            }
            i += 1;
            proof {
                lemma_ends_in(now);
            }
        }
        assert(all.take(n as int) =~= all);
        if over {
            let pages = self.take_reviews(options);
            Some(pages)
        } else {
            None
        }
    }

    /// Begins a synchronisation, of all or of what changed.
    pub fn start(&mut self, incremental: bool)
        ensures
            final(self).deep_view() == (SyncStatusView {
                busy: true,
                log: old(self).deep_view().log.push(
                    if incremental {
                        "増分同期を開始"@
                    } else {
                        "全件同期を開始"@
                    },
                ),
                ..old(self).deep_view()
            }),
    {
        self.busy = true;
        self.push_line(
            if incremental {
                "増分同期を開始".to_owned()
            } else {
                "全件同期を開始".to_owned()
            },
        );
    }

    /// The lines of the log that are shown: the last 200, the latest first.
    pub fn shown_log(&self) -> (r: Vec<String>)
        ensures
            r.deep_view() == shown_lines(self.deep_view().log),
    {
        let ghost all = self.log.deep_view();
        let n = self.log.len();
        let stop: usize = if n <= SHOWN_LINES {
            0
        } else {
            n - SHOWN_LINES
        };
        let mut out: Vec<String> = Vec::new();
        assert(out.deep_view() =~= Seq::empty());
        let mut i: usize = n;
        while i > stop
            invariant
                stop <= i <= n,
                n == self.log@.len(),
                all == self.log.deep_view(),
                out.deep_view() == Seq::new((n - i) as nat, |k: int| all[n - 1 - k]),
            decreases i,
        {
            i -= 1;
            let ghost before = out.deep_view();
            let line = self.log[i].clone();
            assert(all[i as int] == line@);
            out.push(line);
            assert(out.deep_view() =~= before.push(line@));
            assert(out.deep_view() =~= Seq::new((n - i) as nat, |k: int| all[n - 1 - k]));
        }
        assert(out.deep_view() =~= shown_lines(all));
        out
    }
}

/// The number of lines of the log that are shown.
pub const SHOWN_LINES: usize = 200;

/// The lines of the log that are shown: the last ones, the latest first.
pub open spec fn shown_lines(log: Seq<Seq<char>>) -> Seq<Seq<char>> {
    Seq::new(
        if log.len() <= SHOWN_LINES {
            log.len()
        } else {
            SHOWN_LINES as nat
        },
        |k: int| log[log.len() - 1 - k],
    )
}

/// What the button for a synchronisation of what changed is called.
pub fn incremental_label(synced: bool) -> (r: String)
    ensures
        r@ == (if synced {
            "増分同期"@
        } else {
            "増分同期 (未同期)"@
        }),
{
    if synced {
        "増分同期".to_owned()
    } else {
        "増分同期 (未同期)".to_owned()
    }
}

/// How the time of the last synchronisation is shown.
pub fn synced_text(time: &Option<String>) -> (r: String)
    ensures
        r@ == (match time.deep_view() {
            Some(t) => t,
            None => "未同期"@,
        }),
{
    match time {
        Some(t) => t.clone(),
        None => "未同期".to_owned(),
    }
}

// ---------------------------------------------------------------------------
// Laws

/// Nothing is written over in the log, and where new pages are not reviewed
/// none is put down for it.
pub proof fn law_log_grows(s: SyncStatusView, events: Seq<SyncEventView>, auto_review: bool)
    ensures
        s.log.is_prefix_of(after_events(s, events, auto_review).log),
        s.to_review.is_prefix_of(after_events(s, events, auto_review).to_review),
        !auto_review ==> after_events(s, events, auto_review).to_review == s.to_review,
    decreases events.len(),
{
    if events.len() == 0 {
        assert(s.log =~= s.log.subrange(0, s.log.len() as int));
        assert(s.to_review =~= s.to_review.subrange(0, s.to_review.len() as int));
    } else {
        law_log_grows(s, events.drop_last(), auto_review);
        let q = after_events(s, events.drop_last(), auto_review);
        let r = after_events(s, events, auto_review);
        assert(q.log.is_prefix_of(r.log)) by {
            assert(q.log =~= r.log.subrange(0, q.log.len() as int));
        }
        assert(q.to_review.is_prefix_of(r.to_review)) by {
            assert(q.to_review =~= r.to_review.subrange(0, q.to_review.len() as int));
        }
        assert(s.log =~= r.log.subrange(0, s.log.len() as int)) by {
            assert(s.log == q.log.subrange(0, s.log.len() as int));
            assert forall|k: int| 0 <= k < s.log.len() implies s.log[k] == r.log[k] by {
                assert(q.log.subrange(0, s.log.len() as int)[k] == q.log[k]);
                assert(r.log.subrange(0, q.log.len() as int)[k] == r.log[k]);
            }
        }
        assert(s.to_review =~= r.to_review.subrange(0, s.to_review.len() as int)) by {
            assert(s.to_review == q.to_review.subrange(0, s.to_review.len() as int));
            assert forall|k: int| 0 <= k < s.to_review.len() implies s.to_review[k]
                == r.to_review[k] by {
                assert(q.to_review.subrange(0, s.to_review.len() as int)[k] == q.to_review[k]);
                assert(r.to_review.subrange(0, q.to_review.len() as int)[k] == r.to_review[k]);
            }
        }
    }
}

/// A synchronisation is over with events where it was before the last of them
/// or is with that one.
proof fn lemma_ends_in(events: Seq<SyncEventView>)
    requires
        events.len() > 0,
    ensures
        ends_in(events) == (ends_in(events.drop_last()) || is_over(events.last())),
{
    let prev = events.drop_last();
    if ends_in(prev) {
        let i = choose|i: int| 0 <= i < prev.len() && is_over(#[trigger] prev[i]);
        assert(is_over(events[i]));
    }
    if is_over(events.last()) {
        assert(is_over(events[events.len() - 1]));
    }
    if ends_in(events) {
        let i = choose|i: int| 0 <= i < events.len() && is_over(#[trigger] events[i]);
        if i < prev.len() {
            assert(is_over(prev[i]));
        }
    }
}

/// The new pages that events report, in order.
pub open spec fn pages_in(events: Seq<SyncEventView>) -> Seq<NewPageView>
    decreases events.len(),
{
    if events.len() == 0 {
        Seq::empty()
    } else {
        let before = pages_in(events.drop_last());
        match events.last() {
            SyncEventView::NewPagesDetected(pages) => before + pages,
            _ => before,
        }
    }
}

proof fn lemma_events_in_parts(
    s: SyncStatusView,
    a: Seq<SyncEventView>,
    b: Seq<SyncEventView>,
    auto_review: bool,
)
    ensures
        after_events(s, a + b, auto_review) == after_events(
            after_events(s, a, auto_review),
            b,
            auto_review,
        ),
        pages_in(a + b) == pages_in(a) + pages_in(b),
        ends_in(a + b) == (ends_in(a) || ends_in(b)),
    decreases b.len(),
{
    if b.len() == 0 {
        assert(a + b =~= a);
        assert(pages_in(a) + pages_in(b) =~= pages_in(a));
    } else {
        let prev = b.drop_last();
        assert((a + b).drop_last() =~= a + prev);
        lemma_events_in_parts(s, a, prev, auto_review);
        lemma_ends_in(b);
        lemma_ends_in(a + b);
        if let SyncEventView::NewPagesDetected(pages) = b.last() {
            assert(pages_in(a) + (pages_in(prev) + pages) =~= (pages_in(a) + pages_in(prev))
                + pages);
        }
    }
}

/// Where new pages are reviewed, those that are reported are put down for it.
proof fn lemma_pages_kept(s: SyncStatusView, events: Seq<SyncEventView>)
    ensures
        after_events(s, events, true).to_review == s.to_review + pages_in(events),
        ends_in(events) ==> !after_events(s, events, true).busy,
    decreases events.len(),
{
    if events.len() == 0 {
        assert(s.to_review + pages_in(events) =~= s.to_review);
    } else {
        let prev = events.drop_last();
        lemma_pages_kept(s, prev);
        lemma_ends_in(events);
        if let SyncEventView::NewPagesDetected(pages) = events.last() {
            assert((s.to_review + pages_in(prev)) + pages =~= s.to_review + (pages_in(prev)
                + pages));
        }
    }
}

/// New pages wait for the end of the synchronisation: whether its events come
/// all at once or a part of them earlier, the status after them and the pages
/// that are reviewed are the same.
pub proof fn law_events_come_in_parts(
    s: SyncStatusView,
    earlier: Seq<SyncEventView>,
    later: Seq<SyncEventView>,
    auto_review: bool,
    max: u32,
)
    requires
        !ends_in(earlier),
    ensures
        drained(drained(s, earlier, auto_review), later, auto_review) == drained(
            s,
            earlier + later,
            auto_review,
        ),
        reviewed(drained(s, earlier, auto_review), later, auto_review, max) == reviewed(
            s,
            earlier + later,
            auto_review,
            max,
        ),
{
    lemma_events_in_parts(s, earlier, later, auto_review);
}

/// Where new pages are reviewed, all that were reported up to the end of the
/// synchronisation are, as many as the settings allow: that many reviews begin,
/// the synchronisation is no longer busy and no page waits.
pub proof fn law_new_pages_are_reviewed(
    s: SyncStatusView,
    earlier: Seq<SyncEventView>,
    later: Seq<SyncEventView>,
    max: u32,
    reviews: ReviewState,
)
    requires
        !ends_in(earlier),
        ends_in(later),
        s.to_review.len() == 0,
        reviews.pending_auto + max <= usize::MAX,
    ensures
        reviewed(drained(s, earlier, true), later, true, max) == Some(
            lists::at_most(pages_in(earlier) + pages_in(later), max as int),
        ),
        !drained(drained(s, earlier, true), later, true).busy,
        drained(drained(s, earlier, true), later, true).to_review.len() == 0,
        ({
            let pages = reviewed(drained(s, earlier, true), later, true, max)->0;
            let count = pages_in(earlier).len() + pages_in(later).len();
            review::with_started(reviews, pages.len() as int).pending_auto == reviews.pending_auto
                + (if count <= max {
                count as int
            } else {
                max as int
            })
        }),
{
    law_events_come_in_parts(s, earlier, later, true, max);
    lemma_events_in_parts(s, earlier, later, true);
    lemma_pages_kept(s, earlier + later);
    assert(s.to_review + pages_in(earlier + later) =~= pages_in(earlier + later));
}

} // verus!
