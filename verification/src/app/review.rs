//! The state of reviews.
use crate::review::ReviewResult;
use crate::text;
use crate::text::{is_blank, number, take_chars};
use vstd::prelude::*;

verus! {

/// What comes of a review.
#[derive(Debug)]
pub enum ReviewEvent {
    /// A review that was asked for.
    Manual(ReviewResult),
    /// A review after a synchronisation.
    Auto(ReviewResult),
    Failed(String),
}

/// The reviews.
#[derive(Debug)]
pub struct ReviewState {
    pub paste_title: String,
    pub paste_text: String,
    pub busy: bool,
    /// How many reviews after a synchronisation are not done.
    pub pending_auto: usize,
    pub manual_result: Option<ReviewResult>,
    pub auto_results: Vec<ReviewResult>,
    /// The review that is shown in full.
    pub expanded_idx: Option<usize>,
}

/// One less, but not below zero.
pub open spec fn one_less(n: usize) -> usize {
    if n == 0 {
        0
    } else {
        (n - 1) as usize
    }
}

/// The state after an event.
pub open spec fn after_event(s: ReviewState, e: ReviewEvent) -> ReviewState {
    match e {
        ReviewEvent::Manual(r) => ReviewState { manual_result: Some(r), busy: false, ..s },
        ReviewEvent::Auto(_) => ReviewState { pending_auto: one_less(s.pending_auto), ..s },
        ReviewEvent::Failed(_) => ReviewState {
            busy: false,
            pending_auto: one_less(s.pending_auto),
            ..s
        },
    }
}

/// The state after `count` reviews have begun after a synchronisation.
pub open spec fn with_started(s: ReviewState, count: int) -> ReviewState {
    ReviewState { pending_auto: (s.pending_auto + count) as usize, ..s }
}

impl ReviewState {
    /// No review yet, but for those that were kept.
    pub fn new(auto_results: Vec<ReviewResult>) -> (r: Self)
        ensures
            r.paste_title@.len() == 0,
            r.paste_text@.len() == 0,
            !r.busy,
            r.pending_auto == 0,
            r.manual_result is None,
            r.auto_results == auto_results,
            r.expanded_idx is None,
    {
        ReviewState {
            paste_title: String::new(),
            paste_text: String::new(),
            busy: false,
            pending_auto: 0,
            manual_result: None,
            auto_results,
            expanded_idx: None,
        }
    }

    /// Takes in what came of a review. The result says whether the list of
    /// kept reviews changed.
    pub fn apply(&mut self, event: ReviewEvent) -> (r: bool)
        ensures
            r == (event is Auto),
            final(self).auto_results@ == (match event {
                ReviewEvent::Auto(result) => old(self).auto_results@.push(result),
                _ => old(self).auto_results@,
            }),
            *final(self) == (ReviewState {
                auto_results: final(self).auto_results,
                ..after_event(*old(self), event)
            }),
    {
        match event {
            ReviewEvent::Manual(result) => {
                self.manual_result = Some(result);
                self.busy = false;
                false
            },
            ReviewEvent::Auto(result) => {
                self.auto_results.push(result);
                if self.pending_auto > 0 {
                    self.pending_auto = self.pending_auto - 1;
                }
                true
            },
            ReviewEvent::Failed(_) => {
                self.busy = false;
                if self.pending_auto > 0 {
                    self.pending_auto = self.pending_auto - 1;
                }
                false
            },
        }
    }

    /// Counts reviews that begin after a synchronisation.
    pub fn start_auto(&mut self, count: usize)
        requires
            old(self).pending_auto + count <= usize::MAX,
        ensures
            *final(self) == with_started(*old(self), count as int),
    {
        self.pending_auto = self.pending_auto + count;
    }

    /// Whether what was pasted can be reviewed.
    pub fn can_review(&self) -> (r: bool)
        ensures
            r == (!self.busy && !text::blank(self.paste_text@)),
    {
        !self.busy && !is_blank(self.paste_text.as_str())
    }

    /// The title of what was pasted.
    pub fn title(&self) -> (r: String)
        ensures
            r@ == (if text::blank(self.paste_title@) {
                "(無題)"@
            } else {
                self.paste_title@
            }),
    {
        if is_blank(self.paste_title.as_str()) {
            "(無題)".to_owned()
        } else {
            self.paste_title.clone()
        }
    }

    /// Takes back what was pasted, and its review.
    pub fn clear_pasted(&mut self)
        ensures
            final(self).paste_title@.len() == 0,
            final(self).paste_text@.len() == 0,
            final(self).manual_result is None,
            final(self).busy == old(self).busy,
            final(self).pending_auto == old(self).pending_auto,
            final(self).auto_results == old(self).auto_results,
            final(self).expanded_idx == old(self).expanded_idx,
    {
        self.paste_title = String::new();
        self.paste_text = String::new();
        self.manual_result = None;
    }

    /// Shows a kept review in full, or no longer where it is.
    pub fn toggle(&mut self, idx: usize)
        ensures
            *final(self) == (ReviewState {
                expanded_idx: if old(self).expanded_idx == Some(idx) {
                    None
                } else {
                    Some(idx)
                },
                ..*old(self)
            }),
    {
        let expanded = match self.expanded_idx {
            Some(i) => i == idx,
            None => false,
        };
        self.expanded_idx = if expanded {
            None
        } else {
            Some(idx)
        };
    }

    /// What the reviews are called, with the number of those that are kept.
    pub fn tab_label(&self) -> (r: String)
        ensures
            r@ == (if self.auto_results@.len() == 0 {
                "レビュー"@
            } else {
                "レビュー ("@ + text::decimal(self.auto_results@.len()) + ")"@
            }),
    {
        if self.auto_results.len() == 0 {
            return "レビュー".to_owned();
        }
        let mut out = "レビュー (".to_owned();
        out.append(number(self.auto_results.len() as u64).as_str());
        out.append(")");
        out
    }
}

/// The number of characters of a summary that the line of a review shows.
pub const SUMMARY_CHARS: usize = 80;

/// The line of a kept review.
pub fn review_header(r: &ReviewResult) -> (s: String)
    ensures
        s@ == "["@ + r.overall_grade@ + "] "@ + r.doc_title@ + "  —  "@ + text::first_chars(
            r.summary@,
            SUMMARY_CHARS as int,
        ),
{
    let mut out = "[".to_owned();
    out.append(r.overall_grade.as_str());
    out.append("] ");
    out.append(r.doc_title.as_str());
    out.append("  —  ");
    out.append(take_chars(r.summary.as_str(), SUMMARY_CHARS).as_str());
    out
}

/// A heading with the number of findings under it.
pub fn findings_heading(kind: &str, count: usize) -> (s: String)
    ensures
        s@ == kind@ + " ("@ + text::decimal(count as nat) + "件)"@,
{
    let mut out = kind.to_owned();
    out.append(" (");
    out.append(number(count as u64).as_str());
    out.append("件)");
    out
}

} // verus!
