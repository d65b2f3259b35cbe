//! The state of the list of chunks.
use crate::text;
use crate::text::{contains, lowered, number, on_one_line, same, take_chars, trimmed};
use crate::vectordb::{Chunk, ChunkView, FilterView, SearchFilter};
use vstd::prelude::*;

verus! {

/// The largest number of chunks that are listed.
pub const LIST_LIMIT: usize = 500;

/// How many chunks there are.
#[derive(Debug, Clone, Copy, PartialEq, Eq, Structural)]
pub struct BrowseCounts {
    pub total: usize,
    pub jira: usize,
    pub confluence: usize,
}

/// What comes of loading the list.
#[derive(Debug)]
pub enum BrowseEvent {
    Counts(BrowseCounts),
    Chunks(Vec<Chunk>),
    Failed(String),
}

/// The list of chunks.
#[derive(Debug)]
pub struct BrowseState {
    /// The source that the list is restricted to; empty for all.
    pub filter_source_type: String,
    pub keyword: String,
    pub counts: BrowseCounts,
    pub chunks: Vec<Chunk>,
    pub busy: bool,
    pub last_loaded: bool,
    /// The chunk that is shown in full.
    pub expanded_id: Option<String>,
}

impl BrowseState {
    /// An empty list that was not loaded yet.
    pub fn new() -> (r: Self)
        ensures
            r.filter_source_type@.len() == 0,
            r.keyword@.len() == 0,
            r.counts == (BrowseCounts { total: 0, jira: 0, confluence: 0 }),
            r.chunks@.len() == 0,
            !r.busy,
            !r.last_loaded,
            r.expanded_id is None,
    {
        BrowseState {
            filter_source_type: String::new(),
            keyword: String::new(),
            counts: BrowseCounts { total: 0, jira: 0, confluence: 0 },
            chunks: Vec::new(),
            busy: false,
            last_loaded: false,
            expanded_id: None,
        }
    }

    /// Takes in what came of loading the list.
    pub fn apply(&mut self, event: BrowseEvent)
        ensures
            final(self).filter_source_type == old(self).filter_source_type,
            final(self).keyword == old(self).keyword,
            final(self).last_loaded == old(self).last_loaded,
            final(self).expanded_id == old(self).expanded_id,
            match event {
                BrowseEvent::Counts(c) => final(self).counts == c && final(self).chunks == old(self).chunks && final(self).busy == old(self).busy,
                BrowseEvent::Chunks(c) => final(self).counts == old(self).counts && final(self).chunks == c && !final(self).busy,
                BrowseEvent::Failed(_) => final(self).counts == old(self).counts && final(self).chunks == old(self).chunks && !final(self).busy,
            },
    {
        match event {
            BrowseEvent::Counts(c) => {
                self.counts = c;
            },
            BrowseEvent::Chunks(c) => {
                self.chunks = c;
                self.busy = false;
            },
            BrowseEvent::Failed(_) => {
                self.busy = false;
            },
        }
    }

    /// Whether the list is to be loaded now that it is shown: the first time.
    pub fn first_show(&mut self) -> (r: bool)
        ensures
            r == (!old(self).last_loaded && !old(self).busy),
            *final(self) == (BrowseState {
                last_loaded: old(self).last_loaded || r,
                ..*old(self)
            }),
    {
        if !self.last_loaded && !self.busy {
            self.last_loaded = true;
            true
        } else {
            false
        }
    }

    /// What the list is restricted to.
    pub fn filter(&self) -> (r: SearchFilter)
        ensures
            r.deep_view() == (FilterView {
                source_type: if self.filter_source_type@.len() == 0 {
                    None
                } else {
                    Some(self.filter_source_type@)
                },
                project_or_space: None,
            }),
    {
        SearchFilter {
            source_type: if self.filter_source_type.as_str().is_empty() {
                None
            } else {
                Some(self.filter_source_type.clone())
            },
            project_or_space: None,
        }
    }

    /// The line that says how many chunks there are.
    pub fn counts_line(&self) -> (r: String)
        ensures
            r@ == "合計: "@ + text::decimal(self.counts.total as nat) + " 件  (jira: "@
                + text::decimal(self.counts.jira as nat) + ", confluence: "@ + text::decimal(
                self.counts.confluence as nat,
            ) + ")"@,
    {
        let mut line = "合計: ".to_owned();
        line.append(number(self.counts.total as u64).as_str());
        line.append(" 件  (jira: ");
        line.append(number(self.counts.jira as u64).as_str());
        line.append(", confluence: ");
        line.append(number(self.counts.confluence as u64).as_str());
        line.append(")");
        line
    }

    /// The positions of the chunks that the keyword lets through.
    pub fn visible(&self) -> (r: Vec<usize>)
        ensures
            r@.map_values(|i: usize| i as int) == visible_positions(
                self.chunks.deep_view(),
                needle_of(self.keyword@),
            ),
            forall|i: int| 0 <= i < r@.len() ==> (#[trigger] r@[i]) < self.chunks@.len(),
    {
        let needle = lowered(trimmed(self.keyword.as_str()).as_str());
        let ghost all = self.chunks.deep_view();
        let mut out: Vec<usize> = Vec::new();
        assert(out@.map_values(|i: usize| i as int) =~= visible_positions(all.take(0), needle@));
        for i in 0..self.chunks.len()
            invariant
                all == self.chunks.deep_view(),
                out@.map_values(|i: usize| i as int) == visible_positions(
                    all.take(i as int),
                    needle@,
                ),
                forall|k: int| 0 <= k < out@.len() ==> (#[trigger] out@[k]) < i,
        {
            assert(all.take(i + 1).drop_last() =~= all.take(i as int));
            assert(all.take(i + 1).last() == self.chunks@[i as int].deep_view());
            if shows(&self.chunks[i], needle.as_str()) {
                let ghost before = out@.map_values(|i: usize| i as int);
                out.push(i);
                assert(out@.map_values(|i: usize| i as int) =~= before.push(i as int));
            }
        }
        assert(all.take(self.chunks.len() as int) =~= all);
        out
    }

    /// Whether a chunk is shown in full.
    pub fn is_expanded(&self, chunk: &Chunk) -> (r: bool)
        ensures
            r == (self.expanded_id.deep_view() == Some(chunk.id@)),
    {
        match &self.expanded_id {
            Some(id) => same(id.as_str(), chunk.id.as_str()),
            None => false,
        }
    }

    /// Shows a chunk in full, or no longer where it is.
    pub fn toggle(&mut self, id: &str)
        ensures
            final(self).expanded_id.deep_view() == (if old(self).expanded_id.deep_view() == Some(
                id@,
            ) {
                None
            } else {
                Some(id@)
            }),
            final(self).chunks == old(self).chunks,
            final(self).counts == old(self).counts,
            final(self).keyword == old(self).keyword,
            final(self).filter_source_type == old(self).filter_source_type,
            final(self).busy == old(self).busy,
            final(self).last_loaded == old(self).last_loaded,
    {
        let expanded = match &self.expanded_id {
            Some(e) => same(e.as_str(), id),
            None => false,
        };
        self.expanded_id = if expanded {
            None
        } else {
            Some(id.to_owned())
        };
    }
}

/// What the keyword is compared by: without white space around it, and in
/// lower case.
pub open spec fn needle_of(keyword: Seq<char>) -> Seq<char> {
    text::lowercase(text::trim(keyword))
}

/// Whether a chunk is listed: the needle is empty, or in the text or the title
/// in lower case.
pub open spec fn is_visible(c: ChunkView, needle: Seq<char>) -> bool {
    needle.len() == 0 || text::find(text::lowercase(c.text), needle) is Some || text::find(
        text::lowercase(c.title),
        needle,
    ) is Some
}

/// The positions of the chunks that are listed.
pub open spec fn visible_positions(chunks: Seq<ChunkView>, needle: Seq<char>) -> Seq<int>
    decreases chunks.len(),
{
    if chunks.len() == 0 {
        Seq::empty()
    } else {
        let before = visible_positions(chunks.drop_last(), needle);
        if is_visible(chunks.last(), needle) {
            before.push(chunks.len() - 1)
        } else {
            before
        }
    }
}

/// `is_visible`, executable.
pub fn shows(c: &Chunk, needle: &str) -> (r: bool)
    ensures
        r == is_visible(c.deep_view(), needle@),
{
    needle.is_empty() || contains(lowered(c.text.as_str()).as_str(), needle) || contains(
        lowered(c.title.as_str()).as_str(),
        needle,
    )
}

/// What a source is called.
pub open spec fn source_name(source_type: Seq<char>) -> Seq<char> {
    if source_type.len() == 0 {
        "すべて"@
    } else if source_type == "jira"@ {
        "Jira"@
    } else if source_type == "confluence"@ {
        "Confluence"@
    } else {
        source_type
    }
}

/// What a source is called.
pub fn source_label(source_type: &str) -> (r: String)
    ensures
        r@ == source_name(source_type@),
{
    if source_type.is_empty() {
        "すべて".to_owned()
    } else if same(source_type, "jira") {
        "Jira".to_owned()
    } else if same(source_type, "confluence") {
        "Confluence".to_owned()
    } else {
        source_type.to_owned()
    }
}

/// The number of characters of a chunk that its line shows.
pub const PREVIEW_CHARS: usize = 120;

/// The beginning of a chunk in one line.
pub open spec fn preview(body: Seq<char>) -> Seq<char> {
    let p = text::one_line(text::first_chars(body, PREVIEW_CHARS as int));
    if p.len() == PREVIEW_CHARS {
        p + "…"@
    } else {
        p
    }
}

/// The line of a chunk in the list.
pub open spec fn summary_line(c: ChunkView) -> Seq<char> {
    "["@ + c.source_type + "] "@ + c.title + "  —  "@ + preview(c.text)
}

/// The line of a chunk in the list.
pub fn chunk_summary(c: &Chunk) -> (r: String)
    ensures
        r@ == summary_line(c.deep_view()),
{
    let mut p = on_one_line(take_chars(c.text.as_str(), PREVIEW_CHARS).as_str());
    if p.as_str().unicode_len() == PREVIEW_CHARS {
        p.append("…");
    }
    let mut out = "[".to_owned();
    out.append(c.source_type.as_str());
    out.append("] ");
    out.append(c.title.as_str());
    out.append("  —  ");
    out.append(p.as_str());
    out
}

// ---------------------------------------------------------------------------
// Laws

/// Without a keyword all chunks are listed, and with one a chunk is listed if
/// and only if the keyword is in it; the list keeps their order.
pub proof fn law_visible_chunks(chunks: Seq<ChunkView>, needle: Seq<char>)
    ensures
        needle.len() == 0 ==> visible_positions(chunks, needle) == Seq::new(
            chunks.len(),
            |i: int| i,
        ),
        forall|p: int|
            0 <= p < chunks.len() ==> (#[trigger] visible_positions(chunks, needle).contains(p)
                <==> is_visible(chunks[p], needle)),
        forall|i: int|
            0 <= i < visible_positions(chunks, needle).len() ==> 0
                <= #[trigger] visible_positions(chunks, needle)[i] < chunks.len(),
        forall|i: int, j: int|
            0 <= i < j < visible_positions(chunks, needle).len()
                ==> #[trigger] visible_positions(chunks, needle)[i]
                < #[trigger] visible_positions(chunks, needle)[j],
    decreases chunks.len(),
{
    let r = visible_positions(chunks, needle);
    if chunks.len() > 0 {
        let prev = chunks.drop_last();
        let before = visible_positions(prev, needle);
        law_visible_chunks(prev, needle);
        assert forall|p: int| 0 <= p < chunks.len() implies (#[trigger] r.contains(p)
            <==> is_visible(chunks[p], needle)) by {
            if p < prev.len() {
                assert(prev[p] == chunks[p]);
                assert(before.contains(p) <==> is_visible(prev[p], needle));
                if before.contains(p) {
                    let i = choose|i: int| 0 <= i < before.len() && before[i] == p;
                    assert(r[i] == p);
                }
                if r.contains(p) {
                    let i = choose|i: int| 0 <= i < r.len() && r[i] == p;
                    assert(i < before.len());
                    assert(before[i] == p);
                }
            } else {
                if is_visible(chunks[p], needle) {
                    assert(r[r.len() - 1] == p);
                } else if r.contains(p) {
                    let i = choose|i: int| 0 <= i < r.len() && r[i] == p;
                    assert(before[i] == p);
                }
            }
        }
        if needle.len() == 0 {
            assert(r =~= Seq::new(chunks.len(), |i: int| i));
        }
    } else {
        assert(r =~= Seq::new(chunks.len(), |i: int| i));
    }
}

} // verus!
