//! Giving chunks their vectors, a batch at a time.
use crate::ingest::{PreChunk, PreChunkView};
use crate::text;
use crate::text::{number, same};
use crate::vectordb::{Chunk, ChunkView};
use vstd::prelude::*;

verus! {

/// The number of chunks that are given to the embedding model at once.
pub const EMBED_BATCH: usize = 32;

// ---------------------------------------------------------------------------
// What need not be embedded again

/// What the store holds of a chunk.
#[derive(Debug)]
pub struct StoredTime {
    pub id: String,
    pub updated_at: i64,
}

/// The model of what the store holds of a chunk.
pub struct StoredTimeView {
    pub id: Seq<char>,
    pub updated_at: i64,
}

impl DeepView for StoredTime {
    type V = StoredTimeView;

    open spec fn deep_view(&self) -> StoredTimeView {
        StoredTimeView { id: self.id@, updated_at: self.updated_at }
    }
}

/// Whether the store holds a chunk with this id and time.
pub open spec fn is_stored(stored: Seq<StoredTimeView>, id: Seq<char>, updated_at: i64) -> bool {
    stored.contains(StoredTimeView { id, updated_at })
}

/// Whether a chunk is known to be unchanged: its time is known, and the store
/// holds it with the same time. A time of zero is not known.
pub open spec fn is_unchanged(stored: Seq<StoredTimeView>, c: PreChunkView) -> bool {
    c.updated_at != 0 && is_stored(stored, c.id, c.updated_at)
}

/// The chunks that are embedded: all of them, or in an incremental
/// synchronisation those that are not known to be unchanged.
pub open spec fn to_embed(
    chunks: Seq<PreChunkView>,
    stored: Seq<StoredTimeView>,
    incremental: bool,
) -> Seq<PreChunkView>
    decreases chunks.len(),
{
    if chunks.len() == 0 {
        Seq::empty()
    } else {
        let before = to_embed(chunks.drop_last(), stored, incremental);
        if incremental && is_unchanged(stored, chunks.last()) {
            before
        } else {
            before.push(chunks.last())
        }
    }
}

/// `is_stored`, executable.
fn find_stored(stored: &Vec<StoredTime>, c: &PreChunk) -> (r: bool)
    ensures
        r == is_stored(stored.deep_view(), c.id@, c.updated_at),
{
    let ghost all = stored.deep_view();
    let ghost wanted = StoredTimeView { id: c.id@, updated_at: c.updated_at };
    let mut i: usize = 0;
    while i < stored.len()
        invariant
            i <= stored@.len(),
            all == stored.deep_view(),
            wanted == (StoredTimeView { id: c.id@, updated_at: c.updated_at }),
            forall|k: int| 0 <= k < i ==> all[k] != wanted,
        decreases stored@.len() - i,
    {
        assert(all[i as int] == stored@[i as int].deep_view());
        if stored[i].updated_at == c.updated_at && same(stored[i].id.as_str(), c.id.as_str()) {
            assert(all[i as int] == wanted);
            return true;
        }
        i += 1;
    }
    false
}

/// The chunks that are embedded.
pub fn chunks_to_embed(chunks: Vec<PreChunk>, stored: &Vec<StoredTime>, incremental: bool) -> (r: Vec<
    PreChunk,
>)
    ensures
        r.deep_view() == to_embed(chunks.deep_view(), stored.deep_view(), incremental),
{
    let ghost all = chunks.deep_view();
    let mut out: Vec<PreChunk> = Vec::new();
    assert(out.deep_view() =~= to_embed(all.take(0), stored.deep_view(), incremental));
    for i in 0..chunks.len()
        invariant
            all == chunks.deep_view(),
            out.deep_view() == to_embed(all.take(i as int), stored.deep_view(), incremental),
    {
        assert(all.take(i + 1).drop_last() =~= all.take(i as int));
        assert(all.take(i + 1).last() == chunks@[i as int].deep_view());
        if !(incremental && chunks[i].updated_at != 0 && find_stored(stored, &chunks[i])) {
            let ghost before = out.deep_view();
            let c = chunks[i].clone();
            out.push(c);
            assert(out.deep_view() =~= before.push(c.deep_view()));
        }
    }
    assert(all.take(chunks.len() as int) =~= all);
    out
}

// ---------------------------------------------------------------------------
// Batches

/// A chunk with its vector.
pub open spec fn with_vector(c: PreChunkView, vector: Seq<u32>) -> ChunkView {
    ChunkView {
        id: c.id,
        source_type: c.source_type,
        source_id: c.source_id,
        title: c.title,
        url: c.url,
        space_or_project: c.space_or_project,
        author: c.author,
        created_at: c.created_at,
        updated_at: c.updated_at,
        labels: c.labels,
        text: c.text,
        vector,
    }
}

/// The chunks with the vectors in the same places, as far as there are both.
pub open spec fn with_vectors(chunks: Seq<PreChunkView>, vectors: Seq<Seq<u32>>) -> Seq<ChunkView> {
    Seq::new(
        if chunks.len() <= vectors.len() {
            chunks.len()
        } else {
            vectors.len()
        },
        |i: int| with_vector(chunks[i], vectors[i]),
    )
}

/// A chunk with its vector.
pub fn add_vector(c: &PreChunk, vector: Vec<u32>) -> (r: Chunk)
    ensures
        r.deep_view() == with_vector(c.deep_view(), vector@),
{
    let labels = c.labels.clone();
    assert(labels.deep_view() =~= c.labels.deep_view());
    Chunk {
        id: c.id.clone(),
        source_type: c.source_type.clone(),
        source_id: c.source_id.clone(),
        title: c.title.clone(),
        url: c.url.clone(),
        space_or_project: c.space_or_project.clone(),
        author: c.author.clone(),
        created_at: c.created_at,
        updated_at: c.updated_at,
        labels,
        text: c.text.clone(),
        vector,
    }
}

/// Chunks of one kind that are being embedded.
pub struct EmbedRun {
    /// What the chunks are called in the log.
    pub label: String,
    pub chunks: Vec<PreChunk>,
    /// How many are done.
    pub done: usize,
}

/// The end of the batch that begins at `done`.
pub open spec fn batch_end(total: int, done: int) -> int {
    if total - done <= EMBED_BATCH {
        total
    } else {
        done + EMBED_BATCH
    }
}

impl EmbedRun {
    /// Not more is done than there is.
    pub open spec fn valid(&self) -> bool {
        self.done <= self.chunks@.len()
    }

    /// The batch that is next.
    pub open spec fn batch(&self) -> Seq<PreChunkView> {
        self.chunks.deep_view().subrange(
            self.done as int,
            batch_end(self.chunks@.len() as int, self.done as int),
        )
    }

    /// Before the first batch.
    pub fn new(label: &str, chunks: Vec<PreChunk>) -> (r: Self)
        ensures
            r.valid(),
            r.label@ == label@,
            r.chunks == chunks,
            r.done == 0,
    {
        EmbedRun { label: label.to_owned(), chunks, done: 0 }
    }

    /// The line that says what is going to be embedded, where there is
    /// anything.
    pub fn start_line(&self) -> (r: Option<String>)
        ensures
            r.deep_view() == (if self.chunks@.len() == 0 {
                None
            } else {
                Some(
                    self.label@ + ": "@ + text::decimal(self.chunks@.len())
                        + " チャンクを埋め込み中..."@,
                )
            }),
    {
        if self.chunks.len() == 0 {
            return None;
        }
        let mut line = self.label.clone();
        line.append(": ");
        line.append(number(self.chunks.len() as u64).as_str());
        line.append(" チャンクを埋め込み中...");
        Some(line)
    }

    /// The end of the next batch.
    fn end(&self) -> (r: usize)
        requires
            self.valid(),
        ensures
            r == batch_end(self.chunks@.len() as int, self.done as int),
            self.done <= r <= self.chunks@.len(),
    {
        if self.chunks.len() - self.done <= EMBED_BATCH {
            self.chunks.len()
        } else {
            self.done + EMBED_BATCH
        }
    }

    /// The texts of the next batch, `None` once all is done.
    pub fn next_texts(&self) -> (r: Option<Vec<String>>)
        requires
            self.valid(),
        ensures
            match r {
                Some(texts) => self.done < self.chunks@.len() && texts.deep_view()
                    == self.batch().map_values(|c: PreChunkView| c.text) && 0 < texts@.len()
                    <= EMBED_BATCH,
                None => self.done == self.chunks@.len(),
            },
    {
        if self.done == self.chunks.len() {
            return None;
        }
        let end = self.end();
        let ghost all = self.chunks.deep_view();
        let mut texts: Vec<String> = Vec::new();
        assert(texts.deep_view() =~= Seq::empty());
        let mut i: usize = self.done;
        while i < end
            invariant
                self.done <= i <= end <= self.chunks@.len(),
                all == self.chunks.deep_view(),
                texts.deep_view() == all.subrange(self.done as int, i as int).map_values(
                    |c: PreChunkView| c.text,
                ),
                texts@.len() == i - self.done,
            decreases end - i,
        {
            let ghost before = texts.deep_view();
            assert(all[i as int] == self.chunks@[i as int].deep_view());
            let s = self.chunks[i].text.clone();
            texts.push(s);
            assert(texts.deep_view() =~= before.push(s@));
            assert(all.subrange(self.done as int, i + 1) =~= all.subrange(
                self.done as int,
                i as int,
            ).push(all[i as int]));
            i += 1;
            assert(texts.deep_view() =~= all.subrange(self.done as int, i as int).map_values(
                |c: PreChunkView| c.text,
            ));
        }
        Some(texts)
    }

    /// The records of the next batch, whose vectors have come, and the batch
    /// counted as done.
    pub fn receive(&mut self, vectors: &Vec<Vec<u32>>) -> (r: Vec<Chunk>)
        requires
            old(self).valid(),
        ensures
            r.deep_view() == with_vectors(old(self).batch(), vectors.deep_view()),
            final(self).valid(),
            final(self).label == old(self).label,
            final(self).chunks == old(self).chunks,
            final(self).done == batch_end(
                old(self).chunks@.len() as int,
                old(self).done as int,
            ),
    {
        let end = self.end();
        let from = self.done;
        let ghost batch = self.batch();
        let ghost vs = vectors.deep_view();
        let mut out: Vec<Chunk> = Vec::new();
        assert(out.deep_view() =~= Seq::empty());
        let n: usize = if end - from <= vectors.len() {
            end - from
        } else {
            vectors.len()
        };
        for i in 0..n
            invariant
                from + n <= end <= self.chunks@.len(),
                n <= vectors@.len(),
                batch == self.chunks.deep_view().subrange(from as int, end as int),
                vs == vectors.deep_view(),
                out.deep_view() == Seq::new(i as nat, |k: int| with_vector(batch[k], vs[k])),
                *self == *old(self),
        {
            let ghost before = out.deep_view();
            let vector = vectors[i].clone();
            assert(vector@ =~= vectors@[i as int]@);
            assert(vs[i as int] =~= vector@);
            assert(batch[i as int] == self.chunks@[from + i].deep_view());
            let c = add_vector(&self.chunks[from + i], vector);
            out.push(c);
            assert(out.deep_view() =~= before.push(c.deep_view()));
            assert(out.deep_view() =~= Seq::new(
                (i + 1) as nat,
                |k: int| with_vector(batch[k], vs[k]),
            ));
        }
        assert(out.deep_view() =~= with_vectors(batch, vs));
        self.done = end;
        out
    }

    /// The line that says how many are done.
    pub fn progress_line(&self) -> (r: String)
        ensures
            r@ == self.label@ + ": "@ + text::decimal(self.done as nat) + "/"@ + text::decimal(
                self.chunks@.len(),
            ) + " upsert 完了"@,
    {
        let mut line = self.label.clone();
        line.append(": ");
        line.append(number(self.done as u64).as_str());
        line.append("/");
        line.append(number(self.chunks.len() as u64).as_str());
        line.append(" upsert 完了");
        line
    }
}

/// The line that says how many documents came.
pub fn fetched_line(label: &str, count: usize) -> (r: String)
    ensures
        r@ == label@ + ": "@ + text::decimal(count as nat) + " 件取得"@,
{
    let mut line = label.to_owned();
    line.append(": ");
    line.append(number(count as u64).as_str());
    line.append(" 件取得");
    line
}

/// The line that says how many new pages were found.
pub open spec fn new_pages_text(count: nat) -> Seq<char> {
    "新規 Confluence ページを "@ + text::decimal(count) + " 件検出"@
}

/// The line that says how many new pages were found.
pub fn new_pages_line(count: usize) -> (r: String)
    ensures
        r@ == new_pages_text(count as nat),
{
    let mut line = "新規 Confluence ページを ".to_owned();
    line.append(number(count as u64).as_str());
    line.append(" 件検出");
    line
}

// ---------------------------------------------------------------------------
// Laws

/// The records of all batches from `done` on, where `vectors` gives the vector
/// of each chunk.
pub open spec fn all_batches(
    chunks: Seq<PreChunkView>,
    vectors: Seq<Seq<u32>>,
    done: int,
) -> Seq<ChunkView>
    decreases chunks.len() - done,
{
    if done < 0 || done >= chunks.len() {
        Seq::empty()
    } else {
        let end = batch_end(chunks.len() as int, done);
        with_vectors(chunks.subrange(done, end), vectors.subrange(done, end)) + all_batches(
            chunks,
            vectors,
            end,
        )
    }
}

/// Batch after batch every chunk gets its own vector, in order, and none is
/// left out or done twice.
pub proof fn law_batches_cover_all(
    chunks: Seq<PreChunkView>,
    vectors: Seq<Seq<u32>>,
    done: int,
)
    requires
        chunks.len() == vectors.len(),
        0 <= done <= chunks.len(),
    ensures
        all_batches(chunks, vectors, done) == with_vectors(chunks, vectors).skip(done),
    decreases chunks.len() - done,
{
    let all = with_vectors(chunks, vectors);
    if done < chunks.len() {
        let end = batch_end(chunks.len() as int, done);
        law_batches_cover_all(chunks, vectors, end);
        let first = with_vectors(chunks.subrange(done, end), vectors.subrange(done, end));
        assert(first =~= all.subrange(done, end));
        assert(all.skip(done) =~= all.subrange(done, end) + all.skip(end));
    } else {
        assert(all.skip(done) =~= Seq::empty());
    }
}

/// A full synchronisation embeds all chunks.
pub proof fn law_full_sync_embeds_all(chunks: Seq<PreChunkView>, stored: Seq<StoredTimeView>)
    ensures
        to_embed(chunks, stored, false) == chunks,
    decreases chunks.len(),
{
    if chunks.len() > 0 {
        law_full_sync_embeds_all(chunks.drop_last(), stored);
        assert(chunks.drop_last().push(chunks.last()) =~= chunks);
    }
}

/// An incremental synchronisation embeds a chunk if and only if its time is not
/// known or the store does not hold it with the same time.
pub proof fn law_incremental_sync_skips_unchanged(
    chunks: Seq<PreChunkView>,
    stored: Seq<StoredTimeView>,
    c: PreChunkView,
)
    ensures
        to_embed(chunks, stored, true).contains(c) <==> chunks.contains(c) && (c.updated_at == 0
            || !is_stored(stored, c.id, c.updated_at)),
    decreases chunks.len(),
{
    let r = to_embed(chunks, stored, true);
    if chunks.len() > 0 {
        let prev = chunks.drop_last();
        let last = chunks.last();
        let before = to_embed(prev, stored, true);
        law_incremental_sync_skips_unchanged(prev, stored, c);
        if chunks.contains(c) {
            let i = choose|i: int| 0 <= i < chunks.len() && chunks[i] == c;
            if i < prev.len() {
                assert(prev[i] == c);
            } else {
                assert(last == c);
            }
        }
        if prev.contains(c) {
            let i = choose|i: int| 0 <= i < prev.len() && prev[i] == c;
            assert(chunks[i] == c);
        }
        if last == c {
            assert(chunks[chunks.len() - 1] == c);
        }
        if is_unchanged(stored, last) {
            assert(r == before);
        } else {
            if before.contains(c) {
                let i = choose|i: int| 0 <= i < before.len() && before[i] == c;
                assert(r[i] == c);
            }
            assert(r[r.len() - 1] == last);
            if r.contains(c) {
                let i = choose|i: int| 0 <= i < r.len() && r[i] == c;
                if i < before.len() {
                    assert(before[i] == c);
                }
            }
        }
    }
}

} // verus!
