//! A store in memory.
use crate::lists;
use crate::text::same;
use crate::vectordb::{Chunk, ChunkView, FilterView, HitView, SearchFilter, SearchHit};
use vstd::prelude::*;

verus! {

// ---------------------------------------------------------------------------
// Scores

/// Whether a bit pattern is that of a number.
pub open spec fn is_number(bits: u32) -> bool {
    bits as int % 0x8000_0000 <= 0x7f80_0000
}

/// An integer that orders numbers by their bit patterns; both zeros are equal.
pub open spec fn rank(bits: u32) -> int {
    if bits < 0x8000_0000 {
        bits as int
    } else {
        0x8000_0000 - bits
    }
}

/// `rank`, executable.
fn rank_of(bits: u32) -> (r: i64)
    ensures
        r == rank(bits),
{
    if bits < 0x8000_0000 {
        bits as i64
    } else {
        0x8000_0000 - (bits as i64)
    }
}

// ---------------------------------------------------------------------------
// Insertion

/// The first position, from `from` on, of a record with this id.
pub open spec fn position(s: Seq<ChunkView>, id: Seq<char>, from: int) -> Option<int>
    decreases s.len() - from,
{
    if from < 0 || from >= s.len() {
        None
    } else if s[from].id == id {
        Some(from)
    } else {
        position(s, id, from + 1)
    }
}

/// With one record put in: in place of the one with its id, or else behind the
/// others.
pub open spec fn put(s: Seq<ChunkView>, c: ChunkView) -> Seq<ChunkView> {
    match position(s, c.id, 0) {
        Some(i) => s.update(i, c),
        None => s.push(c),
    }
}

/// With records put in, one after another.
pub open spec fn put_all(s: Seq<ChunkView>, chunks: Seq<ChunkView>) -> Seq<ChunkView>
    decreases chunks.len(),
{
    if chunks.len() == 0 {
        s
    } else {
        put(put_all(s, chunks.drop_last()), chunks.last())
    }
}

/// No two records have the same id.
pub open spec fn ids_unique(s: Seq<ChunkView>) -> bool {
    forall|i: int, j: int| 0 <= i < j < s.len() ==> #[trigger] s[i].id != #[trigger] s[j].id
}

// ---------------------------------------------------------------------------
// Search

/// Whether a filter lets a record through.
pub open spec fn passes(filter: FilterView, c: ChunkView) -> bool {
    (match filter.source_type {
        Some(s) => c.source_type == s,
        None => true,
    }) && (match filter.project_or_space {
        Some(s) => c.space_or_project == s,
        None => true,
    })
}

/// The records that a filter lets through, each with its score, in the order
/// of the store.
pub open spec fn scored(chunks: Seq<ChunkView>, scores: Seq<u32>, filter: FilterView) -> Seq<
    HitView,
>
    decreases chunks.len(),
{
    if chunks.len() == 0 {
        Seq::empty()
    } else {
        let before = scored(chunks.drop_last(), scores, filter);
        if passes(filter, chunks.last()) {
            before.push(HitView { chunk: chunks.last(), score: scores[chunks.len() - 1] })
        } else {
            before
        }
    }
}

/// Ranked hits with one more, behind those that score as high.
pub open spec fn rank_in(hits: Seq<HitView>, h: HitView) -> Seq<HitView>
    decreases hits.len(),
{
    if hits.len() == 0 || rank(hits.last().score) >= rank(h.score) {
        hits.push(h)
    } else {
        rank_in(hits.drop_last(), h).push(hits.last())
    }
}

/// The hits by descending score; those that score the same keep their order.
pub open spec fn ranked(hits: Seq<HitView>) -> Seq<HitView>
    decreases hits.len(),
{
    if hits.len() == 0 {
        hits
    } else {
        rank_in(ranked(hits.drop_last()), hits.last())
    }
}

/// What a search finds.
pub open spec fn found(
    chunks: Seq<ChunkView>,
    scores: Seq<u32>,
    top_k: int,
    filter: FilterView,
) -> Seq<HitView> {
    lists::at_most(ranked(scored(chunks, scores, filter)), top_k)
}

/// `passes`, executable.
pub fn lets_through(filter: &SearchFilter, c: &Chunk) -> (r: bool)
    ensures
        r == passes(filter.deep_view(), c.deep_view()),
{
    (match &filter.source_type {
        Some(s) => same(c.source_type.as_str(), s.as_str()),
        None => true,
    }) && (match &filter.project_or_space {
        Some(s) => same(c.space_or_project.as_str(), s.as_str()),
        None => true,
    })
}

proof fn lemma_rank_in_at(hits: Seq<HitView>, h: HitView, i: int)
    requires
        0 <= i <= hits.len(),
        i == 0 || rank(hits[i - 1].score) >= rank(h.score),
        forall|k: int| i <= k < hits.len() ==> rank(#[trigger] hits[k].score) < rank(h.score),
    ensures
        rank_in(hits, h) == hits.insert(i, h),
    decreases hits.len() - i,
{
    if i < hits.len() {
        assert(rank(hits[hits.len() - 1].score) < rank(h.score));
        lemma_rank_in_at(hits.drop_last(), h, i);
        assert(rank_in(hits, h) =~= hits.insert(i, h));
    } else {
        assert(rank_in(hits, h) =~= hits.insert(i, h));
    }
}

/// `rank_in`, executable.
fn insert_ranked(hits: &mut Vec<SearchHit>, h: SearchHit)
    ensures
        final(hits).deep_view() == rank_in(old(hits).deep_view(), h.deep_view()),
{
    let ghost before = hits.deep_view();
    let key = rank_of(h.score);
    let mut i: usize = hits.len();
    while i > 0 && rank_of(hits[i - 1].score) < key
        invariant
            i <= hits@.len(),
            before == hits.deep_view(),
            key == rank(h.score),
            forall|k: int| i <= k < hits@.len() ==> rank(#[trigger] hits@[k].score) < key,
        decreases i,
    {
        i -= 1;
    }
    proof {
        assert forall|k: int| i <= k < before.len() implies rank(#[trigger] before[k].score)
            < rank(h.score) by {
            assert(before[k].score == hits@[k].score);
        }
        if i > 0 {
            assert(before[i - 1].score == hits@[i - 1].score);
        }
        lemma_rank_in_at(before, h.deep_view(), i as int);
    }
    hits.insert(i, h);
    assert(hits.deep_view() =~= before.insert(i as int, h.deep_view()));
}

/// The hits by descending score; those that score the same keep their order.
pub fn rank_hits(hits: Vec<SearchHit>) -> (r: Vec<SearchHit>)
    requires
        forall|i: int| 0 <= i < hits@.len() ==> is_number(#[trigger] hits@[i].score),
    ensures
        r.deep_view() == ranked(hits.deep_view()),
{
    let ghost all = hits.deep_view();
    let mut out: Vec<SearchHit> = Vec::new();
    assert(out.deep_view() =~= ranked(all.take(0)));
    for i in 0..hits.len()
        invariant
            all == hits.deep_view(),
            out.deep_view() == ranked(all.take(i as int)),
    {
        assert(all.take(i + 1).drop_last() =~= all.take(i as int));
        assert(all.take(i + 1).last() == hits@[i as int].deep_view());
        insert_ranked(&mut out, hits[i].clone());
    }
    assert(all.take(hits.len() as int) =~= all);
    out
}

// ---------------------------------------------------------------------------
// The store

/// A store in memory. No two of its records have the same id.
pub struct InMemoryStore {
    inner: Vec<Chunk>,
}

impl DeepView for InMemoryStore {
    type V = Seq<ChunkView>;

    closed spec fn deep_view(&self) -> Seq<ChunkView> {
        self.inner.deep_view()
    }
}

impl InMemoryStore {
    #[verifier::type_invariant]
    spec fn well_formed(self) -> bool {
        ids_unique(self.inner.deep_view())
    }

    /// An empty store.
    pub fn new() -> (r: Self)
        ensures
            r.deep_view() == Seq::<ChunkView>::empty(),
    {
        let inner: Vec<Chunk> = Vec::new();
        assert(inner.deep_view() =~= Seq::empty());
        InMemoryStore { inner }
    }

    /// The records in the order of the store.
    pub fn chunks(&self) -> (r: &Vec<Chunk>)
        ensures
            r.deep_view() == self.deep_view(),
            ids_unique(self.deep_view()),
    {
        proof {
            use_type_invariant(self);
        }
        &self.inner
    }

    /// Puts the records in, one after another: in place of the one with the
    /// same id, or else behind the others.
    pub fn upsert(&mut self, chunks: Vec<Chunk>)
        ensures
            final(self).deep_view() == put_all(old(self).deep_view(), chunks.deep_view()),
    {
        proof {
            use_type_invariant(&*self);
        }
        let ghost start = self.inner.deep_view();
        let ghost all = chunks.deep_view();
        let mut inner: Vec<Chunk> = self.inner.clone();
        assert(inner.deep_view() =~= start);
        assert(all.take(0) =~= Seq::empty());
        for k in 0..chunks.len()
            invariant
                all == chunks.deep_view(),
                ids_unique(start),
                inner.deep_view() == put_all(start, all.take(k as int)),
        {
            let c = &chunks[k];
            assert(all.take(k + 1).drop_last() =~= all.take(k as int));
            assert(all.take(k + 1).last() == c.deep_view());
            put_chunk(&mut inner, c.clone());
        }
        assert(all.take(chunks.len() as int) =~= all);
        proof {
            law_ids_stay_unique(start, all);
        }
        self.inner = inner;
    }

    /// The records that the filter lets through, by descending score, `top_k`
    /// at most. `scores` holds the score of each record of the store, a number
    /// for those that the filter lets through.
    pub fn search(&self, scores: &Vec<u32>, top_k: usize, filter: &SearchFilter) -> (r: Vec<
        SearchHit,
    >)
        requires
            scores@.len() == self.deep_view().len(),
            forall|i: int|
                0 <= i < scores@.len() && passes(filter.deep_view(), self.deep_view()[i])
                    ==> is_number(#[trigger] scores@[i]),
        ensures
            r.deep_view() == found(self.deep_view(), scores@, top_k as int, filter.deep_view()),
    {
        let ghost all = self.inner.deep_view();
        let mut hits: Vec<SearchHit> = Vec::new();
        assert(hits.deep_view() =~= scored(all.take(0), scores@, filter.deep_view()));
        for i in 0..self.inner.len()
            invariant
                all == self.inner.deep_view(),
                scores@.len() == all.len(),
                forall|i: int|
                    0 <= i < scores@.len() && passes(filter.deep_view(), all[i]) ==> is_number(
                        #[trigger] scores@[i],
                    ),
                forall|i: int| 0 <= i < hits@.len() ==> is_number(#[trigger] hits@[i].score),
                hits.deep_view() == scored(all.take(i as int), scores@, filter.deep_view()),
        {
            let c = &self.inner[i];
            assert(all.take(i + 1).drop_last() =~= all.take(i as int));
            assert(all.take(i + 1).last() == c.deep_view());
            if lets_through(filter, c) {
                let ghost before = hits.deep_view();
                let h = SearchHit { chunk: c.clone(), score: scores[i] };
                hits.push(h);
                assert(hits.deep_view() =~= before.push(h.deep_view()));
            }
        }
        assert(all.take(self.inner.len() as int) =~= all);
        let mut out = rank_hits(hits);
        let ghost ordered = out.deep_view();
        if out.len() > top_k {
            out.truncate(top_k);
            assert(out.deep_view() =~= ordered.take(top_k as int));
        }
        out
    }
}

impl Default for InMemoryStore {
    fn default() -> (r: Self)
        ensures
            r.deep_view() == Seq::<ChunkView>::empty(),
    {
        InMemoryStore::new()
    }
}

/// `put`, executable.
fn put_chunk(inner: &mut Vec<Chunk>, c: Chunk)
    ensures
        final(inner).deep_view() == put(old(inner).deep_view(), c.deep_view()),
{
    let ghost before = inner.deep_view();
    let mut i: usize = 0;
    while i < inner.len()
        invariant
            i <= inner@.len(),
            before == inner.deep_view(),
            before == old(inner).deep_view(),
            position(before, c.id@, 0) == position(before, c.id@, i as int),
        decreases inner@.len() - i,
    {
        assert(before[i as int] == inner@[i as int].deep_view());
        if same(inner[i].id.as_str(), c.id.as_str()) {
            inner.set(i, c);
            assert(inner.deep_view() =~= before.update(i as int, c.deep_view()));
            return;
        }
        i += 1;
    }
    inner.push(c);
    assert(inner.deep_view() =~= before.push(c.deep_view()));
}

// ---------------------------------------------------------------------------
// Laws

proof fn lemma_position(s: Seq<ChunkView>, id: Seq<char>, from: int)
    requires
        0 <= from,
    ensures
        match position(s, id, from) {
            Some(i) => from <= i < s.len() && s[i].id == id,
            None => forall|i: int| from <= i < s.len() ==> (#[trigger] s[i]).id != id,
        },
    decreases s.len() - from,
{
    if from < s.len() && s[from].id != id {
        lemma_position(s, id, from + 1);
    }
}

/// Putting records in keeps the ids unique.
pub proof fn law_ids_stay_unique(s: Seq<ChunkView>, chunks: Seq<ChunkView>)
    requires
        ids_unique(s),
    ensures
        ids_unique(put_all(s, chunks)),
    decreases chunks.len(),
{
    if chunks.len() > 0 {
        law_ids_stay_unique(s, chunks.drop_last());
        lemma_position(put_all(s, chunks.drop_last()), chunks.last().id, 0);
    }
}

/// The last of the records with this id.
pub open spec fn last_with(chunks: Seq<ChunkView>, id: Seq<char>) -> Option<ChunkView>
    decreases chunks.len(),
{
    if chunks.len() == 0 {
        None
    } else if chunks.last().id == id {
        Some(chunks.last())
    } else {
        last_with(chunks.drop_last(), id)
    }
}

/// What the store holds after records were put in: what was there stays in its
/// place with its id, and each place holds the last record put in with its id,
/// or what it held where there was none.
pub proof fn law_upsert_reads_back(s: Seq<ChunkView>, chunks: Seq<ChunkView>)
    requires
        ids_unique(s),
    ensures
        s.len() <= put_all(s, chunks).len(),
        forall|i: int|
            0 <= i < s.len() ==> (#[trigger] put_all(s, chunks)[i]).id == s[i].id,
        forall|i: int|
            0 <= i < put_all(s, chunks).len() ==> #[trigger] put_all(s, chunks)[i] == (
            match last_with(chunks, put_all(s, chunks)[i].id) {
                Some(c) => c,
                None => s[i],
            }),
        forall|i: int|
            s.len() <= i < put_all(s, chunks).len() ==> last_with(
                chunks,
                (#[trigger] put_all(s, chunks)[i]).id,
            ) is Some,
        forall|id: Seq<char>|
            (#[trigger] last_with(chunks, id)) is Some ==> position(put_all(s, chunks), id, 0)
                is Some,
    decreases chunks.len(),
{
    if chunks.len() > 0 {
        let prev = chunks.drop_last();
        let c = chunks.last();
        let t = put_all(s, prev);
        let r = put_all(s, chunks);
        law_upsert_reads_back(s, prev);
        law_ids_stay_unique(s, prev);
        lemma_position(t, c.id, 0);
        assert forall|id: Seq<char>| (#[trigger] last_with(chunks, id)) is Some implies position(
            r,
            id,
            0,
        ) is Some by {
            lemma_position(r, id, 0);
            lemma_position(t, id, 0);
            if id == c.id {
                let i = match position(t, c.id, 0) {
                    Some(i) => i,
                    None => t.len() as int,
                };
                assert(r[i].id == id);
            } else {
                assert(last_with(prev, id) is Some);
                let i = position(t, id, 0)->0;
                assert(r[i].id == id);
            }
        }
        assert forall|i: int| 0 <= i < r.len() implies #[trigger] r[i] == (match last_with(
            chunks,
            r[i].id,
        ) {
            Some(c) => c,
            None => s[i],
        }) by {
            if i < t.len() && r[i].id != c.id {
                assert(r[i] == t[i]);
            }
        }
        assert forall|i: int| s.len() <= i < r.len() implies last_with(
            chunks,
            (#[trigger] r[i]).id,
        ) is Some by {
            if i < t.len() && r[i].id != c.id {
                assert(r[i] == t[i]);
            }
        }
        assert forall|i: int| 0 <= i < s.len() implies (#[trigger] r[i]).id == s[i].id by {
            assert(t[i].id == s[i].id);
        }
    }
}

/// Putting the same records in once more changes nothing.
pub proof fn law_upsert_is_idempotent(s: Seq<ChunkView>, chunks: Seq<ChunkView>)
    requires
        ids_unique(s),
    ensures
        put_all(put_all(s, chunks), chunks) == put_all(s, chunks),
{
    let t = put_all(s, chunks);
    let r = put_all(t, chunks);
    law_ids_stay_unique(s, chunks);
    law_ids_stay_unique(t, chunks);
    law_upsert_reads_back(s, chunks);
    law_upsert_reads_back(t, chunks);
    assert forall|i: int| 0 <= i < t.len() implies r[i] == t[i] by {
        assert(r[i].id == t[i].id);
    }
    if r.len() > t.len() {
        let i = t.len() as int;
        let id = r[i].id;
        assert(last_with(chunks, id) is Some);
        lemma_position(t, id, 0);
        let j = position(t, id, 0)->0;
        assert(r[j].id == t[j].id);
        assert(r[j].id != r[i].id);
    }
    assert(r =~= t);
}

/// Whether hits come by descending score.
pub open spec fn descending(hits: Seq<HitView>) -> bool {
    forall|i: int, j: int|
        0 <= i < j < hits.len() ==> rank((#[trigger] hits[i]).score) >= rank(
            (#[trigger] hits[j]).score,
        )
}

proof fn lemma_rank_in(hits: Seq<HitView>, h: HitView)
    requires
        descending(hits),
    ensures
        descending(rank_in(hits, h)),
        rank_in(hits, h).to_multiset() == hits.to_multiset().insert(h),
        rank_in(hits, h).len() == hits.len() + 1,
        forall|i: int|
            0 <= i < rank_in(hits, h).len() ==> rank((#[trigger] rank_in(hits, h)[i]).score)
                >= rank(h.score) || hits.contains(rank_in(hits, h)[i]),
    decreases hits.len(),
{
    broadcast use vstd::seq_lib::group_to_multiset_ensures;

    if hits.len() == 0 || rank(hits.last().score) >= rank(h.score) {
        let r = hits.push(h);
        assert forall|i: int, j: int| 0 <= i < j < r.len() implies rank((#[trigger] r[i]).score)
            >= rank((#[trigger] r[j]).score) by {
            if j == hits.len() {
                assert(rank(hits[i].score) >= rank(hits[hits.len() - 1].score));
            }
        }
    } else {
        let prev = hits.drop_last();
        let last = hits.last();
        lemma_rank_in(prev, h);
        let q = rank_in(prev, h);
        let r = q.push(last);
        assert(hits =~= prev.push(last));
        assert forall|i: int| 0 <= i < q.len() implies rank((#[trigger] q[i]).score) >= rank(
            last.score,
        ) by {
            if prev.contains(q[i]) {
                let k = choose|k: int| 0 <= k < prev.len() && prev[k] == q[i];
                assert(hits[k] == q[i]);
                assert(rank(hits[k].score) >= rank(hits[hits.len() - 1].score));
            }
        }
        assert forall|i: int| 0 <= i < r.len() implies rank((#[trigger] r[i]).score) >= rank(
            h.score,
        ) || hits.contains(r[i]) by {
            if i < q.len() {
                assert(r[i] == q[i]);
                if prev.contains(q[i]) {
                    let k = choose|k: int| 0 <= k < prev.len() && prev[k] == q[i];
                    assert(hits[k] == r[i]);
                }
            } else {
                assert(hits[hits.len() - 1] == r[i]);
            }
        }
        assert(prev.to_multiset().insert(h).insert(last) =~= prev.to_multiset().insert(
            last,
        ).insert(h));
    }
}

/// Ranking hits gives the same hits, by descending score.
pub proof fn law_ranked_is_sorted(hits: Seq<HitView>)
    ensures
        descending(ranked(hits)),
        ranked(hits).to_multiset() == hits.to_multiset(),
        ranked(hits).len() == hits.len(),
    decreases hits.len(),
{
    broadcast use vstd::seq_lib::group_to_multiset_ensures;

    if hits.len() > 0 {
        law_ranked_is_sorted(hits.drop_last());
        lemma_rank_in(ranked(hits.drop_last()), hits.last());
        assert(hits =~= hits.drop_last().push(hits.last()));
    }
}

/// The hits of one score, in order.
pub open spec fn of_rank(hits: Seq<HitView>, r: int) -> Seq<HitView>
    decreases hits.len(),
{
    if hits.len() == 0 {
        hits
    } else if rank(hits.last().score) == r {
        of_rank(hits.drop_last(), r).push(hits.last())
    } else {
        of_rank(hits.drop_last(), r)
    }
}

proof fn lemma_rank_in_stable(hits: Seq<HitView>, h: HitView, r: int)
    requires
        descending(hits),
    ensures
        of_rank(rank_in(hits, h), r) == (if rank(h.score) == r {
            of_rank(hits, r).push(h)
        } else {
            of_rank(hits, r)
        }),
    decreases hits.len(),
{
    if hits.len() == 0 || rank(hits.last().score) >= rank(h.score) {
        assert(hits.push(h).drop_last() =~= hits);
    } else {
        let prev = hits.drop_last();
        lemma_rank_in_stable(prev, h, r);
        assert(rank_in(prev, h).push(hits.last()).drop_last() =~= rank_in(prev, h));
        if rank(hits.last().score) == r {
            assert(rank(h.score) != r);
        }
    }
}

/// Ranking keeps the order of hits that score the same.
pub proof fn law_ranked_is_stable(hits: Seq<HitView>, r: int)
    ensures
        of_rank(ranked(hits), r) == of_rank(hits, r),
    decreases hits.len(),
{
    if hits.len() > 0 {
        law_ranked_is_stable(hits.drop_last(), r);
        law_ranked_is_sorted(hits.drop_last());
        lemma_rank_in_stable(ranked(hits.drop_last()), hits.last(), r);
    }
}

proof fn lemma_scored(chunks: Seq<ChunkView>, scores: Seq<u32>, filter: FilterView)
    ensures
        forall|h: HitView| #[trigger]
            scored(chunks, scores, filter).contains(h) ==> passes(filter, h.chunk)
                && chunks.contains(h.chunk),
    decreases chunks.len(),
{
    if chunks.len() > 0 {
        let prev = chunks.drop_last();
        lemma_scored(prev, scores, filter);
        assert forall|h: HitView| #[trigger] scored(chunks, scores, filter).contains(h) implies
            passes(filter, h.chunk) && chunks.contains(h.chunk) by {
            let s = scored(chunks, scores, filter);
            let i = choose|i: int| 0 <= i < s.len() && s[i] == h;
            let before = scored(prev, scores, filter);
            if i < before.len() {
                assert(before[i] == h);
                assert(before.contains(h));
                let k = choose|k: int| 0 <= k < prev.len() && prev[k] == h.chunk;
                assert(chunks[k] == h.chunk);
            } else {
                assert(chunks[chunks.len() - 1] == h.chunk);
            }
        }
    }
}

/// A search finds `top_k` hits at most, by descending score, and each is a
/// record of the store that the filter lets through.
pub proof fn law_search_results(
    chunks: Seq<ChunkView>,
    scores: Seq<u32>,
    top_k: nat,
    filter: FilterView,
)
    ensures
        found(chunks, scores, top_k as int, filter).len() <= top_k,
        descending(found(chunks, scores, top_k as int, filter)),
        forall|i: int|
            0 <= i < found(chunks, scores, top_k as int, filter).len() ==> {
                let h = #[trigger] found(chunks, scores, top_k as int, filter)[i];
                passes(filter, h.chunk) && chunks.contains(h.chunk)
            },
{
    broadcast use vstd::seq_lib::group_to_multiset_ensures;

    let s = scored(chunks, scores, filter);
    let all = ranked(s);
    law_ranked_is_sorted(s);
    lemma_scored(chunks, scores, filter);
    let f = found(chunks, scores, top_k as int, filter);
    assert forall|i: int| 0 <= i < f.len() implies {
        let h = #[trigger] f[i];
        passes(filter, h.chunk) && chunks.contains(h.chunk)
    } by {
        assert(f[i] == all[i]);
        assert(all.contains(all[i]));
        assert(all.to_multiset().count(all[i]) > 0);
        assert(s.contains(all[i]));
    }
}

proof fn lemma_scored_holds(
    chunks: Seq<ChunkView>,
    scores: Seq<u32>,
    filter: FilterView,
    i: int,
)
    requires
        0 <= i < chunks.len(),
        passes(filter, chunks[i]),
    ensures
        scored(chunks, scores, filter).contains(HitView { chunk: chunks[i], score: scores[i] }),
    decreases chunks.len(),
{
    let h = HitView { chunk: chunks[i], score: scores[i] };
    let s = scored(chunks, scores, filter);
    let prev = chunks.drop_last();
    if i < prev.len() {
        lemma_scored_holds(prev, scores, filter, i);
        let before = scored(prev, scores, filter);
        let k = choose|k: int| 0 <= k < before.len() && before[k] == h;
        assert(s[k] == h);
    } else {
        assert(s[s.len() - 1] == h);
    }
}

/// A search leaves no better record out: one that the filter lets through is
/// found, or else `top_k` hits are, and none of them scores lower.
pub proof fn law_search_finds_the_best(
    chunks: Seq<ChunkView>,
    scores: Seq<u32>,
    top_k: nat,
    filter: FilterView,
    i: int,
)
    requires
        0 <= i < chunks.len(),
        passes(filter, chunks[i]),
    ensures
        found(chunks, scores, top_k as int, filter).contains(
            HitView { chunk: chunks[i], score: scores[i] },
        ) || (found(chunks, scores, top_k as int, filter).len() == top_k && forall|k: int|
            0 <= k < top_k ==> rank(
                (#[trigger] found(chunks, scores, top_k as int, filter)[k]).score,
            ) >= rank(scores[i])),
{
    broadcast use vstd::seq_lib::group_to_multiset_ensures;

    let h = HitView { chunk: chunks[i], score: scores[i] };
    let s = scored(chunks, scores, filter);
    let all = ranked(s);
    let f = found(chunks, scores, top_k as int, filter);
    lemma_scored_holds(chunks, scores, filter, i);
    law_ranked_is_sorted(s);
    assert(s.to_multiset().count(h) > 0);
    assert(all.contains(h));
    let j = choose|j: int| 0 <= j < all.len() && all[j] == h;
    if j < f.len() {
        assert(f[j] == h);
    } else {
        assert forall|k: int| 0 <= k < top_k implies rank((#[trigger] f[k]).score) >= rank(
            scores[i],
        ) by {
            assert(f[k] == all[k]);
            assert(rank(all[k].score) >= rank(all[j].score));
        }
    }
}

} // verus!
