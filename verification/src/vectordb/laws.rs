//! Laws on what is stored and found.
use crate::text;
use crate::vectordb::columns;
use crate::vectordb::columns::{ColumnView, RowsView};
use crate::vectordb::expr;
use crate::vectordb::memory;
use crate::vectordb::{ChunkView, FilterView, HitView};
use vstd::prelude::*;

verus! {

// ---------------------------------------------------------------------------
// Search

/// A filter lets a chunk through if and only if each field that it sets is that
/// of the chunk.
pub proof fn law_filter(filter: FilterView, c: ChunkView)
    ensures
        memory::passes(filter, c) <==> (filter.source_type is None || filter.source_type == Some(
            c.source_type,
        )) && (filter.project_or_space is None || filter.project_or_space == Some(
            c.space_or_project,
        )),
{
}

/// Every chunk that the filter lets through is scored, with its own score, in
/// the order of the chunks, and no other.
pub proof fn law_every_chunk_is_scored(chunks: Seq<ChunkView>, scores: Seq<u32>, filter: FilterView)
    ensures
        memory::scored(chunks, scores, filter) == Seq::new(
            chunks.len(),
            |i: int| HitView { chunk: chunks[i], score: scores[i] },
        ).filter(
            |h: HitView|
                (filter.source_type is None || filter.source_type == Some(h.chunk.source_type)) && (
                filter.project_or_space is None || filter.project_or_space == Some(
                    h.chunk.space_or_project,
                )),
        ),
    decreases chunks.len(),
{
    reveal(Seq::filter);
    let lets = |h: HitView|
        (filter.source_type is None || filter.source_type == Some(h.chunk.source_type)) && (
        filter.project_or_space is None || filter.project_or_space == Some(
            h.chunk.space_or_project,
        ));
    let all = Seq::new(chunks.len(), |i: int| HitView { chunk: chunks[i], score: scores[i] });
    if chunks.len() == 0 {
        assert(all =~= Seq::empty());
    } else {
        let prev = chunks.drop_last();
        law_every_chunk_is_scored(prev, scores, filter);
        let before = Seq::new(prev.len(), |i: int| HitView { chunk: prev[i], score: scores[i] });
        assert(all.drop_last() =~= before);
        assert(all.last() == HitView { chunk: chunks.last(), score: scores[chunks.len() - 1] });
        assert(all.filter(lets) == if lets(all.last()) {
            all.drop_last().filter(lets).push(all.last())
        } else {
            all.drop_last().filter(lets)
        });
    }
}

/// As many chunks are found as are asked for, or all that the filter lets
/// through where those are fewer; they are the first of the ranked ones.
pub proof fn law_as_many_as_asked(
    chunks: Seq<ChunkView>,
    scores: Seq<u32>,
    top_k: nat,
    filter: FilterView,
)
    ensures
        ({
            let all = memory::scored(chunks, scores, filter);
            let hits = memory::found(chunks, scores, top_k as int, filter);
            &&& hits.len() == (if all.len() <= top_k {
                all.len()
            } else {
                top_k
            })
            &&& hits == memory::ranked(all).take(hits.len() as int)
        }),
{
    let all = memory::scored(chunks, scores, filter);
    memory::law_ranked_is_sorted(all);
    assert(memory::ranked(all).take(all.len() as int) =~= memory::ranked(all));
}

/// Bit patterns of numbers rank as the numbers do: those with the sign bit lie
/// below those without, and both zeros alike; without it a greater pattern is a
/// greater number, with it a smaller one. Patterns above that of infinity are no
/// numbers.
pub proof fn law_rank(a: u32, b: u32)
    ensures
        a < 0x8000_0000 && b < 0x8000_0000 ==> (memory::rank(a) < memory::rank(b) <==> a < b),
        a >= 0x8000_0000 && b >= 0x8000_0000 ==> (memory::rank(a) < memory::rank(b) <==> a > b),
        a > 0x8000_0000 && b < 0x8000_0000 ==> memory::rank(a) < memory::rank(b),
        memory::rank(0x8000_0000) == memory::rank(0),
        memory::is_number(a) <==> a <= 0x7f80_0000 || 0x8000_0000 <= a <= 0xff80_0000,
{
}

/// A chunk that is put in stands in the place of the one with its identifier;
/// where there is none, behind all others. The others stay.
pub proof fn law_put(s: Seq<ChunkView>, c: ChunkView)
    requires
        memory::ids_unique(s),
    ensures
        (forall|i: int| 0 <= i < s.len() ==> (#[trigger] s[i]).id != c.id) ==> memory::put(s, c)
            == s + seq![c],
        forall|i: int|
            0 <= i < s.len() && (#[trigger] s[i]).id == c.id ==> memory::put(s, c) == s.update(i, c),
{
    lemma_position(s, c.id, 0);
    assert(s.push(c) =~= s + seq![c]);
}

proof fn lemma_position(s: Seq<ChunkView>, id: Seq<char>, from: int)
    requires
        0 <= from,
    ensures
        match memory::position(s, id, from) {
            Some(i) => from <= i < s.len() && s[i].id == id,
            None => forall|i: int| from <= i < s.len() ==> (#[trigger] s[i]).id != id,
        },
    decreases s.len() - from,
{
    if from < s.len() && s[from].id != id {
        lemma_position(s, id, from + 1);
    }
}

/// All chunks that are handed over are put in, one after another.
pub proof fn law_puts_add_up(s: Seq<ChunkView>, a: Seq<ChunkView>, b: Seq<ChunkView>, c: ChunkView)
    ensures
        memory::put_all(s, a + b) == memory::put_all(memory::put_all(s, a), b),
        memory::put_all(s, seq![c]) == memory::put(s, c),
        memory::put_all(s, Seq::empty()) == s,
    decreases b.len(),
{
    assert(seq![c].drop_last() =~= Seq::empty());
    assert(memory::put_all(s, seq![c].drop_last()) == s);
    if b.len() == 0 {
        assert(a + b =~= a);
    } else {
        law_puts_add_up(s, a, b.drop_last(), c);
        assert((a + b).drop_last() =~= a + b.drop_last());
        assert((a + b).last() == b.last());
    }
}

// ---------------------------------------------------------------------------
// Columns

/// A batch is refused if and only if some vector has another dimension; the
/// message names the first such chunk.
pub proof fn law_wrong_dimension(chunks: Seq<ChunkView>, dim: int, i: int)
    requires
        0 <= i < chunks.len(),
        chunks[i].vector.len() != dim,
        forall|k: int| 0 <= k < i ==> (#[trigger] chunks[k]).vector.len() == dim,
    ensures
        columns::wrong_dim(chunks, dim, 0) == Some(chunks[i]),
{
    lemma_wrong_from(chunks, dim, i, 0);
}

proof fn lemma_wrong_from(chunks: Seq<ChunkView>, dim: int, i: int, from: int)
    requires
        0 <= from <= i < chunks.len(),
        chunks[i].vector.len() != dim,
        forall|k: int| 0 <= k < i ==> (#[trigger] chunks[k]).vector.len() == dim,
    ensures
        columns::wrong_dim(chunks, dim, from) == Some(chunks[i]),
    decreases i - from,
{
    if from < i {
        assert(chunks[from].vector.len() == dim);
        lemma_wrong_from(chunks, dim, i, from + 1);
    }
}

/// A batch whose vectors all have the dimension is taken.
pub proof fn law_right_dimension(chunks: Seq<ChunkView>, dim: int, from: int)
    requires
        forall|k: int| 0 <= k < chunks.len() ==> (#[trigger] chunks[k]).vector.len() == dim,
    ensures
        columns::wrong_dim(chunks, dim, from) is None,
    decreases chunks.len() - from,
{
    if 0 <= from < chunks.len() {
        assert(chunks[from].vector.len() == dim);
        law_right_dimension(chunks, dim, from + 1);
    }
}

/// The message names both dimensions and the chunk.
pub proof fn law_dimension_message(dim: nat, c: ChunkView)
    ensures
        columns::dim_message(dim, c) == "vector dim mismatch: expected "@ + text::decimal(dim)
            + ", got "@ + text::decimal(c.vector.len()) + " for id="@ + c.id,
{
}

/// Whether a column holds values.
pub open spec fn holds_values<T>(c: ColumnView<T>) -> bool {
    c is Values
}

/// Rows are refused if and only if a column that they need is missing or of
/// another type.
pub proof fn law_no_fault(t: RowsView)
    ensures
        columns::rows_fault(t) is None <==> holds_values(t.id) && holds_values(t.source_type)
            && holds_values(t.source_id) && holds_values(t.title) && holds_values(t.url)
            && holds_values(t.space_or_project) && holds_values(t.created_at) && holds_values(
            t.updated_at,
        ) && holds_values(t.text),
{
}

/// The message names the first column that cannot be read, in the order of the
/// schema, and what is wrong with it.
pub proof fn law_first_fault_is_named(t: RowsView)
    ensures
        t.id is Missing ==> columns::rows_fault(t) == Some("missing col "@ + "id"@),
        t.id is OtherType ==> columns::rows_fault(t) == Some("col "@ + "id"@ + " not "@ + "Utf8"@),
        t.id is Values && t.source_type is Missing ==> columns::rows_fault(t) == Some(
            "missing col "@ + "source_type"@,
        ),
        t.id is Values && t.source_type is OtherType ==> columns::rows_fault(t) == Some(
            "col "@ + "source_type"@ + " not "@ + "Utf8"@,
        ),
        t.id is Values && t.source_type is Values && t.source_id is Missing ==> columns::rows_fault(
            t,
        ) == Some("missing col "@ + "source_id"@),
        t.id is Values && t.source_type is Values && t.source_id is OtherType
            ==> columns::rows_fault(t) == Some("col "@ + "source_id"@ + " not "@ + "Utf8"@),
        t.id is Values && t.source_type is Values && t.source_id is Values && t.title is Missing
            ==> columns::rows_fault(t) == Some("missing col "@ + "title"@),
        t.id is Values && t.source_type is Values && t.source_id is Values && t.title is OtherType
            ==> columns::rows_fault(t) == Some("col "@ + "title"@ + " not "@ + "Utf8"@),
        t.id is Values && t.source_type is Values && t.source_id is Values && t.title is Values
            && t.url is Missing ==> columns::rows_fault(t) == Some("missing col "@ + "url"@),
        t.id is Values && t.source_type is Values && t.source_id is Values && t.title is Values
            && t.url is OtherType ==> columns::rows_fault(t) == Some(
            "col "@ + "url"@ + " not "@ + "Utf8"@,
        ),
        t.id is Values && t.source_type is Values && t.source_id is Values && t.title is Values
            && t.url is Values && t.space_or_project is Missing ==> columns::rows_fault(t) == Some(
            "missing col "@ + "space_or_project"@,
        ),
        t.id is Values && t.source_type is Values && t.source_id is Values && t.title is Values
            && t.url is Values && t.space_or_project is OtherType ==> columns::rows_fault(t)
            == Some("col "@ + "space_or_project"@ + " not "@ + "Utf8"@),
        t.id is Values && t.source_type is Values && t.source_id is Values && t.title is Values
            && t.url is Values && t.space_or_project is Values && t.created_at is Missing
            ==> columns::rows_fault(t) == Some("missing col "@ + "created_at"@),
        t.id is Values && t.source_type is Values && t.source_id is Values && t.title is Values
            && t.url is Values && t.space_or_project is Values && t.created_at is OtherType
            ==> columns::rows_fault(t) == Some("col "@ + "created_at"@ + " not "@ + "Int64"@),
        t.id is Values && t.source_type is Values && t.source_id is Values && t.title is Values
            && t.url is Values && t.space_or_project is Values && t.created_at is Values
            && t.updated_at is Missing ==> columns::rows_fault(t) == Some(
            "missing col "@ + "updated_at"@,
        ),
        t.id is Values && t.source_type is Values && t.source_id is Values && t.title is Values
            && t.url is Values && t.space_or_project is Values && t.created_at is Values
            && t.updated_at is OtherType ==> columns::rows_fault(t) == Some(
            "col "@ + "updated_at"@ + " not "@ + "Int64"@,
        ),
        t.id is Values && t.source_type is Values && t.source_id is Values && t.title is Values
            && t.url is Values && t.space_or_project is Values && t.created_at is Values
            && t.updated_at is Values && t.text is Missing ==> columns::rows_fault(t) == Some(
            "missing col "@ + "text"@,
        ),
        t.id is Values && t.source_type is Values && t.source_id is Values && t.title is Values
            && t.url is Values && t.space_or_project is Values && t.created_at is Values
            && t.updated_at is Values && t.text is OtherType ==> columns::rows_fault(t) == Some(
            "col "@ + "text"@ + " not "@ + "Utf8"@,
        ),
{
}

/// The score of a row is its distance with the other sign, and zero where there
/// is no distance; a row without an author or labels has none.
pub proof fn law_score_of_row(t: RowsView, i: int)
    requires
        0 <= i < t.rows,
    ensures
        columns::hits_of(t).len() == t.rows,
        t.distance is None ==> columns::hits_of(t)[i].score == 0,
        t.distance matches Some(d) && d[i] is None ==> columns::hits_of(t)[i].score == 0,
        match t.distance {
            Some(d) => match d[i] {
                Some(bits) => columns::hits_of(t)[i].score == (if bits < 0x8000_0000 {
                    bits + 0x8000_0000
                } else {
                    bits - 0x8000_0000
                }),
                None => true,
            },
            None => true,
        },
        t.author is None ==> columns::hits_of(t)[i].chunk.author.len() == 0,
        t.author matches Some(a) && a[i] is None ==> columns::hits_of(t)[i].chunk.author.len() == 0,
        match t.author {
            Some(a) => match a[i] {
                Some(name) => columns::hits_of(t)[i].chunk.author == name,
                None => true,
            },
            None => true,
        },
        t.labels is None ==> columns::hits_of(t)[i].chunk.labels.len() == 0,
        t.labels matches Some(l) ==> columns::hits_of(t)[i].chunk.labels == l[i],
{
}

/// The nearer of two rows has the greater score, where their distances are
/// numbers that are not negative.
pub proof fn law_nearer_scores_higher(a: u32, b: u32)
    requires
        a < b,
        b < 0x8000_0000,
    ensures
        memory::rank(columns::negated(a)) > memory::rank(columns::negated(b)),
{
}

/// Every field of a row is read from its own column.
pub proof fn law_fields_of_row(t: RowsView, i: int)
    requires
        0 <= i < t.rows,
    ensures
        ({
            let c = columns::hits_of(t)[i].chunk;
            &&& t.id matches ColumnView::Values(v) ==> c.id == v[i]
            &&& t.source_type matches ColumnView::Values(v) ==> c.source_type == v[i]
            &&& t.source_id matches ColumnView::Values(v) ==> c.source_id == v[i]
            &&& t.title matches ColumnView::Values(v) ==> c.title == v[i]
            &&& t.url matches ColumnView::Values(v) ==> c.url == v[i]
            &&& t.space_or_project matches ColumnView::Values(v) ==> c.space_or_project == v[i]
            &&& t.created_at matches ColumnView::Values(v) ==> c.created_at == v[i]
            &&& t.updated_at matches ColumnView::Values(v) ==> c.updated_at == v[i]
            &&& t.text matches ColumnView::Values(v) ==> c.text == v[i]
            &&& c.vector.len() == 0
        }),
{
}

proof fn lemma_hits_from(batches: Seq<RowsView>, i: int)
    requires
        0 <= i <= batches.len(),
        forall|k: int|
            0 <= k < batches.len() ==> columns::rows_fault(#[trigger] batches[k]) is None,
    ensures
        columns::all_hits(batches, i) == Ok::<Seq<HitView>, Seq<char>>(
            batches.skip(i).map_values(|t: RowsView| columns::hits_of(t)).flatten(),
        ),
    decreases batches.len() - i,
{
    let parts = batches.skip(i).map_values(|t: RowsView| columns::hits_of(t));
    if i < batches.len() {
        assert(columns::rows_fault(batches[i]) is None);
        lemma_hits_from(batches, i + 1);
        assert(parts.drop_first() =~= batches.skip(i + 1).map_values(
            |t: RowsView| columns::hits_of(t),
        ));
        assert(parts.first() == columns::hits_of(batches[i]));
    } else {
        assert(parts =~= Seq::empty());
    }
}

/// The hits of all batches are handed back, in order.
pub proof fn law_no_batch_is_left_out(batches: Seq<RowsView>)
    requires
        forall|k: int|
            0 <= k < batches.len() ==> columns::rows_fault(#[trigger] batches[k]) is None,
    ensures
        columns::all_hits(batches, 0) == Ok::<Seq<HitView>, Seq<char>>(
            batches.map_values(|t: RowsView| columns::hits_of(t)).flatten(),
        ),
{
    lemma_hits_from(batches, 0);
    assert(batches.skip(0) =~= batches);
}

/// The first batch that cannot be read is reported.
pub proof fn law_first_bad_batch(batches: Seq<RowsView>, n: int, m: Seq<char>, i: int)
    requires
        0 <= i <= n < batches.len(),
        columns::rows_fault(batches[n]) == Some(m),
        forall|k: int| 0 <= k < n ==> columns::rows_fault(#[trigger] batches[k]) is None,
    ensures
        columns::all_hits(batches, i) == Err::<Seq<HitView>, Seq<char>>(m),
    decreases n - i,
{
    if i < n {
        assert(columns::rows_fault(batches[i]) is None);
        law_first_bad_batch(batches, n, m, i + 1);
    }
}

/// The first row is that of the first batch with rows; a batch in front of it
/// that cannot be read is reported.
pub proof fn law_first_row(batches: Seq<RowsView>, n: int, i: int)
    requires
        0 <= i <= n <= batches.len(),
        forall|k: int|
            0 <= k < n ==> columns::rows_fault(#[trigger] batches[k]) is None && batches[k].rows
                <= 0,
    ensures
        n == batches.len() ==> columns::first_hit(batches, i) == Ok::<Option<HitView>, Seq<char>>(
            None,
        ),
        n < batches.len() && columns::rows_fault(batches[n]) is None && batches[n].rows > 0
            ==> columns::first_hit(batches, i) == Ok::<Option<HitView>, Seq<char>>(
            Some(columns::hits_of(batches[n])[0]),
        ),
        n < batches.len() ==> (columns::rows_fault(batches[n]) matches Some(m)
            ==> columns::first_hit(batches, i) == Err::<Option<HitView>, Seq<char>>(m)),
    decreases n - i,
{
    if i < n {
        assert(columns::rows_fault(batches[i]) is None);
        law_first_row(batches, n, i + 1);
    }
}

/// The chunks of hits are those of all of them, in order.
pub proof fn law_chunks_of_hits(hits: Seq<HitView>)
    ensures
        columns::chunks_of(hits).len() == hits.len(),
        forall|i: int|
            0 <= i < hits.len() ==> #[trigger] columns::chunks_of(hits)[i] == hits[i].chunk,
{
}

// ---------------------------------------------------------------------------
// Expressions

/// Escaping goes character by character: a quote or a backslash is doubled, a
/// control character is left out, any other stays.
pub proof fn law_escaping_adds_up(a: Seq<char>, b: Seq<char>, c: char)
    ensures
        expr::escaped(a + b) == expr::escaped(a) + expr::escaped(b),
        expr::escaped(seq!['\'']) == seq!['\'', '\''],
        expr::escaped(seq!['\\']) == seq!['\\', '\\'],
        (c as u32) < 32 ==> expr::escaped(seq![c]).len() == 0,
        c as u32 >= 32 && c != '\'' && c != '\\' ==> expr::escaped(seq![c]) == seq![c],
    decreases a.len(),
{
    lemma_escaped_one('\'');
    lemma_escaped_one('\\');
    lemma_escaped_one(c);
    if a.len() == 0 {
        assert(a + b =~= b);
        assert(expr::escaped(a) =~= Seq::empty());
    } else {
        law_escaping_adds_up(a.drop_first(), b, c);
        assert((a + b).drop_first() =~= a.drop_first() + b);
        assert((a + b)[0] == a[0]);
        assert(expr::escaped_char(a[0]) + (expr::escaped(a.drop_first()) + expr::escaped(b))
            =~= expr::escaped_char(a[0]) + expr::escaped(a.drop_first()) + expr::escaped(b));
    }
}

proof fn lemma_escaped_one(c: char)
    ensures
        expr::escaped(seq![c]) == expr::escaped_char(c),
{
    let one = seq![c];
    assert(one.drop_first() =~= Seq::empty());
    assert(expr::escaped(one.drop_first()) =~= Seq::empty());
    assert(expr::escaped_char(c) + Seq::<char>::empty() =~= expr::escaped_char(c));
}

/// An equation quotes the escaped value behind the name of the column.
pub proof fn law_equation(column: Seq<char>, value: Seq<char>)
    ensures
        expr::equation(column, value) == column + " = '"@ + expr::escaped(value) + "'"@,
{
}

/// A filter asks for all the fields that it sets and for no other.
pub proof fn law_filter_clauses(s: Seq<char>, p: Seq<char>)
    ensures
        expr::filter_clauses(FilterView { source_type: None, project_or_space: None }).len() == 0,
        expr::filter_clauses(FilterView { source_type: Some(s), project_or_space: None }) == seq![
            expr::equation("source_type"@, s),
        ],
        expr::filter_clauses(FilterView { source_type: None, project_or_space: Some(p) }) == seq![
            expr::equation("space_or_project"@, p),
        ],
        expr::filter_clauses(FilterView { source_type: Some(s), project_or_space: Some(p) })
            == seq![expr::equation("source_type"@, s), expr::equation("space_or_project"@, p)],
{
}

} // verus!
