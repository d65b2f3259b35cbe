//! Records as columns.
use crate::text;
use crate::text::number;
use crate::vectordb::{Chunk, ChunkView, HitView, SearchHit};
use vstd::prelude::*;

verus! {

// ---------------------------------------------------------------------------
// Writing

/// The columns in which records are written.
#[derive(Debug)]
pub struct ChunkColumns {
    pub id: Vec<String>,
    pub source_type: Vec<String>,
    pub source_id: Vec<String>,
    pub title: Vec<String>,
    pub url: Vec<String>,
    pub space_or_project: Vec<String>,
    pub author: Vec<String>,
    pub created_at: Vec<i64>,
    pub updated_at: Vec<i64>,
    pub labels: Vec<Vec<String>>,
    pub text: Vec<String>,
    /// The components of all vectors, one record after another.
    pub vector: Vec<u32>,
}

/// The model of written columns.
pub struct ColumnsView {
    pub id: Seq<Seq<char>>,
    pub source_type: Seq<Seq<char>>,
    pub source_id: Seq<Seq<char>>,
    pub title: Seq<Seq<char>>,
    pub url: Seq<Seq<char>>,
    pub space_or_project: Seq<Seq<char>>,
    pub author: Seq<Seq<char>>,
    pub created_at: Seq<i64>,
    pub updated_at: Seq<i64>,
    pub labels: Seq<Seq<Seq<char>>>,
    pub text: Seq<Seq<char>>,
    pub vector: Seq<u32>,
}

impl DeepView for ChunkColumns {
    type V = ColumnsView;

    open spec fn deep_view(&self) -> ColumnsView {
        ColumnsView {
            id: self.id.deep_view(),
            source_type: self.source_type.deep_view(),
            source_id: self.source_id.deep_view(),
            title: self.title.deep_view(),
            url: self.url.deep_view(),
            space_or_project: self.space_or_project.deep_view(),
            author: self.author.deep_view(),
            created_at: self.created_at@,
            updated_at: self.updated_at@,
            labels: self.labels.deep_view(),
            text: self.text.deep_view(),
            vector: self.vector@,
        }
    }
}

/// The columns of no record.
pub open spec fn no_columns() -> ColumnsView {
    ColumnsView {
        id: Seq::empty(),
        source_type: Seq::empty(),
        source_id: Seq::empty(),
        title: Seq::empty(),
        url: Seq::empty(),
        space_or_project: Seq::empty(),
        author: Seq::empty(),
        created_at: Seq::empty(),
        updated_at: Seq::empty(),
        labels: Seq::empty(),
        text: Seq::empty(),
        vector: Seq::empty(),
    }
}

/// The columns with one more record.
pub open spec fn with_row(t: ColumnsView, c: ChunkView) -> ColumnsView {
    ColumnsView {
        id: t.id.push(c.id),
        source_type: t.source_type.push(c.source_type),
        source_id: t.source_id.push(c.source_id),
        title: t.title.push(c.title),
        url: t.url.push(c.url),
        space_or_project: t.space_or_project.push(c.space_or_project),
        author: t.author.push(c.author),
        created_at: t.created_at.push(c.created_at),
        updated_at: t.updated_at.push(c.updated_at),
        labels: t.labels.push(c.labels),
        text: t.text.push(c.text),
        vector: t.vector + c.vector,
    }
}

/// The columns of records.
pub open spec fn columns_of(chunks: Seq<ChunkView>) -> ColumnsView
    decreases chunks.len(),
{
    if chunks.len() == 0 {
        no_columns()
    } else {
        with_row(columns_of(chunks.drop_last()), chunks.last())
    }
}

/// The first record, from `i` on, whose vector is not of dimension `dim`.
pub open spec fn wrong_dim(chunks: Seq<ChunkView>, dim: int, i: int) -> Option<ChunkView>
    decreases chunks.len() - i,
{
    if i < 0 || i >= chunks.len() {
        None
    } else if chunks[i].vector.len() != dim {
        Some(chunks[i])
    } else {
        wrong_dim(chunks, dim, i + 1)
    }
}

/// What is said of a record whose vector is not of dimension `dim`.
pub open spec fn dim_message(dim: nat, c: ChunkView) -> Seq<char> {
    "vector dim mismatch: expected "@ + text::decimal(dim) + ", got "@ + text::decimal(
        c.vector.len(),
    ) + " for id="@ + c.id
}

impl ChunkColumns {
    /// The columns of no record.
    pub fn new() -> (r: Self)
        ensures
            r.deep_view() == no_columns(),
    {
        let r = ChunkColumns {
            id: Vec::new(),
            source_type: Vec::new(),
            source_id: Vec::new(),
            title: Vec::new(),
            url: Vec::new(),
            space_or_project: Vec::new(),
            author: Vec::new(),
            created_at: Vec::new(),
            updated_at: Vec::new(),
            labels: Vec::new(),
            text: Vec::new(),
            vector: Vec::new(),
        };
        assert(r.id.deep_view() =~= Seq::empty());
        assert(r.source_type.deep_view() =~= Seq::empty());
        assert(r.source_id.deep_view() =~= Seq::empty());
        assert(r.title.deep_view() =~= Seq::empty());
        assert(r.url.deep_view() =~= Seq::empty());
        assert(r.space_or_project.deep_view() =~= Seq::empty());
        assert(r.author.deep_view() =~= Seq::empty());
        assert(r.labels.deep_view() =~= Seq::empty());
        assert(r.text.deep_view() =~= Seq::empty());
        r
    }

    /// Adds one record.
    pub fn push(&mut self, c: &Chunk)
        ensures
            final(self).deep_view() == with_row(old(self).deep_view(), c.deep_view()),
    {
        let ghost before = self.deep_view();
        push_text(&mut self.id, &c.id);
        push_text(&mut self.source_type, &c.source_type);
        push_text(&mut self.source_id, &c.source_id);
        push_text(&mut self.title, &c.title);
        push_text(&mut self.url, &c.url);
        push_text(&mut self.space_or_project, &c.space_or_project);
        push_text(&mut self.author, &c.author);
        self.created_at.push(c.created_at);
        self.updated_at.push(c.updated_at);
        let labels = c.labels.clone();
        assert(labels.deep_view() =~= c.labels.deep_view());
        self.labels.push(labels);
        assert(self.labels.deep_view() =~= before.labels.push(c.labels.deep_view()));
        push_text(&mut self.text, &c.text);
        self.vector.extend_from_slice(c.vector.as_slice());
        assert(self.vector@ =~= before.vector + c.vector@);
    }
}

/// Adds a copy of a text.
fn push_text(v: &mut Vec<String>, s: &String)
    ensures
        final(v).deep_view() == old(v).deep_view().push(s@),
{
    let ghost before = v.deep_view();
    v.push(s.clone());
    assert(v.deep_view() =~= before.push(s@));
}

/// The columns of records whose vectors are all of dimension `dim`.
pub fn chunks_to_batch(dim: usize, chunks: &Vec<Chunk>) -> (r: Result<ChunkColumns, String>)
    ensures
        match r {
            Ok(t) => wrong_dim(chunks.deep_view(), dim as int, 0) is None && t.deep_view()
                == columns_of(chunks.deep_view()),
            Err(m) => wrong_dim(chunks.deep_view(), dim as int, 0) matches Some(c) && m@
                == dim_message(dim as nat, c),
        },
{
    let ghost all = chunks.deep_view();
    let mut t = ChunkColumns::new();
    assert(columns_of(all.take(0)) == no_columns());
    for i in 0..chunks.len()
        invariant
            all == chunks.deep_view(),
            t.deep_view() == columns_of(all.take(i as int)),
            wrong_dim(all, dim as int, 0) == wrong_dim(all, dim as int, i as int),
    {
        let c = &chunks[i];
        assert(all[i as int] == c.deep_view());
        assert(all.take(i + 1).drop_last() =~= all.take(i as int));
        assert(all.take(i + 1).last() == c.deep_view());
        if c.vector.len() != dim {
            let mut m = "vector dim mismatch: expected ".to_owned();
            m.append(number(dim as u64).as_str());
            m.append(", got ");
            m.append(number(c.vector.len() as u64).as_str());
            m.append(" for id=");
            m.append(c.id.as_str());
            return Err(m);
        }
        t.push(c);
    }
    assert(all.take(chunks.len() as int) =~= all);
    Ok(t)
}

// ---------------------------------------------------------------------------
// Reading

/// A column that is looked up by its name.
#[derive(Debug)]
pub enum Column<T> {
    /// There is no such column.
    Missing,
    /// The column holds values of another type.
    OtherType,
    Values(Vec<T>),
}

/// The model of a column that is looked up by its name.
pub enum ColumnView<T> {
    Missing,
    OtherType,
    Values(Seq<T>),
}

impl<T: DeepView> DeepView for Column<T> {
    type V = ColumnView<T::V>;

    open spec fn deep_view(&self) -> ColumnView<T::V> {
        match self {
            Column::Missing => ColumnView::Missing,
            Column::OtherType => ColumnView::OtherType,
            Column::Values(v) => ColumnView::Values(v.deep_view()),
        }
    }
}

/// Rows that a query gave.
#[derive(Debug)]
pub struct RowColumns {
    pub rows: usize,
    pub id: Column<String>,
    pub source_type: Column<String>,
    pub source_id: Column<String>,
    pub title: Column<String>,
    pub url: Column<String>,
    pub space_or_project: Column<String>,
    /// Where there is a column of texts of that name.
    pub author: Option<Vec<Option<String>>>,
    pub created_at: Column<i64>,
    pub updated_at: Column<i64>,
    pub text: Column<String>,
    /// The bit patterns of the distances, where there is such a column.
    pub distance: Option<Vec<Option<u32>>>,
    /// Where there is a column of lists of that name; the labels of a row
    /// whose list holds no texts are empty.
    pub labels: Option<Vec<Vec<String>>>,
}

/// The model of rows that a query gave.
pub struct RowsView {
    pub rows: int,
    pub id: ColumnView<Seq<char>>,
    pub source_type: ColumnView<Seq<char>>,
    pub source_id: ColumnView<Seq<char>>,
    pub title: ColumnView<Seq<char>>,
    pub url: ColumnView<Seq<char>>,
    pub space_or_project: ColumnView<Seq<char>>,
    pub author: Option<Seq<Option<Seq<char>>>>,
    pub created_at: ColumnView<i64>,
    pub updated_at: ColumnView<i64>,
    pub text: ColumnView<Seq<char>>,
    pub distance: Option<Seq<Option<u32>>>,
    pub labels: Option<Seq<Seq<Seq<char>>>>,
}

impl DeepView for RowColumns {
    type V = RowsView;

    open spec fn deep_view(&self) -> RowsView {
        RowsView {
            rows: self.rows as int,
            id: self.id.deep_view(),
            source_type: self.source_type.deep_view(),
            source_id: self.source_id.deep_view(),
            title: self.title.deep_view(),
            url: self.url.deep_view(),
            space_or_project: self.space_or_project.deep_view(),
            author: self.author.deep_view(),
            created_at: self.created_at.deep_view(),
            updated_at: self.updated_at.deep_view(),
            text: self.text.deep_view(),
            distance: match self.distance {
                Some(d) => Some(d@),
                None => None,
            },
            labels: self.labels.deep_view(),
        }
    }
}

/// Whether a column has `n` values, where it has values.
pub open spec fn of_len<T>(c: ColumnView<T>, n: int) -> bool {
    c matches ColumnView::Values(s) ==> s.len() == n
}

/// All columns have one value for each row.
pub open spec fn rows_valid(t: RowsView) -> bool {
    &&& of_len(t.id, t.rows)
    &&& of_len(t.source_type, t.rows)
    &&& of_len(t.source_id, t.rows)
    &&& of_len(t.title, t.rows)
    &&& of_len(t.url, t.rows)
    &&& of_len(t.space_or_project, t.rows)
    &&& (t.author matches Some(s) ==> s.len() == t.rows)
    &&& of_len(t.created_at, t.rows)
    &&& of_len(t.updated_at, t.rows)
    &&& of_len(t.text, t.rows)
    &&& (t.distance matches Some(s) ==> s.len() == t.rows)
    &&& (t.labels matches Some(s) ==> s.len() == t.rows)
}

/// What is said of a column that is not as needed.
pub open spec fn column_fault<T>(c: ColumnView<T>, name: Seq<char>, kind: Seq<char>) -> Option<
    Seq<char>,
> {
    match c {
        ColumnView::Missing => Some("missing col "@ + name),
        ColumnView::OtherType => Some("col "@ + name + " not "@ + kind),
        ColumnView::Values(_) => None,
    }
}

/// What is said of the first of two faults.
pub open spec fn first_fault(a: Option<Seq<char>>, b: Option<Seq<char>>) -> Option<Seq<char>> {
    if a is Some {
        a
    } else {
        b
    }
}

/// What is said of the first column that is not as needed.
pub open spec fn rows_fault(t: RowsView) -> Option<Seq<char>> {
    let b = column_fault(t.text, "text"@, "Utf8"@);
    let b = first_fault(column_fault(t.updated_at, "updated_at"@, "Int64"@), b);
    let b = first_fault(column_fault(t.created_at, "created_at"@, "Int64"@), b);
    let b = first_fault(column_fault(t.space_or_project, "space_or_project"@, "Utf8"@), b);
    let b = first_fault(column_fault(t.url, "url"@, "Utf8"@), b);
    let b = first_fault(column_fault(t.title, "title"@, "Utf8"@), b);
    let b = first_fault(column_fault(t.source_id, "source_id"@, "Utf8"@), b);
    let b = first_fault(column_fault(t.source_type, "source_type"@, "Utf8"@), b);
    first_fault(column_fault(t.id, "id"@, "Utf8"@), b)
}

/// The bit pattern of a number with its sign turned.
pub open spec fn negated(bits: u32) -> u32 {
    if bits < 0x8000_0000 {
        (bits + 0x8000_0000) as u32
    } else {
        (bits - 0x8000_0000) as u32
    }
}

/// The score of a row: the distance with its sign turned, or zero where there
/// is none.
pub open spec fn score_at(distance: Option<Seq<Option<u32>>>, i: int) -> u32 {
    match distance {
        Some(d) => match d[i] {
            Some(bits) => negated(bits),
            None => 0,
        },
        None => 0,
    }
}

/// A row as a hit. Its vector is left empty.
pub open spec fn hit_at(t: RowsView, i: int) -> HitView {
    HitView {
        chunk: ChunkView {
            id: t.id->Values_0[i],
            source_type: t.source_type->Values_0[i],
            source_id: t.source_id->Values_0[i],
            title: t.title->Values_0[i],
            url: t.url->Values_0[i],
            space_or_project: t.space_or_project->Values_0[i],
            author: match t.author {
                Some(a) => text::text_or_empty(a[i]),
                None => Seq::empty(),
            },
            created_at: t.created_at->Values_0[i],
            updated_at: t.updated_at->Values_0[i],
            labels: match t.labels {
                Some(l) => l[i],
                None => Seq::empty(),
            },
            text: t.text->Values_0[i],
            vector: Seq::empty(),
        },
        score: score_at(t.distance, i),
    }
}

/// All rows as hits.
pub open spec fn hits_of(t: RowsView) -> Seq<HitView> {
    Seq::new(t.rows as nat, |i: int| hit_at(t, i))
}

/// The values of a column, or what is said of it.
fn column_values<'a, T: DeepView>(c: &'a Column<T>, name: &str, kind: &str) -> (r: Result<
    &'a Vec<T>,
    String,
>)
    ensures
        match r {
            Ok(v) => c.deep_view() == ColumnView::Values(v.deep_view()),
            Err(m) => column_fault(c.deep_view(), name@, kind@) == Some(m@),
        },
{
    match c {
        Column::Missing => {
            let mut m = "missing col ".to_owned();
            m.append(name);
            Err(m)
        },
        Column::OtherType => {
            let mut m = "col ".to_owned();
            m.append(name);
            m.append(" not ");
            m.append(kind);
            Err(m)
        },
        Column::Values(v) => Ok(v),
    }
}

/// `score_at`, executable.
fn score_of(distance: &Option<Vec<Option<u32>>>, i: usize) -> (r: u32)
    requires
        distance matches Some(d) ==> i < d@.len(),
    ensures
        r == score_at(
            match *distance {
                Some(d) => Some(d@),
                None => None,
            },
            i as int,
        ),
{
    match distance {
        Some(d) => match d[i] {
            Some(bits) => if bits < 0x8000_0000 {
                bits + 0x8000_0000
            } else {
                bits - 0x8000_0000
            },
            None => 0,
        },
        None => 0,
    }
}

/// The author of a row.
fn author_of(author: &Option<Vec<Option<String>>>, i: usize) -> (r: String)
    requires
        author matches Some(a) ==> i < a@.len(),
    ensures
        r@ == (match author.deep_view() {
            Some(a) => text::text_or_empty(a[i as int]),
            None => Seq::empty(),
        }),
{
    match author {
        Some(a) => text::or_empty(&a[i]),
        None => String::new(),
    }
}

/// The labels of a row.
fn labels_of(labels: &Option<Vec<Vec<String>>>, i: usize) -> (r: Vec<String>)
    requires
        labels matches Some(l) ==> i < l@.len(),
    ensures
        r.deep_view() == (match labels.deep_view() {
            Some(l) => l[i as int],
            None => Seq::empty(),
        }),
{
    match labels {
        Some(l) => {
            let r = l[i].clone();
            assert(r.deep_view() =~= l[i as int].deep_view());
            r
        },
        None => {
            let r: Vec<String> = Vec::new();
            assert(r.deep_view() =~= Seq::empty());
            r
        },
    }
}

/// The rows as hits, or what is said of the first column that is not as
/// needed.
pub fn batch_to_hits(batch: &RowColumns) -> (r: Result<Vec<SearchHit>, String>)
    requires
        rows_valid(batch.deep_view()),
    ensures
        match r {
            Ok(hits) => rows_fault(batch.deep_view()) is None && hits.deep_view() == hits_of(
                batch.deep_view(),
            ),
            Err(m) => rows_fault(batch.deep_view()) == Some(m@),
        },
{
    let ghost t = batch.deep_view();
    let id = column_values(&batch.id, "id", "Utf8")?;
    let source_type = column_values(&batch.source_type, "source_type", "Utf8")?;
    let source_id = column_values(&batch.source_id, "source_id", "Utf8")?;
    let title = column_values(&batch.title, "title", "Utf8")?;
    let url = column_values(&batch.url, "url", "Utf8")?;
    let space_or_project = column_values(&batch.space_or_project, "space_or_project", "Utf8")?;
    let created_at = column_values(&batch.created_at, "created_at", "Int64")?;
    let updated_at = column_values(&batch.updated_at, "updated_at", "Int64")?;
    let body = column_values(&batch.text, "text", "Utf8")?;
    let mut hits: Vec<SearchHit> = Vec::new();
    assert(hits.deep_view() =~= Seq::empty());
    for i in 0..batch.rows
        invariant
            t == batch.deep_view(),
            rows_valid(t),
            t.id == ColumnView::Values(id.deep_view()),
            t.source_type == ColumnView::Values(source_type.deep_view()),
            t.source_id == ColumnView::Values(source_id.deep_view()),
            t.title == ColumnView::Values(title.deep_view()),
            t.url == ColumnView::Values(url.deep_view()),
            t.space_or_project == ColumnView::Values(space_or_project.deep_view()),
            t.created_at == ColumnView::Values(created_at.deep_view()),
            t.updated_at == ColumnView::Values(updated_at.deep_view()),
            t.text == ColumnView::Values(body.deep_view()),
            hits.deep_view() == Seq::new(i as nat, |k: int| hit_at(t, k)),
    {
        let vector: Vec<u32> = Vec::new();
        assert(vector@ =~= Seq::empty());
        let chunk = Chunk {
            id: id[i].clone(),
            source_type: source_type[i].clone(),
            source_id: source_id[i].clone(),
            title: title[i].clone(),
            url: url[i].clone(),
            space_or_project: space_or_project[i].clone(),
            author: author_of(&batch.author, i),
            created_at: created_at[i],
            updated_at: updated_at[i],
            labels: labels_of(&batch.labels, i),
            text: body[i].clone(),
            vector,
        };
        let h = SearchHit { chunk, score: score_of(&batch.distance, i) };
        assert(h.deep_view() == hit_at(t, i as int));
        let ghost before = hits.deep_view();
        hits.push(h);
        assert(hits.deep_view() =~= before.push(h.deep_view()));
        assert(hits.deep_view() =~= Seq::new((i + 1) as nat, |k: int| hit_at(t, k)));
    }
    Ok(hits)
}

// ---------------------------------------------------------------------------
// Several batches

/// The hits of all batches from `i` on, or what is said of the first that is
/// not as needed.
pub open spec fn all_hits(batches: Seq<RowsView>, i: int) -> Result<Seq<HitView>, Seq<char>>
    decreases batches.len() - i,
{
    if i < 0 || i >= batches.len() {
        Ok(Seq::empty())
    } else {
        match rows_fault(batches[i]) {
            Some(m) => Err(m),
            None => match all_hits(batches, i + 1) {
                Ok(rest) => Ok(hits_of(batches[i]) + rest),
                Err(m) => Err(m),
            },
        }
    }
}

/// The first hit of the batches from `i` on, or what is said of a batch before
/// it that is not as needed.
pub open spec fn first_hit(batches: Seq<RowsView>, i: int) -> Result<Option<HitView>, Seq<char>>
    decreases batches.len() - i,
{
    if i < 0 || i >= batches.len() {
        Ok(None)
    } else {
        match rows_fault(batches[i]) {
            Some(m) => Err(m),
            None => if batches[i].rows > 0 {
                Ok(Some(hit_at(batches[i], 0)))
            } else {
                first_hit(batches, i + 1)
            },
        }
    }
}

/// The hits of all batches.
pub fn batches_to_hits(batches: &Vec<RowColumns>) -> (r: Result<Vec<SearchHit>, String>)
    requires
        forall|i: int| 0 <= i < batches@.len() ==> rows_valid(#[trigger] batches@[i].deep_view()),
    ensures
        match r {
            Ok(hits) => all_hits(batches.deep_view(), 0) == Ok::<Seq<HitView>, Seq<char>>(
                hits.deep_view(),
            ),
            Err(m) => all_hits(batches.deep_view(), 0) == Err::<Seq<HitView>, Seq<char>>(m@),
        },
{
    let ghost all = batches.deep_view();
    let mut out: Vec<SearchHit> = Vec::new();
    assert(out.deep_view() =~= Seq::empty());
    assert(all_hits(all, 0) matches Ok(h) ==> Seq::empty() + h =~= h);
    for i in 0..batches.len()
        invariant
            all == batches.deep_view(),
            forall|i: int|
                0 <= i < batches@.len() ==> rows_valid(#[trigger] batches@[i].deep_view()),
            all_hits(all, 0) == (match all_hits(all, i as int) {
                Ok(rest) => Ok::<Seq<HitView>, Seq<char>>(out.deep_view() + rest),
                Err(m) => Err(m),
            }),
    {
        assert(all[i as int] == batches@[i as int].deep_view());
        match batch_to_hits(&batches[i]) {
            Ok(hits) => {
                let ghost before = out.deep_view();
                let ghost more = hits.deep_view();
                let mut hits = hits;
                out.append(&mut hits);
                assert(out.deep_view() =~= before + more);
                assert(all_hits(all, i + 1) matches Ok(rest) ==> before + (more + rest) =~= (
                before + more) + rest);
            },
            Err(m) => {
                return Err(m);
            },
        }
    }
    assert(out.deep_view() + Seq::<HitView>::empty() =~= out.deep_view());
    Ok(out)
}

/// The records of hits.
pub open spec fn chunks_of(hits: Seq<HitView>) -> Seq<ChunkView> {
    hits.map_values(|h: HitView| h.chunk)
}

/// The records of all batches.
pub fn batches_to_chunks(batches: &Vec<RowColumns>) -> (r: Result<Vec<Chunk>, String>)
    requires
        forall|i: int| 0 <= i < batches@.len() ==> rows_valid(#[trigger] batches@[i].deep_view()),
    ensures
        match r {
            Ok(chunks) => all_hits(batches.deep_view(), 0) matches Ok(hits) && chunks.deep_view()
                == chunks_of(hits),
            Err(m) => all_hits(batches.deep_view(), 0) == Err::<Seq<HitView>, Seq<char>>(m@),
        },
{
    let hits = batches_to_hits(batches)?;
    let ghost all = hits.deep_view();
    let mut out: Vec<Chunk> = Vec::new();
    assert(out.deep_view() =~= chunks_of(all.take(0)));
    for i in 0..hits.len()
        invariant
            all == hits.deep_view(),
            out.deep_view() == chunks_of(all.take(i as int)),
    {
        let c = hits[i].chunk.clone();
        let ghost before = out.deep_view();
        out.push(c);
        assert(out.deep_view() =~= before.push(c.deep_view()));
        assert(out.deep_view() =~= chunks_of(all.take(i + 1)));
    }
    assert(all.take(hits.len() as int) =~= all);
    Ok(out)
}

/// The record of the first hit.
pub fn first_chunk(batches: &Vec<RowColumns>) -> (r: Result<Option<Chunk>, String>)
    requires
        forall|i: int| 0 <= i < batches@.len() ==> rows_valid(#[trigger] batches@[i].deep_view()),
    ensures
        match r {
            Ok(c) => first_hit(batches.deep_view(), 0) matches Ok(h) && c.deep_view() == (match h {
                Some(h) => Some(h.chunk),
                None => None,
            }),
            Err(m) => first_hit(batches.deep_view(), 0) == Err::<Option<HitView>, Seq<char>>(m@),
        },
{
    let ghost all = batches.deep_view();
    for i in 0..batches.len()
        invariant
            all == batches.deep_view(),
            forall|i: int|
                0 <= i < batches@.len() ==> rows_valid(#[trigger] batches@[i].deep_view()),
            first_hit(all, 0) == first_hit(all, i as int),
    {
        assert(all[i as int] == batches@[i as int].deep_view());
        match batch_to_hits(&batches[i]) {
            Ok(hits) => {
                assert(hits.deep_view().len() == all[i as int].rows);
                if hits.len() > 0 {
                    assert(hits.deep_view()[0] == hits@[0].deep_view());
                    return Ok(Some(hits[0].chunk.clone()));
                }
            },
            Err(m) => {
                return Err(m);
            },
        }
    }
    Ok(None)
}

// ---------------------------------------------------------------------------
// Laws

/// The rows that written columns give when they are read as they were written.
pub open spec fn as_rows(t: ColumnsView) -> RowsView {
    RowsView {
        rows: t.id.len() as int,
        id: ColumnView::Values(t.id),
        source_type: ColumnView::Values(t.source_type),
        source_id: ColumnView::Values(t.source_id),
        title: ColumnView::Values(t.title),
        url: ColumnView::Values(t.url),
        space_or_project: ColumnView::Values(t.space_or_project),
        author: Some(t.author.map_values(|a: Seq<char>| Some(a))),
        created_at: ColumnView::Values(t.created_at),
        updated_at: ColumnView::Values(t.updated_at),
        text: ColumnView::Values(t.text),
        distance: None,
        labels: Some(t.labels),
    }
}

/// Records written to columns and read back are the same records, without
/// their vectors.
pub proof fn law_columns_read_back(chunks: Seq<ChunkView>)
    ensures
        rows_valid(as_rows(columns_of(chunks))),
        rows_fault(as_rows(columns_of(chunks))) is None,
        hits_of(as_rows(columns_of(chunks))).len() == chunks.len(),
        forall|i: int|
            0 <= i < chunks.len() ==> #[trigger] hits_of(as_rows(columns_of(chunks)))[i].chunk == (
            ChunkView { vector: Seq::empty(), ..chunks[i] }),
    decreases chunks.len(),
{
    if chunks.len() > 0 {
        let prev = chunks.drop_last();
        law_columns_read_back(prev);
        let r = as_rows(columns_of(chunks));
        let q = as_rows(columns_of(prev));
        assert forall|i: int| 0 <= i < chunks.len() implies #[trigger] hits_of(r)[i].chunk == (
        ChunkView { vector: Seq::empty(), ..chunks[i] }) by {
            if i < prev.len() {
                assert(hits_of(q)[i].chunk == hit_at(q, i).chunk);
                assert(hit_at(r, i).chunk == hit_at(q, i).chunk);
            }
        }
    }
}

/// The column of vectors has `dim` components for each record, where all
/// vectors are of that dimension.
pub proof fn law_vectors_fill_their_column(chunks: Seq<ChunkView>, dim: nat)
    requires
        forall|i: int| 0 <= i < chunks.len() ==> (#[trigger] chunks[i]).vector.len() == dim,
    ensures
        columns_of(chunks).vector.len() == chunks.len() * dim,
        forall|i: int|
            0 <= i < chunks.len() ==> columns_of(chunks).vector.subrange(i * dim, i * dim + dim)
                == #[trigger] chunks[i].vector,
    decreases chunks.len(),
{
    if chunks.len() > 0 {
        let prev = chunks.drop_last();
        let n = prev.len();
        assert forall|i: int| 0 <= i < prev.len() implies (#[trigger] prev[i]).vector.len()
            == dim by {
            assert(prev[i] == chunks[i]);
        }
        law_vectors_fill_their_column(prev, dim);
        let p = columns_of(prev).vector;
        let v = columns_of(chunks).vector;
        assert((n + 1) * dim == n * dim + dim) by (nonlinear_arith);
        assert forall|i: int| 0 <= i < chunks.len() implies v.subrange(i * dim, i * dim + dim)
            == #[trigger] chunks[i].vector by {
            assert(0 <= i * dim) by (nonlinear_arith)
                requires
                    0 <= i,
            ;
            if i < n {
                assert(i * dim + dim <= n * dim) by (nonlinear_arith)
                    requires
                        0 <= i < n,
                ;
                assert(v.subrange(i * dim, i * dim + dim) =~= p.subrange(
                    i * dim,
                    i * dim + dim,
                ));
                assert(prev[i] == chunks[i]);
            } else {
                assert(v.subrange(i * dim, i * dim + dim) =~= chunks[i].vector);
            }
        }
    }
}

} // verus!
