//! Records of the vector database.
//!
//! Vectors and scores are single-precision numbers, held by their bit
//! patterns.
pub mod columns;
pub mod expr;
pub mod laws;
pub mod memory;

pub use columns::{batch_to_hits, chunks_to_batch};
pub use expr::{build_filter_expr, escape_sql};
pub use memory::InMemoryStore;
use vstd::prelude::*;

verus! {

/// The name of the table of chunks.
pub const TABLE_NAME: &'static str = "chunks";

/// The number of rows from which on a vector index is worth having.
pub const MIN_INDEXED_ROWS: usize = 256;

/// A record of the database.
#[derive(Debug)]
pub struct Chunk {
    pub id: String,
    /// `jira` or `confluence`.
    pub source_type: String,
    /// The key of the issue or the id of the page.
    pub source_id: String,
    pub title: String,
    pub url: String,
    pub space_or_project: String,
    pub author: String,
    pub created_at: i64,
    pub updated_at: i64,
    pub labels: Vec<String>,
    pub text: String,
    /// The bit patterns of the components.
    pub vector: Vec<u32>,
}

/// The model of a record.
pub struct ChunkView {
    pub id: Seq<char>,
    pub source_type: Seq<char>,
    pub source_id: Seq<char>,
    pub title: Seq<char>,
    pub url: Seq<char>,
    pub space_or_project: Seq<char>,
    pub author: Seq<char>,
    pub created_at: i64,
    pub updated_at: i64,
    pub labels: Seq<Seq<char>>,
    pub text: Seq<char>,
    pub vector: Seq<u32>,
}

impl DeepView for Chunk {
    type V = ChunkView;

    open spec fn deep_view(&self) -> ChunkView {
        ChunkView {
            id: self.id@,
            source_type: self.source_type@,
            source_id: self.source_id@,
            title: self.title@,
            url: self.url@,
            space_or_project: self.space_or_project@,
            author: self.author@,
            created_at: self.created_at,
            updated_at: self.updated_at,
            labels: self.labels.deep_view(),
            text: self.text@,
            vector: self.vector@,
        }
    }
}

impl Clone for Chunk {
    fn clone(&self) -> (r: Self)
        ensures
            r.deep_view() == self.deep_view(),
    {
        let r = Chunk {
            id: self.id.clone(),
            source_type: self.source_type.clone(),
            source_id: self.source_id.clone(),
            title: self.title.clone(),
            url: self.url.clone(),
            space_or_project: self.space_or_project.clone(),
            author: self.author.clone(),
            created_at: self.created_at,
            updated_at: self.updated_at,
            labels: self.labels.clone(),
            text: self.text.clone(),
            vector: self.vector.clone(),
        };
        assert(r.labels.deep_view() =~= self.labels.deep_view());
        assert(r.vector@ =~= self.vector@);
        r
    }
}

/// A record that a search found.
#[derive(Debug)]
pub struct SearchHit {
    pub chunk: Chunk,
    /// The bit pattern of the score.
    pub score: u32,
}

/// The model of a record that a search found.
pub struct HitView {
    pub chunk: ChunkView,
    pub score: u32,
}

impl DeepView for SearchHit {
    type V = HitView;

    open spec fn deep_view(&self) -> HitView {
        HitView { chunk: self.chunk.deep_view(), score: self.score }
    }
}

impl Clone for SearchHit {
    fn clone(&self) -> (r: Self)
        ensures
            r.deep_view() == self.deep_view(),
    {
        SearchHit { chunk: self.chunk.clone(), score: self.score }
    }
}

/// What a search is restricted to.
#[derive(Debug)]
pub struct SearchFilter {
    pub source_type: Option<String>,
    pub project_or_space: Option<String>,
}

/// The model of what a search is restricted to.
pub struct FilterView {
    pub source_type: Option<Seq<char>>,
    pub project_or_space: Option<Seq<char>>,
}

impl DeepView for SearchFilter {
    type V = FilterView;

    open spec fn deep_view(&self) -> FilterView {
        FilterView {
            source_type: self.source_type.deep_view(),
            project_or_space: self.project_or_space.deep_view(),
        }
    }
}

impl Clone for SearchFilter {
    fn clone(&self) -> (r: Self)
        ensures
            r.deep_view() == self.deep_view(),
    {
        SearchFilter {
            source_type: self.source_type.clone(),
            project_or_space: self.project_or_space.clone(),
        }
    }
}

impl Default for SearchFilter {
    fn default() -> (r: Self)
        ensures
            r.deep_view() == (FilterView { source_type: None, project_or_space: None }),
    {
        SearchFilter { source_type: None, project_or_space: None }
    }
}

// ---------------------------------------------------------------------------
// Decisions on the table

/// What opening the database does with the table.
#[derive(Debug, Clone, Copy, PartialEq, Eq, Structural)]
pub enum TableAction {
    /// There is no table: create one.
    Create,
    /// The table holds vectors of another dimension: drop it and create one.
    Recreate,
    /// The table stays.
    Keep,
}

/// What opening the database does with the table. `stored_dim` is the
/// dimension of the vectors in it, where it has a column of vectors.
pub fn table_action(exists: bool, stored_dim: Option<usize>, dim: usize) -> (r: TableAction)
    ensures
        r == (if !exists {
            TableAction::Create
        } else if stored_dim == Some(dim) {
            TableAction::Keep
        } else {
            TableAction::Recreate
        }),
{
    if !exists {
        return TableAction::Create;
    }
    match stored_dim {
        Some(d) => if d == dim {
            TableAction::Keep
        } else {
            TableAction::Recreate
        },
        None => TableAction::Recreate,
    }
}

/// Whether a table of this many rows gets a vector index; a table that could
/// not be counted counts as empty.
pub fn wants_vector_index(rows: Option<usize>, min_rows: usize) -> (r: bool)
    ensures
        r == ((match rows {
            Some(n) => n as int,
            None => 0,
        }) >= min_rows),
{
    match rows {
        Some(n) => n >= min_rows,
        None => min_rows == 0,
    }
}

} // verus!
