use jira_ai::vectordb::columns::{
    batches_to_chunks, batches_to_hits, first_chunk, Column, RowColumns,
};
use jira_ai::vectordb::expr::{id_expr, source_expr};
use jira_ai::vectordb::memory::rank_hits;
use jira_ai::vectordb::{
    batch_to_hits, build_filter_expr, chunks_to_batch, escape_sql, table_action,
    wants_vector_index, Chunk, InMemoryStore, SearchFilter, SearchHit, TableAction,
    MIN_INDEXED_ROWS, TABLE_NAME,
};

fn mk_chunk(id: &str, source_type: &str, project: &str, vector: Vec<f32>) -> Chunk {
    Chunk {
        id: id.to_owned(),
        source_type: source_type.to_owned(),
        source_id: id.to_owned(),
        title: format!("title-{id}"),
        url: format!("https://example.com/{id}"),
        space_or_project: project.to_owned(),
        author: String::new(),
        created_at: 0,
        updated_at: 0,
        labels: vec![],
        text: format!("body-{id}"),
        vector: vector.into_iter().map(f32::to_bits).collect(),
    }
}

fn cosine(a: &[f32], b: &[f32]) -> f32 {
    let mut dot = 0.0_f32;
    let mut na = 0.0_f32;
    let mut nb = 0.0_f32;
    for i in 0..a.len().min(b.len()) {
        dot += a[i] * b[i];
        na += a[i] * a[i];
        nb += b[i] * b[i];
    }
    if na == 0.0 || nb == 0.0 {
        return 0.0;
    }
    dot / (na.sqrt() * nb.sqrt())
}

fn scores(store: &InMemoryStore, query: &[f32]) -> Vec<u32> {
    store
        .chunks()
        .iter()
        .map(|c| {
            let v: Vec<f32> = c.vector.iter().map(|b| f32::from_bits(*b)).collect();
            cosine(&v, query).to_bits()
        })
        .collect()
}

#[test]
fn escape_sql_doubles_single_quotes() {
    assert_eq!(escape_sql("O'Reilly"), "O''Reilly");
    assert_eq!(escape_sql("''"), "''''");
}

#[test]
fn escape_sql_handles_backslash() {
    assert_eq!(escape_sql("a\\b"), "a\\\\b");
}

#[test]
fn escape_sql_strips_control_chars() {
    assert_eq!(escape_sql("a\0b\rc\nd"), "abcd");
    assert_eq!(escape_sql("a\x01b\x02"), "ab");
}

#[test]
fn escape_sql_passthrough_normal() {
    assert_eq!(escape_sql("Hello World 日本語"), "Hello World 日本語");
}

#[test]
fn filter_expressions() {
    assert_eq!(build_filter_expr(&SearchFilter::default()), None);
    let one = SearchFilter { source_type: Some("ji'ra".to_owned()), project_or_space: None };
    assert_eq!(build_filter_expr(&one).as_deref(), Some("source_type = 'ji''ra'"));
    let two = SearchFilter {
        source_type: Some("jira".to_owned()),
        project_or_space: Some("P".to_owned()),
    };
    assert_eq!(
        build_filter_expr(&two).as_deref(),
        Some("source_type = 'jira' AND space_or_project = 'P'")
    );
    assert_eq!(source_expr("jira"), "source_type = 'jira'");
    assert_eq!(id_expr("a'b"), "id = 'a''b'");
}

#[test]
fn inmem_upsert_and_search_with_filter() {
    let mut store = InMemoryStore::new();
    let chunks = vec![
        mk_chunk("j1", "jira", "PROJ", vec![1.0, 0.0]),
        mk_chunk("c1", "confluence", "DOCS", vec![0.0, 1.0]),
        mk_chunk("j2", "jira", "PROJ", vec![0.9, 0.1]),
    ];
    store.upsert(chunks);

    let hits = store.search(
        &scores(&store, &[1.0, 0.0]),
        10,
        &SearchFilter {
            source_type: Some("jira".into()),
            project_or_space: None,
        },
    );
    assert_eq!(hits.len(), 2);
    assert!(hits.iter().all(|h| h.chunk.source_type == "jira"));
    assert_eq!(hits[0].chunk.id, "j1", "best match should be j1");
}

#[test]
fn scores_of_filtered_records_do_not_matter() {
    let mut store = InMemoryStore::new();
    store.upsert(vec![
        mk_chunk("j1", "jira", "PROJ", vec![1.0]),
        mk_chunk("c1", "confluence", "DOCS", vec![1.0]),
    ]);
    let only_jira = SearchFilter { source_type: Some("jira".into()), project_or_space: None };
    let hits = store.search(&vec![0.5f32.to_bits(), f32::NAN.to_bits()], 5, &only_jira);
    assert_eq!(hits.len(), 1);
    assert_eq!(hits[0].chunk.id, "j1");
}

#[test]
fn inmem_upsert_overwrites_by_id() {
    let mut store = InMemoryStore::new();
    store.upsert(vec![mk_chunk("x", "jira", "P", vec![1.0, 0.0])]);
    store.upsert(vec![mk_chunk("x", "jira", "P", vec![0.0, 1.0])]);
    let hits = store.search(&scores(&store, &[0.0, 1.0]), 5, &SearchFilter::default());
    assert_eq!(hits.len(), 1);
    assert!((f32::from_bits(hits[0].score) - 1.0).abs() < 1e-6);
}

#[test]
fn upsert_twice_is_once() {
    let chunks = vec![
        mk_chunk("a", "jira", "P", vec![1.0]),
        mk_chunk("b", "jira", "P", vec![2.0]),
        mk_chunk("a", "jira", "Q", vec![3.0]),
    ];
    let mut store = InMemoryStore::default();
    store.upsert(chunks.clone());
    let once: Vec<(String, String)> = store
        .chunks()
        .iter()
        .map(|c| (c.id.clone(), c.space_or_project.clone()))
        .collect();
    assert_eq!(once, vec![("a".into(), "Q".into()), ("b".into(), "P".into())]);
    store.upsert(chunks);
    let twice: Vec<(String, String)> = store
        .chunks()
        .iter()
        .map(|c| (c.id.clone(), c.space_or_project.clone()))
        .collect();
    assert_eq!(once, twice);
}

#[test]
fn search_keeps_top_k_in_order() {
    let mut store = InMemoryStore::new();
    store.upsert(vec![
        mk_chunk("a", "jira", "P", vec![]),
        mk_chunk("b", "jira", "Q", vec![]),
        mk_chunk("c", "jira", "P", vec![]),
        mk_chunk("d", "jira", "P", vec![]),
    ]);
    let bits: Vec<u32> = [-1.0_f32, 0.5, 0.0, -0.0].iter().map(|f| f.to_bits()).collect();
    let hits = store.search(&bits, 3, &SearchFilter::default());
    let ids: Vec<&str> = hits.iter().map(|h| h.chunk.id.as_str()).collect();
    assert_eq!(ids, vec!["b", "c", "d"]);
    let only_p = SearchFilter { source_type: None, project_or_space: Some("P".into()) };
    let hits = store.search(&bits, 10, &only_p);
    let ids: Vec<&str> = hits.iter().map(|h| h.chunk.id.as_str()).collect();
    assert_eq!(ids, vec!["c", "d", "a"]);
    assert!(store.search(&bits, 0, &only_p).is_empty());
}

#[test]
fn rank_orders_floats() {
    let values = [3.5_f32, -2.0, 0.25, f32::INFINITY, f32::NEG_INFINITY, -2.5, 1e-40];
    let hits: Vec<SearchHit> = values
        .iter()
        .map(|v| SearchHit { chunk: mk_chunk("x", "jira", "P", vec![]), score: v.to_bits() })
        .collect();
    let got: Vec<f32> = rank_hits(hits).iter().map(|h| f32::from_bits(h.score)).collect();
    assert_eq!(
        got,
        vec![f32::INFINITY, 3.5, 0.25, 1e-40, -2.0, -2.5, f32::NEG_INFINITY]
    );
}

#[test]
fn columns_check_the_dimension() {
    let chunks = vec![
        mk_chunk("a", "jira", "P", vec![1.0, 2.0]),
        mk_chunk("b", "jira", "P", vec![3.0]),
    ];
    assert_eq!(
        chunks_to_batch(2, &chunks).unwrap_err(),
        "vector dim mismatch: expected 2, got 1 for id=b"
    );
    let ok = chunks_to_batch(1, &vec![mk_chunk("b", "jira", "P", vec![3.0])]).unwrap();
    assert_eq!(ok.vector, vec![3.0_f32.to_bits()]);
    assert_eq!(ok.id, vec!["b"]);
}

fn rows(n: usize) -> RowColumns {
    let texts = |p: &str| Column::Values((0..n).map(|i| format!("{p}{i}")).collect::<Vec<_>>());
    RowColumns {
        rows: n,
        id: texts("id"),
        source_type: texts("st"),
        source_id: texts("si"),
        title: texts("ti"),
        url: texts("u"),
        space_or_project: texts("sp"),
        author: Some((0..n).map(|i| if i == 0 { None } else { Some("me".to_owned()) }).collect()),
        created_at: Column::Values((0..n as i64).collect()),
        updated_at: Column::Values((0..n as i64).map(|i| i * 10).collect()),
        text: texts("tx"),
        distance: Some((0..n).map(|i| if i == 0 { None } else { Some(0.5_f32.to_bits()) }).collect()),
        labels: Some((0..n).map(|i| vec![format!("l{i}")]).collect()),
    }
}

#[test]
fn rows_become_hits() {
    let hits = batch_to_hits(&rows(2)).unwrap();
    assert_eq!(hits.len(), 2);
    assert_eq!(hits[0].chunk.author, "");
    assert_eq!(hits[1].chunk.author, "me");
    assert_eq!(hits[1].chunk.id, "id1");
    assert_eq!(hits[1].chunk.updated_at, 10);
    assert_eq!(hits[1].chunk.labels, vec!["l1"]);
    assert!(hits[1].chunk.vector.is_empty());
    assert_eq!(f32::from_bits(hits[0].score), 0.0);
    assert_eq!(f32::from_bits(hits[1].score), -0.5);
    let mut bare = rows(1);
    bare.author = None;
    bare.labels = None;
    bare.distance = None;
    let hits = batch_to_hits(&bare).unwrap();
    assert_eq!(hits[0].chunk.author, "");
    assert!(hits[0].chunk.labels.is_empty());
    assert_eq!(hits[0].score, 0);
}

#[test]
fn faulty_columns_are_named() {
    let mut r = rows(1);
    r.title = Column::Missing;
    r.text = Column::OtherType;
    assert_eq!(batch_to_hits(&r).unwrap_err(), "missing col title");
    let mut r = rows(1);
    r.text = Column::OtherType;
    assert_eq!(batch_to_hits(&r).unwrap_err(), "col text not Utf8");
    let mut r = rows(1);
    r.created_at = Column::OtherType;
    assert_eq!(batch_to_hits(&r).unwrap_err(), "col created_at not Int64");
}

#[test]
fn batches_come_together() {
    let all = batches_to_hits(&vec![rows(2), rows(0), rows(1)]).unwrap();
    assert_eq!(all.len(), 3);
    let chunks = batches_to_chunks(&vec![rows(1), rows(1)]).unwrap();
    assert_eq!(chunks.len(), 2);
    let mut bad = rows(1);
    bad.id = Column::Missing;
    assert_eq!(batches_to_chunks(&vec![rows(1), bad]).unwrap_err(), "missing col id");
    let mut bad = rows(1);
    bad.id = Column::Missing;
    assert_eq!(first_chunk(&vec![rows(0), rows(1), bad]).unwrap().unwrap().id, "id0");
    assert!(first_chunk(&vec![rows(0)]).unwrap().is_none());
}

#[test]
fn table_decisions() {
    assert_eq!(table_action(false, None, 768), TableAction::Create);
    assert_eq!(table_action(true, Some(768), 768), TableAction::Keep);
    assert_eq!(table_action(true, Some(384), 768), TableAction::Recreate);
    assert_eq!(table_action(true, None, 768), TableAction::Recreate);
    assert!(!wants_vector_index(Some(255), MIN_INDEXED_ROWS));
    assert!(wants_vector_index(Some(256), MIN_INDEXED_ROWS));
    assert!(!wants_vector_index(None, MIN_INDEXED_ROWS));
    assert_eq!(TABLE_NAME, "chunks");
}
