use meliclaw_intent_router::index::postgres::{
    clear_sql, delete_route_sql, fetch_k, insert_sql, query_sql, schema_sql, select_rows,
    utterances_sql, validate_ident,
};
use meliclaw_intent_router::index::qdrant::check_status;
use meliclaw_intent_router::schema::{SparseEmbedding, UtteranceRecord};
use meliclaw_intent_router::{Error, HybridLocalIndex, LocalIndex, QdrantIndex};
use std::collections::BTreeMap;
use std::hash::{Hash, Hasher};

fn record(route: &str, utterance: &str, width: usize, sparse: bool) -> UtteranceRecord<f32> {
    UtteranceRecord {
        route: route.to_string(),
        utterance: utterance.to_string(),
        embedding: vec![0.5; width],
        sparse: if sparse {
            Some(SparseEmbedding { indices: vec![1], values: vec![1.0] })
        } else {
            None
        },
        metadata: BTreeMap::new(),
        function_schemas: None,
    }
}

#[test]
fn ident_allows_table_names() {
    assert!(validate_ident("routes").is_ok());
    assert!(validate_ident("intent_routes").is_ok());
}

#[test]
fn ident_rejects_injection() {
    assert!(validate_ident("routes; DROP TABLE x").is_err());
    assert!(validate_ident("").is_err());
    assert!(validate_ident("1routes").is_err());
}

#[test]
fn ident_error_names_the_identifier() {
    let err = validate_ident("a-b").unwrap_err();
    assert_eq!(err.message(), "database: invalid SQL identifier: a-b");
    assert_eq!(validate_ident("_x9").unwrap(), "_x9");
}

#[test]
fn statements_splice_the_table() {
    assert_eq!(delete_route_sql("routes").unwrap(), "DELETE FROM routes WHERE route = $1");
    assert_eq!(utterances_sql("routes").unwrap(), "SELECT route, utterance FROM routes");
    assert_eq!(clear_sql("routes").unwrap(), "TRUNCATE routes");
    assert!(insert_sql("routes").unwrap().starts_with("INSERT INTO routes (route, utterance"));
    assert!(query_sql("routes").unwrap().contains("FROM routes ORDER BY embedding <=> $1::vector LIMIT $2"));
    assert!(clear_sql("x y").is_err());
}

#[test]
fn schema_checks_dimensions() {
    let q = schema_sql("routes", 768).unwrap();
    assert!(q.contains("embedding vector(768)"), "{q}");
    assert!(q.contains("CREATE INDEX IF NOT EXISTS routes_route_idx ON routes(route);"), "{q}");
    let err = schema_sql("routes", 0).unwrap_err();
    assert_eq!(err.message(), "database: invalid embedding dimensions");
    assert!(schema_sql("routes", 16001).is_err());
    assert!(schema_sql("routes", 16000).is_ok());
}

#[test]
fn fetch_widens_when_filtered() {
    assert_eq!(fetch_k(5, false), 5);
    assert_eq!(fetch_k(5, true), 100);
    assert_eq!(fetch_k(0, true), 0);
}

#[test]
fn select_rows_filters_and_caps() {
    let routes: Vec<String> = ["a", "b", "a", "c", "a"].iter().map(|s| s.to_string()).collect();
    let filter = vec!["a".to_string()];
    assert_eq!(select_rows(&routes, Some(filter.as_slice()), 2), vec![0, 2]);
    assert_eq!(select_rows(&routes, None, 3), vec![0, 1, 2]);
    assert_eq!(select_rows(&routes, None, 0), vec![0]);
    let none = vec!["z".to_string()];
    assert!(select_rows(&routes, Some(none.as_slice()), 3).is_empty());
}

#[test]
fn qdrant_urls_and_status() {
    let q = QdrantIndex::new("http://localhost:6333//", "intents", 384);
    assert_eq!(q.base(), "http://localhost:6333");
    assert_eq!(q.collection_url(), "http://localhost:6333/collections/intents");
    assert_eq!(q.points_url(), "http://localhost:6333/collections/intents/points?wait=true");
    assert_eq!(q.search_url(), "http://localhost:6333/collections/intents/points/search");
    assert_eq!(q.delete_url(), "http://localhost:6333/collections/intents/points/delete?wait=true");
    assert_eq!(q.dimensions(), 384);
    assert_eq!(q.index_type(), "qdrant");
    assert!(q.is_ready());
    assert_eq!(q.len(), 0);
    assert!(q.get_utterances(true).is_empty());
    assert!(q.ensure_collection(200, "200 OK").is_ok());
    assert!(q.ensure_collection(409, "409 Conflict").is_ok());
    let err = q.ensure_collection(500, "500 Internal Server Error").unwrap_err();
    assert_eq!(err.message(), "http: qdrant create collection: 500 Internal Server Error");
    assert!(check_status("search", 409, "409 Conflict", false).is_err());
    assert!(check_status("search", 204, "204 No Content", false).is_ok());
}

#[test]
fn local_index_add_delete_clear() {
    let mut idx: LocalIndex<f32> = LocalIndex::new();
    assert!(!idx.is_ready());
    assert!(idx.is_empty());
    idx.add(vec![record("a", "hello", 4, false), record("b", "bye", 4, false), record("a", "hi", 4, false)]);
    assert_eq!(idx.len(), 3);
    let us = idx.get_utterances(false);
    assert_eq!(us.len(), 3);
    assert_eq!(us[2].to_str(false), "a: hi");
    idx.delete_route("a");
    assert_eq!(idx.len(), 1);
    assert_eq!(idx.records()[0].route, "b");
    idx.clear();
    assert!(idx.is_empty());
}

#[test]
fn local_index_query_checks() {
    let mut idx: LocalIndex<f32> = LocalIndex::new();
    let err = idx.query_candidates(4, None).unwrap_err();
    assert!(matches!(err, Error::IndexNotReady));
    idx.add(vec![record("a", "hello", 4, false), record("b", "bye", 4, false), record("a", "hi", 4, false)]);
    assert_eq!(idx.query_candidates(4, None).unwrap(), vec![0, 1, 2]);
    let f = vec!["a".to_string()];
    assert_eq!(idx.query_candidates(4, Some(f.as_slice())).unwrap(), vec![0, 2]);
    assert_eq!(idx.routes_at(&[0, 2]), vec!["a".to_string(), "a".to_string()]);
    let g = vec!["zzz".to_string()];
    assert!(matches!(idx.query_candidates(4, Some(g.as_slice())).unwrap_err(), Error::EmptyFilter));
    assert!(idx.query_candidates(3, None).is_err());
}

#[test]
fn hybrid_index_needs_sparse_vectors() {
    let mut idx: HybridLocalIndex<f32> = HybridLocalIndex::new();
    let err = idx.add(vec![record("a", "x", 2, false)]).unwrap_err();
    assert!(matches!(err, Error::MissingSparse));
    assert!(idx.is_empty());
    idx.add(vec![record("a", "x", 2, true)]).unwrap();
    assert_eq!(idx.len(), 1);
    let f = vec!["a".to_string()];
    assert!(matches!(idx.query_gate(Some(f.as_slice()), None).unwrap_err(), Error::HybridRouteFilter));
}

#[test]
fn qdrant_point_ids_follow_route_and_utterance() {
    let expect = |route: &str, utterance: &str| {
        let mut h = std::collections::hash_map::DefaultHasher::new();
        route.to_string().hash(&mut h);
        utterance.to_string().hash(&mut h);
        h.finish()
    };
    let recs = vec![record("a", "hi", 2, false), record("b", "hi", 2, false), record("a", "hi", 3, true)];
    let ids = QdrantIndex::point_ids(&recs);
    assert_eq!(ids.len(), 3);
    assert_eq!(ids[0], expect("a", "hi"));
    assert_eq!(ids[1], expect("b", "hi"));
    assert_ne!(ids[0], ids[1]);
    assert_eq!(ids[0], ids[2]);
    assert!(QdrantIndex::point_ids::<f32>(&[]).is_empty());
}
