use meliclaw_intent_router::schema::space_tag;
use meliclaw_intent_router::sync::diff_and_plan;
use meliclaw_intent_router::{memory_intent_routes, Error, Route, RouteChoice, SparseEmbedding, SyncMode, Utterance};

fn u(route: &str, text: &str) -> Utterance {
    Utterance::new(route, text)
}

fn keys(v: &[Utterance]) -> Vec<String> {
    v.iter().map(|x| x.to_str(false)).collect()
}

#[test]
fn local_pushes_missing_remote() {
    let local = vec![Utterance::new("a", "hello")];
    let remote = vec![];
    let plan = diff_and_plan(&local, &remote, SyncMode::Local).unwrap();
    assert_eq!(plan.remote_upsert.len(), 1);
    assert!(plan.remote_delete.is_empty());
}

#[test]
fn error_on_drift() {
    let local = vec![Utterance::new("a", "hello")];
    let remote = vec![];
    assert!(diff_and_plan(&local, &remote, SyncMode::Error).is_err());
}

#[test]
fn error_mode_accepts_equal_sides() {
    let local = vec![u("a", "x"), u("b", "y")];
    let remote = vec![u("b", "y"), u("a", "x")];
    let plan = diff_and_plan(&local, &remote, SyncMode::Error).unwrap();
    assert!(plan.remote_upsert.is_empty() && plan.remote_delete.is_empty());
    assert!(plan.local_upsert.is_empty() && plan.local_delete.is_empty());
    let err = diff_and_plan(&local, &vec![u("a", "x")], SyncMode::Error).unwrap_err();
    assert!(matches!(err, Error::SyncConflict));
    assert_eq!(err.message(), "sync error: local and remote utterances differ");
}

#[test]
fn each_mode_plans_its_side() {
    let local = vec![u("a", "x"), u("a", "only-local")];
    let remote = vec![u("a", "x"), u("b", "only-remote")];
    let p = diff_and_plan(&local, &remote, SyncMode::Remote).unwrap();
    assert_eq!(keys(&p.local_upsert), vec!["b: only-remote"]);
    assert_eq!(keys(&p.local_delete), vec!["a: only-local"]);
    assert!(p.remote_upsert.is_empty() && p.remote_delete.is_empty());
    let p = diff_and_plan(&local, &remote, SyncMode::Merge).unwrap();
    assert_eq!(keys(&p.remote_upsert), vec!["a: only-local"]);
    assert_eq!(keys(&p.local_upsert), vec!["b: only-remote"]);
    assert!(p.remote_delete.is_empty() && p.local_delete.is_empty());
    let p = diff_and_plan(&local, &remote, SyncMode::MergeForceLocal).unwrap();
    assert_eq!(keys(&p.remote_upsert), vec!["a: only-local"]);
    assert_eq!(keys(&p.remote_delete), vec!["b: only-remote"]);
    let p = diff_and_plan(&local, &remote, SyncMode::MergeForceRemote).unwrap();
    assert_eq!(keys(&p.local_upsert), vec!["b: only-remote"]);
    assert_eq!(keys(&p.local_delete), vec!["a: only-local"]);
}

#[test]
fn plan_lists_follow_key_order() {
    let local = vec![u("z", "1"), u("b", "2"), u("z", "1"), u("a", "3")];
    let p = diff_and_plan(&local, &vec![], SyncMode::Local).unwrap();
    assert_eq!(keys(&p.remote_upsert), vec!["a: 3", "b: 2", "z: 1", "z: 1"]);
}

#[test]
fn sync_mode_names_round_trip() {
    for m in [
        SyncMode::Error,
        SyncMode::Remote,
        SyncMode::Local,
        SyncMode::MergeForceRemote,
        SyncMode::MergeForceLocal,
        SyncMode::Merge,
    ] {
        assert_eq!(SyncMode::parse(m.as_str()), Some(m));
    }
    assert_eq!(SyncMode::MergeForceLocal.as_str(), "merge-force-local");
    assert_eq!(SyncMode::parse("Merge"), None);
}

#[test]
fn utterance_defaults_and_text() {
    let x = Utterance::new("factual", "NIF de");
    assert_eq!(x.diff_tag, " ");
    assert_eq!(space_tag(), " ");
    assert!(x.function_schemas.is_none());
    assert!(x.metadata.is_empty());
    assert_eq!(x.to_str(false), "factual: NIF de");
    assert_eq!(x.to_str(true), "factual: NIF de | None | {}");
}

#[test]
fn route_choice_shapes() {
    let e: RouteChoice<f32> = RouteChoice::empty();
    assert!(e.name.is_none() && e.similarity_score.is_none());
    let n = RouteChoice::named("factual", 0.75f32);
    assert_eq!(n.name.as_deref(), Some("factual"));
    assert_eq!(n.similarity_score, Some(0.75));
    let d: RouteChoice<f32> = RouteChoice::default();
    assert!(d.name.is_none());
}

#[test]
fn route_builders() {
    let r: Route<f32> = Route::new("factual", vec!["NIF de", "CIF de"]);
    assert_eq!(r.name, "factual");
    assert_eq!(r.utterances, vec!["NIF de".to_string(), "CIF de".to_string()]);
    assert!(r.score_threshold.is_none() && r.description.is_none());
    let r = r.with_threshold(0.5).with_description("facts");
    assert_eq!(r.score_threshold, Some(0.5));
    assert_eq!(r.description.as_deref(), Some("facts"));
    let c = r.to_choice(0.9);
    assert_eq!(c.name.as_deref(), Some("factual"));
    assert_eq!(c.similarity_score, Some(0.9));
}

#[test]
fn memory_routes_table() {
    let routes: Vec<Route<f32>> = memory_intent_routes();
    assert!(!routes.is_empty());
    let names: Vec<&str> = routes.iter().map(|r| r.name.as_str()).collect();
    assert!(names.contains(&"factual"), "{names:?}");
    for r in &routes {
        assert!(!r.utterances.is_empty());
        assert!(r.score_threshold.is_none());
    }
}

#[test]
fn utterance_text_with_schemas_and_metadata() {
    let mut x = Utterance::new("r", "u");
    let schema: serde_json::Value = serde_json::from_str("{\"a\":1}").unwrap();
    x.function_schemas = Some(vec![schema]);
    x.metadata.insert("k".to_string(), serde_json::Value::Bool(true));
    assert_eq!(x.to_str(true), "r: u | Some(\"[{\\\"a\\\":1}]\") | {\"k\":true}");
    let y = x.duplicate();
    assert_eq!(y.to_str(true), x.to_str(true));
    assert_eq!(y.metadata, x.metadata);
    assert_eq!(y.function_schemas, x.function_schemas);
}

#[test]
fn io_error_message() {
    let e: Error = std::io::Error::new(std::io::ErrorKind::Other, "boom").into();
    assert_eq!(e.message(), "io: boom");
    assert_eq!(Error::msg("plain").message(), "plain");
    assert_eq!(Error::EncoderNotFitted.message(), "encoder not fitted");
    let d = Error::DimensionMismatch { model: "m".to_string(), expected: 10, got: 0 };
    assert_eq!(d.message(), "embedding dimension mismatch for m: expected 10, got 0");
}

#[test]
fn every_error_message() {
    assert_eq!(Error::MissingQuery.message(), "either text or vector must be provided");
    assert_eq!(Error::Json("bad".to_string()).message(), "json: bad");
    assert_eq!(Error::Yaml("bad".to_string()).message(), "yaml: bad");
    assert_eq!(Error::HybridRouteFilter.message(), "route filter is not supported for HybridLocalIndex");
    assert_eq!(Error::MissingSparse.message(), "sparse vector required for hybrid index");
    assert_eq!(Error::EmptyFilter.message(), "no routes matched the filter");
    assert_eq!(Error::Onnx("x".to_string()).message(), "onnx: x");
    assert_eq!(Error::Database("x".to_string()).message(), "database: x");
    let cli: meliclaw_intent_router::cli::CliError = std::io::Error::new(std::io::ErrorKind::Other, "gone").into();
    assert_eq!(cli.message(), "io: gone");
    let cli: meliclaw_intent_router::cli::CliError = Error::SyncConflict.into();
    assert_eq!(cli.message(), "sync error: local and remote utterances differ");
}

#[test]
fn sparse_to_map_keeps_last_value() {
    let s = SparseEmbedding { indices: vec![3u32, 1, 3, 7], values: vec![0.5f32, 0.25, 0.75] };
    let m = s.to_map();
    assert_eq!(m.len(), 2);
    assert_eq!(m.get(&3), Some(&0.75));
    assert_eq!(m.get(&1), Some(&0.25));
    assert_eq!(m.get(&7), None);
}
