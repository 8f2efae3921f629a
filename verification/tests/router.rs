use meliclaw_intent_router::router::pass::{group_hits, pass_routes, route_threshold};
use meliclaw_intent_router::router::table::RouteTable;
use meliclaw_intent_router::router::{assign_threshold, fill_default_thresholds, find_route, remove_routes_named, thresholds, utterance_pairs, QuerySource};
use meliclaw_intent_router::{Aggregation, Error, Route, RouteRequest};

fn routes() -> Vec<Route<f32>> {
    vec![
        Route::new("weather", vec!["what's the weather in london", "is it raining"]),
        Route::new("chitchat", vec!["how are you today"]).with_threshold(0.8),
        Route::new("weather", vec!["duplicate name"]),
    ]
}

#[test]
fn aggregation_names() {
    assert_eq!(Aggregation::parse("sum").unwrap(), Aggregation::Sum);
    assert_eq!(Aggregation::parse("mean").unwrap(), Aggregation::Mean);
    assert_eq!(Aggregation::parse("max").unwrap(), Aggregation::Max);
    let err = Aggregation::parse("median").unwrap_err();
    assert!(matches!(err, Error::BadAggregation(_)));
    assert_eq!(err.message(), "unsupported aggregation: median");
}

#[test]
fn route_request_for_text() {
    let r: RouteRequest<f32> = RouteRequest::text("hola");
    assert_eq!(r.text.as_deref(), Some("hola"));
    assert_eq!(r.limit, Some(1));
    assert!(r.vector.is_none() && r.route_filter.is_none() && !r.simulate_static);
}

#[test]
fn threshold_assignment() {
    let mut rs = routes();
    assign_threshold(&mut rs, 0.4, Some("weather"));
    assert_eq!(rs[0].score_threshold, Some(0.4));
    assert_eq!(rs[2].score_threshold, None);
    assign_threshold(&mut rs, 0.1, Some("nope"));
    assert_eq!(rs[1].score_threshold, Some(0.8));
    assign_threshold(&mut rs, 0.2, None);
    assert!(rs.iter().all(|r| r.score_threshold == Some(0.2)));
}

#[test]
fn thresholds_fall_back() {
    let rs = routes();
    let t = thresholds(&rs, Some(0.3), 0.0);
    assert_eq!(t, vec![("weather".to_string(), 0.3), ("chitchat".to_string(), 0.8), ("weather".to_string(), 0.3)]);
    let t = thresholds(&rs, None, 0.0);
    assert_eq!(t[0].1, 0.0);
    let mut rs = routes();
    fill_default_thresholds(&mut rs, Some(0.3));
    assert_eq!(rs[0].score_threshold, Some(0.3));
    assert_eq!(rs[1].score_threshold, Some(0.8));
}

#[test]
fn lookup_and_removal() {
    let mut rs = routes();
    assert_eq!(find_route(&rs, "weather"), Some(0));
    assert_eq!(find_route(&rs, "chitchat"), Some(1));
    assert_eq!(find_route(&rs, "other"), None);
    remove_routes_named(&mut rs, "weather");
    assert_eq!(rs.len(), 1);
    assert_eq!(rs[0].name, "chitchat");
}

#[test]
fn utterances_to_encode() {
    let rs = routes();
    let pairs = utterance_pairs(&rs);
    assert_eq!(pairs.len(), 4);
    assert_eq!(pairs[0], ("weather".to_string(), "what's the weather in london".to_string()));
    assert_eq!(pairs[2], ("chitchat".to_string(), "how are you today".to_string()));
    assert_eq!(pairs[3], ("weather".to_string(), "duplicate name".to_string()));
}

#[test]
fn hits_are_grouped_by_route() {
    let hits: Vec<String> = ["b", "a", "b", "c", "a"].iter().map(|s| s.to_string()).collect();
    let g = group_hits(&hits);
    assert_eq!(
        g,
        vec![
            ("b".to_string(), vec![0, 2]),
            ("a".to_string(), vec![1, 4]),
            ("c".to_string(), vec![3]),
        ]
    );
    assert!(group_hits(&[]).is_empty());
}

#[test]
fn thresholds_for_scored_routes() {
    let rs = routes();
    assert_eq!(route_threshold(&rs, Some(0.3), "chitchat"), Some(Some(0.8)));
    assert_eq!(route_threshold(&rs, Some(0.3), "weather"), Some(Some(0.3)));
    assert_eq!(route_threshold(&rs, None, "weather"), Some(None));
    assert_eq!(route_threshold(&rs, Some(0.3), "missing"), None);
}

#[test]
fn passing_routes_in_order_up_to_limit() {
    let rs = routes();
    let scored = vec![
        ("chitchat".to_string(), 0.9f32, true),
        ("unknown".to_string(), 0.8, true),
        ("weather".to_string(), 0.7, true),
    ];
    let all = pass_routes(&rs, Some(0.3), &scored, None);
    let names: Vec<_> = all.iter().map(|c| c.name.clone().unwrap()).collect();
    assert_eq!(names, vec!["chitchat", "weather"]);
    assert_eq!(all[1].similarity_score, Some(0.7));
    let one = pass_routes(&rs, Some(0.3), &scored, Some(1));
    assert_eq!(one.len(), 1);
    assert_eq!(one[0].name.as_deref(), Some("chitchat"));
    let mut missed = scored.clone();
    missed[0].2 = false;
    let second = pass_routes(&rs, Some(0.3), &missed, Some(1));
    assert_eq!(second[0].name.as_deref(), Some("weather"));
}

#[test]
fn empty_choice_when_nothing_passes() {
    let rs = routes();
    let scored = vec![("chitchat".to_string(), 0.1f32, false), ("weather".to_string(), 0.1, false)];
    let out = pass_routes(&rs, Some(0.3), &scored, Some(1));
    assert_eq!(out.len(), 1);
    assert!(out[0].name.is_none());
    assert!(out[0].similarity_score.is_none());
    let none = pass_routes(&rs, None, &[], None);
    assert_eq!(none.len(), 1);
    assert!(none[0].name.is_none());
}

#[test]
fn no_threshold_means_pass() {
    let rs: Vec<Route<f32>> = vec![Route::new("x", vec!["a"])];
    let out = pass_routes(&rs, None, &[("x".to_string(), -1.0, false)], None);
    assert_eq!(out[0].name.as_deref(), Some("x"));
}

#[test]
fn route_table_thresholds_read_back() {
    let mut t: RouteTable<f32> = RouteTable::new(Some(0.3));
    let filled = t.with_defaults(routes());
    assert_eq!(filled[0].score_threshold, Some(0.3));
    assert_eq!(filled[1].score_threshold, Some(0.8));
    t.extend(filled);
    assert_eq!(t.routes().len(), 3);
    t.set_threshold(0.6, Some("weather"));
    let got = t.get_thresholds(0.0);
    assert_eq!(got[0], ("weather".to_string(), 0.6));
    assert_eq!(got[2], ("weather".to_string(), 0.3));
    assert_eq!(t.score_threshold(), Some(0.3));
    t.set_threshold(0.9, None);
    assert!(t.get_thresholds(0.0).iter().all(|(_, v)| *v == 0.9));
    assert_eq!(t.score_threshold(), Some(0.9));
    t.delete("weather");
    assert_eq!(t.routes().len(), 1);
    assert_eq!(t.routes()[0].name, "chitchat");
}

#[test]
fn unknown_routes_are_skipped_before_the_limit_check() {
    let rs = routes();
    let scored = vec![
        ("unknown".to_string(), 0.95f32, true),
        ("chitchat".to_string(), 0.9, true),
        ("weather".to_string(), 0.7, true),
    ];
    let zero = pass_routes(&rs, Some(0.3), &scored, Some(0));
    assert_eq!(zero.len(), 1);
    assert_eq!(zero[0].name.as_deref(), Some("chitchat"));
    let mut missed = scored.clone();
    missed[1].2 = false;
    let stopped = pass_routes(&rs, Some(0.3), &missed, Some(0));
    assert_eq!(stopped.len(), 1);
    assert!(stopped[0].name.is_none());
    let two = pass_routes(&rs, Some(0.3), &scored, Some(2));
    let names: Vec<_> = two.iter().map(|c| c.name.clone().unwrap()).collect();
    assert_eq!(names, vec!["chitchat", "weather"]);
}

#[test]
fn query_source_decisions() {
    let by_text: RouteRequest<f32> = RouteRequest::text("hello");
    assert!(matches!(by_text.query_source(false), Err(Error::IndexNotReady)));
    assert_eq!(by_text.query_source(true).unwrap(), QuerySource::Text);
    let mut by_vector = RouteRequest::text("hello");
    by_vector.vector = Some(vec![0.5f32, 0.5]);
    assert_eq!(by_vector.query_source(true).unwrap(), QuerySource::Vector);
    let mut neither: RouteRequest<f32> = RouteRequest::text("x");
    neither.text = None;
    assert!(matches!(neither.query_source(true), Err(Error::MissingQuery)));
    assert!(matches!(neither.query_source(false), Err(Error::IndexNotReady)));
}

#[test]
fn answer_is_the_first_passing_entries() {
    let rs = routes();
    let scored = vec![
        ("weather".to_string(), 0.9f32, true),
        ("chitchat".to_string(), 0.85, false),
        ("ghost".to_string(), 0.8, true),
        ("chitchat".to_string(), 0.82, true),
    ];
    let all = pass_routes(&rs, Some(0.3), &scored, None);
    let names: Vec<_> = all.iter().map(|c| c.name.clone().unwrap()).collect();
    assert_eq!(names, vec!["weather", "chitchat"]);
    assert_eq!(all[1].similarity_score, Some(0.82));
    let first = pass_routes(&rs, Some(0.3), &scored, Some(1));
    assert_eq!(first.len(), 1);
    assert_eq!(first[0].name.as_deref(), Some("weather"));
    let many = pass_routes(&rs, Some(0.3), &scored, Some(5));
    assert_eq!(many.len(), 2);
}
