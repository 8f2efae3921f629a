use meliclaw_intent_router::encoder::bm25::{count_nonzero, query_terms, term_row};
use meliclaw_intent_router::encoder::hash::tokenize;
use meliclaw_intent_router::encoder::tfidf::{fit_counts, preprocess, split_whitespace};
use meliclaw_intent_router::{Bm25Encoder, Error, HashDenseEncoder, Route, TfidfEncoder};

#[test]
fn tokenize_lowercases_and_splits() {
    assert_eq!(tokenize("What's the WEATHER, in London?"), vec!["what", "s", "the", "weather", "in", "london"]);
    assert_eq!(tokenize("¿Cuál es el NIF?"), vec!["cuál", "es", "el", "nif"]);
    assert!(tokenize("  ...  ").is_empty());
}

#[test]
fn tfidf_preprocess_and_split() {
    assert_eq!(preprocess("Hello, World!"), "hello world");
    assert_eq!(split_whitespace("  a  b\tc\n"), vec!["a", "b", "c"]);
    assert!(split_whitespace("   ").is_empty());
}

#[test]
fn tfidf_counts_documents_and_terms() {
    let routes: Vec<Route<f32>> = vec![
        Route::new("a", vec!["alpha document about cats"]),
        Route::new("b", vec!["beta document about dogs"]),
    ];
    let c = fit_counts(&routes).unwrap();
    assert_eq!(c.n_docs, 2);
    assert_eq!(c.vocabulary.len(), 6);
    for (w, df) in c.vocabulary.iter().zip(c.df.iter()) {
        let expected = if w == "document" || w == "about" { 2 } else { 1 };
        assert_eq!(*df, expected, "{w}");
    }
    let mut enc: TfidfEncoder<f32> = TfidfEncoder::new("tfidf");
    assert!(matches!(enc.term_counts(&["x".to_string()]).unwrap_err(), Error::EncoderNotFitted));
    let idf = vec![1.0f32; c.vocabulary.len()];
    enc.set_fitted(c.vocabulary.clone(), idf);
    let err = enc.term_counts(&[]).unwrap_err();
    assert_eq!(err.message(), "No documents to encode");
    let counts = enc.term_counts(&["Document about cats, cats!".to_string()]).unwrap();
    for (w, n) in c.vocabulary.iter().zip(counts[0].iter()) {
        let expected = match w.as_str() {
            "document" | "about" => 1,
            "cats" => 2,
            _ => 0,
        };
        assert_eq!(*n, expected, "{w}");
    }
}

#[test]
fn tfidf_needs_words() {
    let routes: Vec<Route<f32>> = vec![Route::new("a", vec!["...", "  "])];
    let err = fit_counts(&routes).unwrap_err();
    assert_eq!(err.message(), "Too little data to fit TfidfEncoder");
    let none: Vec<Route<f32>> = vec![];
    assert!(fit_counts(&none).is_err());
}

#[test]
fn bm25_rows_and_terms() {
    let row = term_row(&[0, 3, 3, 1, 0], 5);
    assert_eq!(row, vec![0, 1, 0, 2, 0]);
    assert_eq!(count_nonzero(&[0, 3, 3, 1, 0]), 3);
    let mut q = query_terms(&[3, 0, 3, 1, 4, 1]);
    q.sort();
    assert_eq!(q, vec![1, 3, 4]);
}

#[test]
fn bm25_fit_counts() {
    let enc: Bm25Encoder<f32> = Bm25Encoder::new("bm25", 1.5, 0.75, 10_000);
    let none: Vec<Route<f32>> = vec![];
    let err = enc.fit_counts(&none).unwrap_err();
    assert_eq!(err.message(), "BM25 fit requires routes");
    let routes: Vec<Route<f32>> = vec![
        Route::new("weather", vec!["weather in london", "rain in london"]),
        Route::new("chitchat", vec!["how are you"]),
    ];
    let c = enc.fit_counts(&routes).unwrap();
    assert_eq!(c.corpus_size, 3);
    assert_eq!(c.df.len(), 10_000);
    assert_eq!(c.df[0], 0);
    let london = enc.token_ids("London")[0] as usize;
    if london != 0 {
        assert_eq!(c.df[london], 2);
    }
    let ids = enc.token_ids("Weather in LONDON");
    assert_eq!(ids.len(), 3);
    assert!(ids.iter().all(|&i| (i as usize) < 10_000));
    assert_eq!(ids, enc.token_ids("weather in london"));
}

#[test]
fn hash_encoder_counts() {
    let enc: HashDenseEncoder<f32> = HashDenseEncoder::new("hash-dense", 4, Some(0.3));
    assert_eq!(enc.dimensions(), 8);
    assert_eq!(enc.name(), "hash-dense");
    assert_eq!(enc.score_threshold(), Some(0.3));
    let (pos, neg) = enc.bucket_counts("hello hello world");
    assert_eq!(pos.len(), 8);
    assert_eq!(neg.len(), 8);
    assert_eq!(pos.iter().sum::<usize>() + neg.iter().sum::<usize>(), 3);
    let (p2, n2) = enc.bucket_counts("HELLO, hello! world");
    assert_eq!((pos, neg), (p2, n2));
}

#[test]
fn query_terms_keep_first_occurrence_order() {
    assert_eq!(query_terms(&[7, 0, 5, 7, 2, 5, 0]), vec![7, 5, 2]);
    assert_eq!(query_terms(&[0, 0]), Vec::<u32>::new());
}

#[test]
fn split_whitespace_follows_unicode_white_space() {
    let text = "a\u{3000}b\u{85}c\u{200b}d\u{a0}e\u{2029}f\u{180e}g";
    let expected: Vec<String> = text.split_whitespace().map(|w| w.to_string()).collect();
    assert_eq!(split_whitespace(text), expected);
    assert_eq!(split_whitespace(text), vec!["a", "b", "c\u{200b}d", "e", "f\u{180e}g"]);
}
