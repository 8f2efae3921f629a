use meliclaw_intent_router::config::{config_hash, default_encoder_type, read_format, write_format, ConfigFormat};
use meliclaw_intent_router::{Route, RouterConfig};

#[test]
fn new_config_uses_hash_encoder() {
    let cfg: RouterConfig<f32> = RouterConfig::new(vec![Route::new("factual", vec!["NIF de"])]);
    assert_eq!(cfg.encoder_type, "hash");
    assert_eq!(cfg.encoder_name.as_deref(), Some("hash-dense"));
    assert_eq!(cfg.routes[0].name, "factual");
    assert_eq!(default_encoder_type(), "hash");
}

#[test]
fn read_format_by_extension_then_content() {
    assert_eq!(read_format(Some("json"), "a: b"), ConfigFormat::Json);
    assert_eq!(read_format(Some("YAML"), "{}"), ConfigFormat::Yaml);
    assert_eq!(read_format(Some("yml"), "{}"), ConfigFormat::Yaml);
    assert_eq!(read_format(Some("txt"), "  \n{\"routes\": []}"), ConfigFormat::Json);
    assert_eq!(read_format(None, "routes: []"), ConfigFormat::Yaml);
    assert_eq!(read_format(None, ""), ConfigFormat::Yaml);
}

#[test]
fn write_format_by_extension() {
    assert_eq!(write_format(Some("yaml")), ConfigFormat::Yaml);
    assert_eq!(write_format(Some("YML")), ConfigFormat::Yaml);
    assert_eq!(write_format(Some("json")), ConfigFormat::Json);
    assert_eq!(write_format(Some("cfg")), ConfigFormat::Json);
    assert_eq!(write_format(None), ConfigFormat::Json);
}

#[test]
fn hash_is_sha256_hex() {
    assert_eq!(config_hash(""), "e3b0c44298fc1c149afbf4c8996fb92427ae41e4649b934ca495991b7852b855");
    assert_eq!(config_hash("abc"), "ba7816bf8f01cfea414140de5dae2223b00361a396177a9cb410ff61f20015ad");
    assert_eq!(config_hash("{}").len(), 64);
}

#[test]
fn written_format_is_read_back() {
    for ext in ["json", "yaml", "yml", "JSON", "Yml"] {
        assert_eq!(read_format(Some(ext), "whatever"), write_format(Some(ext)), "{ext}");
    }
    assert_eq!(read_format(Some("cfg"), "{\"routes\": []}"), write_format(Some("cfg")));
    assert_eq!(read_format(None, "{}"), write_format(None));
}
