use grok_search_cli::config::{
    config_file, first_nonempty, mask, require_key, set_model, string_field, Config, ConfigEnv,
    DEFAULT_MODEL,
};
use grok_search_cli::json::Json;

fn obj(entries: Vec<(&str, Json)>) -> Json {
    Json::Object(entries.into_iter().map(|(k, v)| (k.to_string(), v)).collect())
}

fn s(x: &str) -> Json {
    Json::Str(x.to_string())
}

fn no_env() -> ConfigEnv {
    ConfigEnv {
        grok_api_url: None,
        grok_api_key: None,
        grok_model: None,
        xai_api_key: None,
        xai_api_url: None,
        xai_base_url: None,
        xai_model: None,
        tavily_api_url: None,
        tavily_api_key: None,
    }
}

#[test]
fn masks_long_secret() {
    assert_eq!(mask("123456789abc"), "1234****9abc");
}

#[test]
fn masks_short_secret_entirely() {
    assert_eq!(mask("12345678"), "***");
    assert_eq!(mask(""), "***");
}

#[test]
fn masks_nine_characters_with_one_star() {
    assert_eq!(mask("abcdefghi"), "abcd*fghi");
}

#[test]
fn mask_counts_characters_not_bytes() {
    assert_eq!(mask("ééééééééé"), "éééé*éééé");
}

#[test]
fn first_nonempty_skips_blank_and_keeps_value_untrimmed() {
    let values = vec![None, Some("   ".to_string()), Some(" a ".to_string()), Some("b".to_string())];
    assert_eq!(first_nonempty(&values), Some(" a ".to_string()));
    assert_eq!(first_nonempty(&vec![None, Some("\t".to_string())]), None);
}

#[test]
fn string_field_trims_and_drops_blank() {
    let file = obj(vec![("api_url", s("  http://x  ")), ("model", s("  ")), ("n", Json::Number("3".to_string()))]);
    assert_eq!(string_field(&file, "api_url"), Some("http://x".to_string()));
    assert_eq!(string_field(&file, "model"), None);
    assert_eq!(string_field(&file, "n"), None);
    assert_eq!(string_field(&file, "missing"), None);
    assert_eq!(string_field(&Json::Null, "api_url"), None);
}

#[test]
fn environment_wins_over_file_and_defaults_fill_in() {
    let file = obj(vec![
        ("api_url", s("http://file/v1")),
        ("api_key", s("file-key")),
        ("model", s("file-model")),
        ("tavily_api_key", s("tvly-file")),
    ]);
    let env = ConfigEnv {
        grok_api_url: Some("http://env/v1".to_string()),
        grok_api_key: Some("".to_string()),
        grok_model: None,
        xai_api_key: None,
        xai_api_url: None,
        xai_base_url: None,
        xai_model: None,
        tavily_api_url: None,
        tavily_api_key: Some("tvly-env".to_string()),
    };
    let c = Config::load("/h/.config/grok-search/config.json".to_string(), &env, &file);
    assert_eq!(c.grok_api_url.as_deref(), Some("http://env/v1"));
    assert_eq!(c.grok_api_key.as_deref(), Some("file-key"));
    assert_eq!(c.grok_model, "file-model");
    assert_eq!(c.tavily_api_url, "https://api.tavily.com");
    assert_eq!(c.tavily_api_key.as_deref(), Some("tvly-env"));
}

#[test]
fn empty_configuration_uses_defaults() {
    let c = Config::load("cfg".to_string(), &no_env(), &obj(vec![]));
    assert_eq!(c.grok_api_url, None);
    assert_eq!(c.grok_api_key, None);
    assert_eq!(c.grok_model, DEFAULT_MODEL);
    assert_eq!(c.grok_model, "grok-4.20-multi-agent-console");
    assert_eq!(c.tavily_api_key, None);
}

#[test]
fn masked_config_hides_keys() {
    let c = Config {
        config_file: "cfg".to_string(),
        grok_api_url: None,
        grok_api_key: Some("xai-1234567890".to_string()),
        grok_model: "grok-4.3".to_string(),
        tavily_api_url: "https://api.tavily.com".to_string(),
        tavily_api_key: None,
    };
    let m = c.masked();
    assert_eq!(m.grok_api_url, "not configured");
    assert_eq!(m.grok_api_key, "xai-******7890");
    assert_eq!(m.tavily_api_key, "not configured");
    assert_eq!(m.grok_model, "grok-4.3");
}

#[test]
fn require_key_accepts_set_key_and_names_missing_one() {
    let k = Some("tvly-1".to_string());
    assert_eq!(require_key(&k, "TAVILY_API_KEY"), Ok("tvly-1"));
    assert_eq!(require_key(&None, "TAVILY_API_KEY"), Err("TAVILY_API_KEY is not configured".to_string()));
    assert_eq!(
        require_key(&Some(String::new()), "TAVILY_API_KEY"),
        Err("TAVILY_API_KEY is not configured".to_string())
    );
}

#[test]
fn set_model_then_load_reads_it_back() {
    let file = obj(vec![("api_url", s("http://a")), ("model", s("old"))]);
    let updated = set_model(file, "grok-4.3");
    let c = Config::load("cfg".to_string(), &no_env(), &updated);
    assert_eq!(c.grok_model, "grok-4.3");
    assert_eq!(c.grok_api_url.as_deref(), Some("http://a"));
    // a file that is not an object becomes one
    let fresh = set_model(Json::Array(vec![]), "m1");
    assert_eq!(string_field(&fresh, "model"), Some("m1".to_string()));
}

#[test]
fn environment_model_overrides_written_model() {
    let updated = set_model(obj(vec![]), "file-model");
    let mut env = no_env();
    env.grok_model = Some("env-model".to_string());
    let c = Config::load("cfg".to_string(), &env, &updated);
    assert_eq!(c.grok_model, "env-model");
}

#[test]
fn config_file_lives_under_home() {
    assert_eq!(config_file(&Some("/home/u".to_string())), "/home/u/.config/grok-search/config.json");
    assert_eq!(config_file(&Some("/home/u/".to_string())), "/home/u/.config/grok-search/config.json");
    assert_eq!(config_file(&None), "./.config/grok-search/config.json");
}

#[test]
fn xai_key_alone_selects_the_official_endpoint() {
    let mut env = no_env();
    env.xai_api_key = Some("k1".to_string());
    let c = Config::load("/h/c.json".to_string(), &env, &obj(vec![]));
    assert_eq!(c.grok_api_key.as_deref(), Some("k1"));
    assert_eq!(c.grok_api_url.as_deref(), Some("https://api.x.ai/v1"));
    assert_eq!(c.grok_model, DEFAULT_MODEL);
}

#[test]
fn xai_url_and_model_are_fallbacks() {
    let mut env = no_env();
    env.xai_api_key = Some("k1".to_string());
    env.xai_base_url = Some("https://eu.example/v1".to_string());
    env.xai_model = Some("grok-4.3".to_string());
    let c = Config::load("/h/c.json".to_string(), &env, &obj(vec![]));
    assert_eq!(c.grok_api_url.as_deref(), Some("https://eu.example/v1"));
    assert_eq!(c.grok_model, "grok-4.3");
    env.xai_api_url = Some("https://us.example/v1".to_string());
    let c = Config::load("/h/c.json".to_string(), &env, &obj(vec![]));
    assert_eq!(c.grok_api_url.as_deref(), Some("https://us.example/v1"));
}

#[test]
fn grok_settings_win_over_xai_ones() {
    let mut env = no_env();
    env.xai_api_key = Some("k1".to_string());
    env.xai_model = Some("grok-4.3".to_string());
    let file = obj(vec![("api_key", Json::Str("file-key".to_string())), ("model", Json::Str("grok-4.20".to_string()))]);
    let c = Config::load("/h/c.json".to_string(), &env, &file);
    assert_eq!(c.grok_api_key.as_deref(), Some("file-key"));
    assert_eq!(c.grok_api_url, None);
    assert_eq!(c.grok_model, "grok-4.20");
    env.grok_api_url = Some("http://proxy/v1".to_string());
    env.grok_api_key = Some("gk".to_string());
    let c = Config::load("/h/c.json".to_string(), &env, &file);
    assert_eq!(c.grok_api_url.as_deref(), Some("http://proxy/v1"));
    assert_eq!(c.grok_api_key.as_deref(), Some("gk"));
}
