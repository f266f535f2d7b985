use grok_search_cli::artifact::{artifact_dir, fresh_id, resolve_artifact_path, SearchArtifact};
use grok_search_cli::cli::{ConflictPolicy, MapArgs, OutputFormat};
use grok_search_cli::config::{config_value, MaskedConfig};
use grok_search_cli::doctor::{bird_report, doctor_checks, doctor_report, models_check, x_search_check};
use grok_search_cli::grok::x_smoke_body;
use grok_search_cli::config::Config;
use grok_search_cli::json::Json;
use grok_search_cli::output::{config_text, models_text, search_artifact_text, sources_text};
use grok_search_cli::source::{normalize_sources, parse_response};
use grok_search_cli::web_tools::{
    parse_reply, extract_body, extract_markdown, fetch_result, map_body, search_body,
    supplemental_outcome, tavily_candidates,
};
use grok_search_cli::artifact::ToolSummary;

fn s(x: &str) -> Json {
    Json::Str(x.to_string())
}

fn obj(entries: Vec<(&str, Json)>) -> Json {
    Json::Object(entries.into_iter().map(|(k, v)| (k.to_string(), v)).collect())
}

#[test]
fn fresh_ids_are_twelve_hex_digits_and_differ() {
    let a = fresh_id();
    let b = SearchArtifact::fresh_id();
    assert_eq!(a.chars().count(), 12);
    assert!(a.chars().all(|c| c.is_ascii_digit() || ('a'..='f').contains(&c)));
    assert_ne!(a, b);
}

#[test]
fn sessions_resolve_to_files() {
    let home = Some("/h".to_string());
    assert_eq!(resolve_artifact_path("abc123", false, &None, &home), "/h/.config/grok-search/sessions/abc123.json");
    assert_eq!(resolve_artifact_path("abc123", false, &Some("/tmp/s".to_string()), &home), "/tmp/s/abc123.json");
    assert_eq!(resolve_artifact_path("abc123", true, &None, &home), "abc123");
    assert_eq!(resolve_artifact_path("x.json", false, &None, &home), "x.json");
    assert_eq!(resolve_artifact_path("d/abc", false, &None, &home), "d/abc");
    assert_eq!(resolve_artifact_path(".hidden", false, &None, &home), "/h/.config/grok-search/sessions/.hidden.json");
    assert_eq!(artifact_dir(&None, &None), "./.config/grok-search/sessions");
}

#[test]
fn map_body_clamps_limits_and_skips_blank_instructions() {
    let a = MapArgs { url: "https://docs.x.ai".to_string(), instructions: "  ".to_string(), max_depth: 9, max_breadth: 0, limit: 50, timeout_seconds: 400, format: OutputFormat::Json };
    assert_eq!(map_body(&a).to_text(), "{\"limit\":50,\"max_breadth\":1,\"max_depth\":5,\"timeout\":150,\"url\":\"https://docs.x.ai\"}");
    let b = MapArgs { instructions: "only tools".to_string(), timeout_seconds: 1, ..a };
    assert_eq!(map_body(&b).to_text(), "{\"instructions\":\"only tools\",\"limit\":50,\"max_breadth\":1,\"max_depth\":5,\"timeout\":10,\"url\":\"https://docs.x.ai\"}");
}

#[test]
fn tavily_bodies() {
    assert_eq!(extract_body("https://a.com").to_text(), "{\"format\":\"markdown\",\"urls\":[\"https://a.com\"]}");
    assert_eq!(search_body("grok", 3).to_text(), "{\"include_answer\":false,\"include_raw_content\":false,\"max_results\":3,\"query\":\"grok\",\"search_depth\":\"advanced\"}");
}

#[test]
fn markdown_is_required_to_be_non_blank() {
    let ok = obj(vec![("results", Json::Array(vec![obj(vec![("raw_content", s("# Page"))])]))]);
    assert_eq!(extract_markdown(&ok), Ok("# Page".to_string()));
    let blank = obj(vec![("results", Json::Array(vec![obj(vec![("raw_content", s("  "))])]))]);
    assert_eq!(extract_markdown(&blank), Err("Tavily returned empty content".to_string()));
    assert_eq!(extract_markdown(&Json::Null), Err("Tavily returned empty content".to_string()));
    let r = fetch_result("u".to_string(), "m".to_string());
    assert_eq!(r.provider, "tavily");
}

#[test]
fn tavily_results_become_candidates() {
    let v = obj(vec![("results", Json::Array(vec![
        obj(vec![("url", s("https://a.com")), ("title", s("A")), ("content", s("c"))]),
        obj(vec![("title", s("no url"))]),
    ]))]);
    let c = tavily_candidates(&v);
    assert_eq!(c, vec![("https://a.com".to_string(), Some("A".to_string()), Some("c".to_string()), "tavily".to_string())]);
}

#[test]
fn supplemental_search_needs_results() {
    let srcs = normalize_sources(vec![("https://a.com".to_string(), None, None, "tavily".to_string())], "t");
    assert_eq!(supplemental_outcome(Some(Ok(srcs))).map(|v| v.len()), Ok(1));
    assert_eq!(supplemental_outcome(None).map(|v| v.len()), Err("no supplemental source provider returned results".to_string()));
    assert_eq!(supplemental_outcome(Some(Ok(vec![]))).map(|v| v.len()), Err("no supplemental source provider returned results".to_string()));
    assert_eq!(supplemental_outcome(Some(Err("x".to_string()))).map(|v| v.len()), Err("no supplemental source provider returned results".to_string()));
}

#[test]
fn replies_need_success_and_json() {
    let t = |r: Result<Json, String>| r.map(|j| j.to_text());
    assert_eq!(t(parse_reply(None, false, "404 Not Found", "nope")), Err("HTTP 404 Not Found: nope".to_string()));
    assert_eq!(
        t(parse_reply(Some("Grok /responses"), false, "500 Internal Server Error", "{}")),
        Err("Grok /responses returned HTTP 500 Internal Server Error: {}".to_string())
    );
    assert_eq!(t(parse_reply(Some("/models"), true, "200 OK", "{\"data\": [1]}")), Ok("{\"data\":[1]}".to_string()));
    assert_eq!(t(parse_reply(Some("/models"), true, "200 OK", "nope")), Err("parse /models JSON".to_string()));
    assert_eq!(t(parse_reply(None, true, "200 OK", "")), Err("parse JSON response".to_string()));
}

#[test]
fn config_file_value_defaults_to_empty_object() {
    assert_eq!(config_value(None).to_text(), "{}");
    assert_eq!(config_value(Some("not json")).to_text(), "{}");
    assert_eq!(config_value(Some(" {\"model\": \"grok-4.3\"} ")).to_text(), "{\"model\":\"grok-4.3\"}");
}

#[test]
fn bird_report_cases() {
    let missing = bird_report(None, true);
    assert!(!missing.available && !missing.credentials_ok);
    let broken = bird_report(Some((false, "x".to_string())), true);
    assert_eq!(broken.hint, "bird command exists but did not run successfully.");
    let ready = bird_report(Some((true, " 0.8.0\n".to_string())), true);
    assert!(ready.available && ready.credentials_ok);
    assert_eq!(ready.version.as_deref(), Some("0.8.0"));
    let nocred = bird_report(Some((true, "0.8.0".to_string())), false);
    assert!(nocred.available && !nocred.credentials_ok);
    let c = Config { config_file: "f".to_string(), grok_api_url: Some("u".to_string()), grok_api_key: None, grok_model: " ".to_string(), tavily_api_url: "t".to_string(), tavily_api_key: Some("k".to_string()) };
    let checks = doctor_checks(&c, &ready);
    assert!(!checks.grok_configured && !checks.model_configured && checks.tavily_configured && checks.bird_available);
}

#[test]
fn model_check_reports_availability_and_interesting_models() {
    let ids = vec!["grok-4.3".to_string(), "other".to_string(), "grok-4-fast-reasoning".to_string()];
    let m = models_check(&ids, "grok-4.3");
    assert_eq!(m.count, 3);
    assert!(m.current_model_available);
    assert_eq!(m.interesting_models, vec!["grok-4.3", "grok-4-fast-reasoning"]);
    assert!(!models_check(&ids, "grok-5").current_model_available);
}

#[test]
fn live_x_check_samples_x_sources() {
    let raw = obj(vec![
        ("citations", Json::Array(vec![s("https://x.com/a/status/1"), s("https://x.com/b/status/2"), s("https://x.com/c/status/3"), s("https://x.com/d/status/4"), s("https://web.dev")])),
        ("output", Json::Array(vec![obj(vec![("name", s("x_keyword_search"))])])),
    ]);
    let parsed = parse_response(&raw, "t");
    let x = x_search_check(&parsed);
    assert!(x.ok);
    assert_eq!(x.x_sources_count, 4);
    assert_eq!(x.sample_x_urls, vec!["https://x.com/a/status/1", "https://x.com/b/status/2", "https://x.com/c/status/3"]);
}

#[test]
fn text_outputs() {
    let parsed = parse_response(&obj(vec![("text", s(" answer ")), ("citations", Json::Array(vec![obj(vec![("url", s("https://x.com/xai/status/9")), ("title", s("post"))])]))]), "t");
    let sources = parsed.sources;
    assert_eq!(sources_text(&sources), "1. post (X)\n   https://x.com/xai/status/9\n   handle: @xai\n   post_id: 9\n");
    let art = SearchArtifact {
        id: "abc".to_string(),
        created_at: "t".to_string(),
        query: "q".to_string(),
        model_requested: "m".to_string(),
        model_effective: None,
        tool_summary: ToolSummary { web_search: true, x_search: false, allowed_domains: vec![], excluded_domains: vec![], allowed_x_handles: vec![], excluded_x_handles: vec![], from_date: None, to_date: None, prefer_recent: false, conflict_policy: "show-all".to_string() },
        answer: " answer ".to_string(),
        sources,
        tool_calls: vec![],
        warnings: vec!["w1".to_string(), "w2".to_string()],
        raw_response: None,
        artifact_path: Some("/s/abc.json".to_string()),
        format: OutputFormat::Text,
    };
    assert_eq!(search_artifact_text(&art), "answer\n\nsession_id: abc\nartifact: /s/abc.json\nsources_count: 1\ntool_calls: 0\nwarnings: w1, w2\n");
    assert_eq!(models_text(&vec!["a".to_string(), "b".to_string()]), "a\nb\n");
    let m = MaskedConfig { config_file: "f".to_string(), grok_api_url: "u".to_string(), grok_api_key: "k".to_string(), grok_model: "m".to_string(), tavily_api_url: "t".to_string(), tavily_api_key: "not configured".to_string() };
    assert_eq!(config_text(&m), "config_file: f\ngrok_api_url: u\ngrok_api_key: k\ngrok_model: m\ntavily_api_url: t\ntavily_api_key: not configured\n");
    assert_eq!(ConflictPolicy::PreferAuthority.name(), "prefer-authority");
}

#[test]
fn x_smoke_body_asks_for_recent_xai_posts() {
    assert_eq!(
        x_smoke_body("grok-4.3", "2026-04-27").to_text(),
        "{\"input\":[{\"content\":\"Use X Search to find one recent public @xai post mentioning Grok. Return the URL only.\",\"role\":\"user\"}],\"model\":\"grok-4.3\",\"stream\":false,\"tools\":[{\"allowed_x_handles\":[\"xai\"],\"from_date\":\"2026-04-27\",\"type\":\"x_search\"}]}"
    );
}

#[test]
fn doctor_report_lists_models_only_when_grok_is_configured() {
    let missing = bird_report(None, false);
    let c = Config { config_file: "f".to_string(), grok_api_url: Some("u".to_string()), grok_api_key: None, grok_model: "m".to_string(), tavily_api_url: "t".to_string(), tavily_api_key: None };
    let r = doctor_report(&c, &missing, Some(Json::Bool(true)), None).to_text();
    assert_eq!(
        r,
        "{\"bird\":{\"available\":false,\"credentials_ok\":false,\"hint\":\"Install bird CLI to fetch X sources locally, or use source index/links without fetching X bodies.\"},\"checks\":{\"bird_available\":false,\"bird_credentials_ok\":false,\"grok_configured\":false,\"model_configured\":true,\"tavily_configured\":false},\"config\":{\"config_file\":\"f\",\"grok_api_key\":\"not configured\",\"grok_api_url\":\"u\",\"grok_model\":\"m\",\"tavily_api_key\":\"not configured\",\"tavily_api_url\":\"t\"}}"
    );
    let ready = bird_report(Some((true, " bird 1.0\n".to_string())), true);
    let c2 = Config { grok_api_key: Some("123456789abc".to_string()), ..c };
    let r2 = doctor_report(&c2, &ready, Some(Json::Bool(true)), Some(Json::Null)).to_text();
    assert!(r2.contains("\"grok_api_key\":\"1234****9abc\""));
    assert!(r2.contains("\"version\":\"bird 1.0\""));
    assert!(r2.contains("\"models\":true"));
    assert!(r2.contains("\"x_search\":null"));
    assert!(r2.contains("\"grok_configured\":true"));
}
