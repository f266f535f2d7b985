use grok_search_cli::cli::{ConflictPolicy, OutputFormat, PlanArgs, SearchArgs};
use grok_search_cli::config::Config;
use grok_search_cli::grok::{
    apply_recency_window, build_artifact, build_tools, current_time_context, endpoint,
    grok_credentials, merge_sources, model_ids, normalize_handles, request_body, requested_model,
    tool_summary, user_content,
};
use grok_search_cli::json::Json;
use grok_search_cli::plan::{build_plan, is_realtime, is_x_related};
use grok_search_cli::source::{normalize_sources, parse_response, Source};

fn s(x: &str) -> Json {
    Json::Str(x.to_string())
}

fn obj(entries: Vec<(&str, Json)>) -> Json {
    Json::Object(entries.into_iter().map(|(k, v)| (k.to_string(), v)).collect())
}

fn strings(v: &[&str]) -> Vec<String> {
    v.iter().map(|x| x.to_string()).collect()
}

fn args(query: &[&str]) -> SearchArgs {
    SearchArgs {
        query: strings(query),
        model: None,
        no_web_search: false,
        x_search: false,
        platform: None,
        allowed_domain: vec![],
        excluded_domain: vec![],
        allowed_x_handle: vec![],
        excluded_x_handle: vec![],
        from_date: None,
        to_date: None,
        recency_days: None,
        prefer_recent: false,
        conflict_policy: ConflictPolicy::ShowAll,
        enable_image_understanding: false,
        enable_video_understanding: false,
        extra_sources: 0,
        max_output_tokens: None,
        timeout_seconds: 300,
        include_raw: false,
        artifact_dir: None,
        format: OutputFormat::Text,
        background: false,
    }
}

fn config() -> Config {
    Config {
        config_file: "cfg".to_string(),
        grok_api_url: Some("https://api.x.ai/v1/".to_string()),
        grok_api_key: Some("xai-key".to_string()),
        grok_model: "grok-4.3".to_string(),
        tavily_api_url: "https://api.tavily.com".to_string(),
        tavily_api_key: None,
    }
}

fn sources(urls: &[&str]) -> Vec<Source> {
    normalize_sources(
        urls.iter().map(|u| (u.to_string(), None, None, "citation".to_string())).collect(),
        "t",
    )
}

#[test]
fn query_text_joins_words_with_spaces() {
    assert_eq!(args(&["latest", "grok", "news"]).query_text(), "latest grok news");
    let p = PlanArgs { query: strings(&["a"]), format: OutputFormat::Json };
    assert_eq!(p.query_text(), "a");
}

#[test]
fn handles_are_trimmed_unprefixed_and_capped() {
    let hs = strings(&[" @xai ", "@", "elon", "", "a", "b", "c", "d", "e", "f", "g", "h"]);
    assert_eq!(normalize_handles(&hs), strings(&["xai", "elon", "a", "b", "c", "d", "e", "f"]));
}

#[test]
fn default_tools_are_plain_web_search() {
    let tools = build_tools(&args(&["q"]));
    assert_eq!(tools.len(), 1);
    assert_eq!(tools[0].to_text(), "{\"type\":\"web_search\"}");
}

#[test]
fn x_search_tool_carries_filters() {
    let mut a = args(&["q"]);
    a.no_web_search = true;
    a.x_search = true;
    a.allowed_x_handle = strings(&["@xai"]);
    a.from_date = Some("2026-05-01".to_string());
    a.enable_video_understanding = true;
    let tools = build_tools(&a);
    assert_eq!(tools.len(), 1);
    assert_eq!(
        tools[0].to_text(),
        "{\"allowed_x_handles\":[\"xai\"],\"enable_video_understanding\":true,\"from_date\":\"2026-05-01\",\"type\":\"x_search\"}"
    );
}

#[test]
fn web_search_keeps_five_domains() {
    let mut a = args(&["q"]);
    a.allowed_domain = strings(&["a", "b", "c", "d", "e", "f"]);
    a.enable_image_understanding = true;
    let tools = build_tools(&a);
    assert_eq!(
        tools[0].to_text(),
        "{\"allowed_domains\":[\"a\",\"b\",\"c\",\"d\",\"e\"],\"enable_image_understanding\":true,\"type\":\"web_search\"}"
    );
}

#[test]
fn user_content_lists_focus_weighting_and_policy() {
    let mut a = args(&["q"]);
    a.platform = Some("X".to_string());
    a.prefer_recent = true;
    a.conflict_policy = ConflictPolicy::PreferNewer;
    let ctx = current_time_context("2026-05-18", "10:00:00", "+08:00");
    assert_eq!(ctx, "[Current Time Context]\n- Date: 2026-05-18\n- Time: 10:00:00\n- Timezone: +08:00");
    let c = user_content(&a, "CTX", "what is new");
    assert_eq!(
        c,
        "CTX\n\nwhat is new\n\nPlatform focus: X\n\nTemporal evidence weighting: prefer newer evidence when credible sources conflict, but keep conflicts visible.\n\nConflict policy: prefer-newer."
    );
    assert_eq!(user_content(&args(&["q"]), "C", "q"), "C\n\nq\n\nConflict policy: show-all.");
}

#[test]
fn request_body_has_model_messages_tools_and_limit() {
    let body = request_body("grok-4.3", "hi".to_string(), vec![], Some(1024));
    let text = body.to_text();
    assert!(text.starts_with("{\"input\":[{\"content\":\"You are Grok Search CLI"));
    assert!(text.ends_with(
        "\"role\":\"system\"},{\"content\":\"hi\",\"role\":\"user\"}],\"max_output_tokens\":1024,\"model\":\"grok-4.3\",\"stream\":false,\"tools\":[]}"
    ));
}

#[test]
fn recency_window_only_fills_a_missing_from_date() {
    let mut a = args(&["q"]);
    apply_recency_window(&mut a, "2026-05-04".to_string());
    assert_eq!(a.from_date, None);
    a.recency_days = Some(14);
    apply_recency_window(&mut a, "2026-05-04".to_string());
    assert_eq!(a.from_date.as_deref(), Some("2026-05-04"));
    apply_recency_window(&mut a, "2000-01-01".to_string());
    assert_eq!(a.from_date.as_deref(), Some("2026-05-04"));
}

#[test]
fn endpoints_drop_trailing_slashes() {
    assert_eq!(endpoint("https://api.x.ai/v1//", "responses"), "https://api.x.ai/v1/responses");
    assert_eq!(endpoint("http://h", "models"), "http://h/models");
}

#[test]
fn credentials_name_what_is_missing() {
    let mut c = config();
    assert_eq!(grok_credentials(&c), Ok(("https://api.x.ai/v1/".to_string(), "xai-key".to_string())));
    c.grok_api_key = None;
    assert_eq!(grok_credentials(&c), Err("GROK_API_KEY is not configured".to_string()));
    c.grok_api_url = None;
    assert_eq!(grok_credentials(&c), Err("GROK_API_URL is not configured".to_string()));
}

#[test]
fn requested_model_prefers_override() {
    let mut a = args(&["q"]);
    assert_eq!(requested_model(&a, &config()), "grok-4.3");
    a.model = Some("grok-4.20".to_string());
    assert_eq!(requested_model(&a, &config()), "grok-4.20");
}

#[test]
fn merge_adds_only_new_urls() {
    let mut existing = sources(&["https://a.com"]);
    let extra = sources(&["https://a.com", "https://b.com"]);
    merge_sources(&mut existing, extra);
    let urls: Vec<&str> = existing.iter().map(|s| s.url.as_str()).collect();
    assert_eq!(urls, vec!["https://a.com", "https://b.com"]);
}

#[test]
fn model_ids_keep_string_ids() {
    let raw = obj(vec![(
        "data",
        Json::Array(vec![obj(vec![("id", s("grok-4.3"))]), obj(vec![("id", Json::Number("1".to_string()))]), obj(vec![("id", s("grok-4.20"))])]),
    )]);
    assert_eq!(model_ids(&raw), strings(&["grok-4.3", "grok-4.20"]));
    assert!(model_ids(&Json::Null).is_empty());
}

#[test]
fn artifact_records_extra_source_failure() {
    let mut a = args(&["q"]);
    a.x_search = true;
    a.include_raw = true;
    let raw = obj(vec![("citations", Json::Array(vec![s("https://a.com")]))]);
    let parsed = parse_response(&raw, "t");
    let art = build_artifact(
        &a,
        "abc".to_string(),
        "2026-05-18T00:00:00Z".to_string(),
        "q".to_string(),
        "grok-4.3".to_string(),
        parsed,
        raw,
        Some(Err("HTTP 500".to_string())),
    );
    assert_eq!(art.warnings, vec!["extra_sources_failed: HTTP 500"]);
    assert_eq!(art.sources.len(), 1);
    assert!(art.raw_response.is_some());
    assert!(art.tool_summary.web_search && art.tool_summary.x_search);
    assert_eq!(art.tool_summary.conflict_policy, "show-all");
    let summary = tool_summary(&args(&["q"]));
    assert!(!summary.x_search);
}

#[test]
fn realtime_and_x_detection() {
    assert!(is_realtime("LATEST Grok news"));
    assert!(is_realtime("最新的模型"));
    assert!(!is_realtime("history of rome"));
    assert!(is_x_related("What does the COMMUNITY say"));
    assert!(is_x_related("reactions on x today"));
    assert!(!is_x_related("xray images"));
}

#[test]
fn plan_fetches_known_urls_then_searches() {
    let p = PlanArgs { query: strings(&["latest", "on", "twitter", "https://a.com/x."]), format: OutputFormat::Json };
    let plan = build_plan(&p, "2026-05-04").to_text();
    assert_eq!(
        plan,
        "{\"commands\":[{\"args\":[\"https://a.com/x\"],\"command\":\"fetch\",\"purpose\":\"read a known source URL\"},{\"args\":[\"search\",\"--x-search\",\"--from-date\",\"2026-05-04\",\"--prefer-recent\",\"latest on twitter https://a.com/x.\"],\"command\":\"search\",\"purpose\":\"X community source reconnaissance\"}],\"core_question\":\"latest on twitter https://a.com/x.\",\"notes\":[\"This is a CLI execution plan, not a mandatory pre-search phase.\",\"External verification remains the agent workflow's responsibility.\"],\"recommended_surface\":\"x_search_surface\",\"time_sensitivity\":\"realtime_or_recent\"}"
    );
}

#[test]
fn plan_for_historical_web_question() {
    let p = PlanArgs { query: strings(&["roman", "roads"]), format: OutputFormat::Json };
    let plan = build_plan(&p, "2026-05-04").to_text();
    assert!(plan.contains("\"time_sensitivity\":\"unknown_or_historical\""));
    assert!(plan.contains("\"commands\":[{\"args\":[\"search\",\"roman roads\"],\"command\":\"search\",\"purpose\":\"Grok realtime source reconnaissance\"}]"));
}
