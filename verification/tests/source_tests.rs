use grok_search_cli::json::Json;
use grok_search_cli::source::{extract_urls, parse_response, SourceType};

fn s(x: &str) -> Json {
    Json::Str(x.to_string())
}

fn obj(entries: Vec<(&str, Json)>) -> Json {
    Json::Object(entries.into_iter().map(|(k, v)| (k.to_string(), v)).collect())
}

#[test]
fn extracts_urls_without_trailing_punctuation() {
    assert_eq!(
        extract_urls("see https://x.com/xai/status/123."),
        vec!["https://x.com/xai/status/123"]
    );
}

#[test]
fn parses_x_tool_call_and_annotation() {
    let raw = obj(vec![
        ("model", s("grok-4.20-multi-agent-0309")),
        (
            "output",
            Json::Array(vec![
                obj(vec![
                    ("type", s("custom_tool_call")),
                    ("name", s("x_keyword_search")),
                    ("call_id", s("xs_0")),
                    ("input", s("{\"query\":\"from:xai Grok\"}")),
                    ("status", s("completed")),
                ]),
                obj(vec![
                    ("type", s("message")),
                    (
                        "content",
                        Json::Array(vec![obj(vec![
                            ("type", s("output_text")),
                            ("text", s("https://x.com/xai/status/2055375676656783733")),
                            (
                                "annotations",
                                Json::Array(vec![obj(vec![
                                    ("url", s("https://x.com/xai/status/2055375676656783733")),
                                    ("title", s("xAI post")),
                                ])]),
                            ),
                        ])]),
                    ),
                ]),
            ]),
        ),
    ]);
    let parsed = parse_response(&raw, "2026-05-18T00:00:00Z");
    assert_eq!(parsed.tool_calls[0].name, "x_keyword_search");
    assert_eq!(parsed.sources[0].source_type, SourceType::X);
    assert_eq!(parsed.sources[0].handle.as_deref(), Some("xai"));
}

use grok_search_cli::source::{
    collect_source_candidate, extract_answer, extract_tool_calls, is_x_url, normalize_sources,
    parse_json_string_value, parse_x_url, str_lt, urls_from_matches,
};

#[test]
fn extract_urls_dedups_in_first_seen_order() {
    let text = "a https://b.com/x, then http://a.org; again https://b.com/x! and (https://c.io/p) done";
    assert_eq!(extract_urls(text), vec!["https://b.com/x", "http://a.org", "https://c.io/p"]);
}

#[test]
fn extract_urls_stops_at_full_width_punctuation_and_quotes() {
    assert_eq!(extract_urls("见https://x.com/a。后"), vec!["https://x.com/a"]);
    assert_eq!(extract_urls("\"https://q.com/z\" <https://r.com>"), vec!["https://q.com/z", "https://r.com"]);
    assert!(extract_urls("no links here ftp://x").is_empty());
}

#[test]
fn urls_from_matches_trims_trailing_punctuation_and_dedups() {
    let ms = vec!["https://a.com/x?!".to_string(), "https://a.com/x".to_string(), "https://b.com...".to_string()];
    assert_eq!(urls_from_matches(&ms), vec!["https://a.com/x", "https://b.com"]);
}

#[test]
fn recognises_x_urls() {
    assert!(is_x_url("https://x.com/xai/status/1"));
    assert!(is_x_url("http://twitter.com/a"));
    assert!(!is_x_url("https://xx.com/a"));
    assert!(!is_x_url("https://example.com/x.com/"));
}

#[test]
fn parses_post_url_parts() {
    assert_eq!(
        parse_x_url("https://twitter.com/elon/status/42?s=20"),
        (Some("elon".to_string()), Some("42".to_string()))
    );
    assert_eq!(parse_x_url("https://x.com/xai"), (None, None));
}

#[test]
fn string_order_is_code_point_order() {
    assert!(str_lt("a", "b"));
    assert!(str_lt("ab", "abc"));
    assert!(!str_lt("abc", "abc"));
    assert!(str_lt("Z", "a"));
    assert!(!str_lt("b", "a"));
}

fn cand(u: &str, t: Option<&str>, d: Option<&str>, p: &str) -> (String, Option<String>, Option<String>, String) {
    (u.to_string(), t.map(|x| x.to_string()), d.map(|x| x.to_string()), p.to_string())
}

#[test]
fn normalize_sources_merges_sorts_and_labels() {
    let cands = vec![
        cand(" https://web.dev/b/ ", None, Some("desc"), "citation"),
        cand("https://x.com/xai/status/7", Some("post"), None, "annotation"),
        cand("https://web.dev/b", Some("B"), Some("other"), "answer_text"),
        cand("https://web.dev/b", None, None, "citation"),
        cand("   ", Some("blank"), None, "citation"),
        cand("mailto:a", None, None, "citation"),
    ];
    let out = normalize_sources(cands, "2026-01-01T00:00:00Z");
    assert_eq!(out.len(), 3);
    assert_eq!(out[0].url, "https://web.dev/b");
    assert_eq!(out[0].title.as_deref(), Some("B"));
    assert_eq!(out[0].description.as_deref(), Some("desc"));
    assert_eq!(out[0].provenance, vec!["citation", "answer_text"]);
    assert_eq!(out[0].provider, "grok");
    assert_eq!(out[0].source_type, SourceType::Web);
    assert_eq!(out[1].url, "https://x.com/xai/status/7");
    assert_eq!(out[1].provider, "x");
    assert_eq!(out[1].source_type, SourceType::X);
    assert_eq!(out[1].handle.as_deref(), Some("xai"));
    assert_eq!(out[1].post_id.as_deref(), Some("7"));
    assert_eq!(out[2].url, "mailto:a");
    assert_eq!(out[2].source_type, SourceType::Unknown);
    assert_eq!(out[2].observed_at, "2026-01-01T00:00:00Z");
}

#[test]
fn answer_falls_back_to_text_then_chat_content() {
    let a = obj(vec![("text", s("  plain answer \n"))]);
    assert_eq!(extract_answer(&a), "plain answer");
    let c = obj(vec![(
        "choices",
        Json::Array(vec![obj(vec![("message", obj(vec![("content", s("chat answer"))]))])]),
    )]);
    assert_eq!(extract_answer(&c), "chat answer");
    let o = obj(vec![(
        "output",
        Json::Array(vec![obj(vec![(
            "content",
            Json::Array(vec![
                obj(vec![("type", s("output_text")), ("text", s("one"))]),
                obj(vec![("type", s("reasoning")), ("text", s("hidden"))]),
                obj(vec![("type", s("output_text")), ("text", s("two "))]),
            ]),
        )])]),
    )]);
    assert_eq!(extract_answer(&o), "one\ntwo");
    assert_eq!(extract_answer(&Json::Null), "");
}

#[test]
fn tool_calls_parse_string_inputs_and_fall_back_to_arguments() {
    let raw = obj(vec![(
        "output",
        Json::Array(vec![
            obj(vec![("type", s("function_call")), ("name", s("web_search")), ("arguments", s("not json"))]),
            obj(vec![("type", s("message"))]),
            obj(vec![("name", s("x_semantic_search")), ("input", obj(vec![("q", s("grok"))]))]),
        ]),
    )]);
    let calls = extract_tool_calls(&raw);
    assert_eq!(calls.len(), 2);
    assert_eq!(calls[0].name, "web_search");
    assert_eq!(calls[0].input.as_ref().map(|j| j.to_text()), Some("\"not json\"".to_string()));
    assert_eq!(calls[1].input.as_ref().map(|j| j.to_text()), Some("{\"q\":\"grok\"}".to_string()));
    assert_eq!(calls[1].status, None);
}

#[test]
fn json_string_values_are_parsed() {
    let v = parse_json_string_value(&s("{\"b\":[1,true,null],\"a\":\"x\"}"));
    assert_eq!(v.to_text(), "{\"a\":\"x\",\"b\":[1,true,null]}");
    assert_eq!(parse_json_string_value(&s("plain")).to_text(), "\"plain\"");
}

#[test]
fn json_text_escapes_like_serde_json() {
    let v = obj(vec![("k\"", s("a\\b\n\t\u{1}é/"))]);
    assert_eq!(v.to_text(), "{\"k\\\"\":\"a\\\\b\\n\\t\\u0001é/\"}");
}

#[test]
fn candidates_of_objects_use_link_fields_and_json_text() {
    let mut out = Vec::new();
    let v = obj(vec![
        ("name", s("Doc")),
        ("href", s("ftp://nope")),
        ("url", s("https://d.org/page")),
        ("snippet", s("see https://e.org/more")),
    ]);
    collect_source_candidate(&v, "citation", &mut out);
    assert_eq!(out[0], cand("https://d.org/page", Some("Doc"), Some("see https://e.org/more"), "citation"));
    let urls: Vec<&str> = out.iter().map(|c| c.0.as_str()).collect();
    assert_eq!(urls, vec!["https://d.org/page", "https://e.org/more", "https://d.org/page"]);
    let mut out2 = Vec::new();
    collect_source_candidate(&Json::Number("5".to_string()), "citation", &mut out2);
    assert!(out2.is_empty());
}

#[test]
fn warns_when_nothing_is_cited() {
    let parsed = parse_response(&obj(vec![("text", s("nothing"))]), "t");
    assert!(parsed.sources.is_empty());
    assert_eq!(parsed.warnings, vec!["no_sources_detected"]);
    assert_eq!(parsed.effective_model, None);
}

#[test]
fn warns_when_x_search_found_no_x_source() {
    let raw = obj(vec![
        ("model", s("m")),
        ("citations", Json::Array(vec![s("https://web.dev/a")])),
        ("output", Json::Array(vec![obj(vec![("type", s("custom_tool_call")), ("name", s("x_search"))])])),
    ]);
    let parsed = parse_response(&raw, "t");
    assert_eq!(parsed.sources.len(), 1);
    assert_eq!(parsed.sources[0].provenance, vec!["citation"]);
    assert_eq!(parsed.warnings, vec!["x_search_tool_call_without_x_source_url"]);
    assert_eq!(parsed.output_types, vec!["custom_tool_call"]);
    assert_eq!(parsed.effective_model.as_deref(), Some("m"));
}

#[test]
fn x_status_links_to_one_post_make_one_source() {
    let r = normalize_sources(
        vec![
            cand("https://x.com/xai/status/123", None, None, "annotation"),
            cand("https://example.com/a", None, None, "annotation"),
            cand("https://x.com/i/status/123", Some("Post"), None, "output_text"),
            cand("https://twitter.com/xai/status/124", None, None, "output_text"),
        ],
        "t",
    );
    assert_eq!(r.len(), 3);
    let x: Vec<_> = r.iter().filter(|s| s.post_id.as_deref() == Some("123")).collect();
    assert_eq!(x.len(), 1);
    assert_eq!(x[0].source_type, SourceType::X);
    assert_eq!(x[0].url, "https://x.com/xai/status/123");
    assert_eq!(x[0].handle.as_deref(), Some("xai"));
    assert_eq!(x[0].title.as_deref(), Some("Post"));
    assert_eq!(x[0].provenance, vec!["annotation".to_string(), "output_text".to_string()]);
    let urls: Vec<&str> = r.iter().map(|s| s.url.as_str()).collect();
    assert_eq!(urls, vec!["https://example.com/a", "https://twitter.com/xai/status/124", "https://x.com/xai/status/123"]);
}
