//! Shaping a Grok Responses API search request and assembling its artifact.

use vstd::prelude::*;
use crate::cli::{SearchArgs, OutputFormat, conflict_policy_name};
use crate::json::{Json, JsonV, jv, jv_items, lemma_jv_items, jv_entries, lemma_jv_entries};
use crate::text::{owned, trim_spec, drop_start_while, join_spec, prefix_upto};
use crate::source::{Source, SourceV, sources_view};
use crate::artifact::{ToolSummary, SearchArtifact};

verus! {

/// The system prompt of every search.
pub const SEARCH_SYSTEM_PROMPT: &'static str = "You are Grok Search CLI's realtime source reconnaissance engine.\nFind current, source-grade evidence. Prefer primary sources, exact URLs, and recent timestamps.\nWhen X Search is available, use it for X-native community evidence rather than generic web guesses.\nReturn concise answer text and preserve citations in output annotations whenever possible.";

/// A handle as X Search expects it: trimmed, without leading `@`.
pub open spec fn clean_handle(h: Seq<char>) -> Seq<char> {
    drop_start_while(trim_spec(h), false, seq!['@'])
}

/// Cleaned, non-empty handles among the first `n` given.
pub open spec fn handles_spec(hs: Seq<Seq<char>>) -> Seq<Seq<char>>
    decreases hs.len(),
{
    if hs.len() == 0 {
        seq![]
    } else {
        let prev = handles_spec(hs.drop_last());
        let h = clean_handle(hs.last());
        if h.len() > 0 {
            prev.push(h)
        } else {
            prev
        }
    }
}

/// At most ten handles, trimmed, without `@`, blanks dropped.
pub fn normalize_handles(handles: &Vec<String>) -> (r: Vec<String>)
    ensures
        r.deep_view() == handles_spec(prefix_upto(handles.deep_view(), 10)),
{
    let ghost dv = handles.deep_view();
    let at = ['@'];
    assert(at@ =~= seq!['@']);
    let n = if handles.len() < 10 {
        handles.len()
    } else {
        10
    };
    let mut out: Vec<String> = Vec::new();
    let mut i: usize = 0;
    while i < n
        invariant
            i <= n <= handles@.len(),
            n == if handles@.len() < 10 { handles@.len() } else { 10 },
            dv == handles.deep_view(),
            at@ == seq!['@'],
            out.deep_view() == handles_spec(dv.take(i as int)),
        decreases n - i,
    {
        let t = crate::text::trim(handles[i].as_str());
        let h = crate::text::trim_start_set(t.as_str(), &at);
        proof {
            assert(dv.take(i + 1).drop_last() =~= dv.take(i as int));
            assert(dv.take(i + 1).last() == handles@[i as int]@);
        }
        if !h.as_str().is_empty() {
            let ghost before = out.deep_view();
            out.push(h);
            assert(out.deep_view() =~= before.push(h@));
        }
        i = i + 1;
    }
    assert(dv.take(n as int) =~= prefix_upto(dv, 10));
    out
}

/// A JSON array of strings.
pub open spec fn str_array(s: Seq<Seq<char>>) -> JsonV {
    JsonV::Array(s.map_values(|x: Seq<char>| JsonV::Str(x)))
}

fn json_str_array(v: &Vec<String>, n: usize) -> (r: Json)
    ensures
        jv(r) == str_array(prefix_upto(v.deep_view(), n as int)),
{
    let m = if n < v.len() {
        n
    } else {
        v.len()
    };
    let mut out: Vec<Json> = Vec::new();
    let mut i: usize = 0;
    while i < m
        invariant
            i <= m <= v@.len(),
            out@.len() == i,
            forall|k: int| 0 <= k < i ==> #[trigger] jv(out@[k]) == JsonV::Str(v@[k]@),
        decreases m - i,
    {
        out.push(Json::Str(v[i].clone()));
        i = i + 1;
    }
    proof {
        lemma_jv_items(out@);
        assert(v.deep_view().take(m as int) =~= prefix_upto(v.deep_view(), n as int));
        assert(jv_items(out@) =~= v.deep_view().take(m as int).map_values(
            |x: Seq<char>| JsonV::Str(x),
        ));
    }
    Json::Array(out)
}

/// An object from its entries.
pub open spec fn obj(es: Seq<(Seq<char>, JsonV)>) -> JsonV {
    JsonV::Object(es)
}

/// A field entry.
pub open spec fn entry(k: Seq<char>, v: JsonV) -> Seq<(Seq<char>, JsonV)> {
    seq![(k, v)]
}

/// A field entry present only when `c` holds.
pub open spec fn entry_if(c: bool, k: Seq<char>, v: JsonV) -> Seq<(Seq<char>, JsonV)> {
    if c {
        seq![(k, v)]
    } else {
        seq![]
    }
}

/// A field entry for an optional string.
pub open spec fn entry_opt(k: Seq<char>, v: Option<Seq<char>>) -> Seq<(Seq<char>, JsonV)> {
    match v {
        Some(s) => seq![(k, JsonV::Str(s))],
        None => seq![],
    }
}

/// The Web Search tool: domain filters (first five each) and image understanding.
pub open spec fn web_tool(
    allowed: Seq<Seq<char>>,
    excluded: Seq<Seq<char>>,
    image: bool,
) -> JsonV {
    obj(
        entry("type"@, JsonV::Str("web_search"@)) + entry_if(
            allowed.len() > 0,
            "allowed_domains"@,
            str_array(prefix_upto(allowed, 5)),
        ) + entry_if(
            excluded.len() > 0,
            "excluded_domains"@,
            str_array(prefix_upto(excluded, 5)),
        ) + entry_if(image, "enable_image_understanding"@, JsonV::Bool(true)),
    )
}

/// The X Search tool: handle filters, date window and media understanding.
pub open spec fn x_tool(
    allowed: Seq<Seq<char>>,
    excluded: Seq<Seq<char>>,
    from: Option<Seq<char>>,
    to: Option<Seq<char>>,
    image: bool,
    video: bool,
) -> JsonV {
    obj(
        entry("type"@, JsonV::Str("x_search"@)) + entry_if(
            allowed.len() > 0,
            "allowed_x_handles"@,
            str_array(handles_spec(prefix_upto(allowed, 10))),
        ) + entry_if(
            excluded.len() > 0,
            "excluded_x_handles"@,
            str_array(handles_spec(prefix_upto(excluded, 10))),
        ) + entry_opt("from_date"@, from) + entry_opt("to_date"@, to) + entry_if(
            image,
            "enable_image_understanding"@,
            JsonV::Bool(true),
        ) + entry_if(video, "enable_video_understanding"@, JsonV::Bool(true)),
    )
}

/// The tools of a search: Web Search unless disabled, X Search when asked for.
pub open spec fn tools_spec(a: SearchArgs) -> Seq<JsonV> {
    (if !a.no_web_search {
        seq![
            web_tool(
                a.allowed_domain.deep_view(),
                a.excluded_domain.deep_view(),
                a.enable_image_understanding,
            ),
        ]
    } else {
        seq![]
    }) + (if a.x_search {
        seq![
            x_tool(
                a.allowed_x_handle.deep_view(),
                a.excluded_x_handle.deep_view(),
                a.from_date.deep_view(),
                a.to_date.deep_view(),
                a.enable_image_understanding,
                a.enable_video_understanding,
            ),
        ]
    } else {
        seq![]
    })
}

pub(crate) fn push_entry(es: &mut Vec<(String, Json)>, k: &str, v: Json)
    ensures
        jv_entries(final(es)@) == jv_entries(old(es)@) + seq![(k@, jv(v))],
{
    let ghost before = es@;
    let ghost vv = jv(v);
    es.push((owned(k), v));
    proof {
        lemma_jv_entries(before);
        lemma_jv_entries(es@);
        assert(jv_entries(es@) =~= jv_entries(before) + seq![(k@, vv)]);
    }
}

fn web_tool_exec(args: &SearchArgs) -> (r: Json)
    ensures
        jv(r) == web_tool(
            args.allowed_domain.deep_view(),
            args.excluded_domain.deep_view(),
            args.enable_image_understanding,
        ),
{
    let mut es: Vec<(String, Json)> = Vec::new();
    proof {
        lemma_jv_entries(es@);
    }
    push_entry(&mut es, "type", Json::Str(owned("web_search")));
    if args.allowed_domain.len() > 0 {
        push_entry(&mut es, "allowed_domains", json_str_array(&args.allowed_domain, 5));
    }
    if args.excluded_domain.len() > 0 {
        push_entry(&mut es, "excluded_domains", json_str_array(&args.excluded_domain, 5));
    }
    if args.enable_image_understanding {
        push_entry(&mut es, "enable_image_understanding", Json::Bool(true));
    }
    let r = Json::Object(es);
    assert(jv(r) =~= web_tool(
        args.allowed_domain.deep_view(),
        args.excluded_domain.deep_view(),
        args.enable_image_understanding,
    ));
    r
}

fn handles_json(hs: &Vec<String>) -> (r: Json)
    ensures
        jv(r) == str_array(handles_spec(prefix_upto(hs.deep_view(), 10))),
{
    let n = normalize_handles(hs);
    let r = json_str_array(&n, n.len());
    r
}

fn x_tool_exec(args: &SearchArgs) -> (r: Json)
    ensures
        jv(r) == x_tool(
            args.allowed_x_handle.deep_view(),
            args.excluded_x_handle.deep_view(),
            args.from_date.deep_view(),
            args.to_date.deep_view(),
            args.enable_image_understanding,
            args.enable_video_understanding,
        ),
{
    let mut es: Vec<(String, Json)> = Vec::new();
    proof {
        lemma_jv_entries(es@);
    }
    push_entry(&mut es, "type", Json::Str(owned("x_search")));
    if args.allowed_x_handle.len() > 0 {
        push_entry(&mut es, "allowed_x_handles", handles_json(&args.allowed_x_handle));
    }
    if args.excluded_x_handle.len() > 0 {
        push_entry(&mut es, "excluded_x_handles", handles_json(&args.excluded_x_handle));
    }
    if let Some(from) = &args.from_date {
        push_entry(&mut es, "from_date", Json::Str(from.clone()));
    }
    if let Some(to) = &args.to_date {
        push_entry(&mut es, "to_date", Json::Str(to.clone()));
    }
    if args.enable_image_understanding {
        push_entry(&mut es, "enable_image_understanding", Json::Bool(true));
    }
    if args.enable_video_understanding {
        push_entry(&mut es, "enable_video_understanding", Json::Bool(true));
    }
    let r = Json::Object(es);
    assert(jv(r) =~= x_tool(
        args.allowed_x_handle.deep_view(),
        args.excluded_x_handle.deep_view(),
        args.from_date.deep_view(),
        args.to_date.deep_view(),
        args.enable_image_understanding,
        args.enable_video_understanding,
    ));
    r
}

/// The tool declarations of a search request.
pub fn build_tools(args: &SearchArgs) -> (r: Vec<Json>)
    ensures
        jv_items(r@) == tools_spec(*args),
{
    let mut tools: Vec<Json> = Vec::new();
    if !args.no_web_search {
        tools.push(web_tool_exec(args));
    }
    if args.x_search {
        tools.push(x_tool_exec(args));
    }
    proof {
        lemma_jv_items(tools@);
        assert(jv_items(tools@) =~= tools_spec(*args));
    }
    tools
}


/// The time context line block that opens every user message.
pub open spec fn time_context_spec(date: Seq<char>, time: Seq<char>, zone: Seq<char>) -> Seq<char> {
    "[Current Time Context]\n- Date: "@ + date + "\n- Time: "@ + time + "\n- Timezone: "@ + zone
}

/// `[Current Time Context]` with the local date, time and UTC offset.
pub fn current_time_context(date: &str, time: &str, zone: &str) -> (r: String)
    ensures
        r@ == time_context_spec(date@, time@, zone@),
{
    let mut r = owned("[Current Time Context]\n- Date: ");
    r.append(date);
    r.append("\n- Time: ");
    r.append(time);
    r.append("\n- Timezone: ");
    r.append(zone);
    r
}

/// The user message of a search.
pub open spec fn user_content_spec(a: SearchArgs, time_context: Seq<char>, query: Seq<char>) -> Seq<
    char,
> {
    time_context + "\n\n"@ + query + (match a.platform {
        Some(p) => "\n\nPlatform focus: "@ + p@,
        None => seq![],
    }) + (if a.prefer_recent {
        "\n\nTemporal evidence weighting: prefer newer evidence when credible sources conflict, but keep conflicts visible."@
    } else {
        seq![]
    }) + "\n\nConflict policy: "@ + conflict_policy_name(a.conflict_policy) + "."@
}

/// The user message: time context, query, platform focus, recency weighting and
/// conflict policy.
pub fn user_content(args: &SearchArgs, time_context: &str, query: &str) -> (r: String)
    ensures
        r@ == user_content_spec(*args, time_context@, query@),
{
    let mut r = owned(time_context);
    r.append("\n\n");
    r.append(query);
    if let Some(p) = &args.platform {
        r.append("\n\nPlatform focus: ");
        r.append(p.as_str());
    }
    if args.prefer_recent {
        r.append(
            "\n\nTemporal evidence weighting: prefer newer evidence when credible sources conflict, but keep conflicts visible.",
        );
    }
    r.append("\n\nConflict policy: ");
    let name = args.conflict_policy.name();
    r.append(name.as_str());
    r.append(".");
    assert(r@ =~= user_content_spec(*args, time_context@, query@));
    r
}

/// One chat message.
pub open spec fn message(role: Seq<char>, content: Seq<char>) -> JsonV {
    obj(entry("role"@, JsonV::Str(role)) + entry("content"@, JsonV::Str(content)))
}

/// The body of a `/responses` search request.
pub open spec fn request_body_spec(
    model: Seq<char>,
    user: Seq<char>,
    tools: Seq<JsonV>,
    max_output_tokens: Option<u32>,
) -> JsonV {
    obj(
        entry("model"@, JsonV::Str(model)) + entry(
            "input"@,
            JsonV::Array(seq![message("system"@, SEARCH_SYSTEM_PROMPT@), message("user"@, user)]),
        ) + entry("tools"@, JsonV::Array(tools)) + entry("stream"@, JsonV::Bool(false))
            + match max_output_tokens {
            Some(m) => entry("max_output_tokens"@, JsonV::Number(crate::text::decimal(m as nat))),
            None => seq![],
        },
    )
}

fn message_exec(role: &str, content: String) -> (r: Json)
    ensures
        jv(r) == message(role@, content@),
{
    let mut es: Vec<(String, Json)> = Vec::new();
    proof {
        lemma_jv_entries(es@);
    }
    push_entry(&mut es, "role", Json::Str(owned(role)));
    push_entry(&mut es, "content", Json::Str(content));
    let r = Json::Object(es);
    assert(jv(r) =~= message(role@, content@));
    r
}

/// The body of a `/responses` search request.
pub fn request_body(
    model: &str,
    user: String,
    tools: Vec<Json>,
    max_output_tokens: Option<u32>,
) -> (r: Json)
    ensures
        jv(r) == request_body_spec(model@, user@, jv_items(tools@), max_output_tokens),
{
    let ghost uv = user@;
    let mut input: Vec<Json> = Vec::new();
    let a = message_exec("system", owned(SEARCH_SYSTEM_PROMPT));
    let b = message_exec("user", user);
    let ghost ja = jv(a);
    let ghost jb = jv(b);
    input.push(a);
    input.push(b);
    proof {
        lemma_jv_items(input@);
        assert(jv_items(input@) =~= seq![ja, jb]);
    }
    let ghost tv = jv_items(tools@);
    let mut es: Vec<(String, Json)> = Vec::new();
    proof {
        lemma_jv_entries(es@);
    }
    push_entry(&mut es, "model", Json::Str(owned(model)));
    let input_json = Json::Array(input);
    assert(jv(input_json) == JsonV::Array(seq![message("system"@, SEARCH_SYSTEM_PROMPT@), message("user"@, uv)]));
    push_entry(&mut es, "input", input_json);
    push_entry(&mut es, "tools", Json::Array(tools));
    push_entry(&mut es, "stream", Json::Bool(false));
    if let Some(m) = max_output_tokens {
        push_entry(&mut es, "max_output_tokens", Json::Number(crate::text::decimal_text(m as u64)));
    }
    let r = Json::Object(es);
    assert(jv(r) =~= request_body_spec(model@, uv, tv, max_output_tokens));
    r
}

/// The question of the live X Search check.
pub const X_SMOKE_PROMPT: &'static str = "Use X Search to find one recent public @xai post mentioning Grok. Return the URL only.";

/// The body of the live X Search check: the prompt alone, with X Search limited
/// to `@xai` posts since `from_date`.
pub open spec fn x_smoke_body_spec(model: Seq<char>, from_date: Seq<char>) -> JsonV {
    obj(
        entry("model"@, JsonV::Str(model)) + entry(
            "input"@,
            JsonV::Array(seq![message("user"@, X_SMOKE_PROMPT@)]),
        ) + entry(
            "tools"@,
            JsonV::Array(
                seq![
                    obj(
                        entry("type"@, JsonV::Str("x_search"@)) + entry(
                            "allowed_x_handles"@,
                            str_array(seq!["xai"@]),
                        ) + entry("from_date"@, JsonV::Str(from_date)),
                    ),
                ],
            ),
        ) + entry("stream"@, JsonV::Bool(false)),
    )
}

/// The `/responses` body of the live X Search check.
pub fn x_smoke_body(model: &str, from_date: &str) -> (r: Json)
    ensures
        jv(r) == x_smoke_body_spec(model@, from_date@),
{
    let mut input: Vec<Json> = Vec::new();
    let m = message_exec("user", owned(X_SMOKE_PROMPT));
    let ghost jm = jv(m);
    input.push(m);
    proof {
        lemma_jv_items(input@);
        assert(jv_items(input@) =~= seq![jm]);
    }
    let mut handles: Vec<Json> = Vec::new();
    handles.push(Json::Str(owned("xai")));
    proof {
        lemma_jv_items(handles@);
        assert(jv_items(handles@) =~= seq!["xai"@].map_values(|x: Seq<char>| JsonV::Str(x)));
    }
    let mut tes: Vec<(String, Json)> = Vec::new();
    proof {
        lemma_jv_entries(tes@);
    }
    push_entry(&mut tes, "type", Json::Str(owned("x_search")));
    push_entry(&mut tes, "allowed_x_handles", Json::Array(handles));
    push_entry(&mut tes, "from_date", Json::Str(owned(from_date)));
    let tool = Json::Object(tes);
    let ghost jt = jv(tool);
    let mut tools: Vec<Json> = Vec::new();
    tools.push(tool);
    proof {
        lemma_jv_items(tools@);
        assert(jv_items(tools@) =~= seq![jt]);
    }
    let mut es: Vec<(String, Json)> = Vec::new();
    proof {
        lemma_jv_entries(es@);
    }
    push_entry(&mut es, "model", Json::Str(owned(model)));
    push_entry(&mut es, "input", Json::Array(input));
    push_entry(&mut es, "tools", Json::Array(tools));
    push_entry(&mut es, "stream", Json::Bool(false));
    let r = Json::Object(es);
    assert(jv(r) =~= x_smoke_body_spec(model@, from_date@));
    r
}

/// The `from_date` of a search: the given one, else the start of the recency
/// window when one was asked for.
pub open spec fn recency_from(a: SearchArgs, window_start: Seq<char>) -> Option<Seq<char>> {
    match a.from_date {
        Some(d) => Some(d@),
        None => match a.recency_days {
            Some(_) => Some(window_start),
            None => None,
        },
    }
}

/// Sets `from_date` to `window_start` (today minus `recency_days`, as the caller
/// computed it) when no `from_date` was given and a recency window was.
pub fn apply_recency_window(args: &mut SearchArgs, window_start: String)
    ensures
        final(args).from_date.deep_view() == recency_from(*old(args), window_start@),
        final(args).from_date == (if old(args).from_date is None && old(args).recency_days is Some {
            Some(window_start)
        } else {
            old(args).from_date
        }),
        *final(args) == (SearchArgs { from_date: final(args).from_date, ..*old(args) }),
{
    if args.from_date.is_some() {
        return ;
    }
    if args.recency_days.is_some() {
        args.from_date = Some(window_start);
    }
}

/// `base` without trailing slashes, then `/` and `path`.
pub open spec fn endpoint_spec(base: Seq<char>, path: Seq<char>) -> Seq<char> {
    crate::text::drop_end_while(base, false, seq!['/']) + "/"@ + path
}

/// An API endpoint under a base URL.
pub fn endpoint(base: &str, path: &str) -> (r: String)
    ensures
        r@ == endpoint_spec(base@, path@),
{
    let slash = ['/'];
    assert(slash@ =~= seq!['/']);
    let mut r = crate::text::trim_end_set(base, &slash);
    r.append("/");
    r.append(path);
    r
}

/// The configured Grok endpoint and key, or the message naming what is missing.
pub fn grok_credentials(config: &crate::config::Config) -> (r: Result<(String, String), String>)
    ensures
        match (config.grok_api_url, config.grok_api_key) {
            (Some(u), Some(k)) => r matches Ok((ru, rk)) && ru@ == u@ && rk@ == k@,
            (None, _) => r matches Err(m) && m@ == "GROK_API_URL is not configured"@,
            (Some(_), None) => r matches Err(m) && m@ == "GROK_API_KEY is not configured"@,
        },
{
    match &config.grok_api_url {
        None => Err(owned("GROK_API_URL is not configured")),
        Some(u) => match &config.grok_api_key {
            None => Err(owned("GROK_API_KEY is not configured")),
            Some(k) => Ok((u.clone(), k.clone())),
        },
    }
}

/// Extra sources appended after the response's own: each only when its URL is new.
pub open spec fn merged_sources(existing: Seq<SourceV>, extra: Seq<SourceV>) -> Seq<SourceV>
    decreases extra.len(),
{
    if extra.len() == 0 {
        existing
    } else {
        let prev = merged_sources(existing, extra.drop_last());
        if exists|i: int| 0 <= i < prev.len() && prev[i].url == extra.last().url {
            prev
        } else {
            prev.push(extra.last())
        }
    }
}

fn has_url(s: &Vec<Source>, url: &String) -> (b: bool)
    ensures
        b == exists|i: int| 0 <= i < s@.len() && sources_view(s@)[i].url == url@,
{
    let mut i: usize = 0;
    while i < s.len()
        invariant
            i <= s@.len(),
            forall|k: int| 0 <= k < i ==> s@[k].url@ != url@,
        decreases s@.len() - i,
    {
        if s[i].url == *url {
            assert(sources_view(s@)[i as int].url == url@);
            return true;
        }
        i = i + 1;
    }
    false
}

/// Appends each extra source whose URL is not yet present.
pub fn merge_sources(existing: &mut Vec<Source>, extra: Vec<Source>)
    ensures
        sources_view(final(existing)@) == merged_sources(
            sources_view(old(existing)@),
            sources_view(extra@),
        ),
        forall|k: int|
            0 <= k < extra@.len() ==> url_listed(
                sources_view(final(existing)@),
                #[trigger] sources_view(extra@)[k].url,
            ),
{
    proof {
        law_merge_adds_every_new_url(sources_view(existing@), sources_view(extra@));
    }
    let ghost e0 = sources_view(existing@);
    let ghost xv = sources_view(extra@);
    let mut extra = extra;
    let ghost n = extra@.len();
    assert(xv.skip(0) =~= xv);
    assert(xv.take(0) =~= Seq::<SourceV>::empty());
    while extra.len() > 0
        invariant
            n == xv.len(),
            extra@.len() <= n,
            sources_view(extra@) == xv.skip(n - extra@.len()),
            sources_view(existing@) == merged_sources(e0, xv.take(n - extra@.len())),
        decreases extra@.len(),
    {
        let ghost k = n - extra@.len();
        let ghost before = extra@;
        assert(sources_view(before)[0] == xv.skip(k)[0]);
        assert(sources_view(before)[0] == before[0]@);
        let s = extra.remove(0);
        assert(s@ == xv[k]);
        assert(extra@ =~= before.skip(1));
        assert forall|j: int| 0 <= j < extra@.len() implies sources_view(extra@)[j] == xv.skip(
            k + 1,
        )[j] by {
            assert(sources_view(before)[j + 1] == xv.skip(k)[j + 1]);
            assert(sources_view(before)[j + 1] == before[j + 1]@);
        }
        assert(sources_view(extra@) =~= xv.skip(k + 1));
        assert(xv.take(k + 1).drop_last() =~= xv.take(k));
        if !has_url(existing, &s.url) {
            let ghost ev = sources_view(existing@);
            existing.push(s);
            assert(sources_view(existing@) =~= ev.push(xv[k]));
        }
    }
    assert(xv.take(n as int) =~= xv);
}


/// A copy of a list of strings.
pub fn clone_strings(v: &Vec<String>) -> (r: Vec<String>)
    ensures
        r.deep_view() == v.deep_view(),
{
    let mut out: Vec<String> = Vec::new();
    let mut i: usize = 0;
    while i < v.len()
        invariant
            i <= v@.len(),
            out.deep_view() == v.deep_view().take(i as int),
        decreases v@.len() - i,
    {
        let ghost before = out.deep_view();
        out.push(v[i].clone());
        assert(out.deep_view() =~= before.push(v@[i as int]@));
        assert(v.deep_view().take(i + 1) =~= v.deep_view().take(i as int).push(v@[i as int]@));
        i = i + 1;
    }
    assert(v.deep_view().take(v@.len() as int) =~= v.deep_view());
    out
}

fn clone_opt(o: &Option<String>) -> (r: Option<String>)
    ensures
        r.deep_view() == o.deep_view(),
{
    match o {
        Some(s) => Some(s.clone()),
        None => None,
    }
}

/// The tool summary recorded in a search artifact.
pub fn tool_summary(args: &SearchArgs) -> (r: ToolSummary)
    ensures
        r.web_search == !args.no_web_search,
        r.x_search == args.x_search,
        r.allowed_domains.deep_view() == args.allowed_domain.deep_view(),
        r.excluded_domains.deep_view() == args.excluded_domain.deep_view(),
        r.allowed_x_handles.deep_view() == args.allowed_x_handle.deep_view(),
        r.excluded_x_handles.deep_view() == args.excluded_x_handle.deep_view(),
        r.from_date.deep_view() == args.from_date.deep_view(),
        r.to_date.deep_view() == args.to_date.deep_view(),
        r.prefer_recent == args.prefer_recent,
        r.conflict_policy@ == conflict_policy_name(args.conflict_policy),
{
    ToolSummary {
        web_search: !args.no_web_search,
        x_search: args.x_search,
        allowed_domains: clone_strings(&args.allowed_domain),
        excluded_domains: clone_strings(&args.excluded_domain),
        allowed_x_handles: clone_strings(&args.allowed_x_handle),
        excluded_x_handles: clone_strings(&args.excluded_x_handle),
        from_date: clone_opt(&args.from_date),
        to_date: clone_opt(&args.to_date),
        prefer_recent: args.prefer_recent,
        conflict_policy: args.conflict_policy.name(),
    }
}

/// The model a search asks for: the per-request override, else the configured one.
pub fn requested_model(args: &SearchArgs, config: &crate::config::Config) -> (r: String)
    ensures
        r@ == (match args.model {
            Some(m) => m@,
            None => config.grok_model@,
        }),
{
    match &args.model {
        Some(m) => m.clone(),
        None => config.grok_model.clone(),
    }
}

/// The `id` strings of the `data` items of a `/models` reply, in order.
pub open spec fn model_ids_spec(items: Seq<JsonV>) -> Seq<Seq<char>>
    decreases items.len(),
{
    if items.len() == 0 {
        seq![]
    } else {
        model_ids_spec(items.drop_last()) + match crate::json::str_field(items.last(), "id"@) {
            Some(id) => seq![id],
            None => seq![],
        }
    }
}

/// The model ids listed by a `/models` reply.
pub fn model_ids(raw: &Json) -> (r: Vec<String>)
    ensures
        r.deep_view() == model_ids_spec(crate::source::items_field(jv(*raw), "data"@)),
{
    let mut ids: Vec<String> = Vec::new();
    if let Some(d) = raw.get("data") {
        if let Some(items) = d.as_array() {
            proof {
                lemma_jv_items(items@);
            }
            let ghost jvs = jv_items(items@);
            let mut i: usize = 0;
            while i < items.len()
                invariant
                    i <= items@.len(),
                    jvs == jv_items(items@),
                    jvs.len() == items@.len(),
                    forall|k: int| 0 <= k < items@.len() ==> #[trigger] jvs[k] == jv(items@[k]),
                    ids.deep_view() == model_ids_spec(jvs.take(i as int)),
                decreases items@.len() - i,
            {
                if let Some(x) = items[i].get("id") {
                    if let Some(id) = x.as_str() {
                        ids.push(id.clone());
                    }
                }
                proof {
                    assert(jvs.take(i + 1).drop_last() =~= jvs.take(i as int));
                    assert(jvs.take(i + 1).last() == jv(items@[i as int]));
                }
                assert(ids.deep_view() =~= model_ids_spec(jvs.take(i + 1)));
                i = i + 1;
            }
            assert(jvs.take(items@.len() as int) =~= jvs);
            return ids;
        }
    }
    assert(ids.deep_view() =~= model_ids_spec(crate::source::items_field(jv(*raw), "data"@)));
    ids
}

/// The warning recorded when the extra source search failed.
pub open spec fn extra_failure_warning(err: Seq<char>) -> Seq<char> {
    "extra_sources_failed: "@ + err
}

/// Sources and warnings of a search once the optional extra source search is in:
/// extra sources are merged; a failure keeps the response's own sources and adds
/// a warning.
pub open spec fn search_outcome(
    sources: Seq<SourceV>,
    warnings: Seq<Seq<char>>,
    extra: Option<Result<Seq<SourceV>, Seq<char>>>,
) -> (Seq<SourceV>, Seq<Seq<char>>) {
    match extra {
        None => (sources, warnings),
        Some(Ok(x)) => (merged_sources(sources, x), warnings),
        Some(Err(e)) => (sources, warnings.push(extra_failure_warning(e))),
    }
}

pub open spec fn extra_view(extra: Option<Result<Vec<Source>, String>>) -> Option<
    Result<Seq<SourceV>, Seq<char>>,
> {
    match extra {
        None => None,
        Some(Ok(x)) => Some(Ok(sources_view(x@))),
        Some(Err(e)) => Some(Err(e@)),
    }
}

/// Assembles the artifact of a finished search (not yet saved, so without a path).
/// `extra` is the outcome of the extra source search, when one was run.
pub fn build_artifact(
    args: &SearchArgs,
    id: String,
    created_at: String,
    query: String,
    model_requested: String,
    parsed: crate::source::ParsedResponse,
    raw: Json,
    extra: Option<Result<Vec<Source>, String>>,
) -> (r: SearchArtifact)
    ensures
        r.id@ == id@,
        r.created_at@ == created_at@,
        r.query@ == query@,
        r.model_requested@ == model_requested@,
        r.model_effective.deep_view() == parsed.effective_model.deep_view(),
        r.answer@ == parsed.answer@,
        crate::source::tool_calls_view(r.tool_calls@) == crate::source::tool_calls_view(parsed.tool_calls@),
        (sources_view(r.sources@), r.warnings.deep_view()) == search_outcome(
            sources_view(parsed.sources@),
            parsed.warnings.deep_view(),
            extra_view(extra),
        ),
        r.raw_response == (if args.include_raw {
            Some(raw)
        } else {
            None
        }),
        r.artifact_path is None,
        r.format == args.format,
        r.tool_summary.web_search == !args.no_web_search,
        r.tool_summary.x_search == args.x_search,
        r.tool_summary.from_date.deep_view() == args.from_date.deep_view(),
        r.tool_summary.to_date.deep_view() == args.to_date.deep_view(),
        r.tool_summary.allowed_domains.deep_view() == args.allowed_domain.deep_view(),
        r.tool_summary.excluded_domains.deep_view() == args.excluded_domain.deep_view(),
        r.tool_summary.allowed_x_handles.deep_view() == args.allowed_x_handle.deep_view(),
        r.tool_summary.excluded_x_handles.deep_view() == args.excluded_x_handle.deep_view(),
        r.tool_summary.prefer_recent == args.prefer_recent,
        r.tool_summary.conflict_policy@ == conflict_policy_name(args.conflict_policy),
{
    let crate::source::ParsedResponse {
        answer,
        effective_model,
        sources,
        tool_calls,
        output_types: _,
        warnings,
    } = parsed;
    let mut sources = sources;
    let mut warnings = warnings;
    match extra {
        None => {},
        Some(Ok(x)) => {
            merge_sources(&mut sources, x);
        },
        Some(Err(e)) => {
            let mut w = owned("extra_sources_failed: ");
            w.append(e.as_str());
            let ghost before = warnings.deep_view();
            warnings.push(w);
            assert(warnings.deep_view() =~= before.push(extra_failure_warning(e@)));
        },
    }
    SearchArtifact {
        id,
        created_at,
        query,
        model_requested,
        model_effective: effective_model,
        tool_summary: tool_summary(args),
        answer,
        sources,
        tool_calls,
        warnings,
        raw_response: if args.include_raw {
            Some(raw)
        } else {
            None
        },
        artifact_path: None,
        format: args.format,
    }
}


/// Whether some source in `s` has URL `u`.
pub open spec fn url_listed(s: Seq<SourceV>, u: Seq<char>) -> bool {
    exists|i: int| 0 <= i < s.len() && #[trigger] s[i].url == u
}

/// Merging loses no URL and adds only given sources: every extra source's URL is
/// in the result; an extra source whose URL is in neither the existing sources
/// nor an earlier extra source is in the result itself; and every merged source
/// is an existing or an extra one.
pub proof fn law_merge_adds_every_new_url(existing: Seq<SourceV>, extra: Seq<SourceV>)
    ensures
        forall|k: int|
            0 <= k < extra.len() ==> url_listed(merged_sources(existing, extra), #[trigger] extra[k].url),
        forall|k: int|
            0 <= k < extra.len() && !url_listed(existing, #[trigger] extra[k].url) && (forall|j: int|
                0 <= j < k ==> extra[j].url != extra[k].url) ==> merged_sources(
                existing,
                extra,
            ).contains(extra[k]),
        forall|i: int|
            0 <= i < merged_sources(existing, extra).len() ==> existing.contains(
                #[trigger] merged_sources(existing, extra)[i],
            ) || extra.contains(merged_sources(existing, extra)[i]),
    decreases extra.len(),
{
    let r = merged_sources(existing, extra);
    if extra.len() > 0 {
        let xs = extra.drop_last();
        law_merge_adds_every_new_url(existing, xs);
        let prev = merged_sources(existing, xs);
        let n = extra.len() - 1;
        let x = extra[n];
        assert(x == extra.last());
        let found = exists|i: int| 0 <= i < prev.len() && prev[i].url == x.url;
        assert(found ==> r == prev);
        assert(!found ==> r == prev.push(x));
        assert forall|i: int| 0 <= i < prev.len() implies #[trigger] r[i] == prev[i] by {}
        // every extra URL is listed
        assert forall|k: int| 0 <= k < extra.len() implies url_listed(r, #[trigger] extra[k].url) by {
            if k < n {
                assert(xs[k] == extra[k]);
                assert(url_listed(prev, xs[k].url));
                let i = choose|i: int| 0 <= i < prev.len() && #[trigger] prev[i].url == xs[k].url;
                assert(r[i] == prev[i]);
            } else if found {
                let i = choose|i: int| 0 <= i < prev.len() && prev[i].url == x.url;
                assert(r[i] == prev[i]);
            } else {
                assert(r[prev.len() as int] == x);
            }
        }
        // every merged source comes from the inputs
        assert forall|i: int| 0 <= i < r.len() implies existing.contains(#[trigger] r[i])
            || extra.contains(r[i]) by {
            if i < prev.len() {
                assert(r[i] == prev[i]);
                if xs.contains(prev[i]) {
                    let t = choose|t: int| 0 <= t < xs.len() && xs[t] == prev[i];
                    assert(extra[t] == xs[t]);
                }
            } else {
                assert(r[i] == extra[n]);
            }
        }
        // new extra sources are kept themselves
        assert forall|k: int|
            0 <= k < extra.len() && !url_listed(existing, #[trigger] extra[k].url) && (forall|j: int|
                0 <= j < k ==> extra[j].url != extra[k].url) implies r.contains(extra[k]) by {
            if k < n {
                assert(xs[k] == extra[k]);
                assert forall|j: int| 0 <= j < k implies xs[j].url != xs[k].url by {
                    assert(xs[j] == extra[j]);
                }
                assert(prev.contains(xs[k]));
                let i = choose|i: int| 0 <= i < prev.len() && prev[i] == xs[k];
                assert(r[i] == prev[i]);
            } else {
                if found {
                    let i = choose|i: int| 0 <= i < prev.len() && prev[i].url == x.url;
                    assert(existing.contains(#[trigger] prev[i]) || xs.contains(prev[i]));
                    if existing.contains(prev[i]) {
                        let t = choose|t: int| 0 <= t < existing.len() && existing[t] == prev[i];
                        assert(existing[t].url == x.url);
                        assert(url_listed(existing, extra[k].url));
                    } else {
                        let t = choose|t: int| 0 <= t < xs.len() && xs[t] == prev[i];
                        assert(extra[t] == xs[t]);
                        assert(extra[t].url == extra[k].url);
                    }
                } else {
                    assert(r[prev.len() as int] == x);
                }
            }
        }
    } else {
        assert forall|i: int| 0 <= i < r.len() implies existing.contains(#[trigger] r[i])
            || extra.contains(r[i]) by {
            assert(r[i] == existing[i]);
        }
    }
}

/// Merging keeps the response's own sources first and in order, and adds no
/// second source for a URL already present.
pub proof fn law_merge_keeps_existing_and_unique(existing: Seq<SourceV>, extra: Seq<SourceV>)
    ensures
        merged_sources(existing, extra).len() >= existing.len(),
        merged_sources(existing, extra).take(existing.len() as int) == existing,
        (forall|i: int, j: int|
            0 <= i < j < existing.len() ==> #[trigger] existing[i].url != #[trigger] existing[j].url)
            ==> (forall|i: int, j: int|
            0 <= i < j < merged_sources(existing, extra).len() ==> #[trigger] merged_sources(
                existing,
                extra,
            )[i].url != #[trigger] merged_sources(existing, extra)[j].url),
    decreases extra.len(),
{
    if extra.len() == 0 {
        assert(existing.take(existing.len() as int) =~= existing);
    } else {
        law_merge_keeps_existing_and_unique(existing, extra.drop_last());
        let prev = merged_sources(existing, extra.drop_last());
        let r = merged_sources(existing, extra);
        let x = extra.last();
        if !(exists|i: int| 0 <= i < prev.len() && prev[i].url == x.url) {
            assert(r == prev.push(x));
            assert(r.take(existing.len() as int) =~= prev.take(existing.len() as int));
            if forall|i: int, j: int|
                0 <= i < j < existing.len() ==> #[trigger] existing[i].url != #[trigger] existing[j].url {
                assert forall|i: int, j: int| 0 <= i < j < r.len() implies #[trigger] r[i].url
                    != #[trigger] r[j].url by {
                    if j == r.len() - 1 {
                        assert(r[i] == prev[i]);
                        assert(r[j] == x);
                    } else {
                        assert(r[i] == prev[i] && r[j] == prev[j]);
                    }
                }
            }
        }
    }
}

/// Cleaned handles are never blank, and at most ten are kept.
pub proof fn law_handles_clean(hs: Seq<Seq<char>>)
    ensures
        handles_spec(hs).len() <= hs.len(),
        forall|i: int| 0 <= i < handles_spec(hs).len() ==> #[trigger] handles_spec(hs)[i].len() > 0,
        handles_spec(prefix_upto(hs, 10)).len() <= 10,
    decreases hs.len(),
{
    if hs.len() > 0 {
        law_handles_clean(hs.drop_last());
        let prev = handles_spec(hs.drop_last());
        let r = handles_spec(hs);
        assert forall|i: int| 0 <= i < r.len() implies #[trigger] r[i].len() > 0 by {
            if i < prev.len() {
                assert(r[i] == prev[i]);
            }
        }
    }
    if hs.len() > 10 {
        law_handles_clean(hs.take(10));
    } else {
        law_handles_clean_len(hs);
    }
}

proof fn law_handles_clean_len(hs: Seq<Seq<char>>)
    ensures
        handles_spec(hs).len() <= hs.len(),
    decreases hs.len(),
{
    if hs.len() > 0 {
        law_handles_clean_len(hs.drop_last());
    }
}

} // verus!
