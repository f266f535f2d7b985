//! Request bodies and reply handling for Tavily extract, map and search.

use vstd::prelude::*;
use crate::cli::MapArgs;
use crate::json::{Json, JsonV, jv, jv_items, lemma_jv_items, jv_entries, lemma_jv_entries, field, str_field, lookup, parsed_json};
use crate::text::{owned, trim_spec, decimal};
use crate::source::{Candidate, CandV, items_field};
use crate::grok::{obj, entry, entry_if};

verus! {

/// Page content fetched through Tavily.
pub struct FetchResult {
    pub url: String,
    pub provider: String,
    pub markdown: String,
}

/// The result of a page fetch.
pub fn fetch_result(url: String, markdown: String) -> (r: FetchResult)
    ensures
        r.url@ == url@,
        r.provider@ == "tavily"@,
        r.markdown@ == markdown@,
{
    FetchResult { url, provider: owned("tavily"), markdown }
}

/// `x.clamp(lo, hi)`.
pub open spec fn clamp(x: int, lo: int, hi: int) -> int {
    if x < lo {
        lo
    } else if x > hi {
        hi
    } else {
        x
    }
}

fn clamp_u64(x: u64, lo: u64, hi: u64) -> (r: u64)
    requires
        lo <= hi,
    ensures
        r == clamp(x as int, lo as int, hi as int),
{
    if x < lo {
        lo
    } else if x > hi {
        hi
    } else {
        x
    }
}

/// A JSON number.
pub open spec fn num(n: int) -> JsonV {
    JsonV::Number(decimal(n as nat))
}

/// The body of a Tavily map request: limits clamped to what Tavily accepts,
/// instructions only when not blank.
pub open spec fn map_body_spec(a: MapArgs) -> JsonV {
    obj(
        entry("url"@, JsonV::Str(a.url@)) + entry("max_depth"@, num(clamp(a.max_depth as int, 1, 5)))
            + entry("max_breadth"@, num(clamp(a.max_breadth as int, 1, 500))) + entry(
            "limit"@,
            num(clamp(a.limit as int, 1, 500)),
        ) + entry("timeout"@, num(clamp(a.timeout_seconds as int, 10, 150))) + entry_if(
            trim_spec(a.instructions@).len() > 0,
            "instructions"@,
            JsonV::Str(a.instructions@),
        ),
    )
}

fn push_entry(es: &mut Vec<(String, Json)>, k: &str, v: Json)
    ensures
        jv_entries(final(es)@) == jv_entries(old(es)@) + seq![(k@, jv(v))],
{
    let ghost before = es@;
    let ghost vv = jv(v);
    es.push((owned(k), v));
    proof {
        lemma_jv_entries(before);
        lemma_jv_entries(es@);
        assert(jv_entries(es@) =~= jv_entries(before) + seq![(k@, vv)]);
    }
}

fn number(n: u64) -> (r: Json)
    ensures
        jv(r) == num(n as int),
{
    Json::Number(crate::text::decimal_text(n))
}

/// The body of a Tavily map request.
pub fn map_body(args: &MapArgs) -> (r: Json)
    ensures
        jv(r) == map_body_spec(*args),
{
    let mut es: Vec<(String, Json)> = Vec::new();
    proof {
        lemma_jv_entries(es@);
    }
    push_entry(&mut es, "url", Json::Str(args.url.clone()));
    push_entry(&mut es, "max_depth", number(clamp_u64(args.max_depth as u64, 1, 5)));
    push_entry(&mut es, "max_breadth", number(clamp_u64(args.max_breadth as u64, 1, 500)));
    push_entry(&mut es, "limit", number(clamp_u64(args.limit as u64, 1, 500)));
    push_entry(&mut es, "timeout", number(clamp_u64(args.timeout_seconds, 10, 150)));
    let t = crate::text::trim(args.instructions.as_str());
    if !t.as_str().is_empty() {
        push_entry(&mut es, "instructions", Json::Str(args.instructions.clone()));
    }
    let r = Json::Object(es);
    assert(jv(r) =~= map_body_spec(*args));
    r
}

/// The body of a Tavily extract request for one URL, as Markdown.
pub open spec fn extract_body_spec(url: Seq<char>) -> JsonV {
    obj(
        entry("urls"@, JsonV::Array(seq![JsonV::Str(url)])) + entry(
            "format"@,
            JsonV::Str("markdown"@),
        ),
    )
}

pub fn extract_body(url: &str) -> (r: Json)
    ensures
        jv(r) == extract_body_spec(url@),
{
    let mut urls: Vec<Json> = Vec::new();
    urls.push(Json::Str(owned(url)));
    proof {
        lemma_jv_items(urls@);
    }
    let mut es: Vec<(String, Json)> = Vec::new();
    proof {
        lemma_jv_entries(es@);
    }
    assert(jv_items(urls@) =~= seq![JsonV::Str(url@)]);
    let u = Json::Array(urls);
    assert(jv(u) == JsonV::Array(seq![JsonV::Str(url@)]));
    push_entry(&mut es, "urls", u);
    push_entry(&mut es, "format", Json::Str(owned("markdown")));
    let r = Json::Object(es);
    assert(jv(r) =~= extract_body_spec(url@));
    r
}

/// The body of a Tavily search request.
pub open spec fn search_body_spec(query: Seq<char>, limit: usize) -> JsonV {
    obj(
        entry("query"@, JsonV::Str(query)) + entry("max_results"@, num(limit as int)) + entry(
            "search_depth"@,
            JsonV::Str("advanced"@),
        ) + entry("include_raw_content"@, JsonV::Bool(false)) + entry(
            "include_answer"@,
            JsonV::Bool(false),
        ),
    )
}

pub fn search_body(query: &str, limit: usize) -> (r: Json)
    ensures
        jv(r) == search_body_spec(query@, limit),
{
    let mut es: Vec<(String, Json)> = Vec::new();
    proof {
        lemma_jv_entries(es@);
    }
    push_entry(&mut es, "query", Json::Str(owned(query)));
    push_entry(&mut es, "max_results", number(limit as u64));
    push_entry(&mut es, "search_depth", Json::Str(owned("advanced")));
    push_entry(&mut es, "include_raw_content", Json::Bool(false));
    push_entry(&mut es, "include_answer", Json::Bool(false));
    let r = Json::Object(es);
    assert(jv(r) =~= search_body_spec(query@, limit));
    r
}

/// The first element of an array, or the `"0"` entry of an object (a JSON
/// pointer step `/0`).
pub open spec fn step_zero(v: JsonV) -> Option<JsonV> {
    match v {
        JsonV::Array(items) => if items.len() > 0 {
            Some(items[0])
        } else {
            None
        },
        JsonV::Object(es) => lookup(es, "0"@),
        _ => None,
    }
}

/// `value.pointer("/results/0/raw_content")` as a string, or empty.
pub open spec fn raw_content_spec(v: JsonV) -> Seq<char> {
    match field(v, "results"@) {
        Some(r) => match step_zero(r) {
            Some(first) => match str_field(first, "raw_content"@) {
                Some(c) => c,
                None => seq![],
            },
            None => seq![],
        },
        None => seq![],
    }
}

fn step_zero_exec(v: &Json) -> (r: Option<&Json>)
    ensures
        r is None <==> step_zero(jv(*v)) is None,
        r matches Some(x) ==> step_zero(jv(*v)) == Some(jv(*x)),
{
    match v {
        Json::Array(items) => {
            proof {
                lemma_jv_items(items@);
            }
            if items.len() > 0 {
                Some(&items[0])
            } else {
                None
            }
        },
        Json::Object(_) => v.get("0"),
        _ => None,
    }
}

/// The page content of a Tavily extract reply; an error when it is blank.
pub fn extract_markdown(value: &Json) -> (r: Result<String, String>)
    ensures
        trim_spec(raw_content_spec(jv(*value))).len() > 0 ==> (r matches Ok(m) && m@
            == raw_content_spec(jv(*value))),
        trim_spec(raw_content_spec(jv(*value))).len() == 0 ==> (r matches Err(e) && e@
            == "Tavily returned empty content"@),
{
    let mut markdown = String::new();
    if let Some(results) = value.get("results") {
        if let Some(first) = step_zero_exec(results) {
            if let Some(c) = first.get("raw_content") {
                if let Some(s) = c.as_str() {
                    markdown = s.clone();
                }
            }
        }
    }
    assert(markdown@ == raw_content_spec(jv(*value)));
    let t = crate::text::trim(markdown.as_str());
    if t.as_str().is_empty() {
        Err(owned("Tavily returned empty content"))
    } else {
        Ok(markdown)
    }
}

/// Candidates of a Tavily search reply: each result with a string `url`.
pub open spec fn tavily_candidates_spec(items: Seq<JsonV>) -> Seq<CandV>
    decreases items.len(),
{
    if items.len() == 0 {
        seq![]
    } else {
        tavily_candidates_spec(items.drop_last()) + match str_field(items.last(), "url"@) {
            Some(u) => seq![
                (
                    u,
                    str_field(items.last(), "title"@),
                    str_field(items.last(), "content"@),
                    "tavily"@,
                ),
            ],
            None => seq![],
        }
    }
}

fn str_field_exec(v: &Json, key: &str) -> (r: Option<String>)
    ensures
        r.deep_view() == str_field(jv(*v), key@),
{
    match v.get(key) {
        Some(x) => match x.as_str() {
            Some(s) => Some(s.clone()),
            None => None,
        },
        None => None,
    }
}

/// Source candidates of a Tavily search reply.
pub fn tavily_candidates(value: &Json) -> (r: Vec<Candidate>)
    ensures
        r.deep_view() == tavily_candidates_spec(items_field(jv(*value), "results"@)),
{
    let mut out: Vec<Candidate> = Vec::new();
    if let Some(rs) = value.get("results") {
        if let Some(items) = rs.as_array() {
            proof {
                lemma_jv_items(items@);
            }
            let ghost jvs = jv_items(items@);
            let mut i: usize = 0;
            while i < items.len()
                invariant
                    i <= items@.len(),
                    jvs == jv_items(items@),
                    jvs.len() == items@.len(),
                    forall|k: int| 0 <= k < items@.len() ==> #[trigger] jvs[k] == jv(items@[k]),
                    out.deep_view() == tavily_candidates_spec(jvs.take(i as int)),
                decreases items@.len() - i,
            {
                if let Some(u) = str_field_exec(&items[i], "url") {
                    let t = str_field_exec(&items[i], "title");
                    let c = str_field_exec(&items[i], "content");
                    out.push((u, t, c, owned("tavily")));
                }
                proof {
                    assert(jvs.take(i + 1).drop_last() =~= jvs.take(i as int));
                    assert(jvs.take(i + 1).last() == jv(items@[i as int]));
                }
                assert(out.deep_view() =~= tavily_candidates_spec(jvs.take(i + 1)));
                i = i + 1;
            }
            assert(jvs.take(items@.len() as int) =~= jvs);
            return out;
        }
    }
    assert(out.deep_view() =~= tavily_candidates_spec(items_field(jv(*value), "results"@)));
    out
}

/// The outcome of the supplemental search: Tavily's sources when it was asked
/// (a key is configured) and returned some; otherwise an error.
pub fn supplemental_outcome(tavily: Option<Result<Vec<crate::source::Source>, String>>) -> (r: Result<
    Vec<crate::source::Source>,
    String,
>)
    ensures
        match tavily {
            Some(Ok(s)) if s@.len() > 0 => r matches Ok(x) && crate::source::sources_view(x@)
                == crate::source::sources_view(s@),
            _ => r matches Err(e) && e@ == "no supplemental source provider returned results"@,
        },
{
    match tavily {
        Some(Ok(s)) => {
            if s.len() > 0 {
                return Ok(s);
            }
        },
        _ => {},
    }
    Err(owned("no supplemental source provider returned results"))
}

/// The error of a reply with a failure status: its status and body, after
/// `<what> returned ` when the request is named.
pub open spec fn reply_status_error(what: Option<Seq<char>>, status: Seq<char>, body: Seq<char>) -> Seq<char> {
    match what {
        Some(w) => w + " returned HTTP "@ + status + ": "@ + body,
        None => "HTTP "@ + status + ": "@ + body,
    }
}

/// The error of a successful reply whose body is not JSON.
pub open spec fn reply_parse_error(what: Option<Seq<char>>) -> Seq<char> {
    match what {
        Some(w) => "parse "@ + w + " JSON"@,
        None => "parse JSON response"@,
    }
}

/// An HTTP reply as JSON: usable only with a success status and a JSON body.
/// `what` names the request in the error texts.
pub fn parse_reply(what: Option<&str>, success: bool, status: &str, body: &str) -> (r: Result<Json, String>)
    ensures
        !success ==> (r matches Err(e) && e@ == reply_status_error(
            match what {
                Some(w) => Some(w@),
                None => None,
            },
            status@,
            body@,
        )),
        success ==> (r is Ok <==> parsed_json(body@) is Some),
        success && parsed_json(body@) is None ==> (r matches Err(e) && e@ == reply_parse_error(
            match what {
                Some(w) => Some(w@),
                None => None,
            },
        )),
        r matches Ok(j) ==> parsed_json(body@) == Some(jv(j)),
{
    if !success {
        let mut e = match what {
            Some(w) => {
                let mut e = owned(w);
                e.append(" returned HTTP ");
                e
            },
            None => owned("HTTP "),
        };
        e.append(status);
        e.append(": ");
        e.append(body);
        return Err(e);
    }
    match crate::json::parse_json(body) {
        Some(j) => Ok(j),
        None => {
            let e = match what {
                Some(w) => {
                    let mut e = owned("parse ");
                    e.append(w);
                    e.append(" JSON");
                    e
                },
                None => owned("parse JSON response"),
            };
            Err(e)
        },
    }
}

} // verus!
