//! Diagnosis of the local setup: what is configured, whether the bird CLI can
//! fetch X posts, which models the endpoint offers, and a live X Search check.

use vstd::prelude::*;
use crate::config::{Config, MaskedConfig, masked_opt};
use crate::json::{Json, JsonV, jv, jv_entries, lemma_jv_entries};
use crate::grok::{obj, entry, entry_if, entry_opt, push_entry};
use crate::source::{ParsedResponse, SourceType, SourceV, sources_view, tool_calls_view, ToolCallV};
use crate::text::{owned, trim_spec, has_prefix};

verus! {

/// The summary checks of a diagnosis.
pub struct DoctorChecks {
    pub grok_configured: bool,
    pub model_configured: bool,
    pub tavily_configured: bool,
    pub bird_available: bool,
    pub bird_credentials_ok: bool,
}

/// What is known of the bird CLI.
pub struct BirdReport {
    pub available: bool,
    pub credentials_ok: bool,
    pub version: Option<String>,
    pub hint: String,
}

pub open spec fn hint_missing() -> Seq<char> {
    "Install bird CLI to fetch X sources locally, or use source index/links without fetching X bodies."@
}

pub open spec fn hint_broken() -> Seq<char> {
    "bird command exists but did not run successfully."@
}

pub open spec fn hint_ready() -> Seq<char> {
    "X source fetch is available through bird read --json."@
}

pub open spec fn hint_no_credentials() -> Seq<char> {
    "bird is installed, but credentials are not ready. source index/links still work; use --no-x for full batch fetch."@
}

/// The bird report from `bird --version` (absent when it could not be run; else
/// its success and standard output) and whether `bird check` succeeded.
pub fn bird_report(version: Option<(bool, String)>, check_ok: bool) -> (r: BirdReport)
    ensures
        match version {
            None => !r.available && !r.credentials_ok && r.version is None && r.hint@ == hint_missing(),
            Some((false, _)) => !r.available && !r.credentials_ok && r.version is None && r.hint@
                == hint_broken(),
            Some((true, out)) => r.available && r.credentials_ok == check_ok && r.version.deep_view()
                == Some(trim_spec(out@)) && r.hint@ == (if check_ok {
                hint_ready()
            } else {
                hint_no_credentials()
            }),
        },
{
    match version {
        None => BirdReport {
            available: false,
            credentials_ok: false,
            version: None,
            hint: owned(
                "Install bird CLI to fetch X sources locally, or use source index/links without fetching X bodies.",
            ),
        },
        Some((false, _)) => BirdReport {
            available: false,
            credentials_ok: false,
            version: None,
            hint: owned("bird command exists but did not run successfully."),
        },
        Some((true, out)) => BirdReport {
            available: true,
            credentials_ok: check_ok,
            version: Some(crate::text::trim(out.as_str())),
            hint: if check_ok {
                owned("X source fetch is available through bird read --json.")
            } else {
                owned(
                    "bird is installed, but credentials are not ready. source index/links still work; use --no-x for full batch fetch.",
                )
            },
        },
    }
}

/// The summary checks.
pub fn doctor_checks(config: &Config, bird: &BirdReport) -> (r: DoctorChecks)
    ensures
        r.grok_configured == (config.grok_api_url is Some && config.grok_api_key is Some),
        r.model_configured == (trim_spec(config.grok_model@).len() > 0),
        r.tavily_configured == config.tavily_api_key is Some,
        r.bird_available == bird.available,
        r.bird_credentials_ok == bird.credentials_ok,
{
    let t = crate::text::trim(config.grok_model.as_str());
    DoctorChecks {
        grok_configured: config.grok_api_url.is_some() && config.grok_api_key.is_some(),
        model_configured: !t.as_str().is_empty(),
        tavily_configured: config.tavily_api_key.is_some(),
        bird_available: bird.available,
        bird_credentials_ok: bird.credentials_ok,
    }
}

/// Models worth pointing out in a diagnosis.
pub open spec fn interesting_model_ids() -> Seq<Seq<char>> {
    seq![
        "grok-4.20-multi-agent-console"@,
        "grok-4.3"@,
        "grok-4.20"@,
        "grok-4.20-reasoning"@,
        "grok-4-1-fast-reasoning"@,
        "grok-4-fast-reasoning"@,
    ]
}

/// The listed models that are worth pointing out, in listing order.
pub open spec fn interesting_of(ids: Seq<Seq<char>>) -> Seq<Seq<char>>
    decreases ids.len(),
{
    if ids.len() == 0 {
        seq![]
    } else {
        interesting_of(ids.drop_last()) + if interesting_model_ids().contains(ids.last()) {
            seq![ids.last()]
        } else {
            seq![]
        }
    }
}

/// What the model listing says about the configuration.
pub struct ModelsCheck {
    pub count: usize,
    pub current_model: String,
    pub current_model_available: bool,
    pub interesting_models: Vec<String>,
}

fn is_interesting(id: &String) -> (b: bool)
    ensures
        b == interesting_model_ids().contains(id@),
{
    let names: [&str; 6] = [
        "grok-4.20-multi-agent-console",
        "grok-4.3",
        "grok-4.20",
        "grok-4.20-reasoning",
        "grok-4-1-fast-reasoning",
        "grok-4-fast-reasoning",
    ];
    assert(names@.map_values(|s: &str| s@) =~= interesting_model_ids());
    let mut i: usize = 0;
    while i < 6
        invariant
            i <= 6,
            names@.map_values(|s: &str| s@) == interesting_model_ids(),
            forall|k: int| 0 <= k < i ==> #[trigger] interesting_model_ids()[k] != id@,
        decreases 6 - i,
    {
        if crate::text::same_text(names[i], id.as_str()) {
            assert(interesting_model_ids()[i as int] == id@);
            return true;
        }
        i = i + 1;
    }
    false
}

/// The model check of a diagnosis from the listed model ids.
pub fn models_check(ids: &Vec<String>, current_model: &str) -> (r: ModelsCheck)
    ensures
        r.count == ids@.len(),
        r.current_model@ == current_model@,
        r.current_model_available == ids.deep_view().contains(current_model@),
        r.interesting_models.deep_view() == interesting_of(ids.deep_view()),
{
    let ghost dv = ids.deep_view();
    let mut available = false;
    let mut interesting: Vec<String> = Vec::new();
    let mut i: usize = 0;
    while i < ids.len()
        invariant
            i <= ids@.len(),
            dv == ids.deep_view(),
            available == dv.take(i as int).contains(current_model@),
            interesting.deep_view() == interesting_of(dv.take(i as int)),
        decreases ids@.len() - i,
    {
        proof {
            assert(dv.take(i + 1).drop_last() =~= dv.take(i as int));
            assert(dv.take(i + 1).last() == ids@[i as int]@);
        }
        if crate::text::same_text(ids[i].as_str(), current_model) {
            assert(dv.take(i + 1)[i as int] == current_model@);
            available = true;
        } else {
            proof {
                let t1 = dv.take(i + 1);
                let t0 = dv.take(i as int);
                assert(t1[i as int] != current_model@);
                if t0.contains(current_model@) {
                    let k = choose|k: int| 0 <= k < t0.len() && t0[k] == current_model@;
                    assert(t1[k] == current_model@);
                }
                if t1.contains(current_model@) {
                    let k = choose|k: int| 0 <= k < t1.len() && t1[k] == current_model@;
                    assert(t0[k] == current_model@);
                }
            }
        }
        if is_interesting(&ids[i]) {
            let ghost before = interesting.deep_view();
            interesting.push(ids[i].clone());
            assert(interesting.deep_view() =~= before.push(ids@[i as int]@));
        }
        assert(interesting.deep_view() =~= interesting_of(dv.take(i + 1)));
        i = i + 1;
    }
    assert(dv.take(ids@.len() as int) =~= dv);
    ModelsCheck {
        count: ids.len(),
        current_model: owned(current_model),
        current_model_available: available,
        interesting_models: interesting,
    }
}

/// The live X Search check from a parsed smoke-test response.
pub struct XSearchCheck {
    pub ok: bool,
    pub x_sources_count: usize,
    pub sample_x_urls: Vec<String>,
}

/// URLs of the X sources, in order.
pub open spec fn x_urls_of(s: Seq<SourceV>) -> Seq<Seq<char>>
    decreases s.len(),
{
    if s.len() == 0 {
        seq![]
    } else {
        x_urls_of(s.drop_last()) + if s.last().source_type == SourceType::X {
            seq![s.last().url]
        } else {
            seq![]
        }
    }
}

/// Some tool call name starts with `x_`.
pub open spec fn used_x_tool(calls: Seq<ToolCallV>) -> bool {
    exists|i: int| 0 <= i < calls.len() && has_prefix(#[trigger] calls[i].name, "x_"@)
}

/// The check passes when an X tool was called; it counts X sources and samples
/// the first three.
pub fn x_search_check(parsed: &ParsedResponse) -> (r: XSearchCheck)
    ensures
        r.ok == used_x_tool(tool_calls_view(parsed.tool_calls@)),
        r.x_sources_count == x_urls_of(sources_view(parsed.sources@)).len(),
        r.sample_x_urls.deep_view() == crate::text::prefix_upto(
            x_urls_of(sources_view(parsed.sources@)),
            3,
        ),
{
    let ghost tv = tool_calls_view(parsed.tool_calls@);
    let mut ok = false;
    let mut i: usize = 0;
    while i < parsed.tool_calls.len()
        invariant
            i <= parsed.tool_calls@.len(),
            tv == tool_calls_view(parsed.tool_calls@),
            !ok ==> forall|k: int| 0 <= k < i ==> !has_prefix(#[trigger] tv[k].name, "x_"@),
            ok ==> used_x_tool(tv),
        decreases parsed.tool_calls@.len() - i,
    {
        if crate::text::starts_with(parsed.tool_calls[i].name.as_str(), "x_") {
            assert(has_prefix(tv[i as int].name, "x_"@));
            ok = true;
        }
        i = i + 1;
    }
    let ghost sv = sources_view(parsed.sources@);
    let mut urls: Vec<String> = Vec::new();
    let mut j: usize = 0;
    while j < parsed.sources.len()
        invariant
            j <= parsed.sources@.len(),
            sv == sources_view(parsed.sources@),
            urls.deep_view() == x_urls_of(sv.take(j as int)),
        decreases parsed.sources@.len() - j,
    {
        proof {
            assert(sv.take(j + 1).drop_last() =~= sv.take(j as int));
            assert(sv.take(j + 1).last() == parsed.sources@[j as int]@);
        }
        if parsed.sources[j].source_type == SourceType::X {
            let ghost before = urls.deep_view();
            urls.push(parsed.sources[j].url.clone());
            assert(urls.deep_view() =~= before.push(parsed.sources@[j as int].url@));
        }
        assert(urls.deep_view() =~= x_urls_of(sv.take(j + 1)));
        j = j + 1;
    }
    assert(sv.take(parsed.sources@.len() as int) =~= sv);
    let count = urls.len();
    let ghost all = urls.deep_view();
    urls.truncate(3);
    assert(urls.deep_view() =~= crate::text::prefix_upto(all, 3));
    XSearchCheck { ok, x_sources_count: count, sample_x_urls: urls }
}

/// The masked configuration as JSON.
pub open spec fn masked_json(m: MaskedConfig) -> JsonV {
    obj(
        entry("config_file"@, JsonV::Str(m.config_file@)) + entry(
            "grok_api_url"@,
            JsonV::Str(m.grok_api_url@),
        ) + entry("grok_api_key"@, JsonV::Str(m.grok_api_key@)) + entry(
            "grok_model"@,
            JsonV::Str(m.grok_model@),
        ) + entry("tavily_api_url"@, JsonV::Str(m.tavily_api_url@)) + entry(
            "tavily_api_key"@,
            JsonV::Str(m.tavily_api_key@),
        ),
    )
}

/// The configuration as a diagnosis shows it: masked, as JSON.
pub open spec fn config_json(c: Config) -> JsonV {
    obj(
        entry("config_file"@, JsonV::Str(c.config_file@)) + entry(
            "grok_api_url"@,
            JsonV::Str(
                match c.grok_api_url {
                    Some(u) => u@,
                    None => "not configured"@,
                },
            ),
        ) + entry("grok_api_key"@, JsonV::Str(masked_opt(c.grok_api_key.deep_view()))) + entry(
            "grok_model"@,
            JsonV::Str(c.grok_model@),
        ) + entry("tavily_api_url"@, JsonV::Str(c.tavily_api_url@)) + entry(
            "tavily_api_key"@,
            JsonV::Str(masked_opt(c.tavily_api_key.deep_view())),
        ),
    )
}

/// The summary checks of a configuration and a bird report.
pub open spec fn doctor_checks_spec(config: Config, bird: BirdReport) -> DoctorChecks {
    DoctorChecks {
        grok_configured: config.grok_api_url is Some && config.grok_api_key is Some,
        model_configured: trim_spec(config.grok_model@).len() > 0,
        tavily_configured: config.tavily_api_key is Some,
        bird_available: bird.available,
        bird_credentials_ok: bird.credentials_ok,
    }
}

/// The summary checks as JSON.
pub open spec fn checks_json(c: DoctorChecks) -> JsonV {
    obj(
        entry("grok_configured"@, JsonV::Bool(c.grok_configured)) + entry(
            "model_configured"@,
            JsonV::Bool(c.model_configured),
        ) + entry("tavily_configured"@, JsonV::Bool(c.tavily_configured)) + entry(
            "bird_available"@,
            JsonV::Bool(c.bird_available),
        ) + entry("bird_credentials_ok"@, JsonV::Bool(c.bird_credentials_ok)),
    )
}

/// The bird report as JSON; the version only when bird ran.
pub open spec fn bird_json(b: BirdReport) -> JsonV {
    obj(
        entry("available"@, JsonV::Bool(b.available)) + entry(
            "credentials_ok"@,
            JsonV::Bool(b.credentials_ok),
        ) + entry_opt("version"@, b.version.deep_view()) + entry("hint"@, JsonV::Str(b.hint@)),
    )
}

/// A diagnosis: the masked configuration, the summary checks and the bird
/// report; the model listing only when Grok is configured, the live X Search
/// check only when one was run.
pub open spec fn doctor_report_spec(
    config: Config,
    bird: BirdReport,
    models: Option<JsonV>,
    x_search: Option<JsonV>,
) -> JsonV {
    let grok = config.grok_api_url is Some && config.grok_api_key is Some;
    obj(
        entry("config"@, config_json(config)) + entry(
            "checks"@,
            checks_json(doctor_checks_spec(config, bird)),
        ) + entry("bird"@, bird_json(bird)) + match models {
            Some(m) if grok => entry("models"@, m),
            _ => seq![],
        } + match x_search {
            Some(x) => entry("x_search"@, x),
            None => seq![],
        },
    )
}

fn masked_json_exec(m: &MaskedConfig) -> (r: Json)
    ensures
        jv(r) == masked_json(*m),
{
    let mut es: Vec<(String, Json)> = Vec::new();
    proof {
        lemma_jv_entries(es@);
    }
    push_entry(&mut es, "config_file", Json::Str(m.config_file.clone()));
    push_entry(&mut es, "grok_api_url", Json::Str(m.grok_api_url.clone()));
    push_entry(&mut es, "grok_api_key", Json::Str(m.grok_api_key.clone()));
    push_entry(&mut es, "grok_model", Json::Str(m.grok_model.clone()));
    push_entry(&mut es, "tavily_api_url", Json::Str(m.tavily_api_url.clone()));
    push_entry(&mut es, "tavily_api_key", Json::Str(m.tavily_api_key.clone()));
    let r = Json::Object(es);
    assert(jv(r) =~= masked_json(*m));
    r
}

fn checks_json_exec(c: &DoctorChecks) -> (r: Json)
    ensures
        jv(r) == checks_json(*c),
{
    let mut es: Vec<(String, Json)> = Vec::new();
    proof {
        lemma_jv_entries(es@);
    }
    push_entry(&mut es, "grok_configured", Json::Bool(c.grok_configured));
    push_entry(&mut es, "model_configured", Json::Bool(c.model_configured));
    push_entry(&mut es, "tavily_configured", Json::Bool(c.tavily_configured));
    push_entry(&mut es, "bird_available", Json::Bool(c.bird_available));
    push_entry(&mut es, "bird_credentials_ok", Json::Bool(c.bird_credentials_ok));
    let r = Json::Object(es);
    assert(jv(r) =~= checks_json(*c));
    r
}

fn bird_json_exec(b: &BirdReport) -> (r: Json)
    ensures
        jv(r) == bird_json(*b),
{
    let mut es: Vec<(String, Json)> = Vec::new();
    proof {
        lemma_jv_entries(es@);
    }
    push_entry(&mut es, "available", Json::Bool(b.available));
    push_entry(&mut es, "credentials_ok", Json::Bool(b.credentials_ok));
    if let Some(v) = &b.version {
        push_entry(&mut es, "version", Json::Str(v.clone()));
    }
    push_entry(&mut es, "hint", Json::Str(b.hint.clone()));
    let r = Json::Object(es);
    assert(jv(r) =~= bird_json(*b));
    r
}

/// Assembles a diagnosis report. `models` is the model listing check and
/// `x_search` the live X Search check, each when it was run.
pub fn doctor_report(config: &Config, bird: &BirdReport, models: Option<Json>, x_search: Option<Json>) -> (r: Json)
    ensures
        jv(r) == doctor_report_spec(
            *config,
            *bird,
            match models {
                Some(m) => Some(jv(m)),
                None => None,
            },
            match x_search {
                Some(x) => Some(jv(x)),
                None => None,
            },
        ),
{
    let masked = config.masked();
    let checks = doctor_checks(config, bird);
    let mut es: Vec<(String, Json)> = Vec::new();
    proof {
        lemma_jv_entries(es@);
    }
    push_entry(&mut es, "config", masked_json_exec(&masked));
    push_entry(&mut es, "checks", checks_json_exec(&checks));
    push_entry(&mut es, "bird", bird_json_exec(bird));
    if checks.grok_configured {
        if let Some(m) = models {
            push_entry(&mut es, "models", m);
        }
    }
    if let Some(x) = x_search {
        push_entry(&mut es, "x_search", x);
    }
    let r = Json::Object(es);
    assert(jv(r) =~= doctor_report_spec(
        *config,
        *bird,
        match models {
            Some(m) => Some(jv(m)),
            None => None,
        },
        match x_search {
            Some(x) => Some(jv(x)),
            None => None,
        },
    ));
    r
}

} // verus!
