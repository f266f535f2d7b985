//! The text forms of command results (each line as `println!` ends it).

use vstd::prelude::*;
use crate::artifact::SearchArtifact;
use crate::config::MaskedConfig;
use crate::source::{Source, SourceType, SourceV, sources_view};
use crate::text::{owned, trim_spec, decimal, join_spec};

verus! {

/// `format!("{:?}", source_type)`.
pub open spec fn source_type_label(t: SourceType) -> Seq<char> {
    match t {
        SourceType::X => "X"@,
        SourceType::Web => "Web"@,
        SourceType::Unknown => "Unknown"@,
    }
}

fn source_type_label_exec(t: SourceType) -> (r: &'static str)
    ensures
        r@ == source_type_label(t),
{
    match t {
        SourceType::X => "X",
        SourceType::Web => "Web",
        SourceType::Unknown => "Unknown",
    }
}

/// The text summary of a search: answer, then session facts.
pub open spec fn search_text_spec(
    answer: Seq<char>,
    id: Seq<char>,
    path: Option<Seq<char>>,
    sources: nat,
    calls: nat,
    warnings: Seq<Seq<char>>,
) -> Seq<char> {
    trim_spec(answer) + "\n\n"@ + "session_id: "@ + id + "\n"@ + (match path {
        Some(p) => "artifact: "@ + p + "\n"@,
        None => seq![],
    }) + "sources_count: "@ + decimal(sources) + "\n"@ + "tool_calls: "@ + decimal(calls) + "\n"@
        + if warnings.len() > 0 {
        "warnings: "@ + join_spec(warnings, ", "@) + "\n"@
    } else {
        seq![]
    }
}

/// The text summary of a search.
pub fn search_artifact_text(a: &SearchArtifact) -> (r: String)
    ensures
        r@ == search_text_spec(
            a.answer@,
            a.id@,
            a.artifact_path.deep_view(),
            a.sources@.len(),
            a.tool_calls@.len(),
            a.warnings.deep_view(),
        ),
{
    let mut r = crate::text::trim(a.answer.as_str());
    r.append("\n\n");
    r.append("session_id: ");
    r.append(a.id.as_str());
    r.append("\n");
    if let Some(p) = &a.artifact_path {
        r.append("artifact: ");
        r.append(p.as_str());
        r.append("\n");
    }
    r.append("sources_count: ");
    let n = crate::text::decimal_text(a.sources.len() as u64);
    r.append(n.as_str());
    r.append("\n");
    r.append("tool_calls: ");
    let m = crate::text::decimal_text(a.tool_calls.len() as u64);
    r.append(m.as_str());
    r.append("\n");
    if a.warnings.len() > 0 {
        r.append("warnings: ");
        let w = crate::text::join(&a.warnings, ", ");
        r.append(w.as_str());
        r.append("\n");
    }
    assert(r@ =~= search_text_spec(
        a.answer@,
        a.id@,
        a.artifact_path.deep_view(),
        a.sources@.len(),
        a.tool_calls@.len(),
        a.warnings.deep_view(),
    ));
    r
}

/// The optional line `<prefix><value>` of a source.
pub open spec fn opt_line(prefix: Seq<char>, v: Option<Seq<char>>) -> Seq<char> {
    match v {
        Some(x) => prefix + x + "\n"@,
        None => seq![],
    }
}

/// The first line of a listed source: number, title (or URL) and kind.
pub open spec fn head_line(n: nat, title: Option<Seq<char>>, url: Seq<char>, t: SourceType) -> Seq<char> {
    decimal(n) + ". "@ + (match title {
        Some(x) => x,
        None => url,
    }) + " ("@ + source_type_label(t) + ")\n"@
}

/// The text lines of one source, numbered from one.
pub open spec fn source_text(n: nat, s: SourceV) -> Seq<char> {
    head_line(n, s.title, s.url, s.source_type) + "   "@ + s.url + "\n"@ + opt_line(
        "   handle: @"@,
        s.handle,
    ) + opt_line("   post_id: "@, s.post_id)
}

pub open spec fn sources_text_spec(s: Seq<SourceV>) -> Seq<char>
    decreases s.len(),
{
    if s.len() == 0 {
        seq![]
    } else {
        sources_text_spec(s.drop_last()) + source_text(s.len(), s.last())
    }
}

fn append_opt_line(r: &mut String, prefix: &str, v: &Option<String>)
    ensures
        final(r)@ == old(r)@ + opt_line(prefix@, v.deep_view()),
{
    let ghost before = r@;
    if let Some(x) = v {
        r.append(prefix);
        r.append(x.as_str());
        r.append("\n");
        assert(r@ =~= before + opt_line(prefix@, v.deep_view()));
    } else {
        assert(r@ =~= before + opt_line(prefix@, v.deep_view()));
    }
}

fn append_head_line(r: &mut String, n: u64, title: &Option<String>, url: &String, t: SourceType)
    ensures
        final(r)@ == old(r)@ + head_line(n as nat, title.deep_view(), url@, t),
{
    let ghost before = r@;
    let d = crate::text::decimal_text(n);
    r.append(d.as_str());
    r.append(". ");
    match title {
        Some(x) => r.append(x.as_str()),
        None => r.append(url.as_str()),
    }
    r.append(" (");
    r.append(source_type_label_exec(t));
    r.append(")\n");
    assert(r@ =~= before + head_line(n as nat, title.deep_view(), url@, t));
}

fn append_source_text(r: &mut String, n: u64, s: &Source)
    ensures
        final(r)@ == old(r)@ + source_text(n as nat, s@),
{
    let ghost before = r@;
    append_head_line(r, n, &s.title, &s.url, s.source_type);
    let ghost a = r@;
    r.append("   ");
    r.append(s.url.as_str());
    r.append("\n");
    let ghost b = r@;
    assert(b =~= a + "   "@ + s.url@ + "\n"@);
    append_opt_line(r, "   handle: @", &s.handle);
    append_opt_line(r, "   post_id: ", &s.post_id);
    assert(r@ =~= before + source_text(n as nat, s@));
}

/// The numbered source listing.
pub fn sources_text(sources: &Vec<Source>) -> (r: String)
    ensures
        r@ == sources_text_spec(sources_view(sources@)),
{
    let ghost sv = sources_view(sources@);
    let mut r = String::new();
    let mut i: usize = 0;
    while i < sources.len()
        invariant
            i <= sources@.len(),
            sv == sources_view(sources@),
            r@ == sources_text_spec(sv.take(i as int)),
        decreases sources@.len() - i,
    {
        let s = &sources[i];
        let ghost before = r@;
        append_source_text(&mut r, (i as u64) + 1, s);
        proof {
            assert(sv.take(i + 1).drop_last() =~= sv.take(i as int));
            assert(sv.take(i + 1).last() == s@);
            assert(sv.take(i + 1).len() == i + 1);
        }
        assert(r@ =~= before + source_text((i + 1) as nat, s@));
        i = i + 1;
    }
    assert(sv.take(sources@.len() as int) =~= sv);
    r
}

pub open spec fn lines_spec(items: Seq<Seq<char>>) -> Seq<char>
    decreases items.len(),
{
    if items.len() == 0 {
        seq![]
    } else {
        lines_spec(items.drop_last()) + items.last() + "\n"@
    }
}

/// One model per line.
pub fn models_text(models: &Vec<String>) -> (r: String)
    ensures
        r@ == lines_spec(models.deep_view()),
{
    let ghost dv = models.deep_view();
    let mut r = String::new();
    let mut i: usize = 0;
    while i < models.len()
        invariant
            i <= models@.len(),
            dv == models.deep_view(),
            r@ == lines_spec(dv.take(i as int)),
        decreases models@.len() - i,
    {
        r.append(models[i].as_str());
        r.append("\n");
        proof {
            assert(dv.take(i + 1).drop_last() =~= dv.take(i as int));
            assert(dv.take(i + 1).last() == models@[i as int]@);
        }
        i = i + 1;
    }
    assert(dv.take(models@.len() as int) =~= dv);
    r
}

/// The masked configuration, one `name: value` line each.
pub open spec fn config_text_spec(m: MaskedConfig) -> Seq<char> {
    "config_file: "@ + m.config_file@ + "\n"@ + "grok_api_url: "@ + m.grok_api_url@ + "\n"@
        + "grok_api_key: "@ + m.grok_api_key@ + "\n"@ + "grok_model: "@ + m.grok_model@ + "\n"@
        + "tavily_api_url: "@ + m.tavily_api_url@ + "\n"@ + "tavily_api_key: "@ + m.tavily_api_key@
        + "\n"@
}

pub fn config_text(m: &MaskedConfig) -> (r: String)
    ensures
        r@ == config_text_spec(*m),
{
    let mut r = owned("config_file: ");
    r.append(m.config_file.as_str());
    r.append("\n");
    r.append("grok_api_url: ");
    r.append(m.grok_api_url.as_str());
    r.append("\n");
    r.append("grok_api_key: ");
    r.append(m.grok_api_key.as_str());
    r.append("\n");
    r.append("grok_model: ");
    r.append(m.grok_model.as_str());
    r.append("\n");
    r.append("tavily_api_url: ");
    r.append(m.tavily_api_url.as_str());
    r.append("\n");
    r.append("tavily_api_key: ");
    r.append(m.tavily_api_key.as_str());
    r.append("\n");
    assert(r@ =~= config_text_spec(*m));
    r
}

} // verus!
