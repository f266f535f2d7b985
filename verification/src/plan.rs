//! A lightweight execution plan for complex searches.

use vstd::prelude::*;
use crate::cli::PlanArgs;
use crate::json::{Json, JsonV, jv, jv_items, lemma_jv_items, jv_entries, lemma_jv_entries};
use crate::text::{has_sub, lowercase_of, join_spec, owned};
use crate::source::urls_in;
use crate::grok::{obj, entry, str_array};

verus! {

/// Words that mark a question as time-sensitive.
pub open spec fn realtime_needles() -> Seq<Seq<char>> {
    seq![
        "latest"@,
        "recent"@,
        "today"@,
        "now"@,
        "current"@,
        "real-time"@,
        "realtime"@,
        "最新"@,
        "最近"@,
        "今天"@,
        "现在"@,
        "当前"@,
        "实时"@,
    ]
}

/// A question is realtime when it, or its lower-case form, holds one of the needles.
pub open spec fn is_realtime_spec(q: Seq<char>) -> bool {
    exists|i: int|
        0 <= i < realtime_needles().len() && (has_sub(lowercase_of(q), #[trigger] realtime_needles()[i])
            || has_sub(q, realtime_needles()[i]))
}

/// Whether the question asks about recent or current events.
pub fn is_realtime(query: &str) -> (b: bool)
    ensures
        b == is_realtime_spec(query@),
        b == mentions_time_word(query@),
{
    proof {
        law_realtime_words(query@);
    }
    let lower = crate::text::to_lowercase(query);
    let needles: [&str; 13] = [
        "latest",
        "recent",
        "today",
        "now",
        "current",
        "real-time",
        "realtime",
        "最新",
        "最近",
        "今天",
        "现在",
        "当前",
        "实时",
    ];
    assert(needles@.map_values(|s: &str| s@) =~= realtime_needles());
    let mut i: usize = 0;
    while i < 13
        invariant
            i <= 13,
            needles@.map_values(|s: &str| s@) == realtime_needles(),
            lower@ == lowercase_of(query@),
            forall|k: int|
                0 <= k < i ==> !(has_sub(lowercase_of(query@), #[trigger] realtime_needles()[k])
                    || has_sub(query@, realtime_needles()[k])),
        decreases 13 - i,
    {
        let n = needles[i];
        assert(n@ == realtime_needles()[i as int]);
        if crate::text::contains_str(lower.as_str(), n) || crate::text::contains_str(query, n) {
            return true;
        }
        i = i + 1;
    }
    false
}

/// Whether the question is about X or community discussion.
pub open spec fn is_x_related_spec(q: Seq<char>) -> bool {
    let lower = lowercase_of(q);
    has_sub(lower, " x "@) || has_sub(lower, "twitter"@) || has_sub(lower, "tweet"@) || has_sub(
        lower,
        "community"@,
    ) || has_sub(lower, "社区"@)
}

pub fn is_x_related(query: &str) -> (b: bool)
    ensures
        b == is_x_related_spec(query@),
{
    let lower = crate::text::to_lowercase(query);
    let l = lower.as_str();
    crate::text::contains_str(l, " x ") || crate::text::contains_str(l, "twitter")
        || crate::text::contains_str(l, "tweet") || crate::text::contains_str(l, "community")
        || crate::text::contains_str(l, "社区")
}

/// One planned command.
pub open spec fn planned(command: Seq<char>, args: Seq<Seq<char>>, purpose: Seq<char>) -> JsonV {
    obj(
        entry("command"@, JsonV::Str(command)) + entry("args"@, str_array(args)) + entry(
            "purpose"@,
            JsonV::Str(purpose),
        ),
    )
}

/// The arguments of the planned search.
pub open spec fn search_args_spec(q: Seq<char>, x: bool, from: Option<Seq<char>>) -> Seq<Seq<char>> {
    seq!["search"@] + (if x {
        seq!["--x-search"@]
    } else {
        seq![]
    }) + (match from {
        Some(f) => seq!["--from-date"@, f, "--prefer-recent"@],
        None => seq![],
    }) + seq![q]
}

/// The planned commands: a fetch for each URL in the question, then the search.
pub open spec fn plan_commands(q: Seq<char>, x: bool, from: Option<Seq<char>>) -> Seq<JsonV> {
    urls_in(q).map_values(|u: Seq<char>| planned("fetch"@, seq![u], "read a known source URL"@))
        + seq![
        planned(
            "search"@,
            search_args_spec(q, x, from),
            if x {
                "X community source reconnaissance"@
            } else {
                "Grok realtime source reconnaissance"@
            },
        ),
    ]
}

/// The plan for a question; `recent_from` is the date fourteen days before today,
/// used when the question is time-sensitive.
pub open spec fn plan_spec(q: Seq<char>, recent_from: Seq<char>) -> JsonV {
    let x = is_x_related_spec(q);
    let rt = is_realtime_spec(q);
    let from = if rt {
        Some(recent_from)
    } else {
        None
    };
    obj(
        entry("core_question"@, JsonV::Str(q)) + entry(
            "time_sensitivity"@,
            JsonV::Str(
                if rt {
                    "realtime_or_recent"@
                } else {
                    "unknown_or_historical"@
                },
            ),
        ) + entry(
            "recommended_surface"@,
            JsonV::Str(
                if x {
                    "x_search_surface"@
                } else {
                    "web_search_surface"@
                },
            ),
        ) + entry("commands"@, JsonV::Array(plan_commands(q, x, from))) + entry(
            "notes"@,
            str_array(
                seq![
                    "This is a CLI execution plan, not a mandatory pre-search phase."@,
                    "External verification remains the agent workflow's responsibility."@,
                ],
            ),
        ),
    )
}

fn str_array_exec(v: Vec<String>) -> (r: Json)
    ensures
        jv(r) == str_array(v.deep_view()),
{
    let mut out: Vec<Json> = Vec::new();
    let mut i: usize = 0;
    let ghost dv = v.deep_view();
    while i < v.len()
        invariant
            i <= v@.len(),
            dv == v.deep_view(),
            out@.len() == i,
            forall|k: int| 0 <= k < i ==> #[trigger] jv(out@[k]) == JsonV::Str(dv[k]),
        decreases v@.len() - i,
    {
        out.push(Json::Str(v[i].clone()));
        i = i + 1;
    }
    proof {
        lemma_jv_items(out@);
        assert(jv_items(out@) =~= dv.map_values(|x: Seq<char>| JsonV::Str(x)));
    }
    Json::Array(out)
}

fn planned_exec(command: &str, args: Vec<String>, purpose: &str) -> (r: Json)
    ensures
        jv(r) == planned(command@, args.deep_view(), purpose@),
{
    let mut es: Vec<(String, Json)> = Vec::new();
    let a = str_array_exec(args);
    let ghost ja = jv(a);
    es.push((owned("command"), Json::Str(owned(command))));
    es.push((owned("args"), a));
    es.push((owned("purpose"), Json::Str(owned(purpose))));
    proof {
        lemma_jv_entries(es@);
        assert(jv_entries(es@) =~= entry("command"@, JsonV::Str(command@)) + entry("args"@, ja) + entry(
            "purpose"@,
            JsonV::Str(purpose@),
        ));
    }
    Json::Object(es)
}

/// Builds the plan for `args`; `recent_from` is the date fourteen days before
/// today (`YYYY-MM-DD`), used when the question is time-sensitive.
pub fn build_plan(args: &PlanArgs, recent_from: &str) -> (r: Json)
    ensures
        jv(r) == plan_spec(join_spec(args.query.deep_view(), " "@), recent_from@),
{
    let query = args.query_text();
    let q = query.as_str();
    let urls = crate::source::extract_urls(q);
    let x = is_x_related(q);
    let rt = is_realtime(q);
    let ghost from: Option<Seq<char>> = if rt {
        Some(recent_from@)
    } else {
        None
    };
    let ghost uv = urls.deep_view();
    let mut commands: Vec<Json> = Vec::new();
    let mut i: usize = 0;
    while i < urls.len()
        invariant
            i <= urls@.len(),
            uv == urls.deep_view(),
            commands@.len() == i,
            forall|k: int|
                0 <= k < i ==> #[trigger] jv(commands@[k]) == planned(
                    "fetch"@,
                    seq![uv[k]],
                    "read a known source URL"@,
                ),
        decreases urls@.len() - i,
    {
        let mut a: Vec<String> = Vec::new();
        a.push(urls[i].clone());
        assert(a.deep_view() =~= seq![uv[i as int]]);
        commands.push(planned_exec("fetch", a, "read a known source URL"));
        i = i + 1;
    }
    let mut sa: Vec<String> = Vec::new();
    sa.push(owned("search"));
    if x {
        sa.push(owned("--x-search"));
    }
    if rt {
        sa.push(owned("--from-date"));
        sa.push(owned(recent_from));
        sa.push(owned("--prefer-recent"));
    }
    sa.push(owned(q));
    assert(sa.deep_view() =~= search_args_spec(q@, x, from));
    let purpose = if x {
        "X community source reconnaissance"
    } else {
        "Grok realtime source reconnaissance"
    };
    let s = planned_exec("search", sa, purpose);
    commands.push(s);
    proof {
        lemma_jv_items(commands@);
        assert(jv_items(commands@) =~= plan_commands(q@, x, from));
    }
    let mut notes: Vec<String> = Vec::new();
    notes.push(owned("This is a CLI execution plan, not a mandatory pre-search phase."));
    notes.push(owned("External verification remains the agent workflow's responsibility."));
    assert(notes.deep_view() =~= seq![
        "This is a CLI execution plan, not a mandatory pre-search phase."@,
        "External verification remains the agent workflow's responsibility."@,
    ]);
    let nj = str_array_exec(notes);
    let ghost jn = jv(nj);
    let mut es: Vec<(String, Json)> = Vec::new();
    es.push((owned("core_question"), Json::Str(owned(q))));
    es.push(
        (
            owned("time_sensitivity"),
            Json::Str(
                if rt {
                    owned("realtime_or_recent")
                } else {
                    owned("unknown_or_historical")
                },
            ),
        ),
    );
    es.push(
        (
            owned("recommended_surface"),
            Json::Str(
                if x {
                    owned("x_search_surface")
                } else {
                    owned("web_search_surface")
                },
            ),
        ),
    );
    let cj = Json::Array(commands);
    let ghost jc = jv(cj);
    es.push((owned("commands"), cj));
    es.push((owned("notes"), nj));
    proof {
        lemma_jv_entries(es@);
        assert(jv_entries(es@) =~= entries_of_plan(q@, recent_from@, x, rt, jc, jn));
    }
    Json::Object(es)
}

spec fn entries_of_plan(
    q: Seq<char>,
    recent_from: Seq<char>,
    x: bool,
    rt: bool,
    jc: JsonV,
    jn: JsonV,
) -> Seq<(Seq<char>, JsonV)> {
    entry("core_question"@, JsonV::Str(q)) + entry(
        "time_sensitivity"@,
        JsonV::Str(
            if rt {
                "realtime_or_recent"@
            } else {
                "unknown_or_historical"@
            },
        ),
    ) + entry(
        "recommended_surface"@,
        JsonV::Str(
            if x {
                "x_search_surface"@
            } else {
                "web_search_surface"@
            },
        ),
    ) + entry("commands"@, jc) + entry("notes"@, jn)
}

/// `w` occurs in `q` or in its lower-case form.
pub open spec fn mentions(q: Seq<char>, w: Seq<char>) -> bool {
    has_sub(lowercase_of(q), w) || has_sub(q, w)
}

/// Whether a question mentions a time word, in any letter case.
pub open spec fn mentions_time_word(q: Seq<char>) -> bool {
        ||| mentions(q, "latest"@)
        ||| mentions(q, "recent"@)
        ||| mentions(q, "today"@)
        ||| mentions(q, "now"@)
        ||| mentions(q, "current"@)
        ||| mentions(q, "real-time"@)
        ||| mentions(q, "realtime"@)
        ||| mentions(q, "最新"@)
        ||| mentions(q, "最近"@)
        ||| mentions(q, "今天"@)
        ||| mentions(q, "现在"@)
        ||| mentions(q, "当前"@)
        ||| mentions(q, "实时"@)
}

/// A question is realtime exactly when it mentions one of the time words
/// latest, recent, today, now, current, real-time, realtime, 最新, 最近, 今天, 现在,
/// 当前 or 实时, in any letter case.
pub proof fn law_realtime_words(q: Seq<char>)
    ensures
        is_realtime_spec(q) <==> mentions_time_word(q),
{
    let n = realtime_needles();
    assert(n[0] == "latest"@);
    assert(n[1] == "recent"@);
    assert(n[2] == "today"@);
    assert(n[3] == "now"@);
    assert(n[4] == "current"@);
    assert(n[5] == "real-time"@);
    assert(n[6] == "realtime"@);
    assert(n[7] == "最新"@);
    assert(n[8] == "最近"@);
    assert(n[9] == "今天"@);
    assert(n[10] == "现在"@);
    assert(n[11] == "当前"@);
    assert(n[12] == "实时"@);
    if is_realtime_spec(q) {
        let i = choose|i: int|
            0 <= i < n.len() && (has_sub(lowercase_of(q), #[trigger] n[i]) || has_sub(q, n[i]));
        assert(mentions(q, n[i]));
    }
    if mentions_time_word(q) {
        if mentions(q, "latest"@) {
            assert(has_sub(lowercase_of(q), n[0]) || has_sub(q, n[0]));
        }
        if mentions(q, "recent"@) {
            assert(has_sub(lowercase_of(q), n[1]) || has_sub(q, n[1]));
        }
        if mentions(q, "today"@) {
            assert(has_sub(lowercase_of(q), n[2]) || has_sub(q, n[2]));
        }
        if mentions(q, "now"@) {
            assert(has_sub(lowercase_of(q), n[3]) || has_sub(q, n[3]));
        }
        if mentions(q, "current"@) {
            assert(has_sub(lowercase_of(q), n[4]) || has_sub(q, n[4]));
        }
        if mentions(q, "real-time"@) {
            assert(has_sub(lowercase_of(q), n[5]) || has_sub(q, n[5]));
        }
        if mentions(q, "realtime"@) {
            assert(has_sub(lowercase_of(q), n[6]) || has_sub(q, n[6]));
        }
        if mentions(q, "最新"@) {
            assert(has_sub(lowercase_of(q), n[7]) || has_sub(q, n[7]));
        }
        if mentions(q, "最近"@) {
            assert(has_sub(lowercase_of(q), n[8]) || has_sub(q, n[8]));
        }
        if mentions(q, "今天"@) {
            assert(has_sub(lowercase_of(q), n[9]) || has_sub(q, n[9]));
        }
        if mentions(q, "现在"@) {
            assert(has_sub(lowercase_of(q), n[10]) || has_sub(q, n[10]));
        }
        if mentions(q, "当前"@) {
            assert(has_sub(lowercase_of(q), n[11]) || has_sub(q, n[11]));
        }
        if mentions(q, "实时"@) {
            assert(has_sub(lowercase_of(q), n[12]) || has_sub(q, n[12]));
        }
    }
}

/// A plan is marked realtime exactly when its question mentions a time word, and
/// only then does its search look back from `recent_from`.
pub proof fn law_plan_time_sensitivity(q: Seq<char>, recent_from: Seq<char>)
    ensures
        crate::json::field(plan_spec(q, recent_from), "time_sensitivity"@) == Some(
            JsonV::Str(
                if mentions_time_word(q) {
                    "realtime_or_recent"@
                } else {
                    "unknown_or_historical"@
                },
            ),
        ),
        plan_commands(q, is_x_related_spec(q), if mentions_time_word(q) {
            Some(recent_from)
        } else {
            None
        }) == match plan_spec(q, recent_from) {
            JsonV::Object(es) => match es[3].1 {
                JsonV::Array(cmds) => cmds,
                _ => seq![],
            },
            _ => seq![],
        },
{
    law_realtime_words(q);
    reveal_strlit("core_question");
    reveal_strlit("time_sensitivity");
    let es = match plan_spec(q, recent_from) {
        JsonV::Object(es) => es,
        _ => seq![],
    };
    assert(es[0].0 == "core_question"@);
    assert(es[1].0 == "time_sensitivity"@);
    assert(es[0].0.len() != "time_sensitivity"@.len());
    assert(es.drop_first()[0] == es[1]);
    assert(crate::json::lookup(es.drop_first(), "time_sensitivity"@) == Some(es[1].1));
}

} // verus!
