//! Configuration: environment variables take priority over the configuration
//! file, which takes priority over built-in defaults; keys are shown masked.

use vstd::prelude::*;
use crate::json::{Json, JsonV, jv, str_field, parsed_json};
use crate::text::{trim_spec, owned};

verus! {

/// The model used when neither the environment nor the file names one.
pub const DEFAULT_MODEL: &'static str = "grok-4.20-multi-agent-console";

/// The official xAI endpoint, used when only an xAI key is configured.
pub const OFFICIAL_XAI_API_URL: &'static str = "https://api.x.ai/v1";

/// The Tavily endpoint used when the environment names none.
pub const DEFAULT_TAVILY_API_URL: &'static str = "https://api.tavily.com";

/// Resolved configuration.
pub struct Config {
    pub config_file: String,
    pub grok_api_url: Option<String>,
    pub grok_api_key: Option<String>,
    pub grok_model: String,
    pub tavily_api_url: String,
    pub tavily_api_key: Option<String>,
}

/// Configuration fit for display: keys masked, absent values spelled out.
pub struct MaskedConfig {
    pub config_file: String,
    pub grok_api_url: String,
    pub grok_api_key: String,
    pub grok_model: String,
    pub tavily_api_url: String,
    pub tavily_api_key: String,
}

/// The configuration variables of the environment, each as read (possibly empty).
pub struct ConfigEnv {
    pub grok_api_url: Option<String>,
    pub grok_api_key: Option<String>,
    pub grok_model: Option<String>,
    pub xai_api_key: Option<String>,
    pub xai_api_url: Option<String>,
    pub xai_base_url: Option<String>,
    pub xai_model: Option<String>,
    pub tavily_api_url: Option<String>,
    pub tavily_api_key: Option<String>,
}

/// The first value that is not blank, unchanged.
pub open spec fn first_nonempty_spec(values: Seq<Option<Seq<char>>>) -> Option<Seq<char>>
    decreases values.len(),
{
    if values.len() == 0 {
        None
    } else {
        match values[0] {
            Some(v) if trim_spec(v).len() > 0 => Some(v),
            _ => first_nonempty_spec(values.drop_first()),
        }
    }
}

/// A list holding a present, non-blank value has a first such value.
pub proof fn lemma_first_nonempty_some(values: Seq<Option<Seq<char>>>, k: int)
    requires
        0 <= k < values.len(),
        values[k] matches Some(v) && trim_spec(v).len() > 0,
    ensures
        first_nonempty_spec(values) is Some,
    decreases values.len(),
{
    if k > 0 {
        match values[0] {
            Some(v) if trim_spec(v).len() > 0 => {},
            _ => {
                assert(values.drop_first()[k - 1] == values[k]);
                lemma_first_nonempty_some(values.drop_first(), k - 1);
            },
        }
    }
}

/// The first of `values` that is present and not blank.
pub fn first_nonempty(values: &Vec<Option<String>>) -> (r: Option<String>)
    ensures
        r.deep_view() == first_nonempty_spec(values.deep_view()),
{
    let ghost dv = values.deep_view();
    let mut i: usize = 0;
    assert(dv.skip(0) =~= dv);
    while i < values.len()
        invariant
            i <= values@.len(),
            dv == values.deep_view(),
            first_nonempty_spec(dv) == first_nonempty_spec(dv.skip(i as int)),
        decreases values@.len() - i,
    {
        assert(dv.skip(i as int)[0] == values@[i as int].deep_view());
        assert(dv.skip(i as int).drop_first() =~= dv.skip(i + 1));
        if let Some(v) = &values[i] {
            let t = crate::text::trim(v.as_str());
            if !t.as_str().is_empty() {
                return Some(v.clone());
            }
        }
        i = i + 1;
    }
    None
}

/// A string field of the configuration file, trimmed, when not blank.
pub open spec fn string_field_spec(file: JsonV, key: Seq<char>) -> Option<Seq<char>> {
    match str_field(file, key) {
        Some(s) => if trim_spec(s).len() > 0 {
            Some(trim_spec(s))
        } else {
            None
        },
        None => None,
    }
}

/// A string field of the configuration file, trimmed, when not blank.
pub fn string_field(file: &Json, key: &str) -> (r: Option<String>)
    ensures
        r.deep_view() == string_field_spec(jv(*file), key@),
{
    match file.get(key) {
        Some(x) => match x.as_str() {
            Some(s) => {
                let t = crate::text::trim(s.as_str());
                if t.as_str().is_empty() {
                    None
                } else {
                    Some(t)
                }
            },
            None => None,
        },
        None => None,
    }
}

/// How a secret is shown: `***` when short, else its first and last four
/// characters around one `*` per hidden character.
pub open spec fn mask_spec(secret: Seq<char>) -> Seq<char> {
    if secret.len() <= 8 {
        "***"@
    } else {
        secret.take(4) + Seq::new((secret.len() - 8) as nat, |i: int| '*') + secret.skip(
            secret.len() - 4,
        )
    }
}

/// Masks a secret for display.
pub fn mask(secret: &str) -> (r: String)
    ensures
        r@ == mask_spec(secret@),
{
    let v = crate::text::chars_of(secret);
    let n = v.len();
    if n <= 8 {
        return owned("***");
    }
    let mut r = crate::text::string_of_range(&v, 0, 4);
    let mut i: usize = 0;
    while i < n - 8
        invariant
            n == v@.len(),
            n > 8,
            i <= n - 8,
            r@ == v@.take(4) + Seq::new(i as nat, |k: int| '*'),
        decreases n - 8 - i,
    {
        crate::text::push_char(&mut r, '*');
        assert(Seq::new(i as nat, |k: int| '*').push('*') =~= Seq::new((i + 1) as nat, |k: int| '*'));
        i = i + 1;
    }
    let tail = crate::text::string_of_range(&v, n - 4, n);
    r.append(tail.as_str());
    assert(v@.subrange(0, 4) =~= v@.take(4));
    assert(v@.subrange(n - 4, n as int) =~= v@.skip(n - 4));
    r
}

/// A masked optional secret.
pub open spec fn masked_opt(s: Option<Seq<char>>) -> Seq<char> {
    match s {
        Some(k) => mask_spec(k),
        None => "not configured"@,
    }
}

/// The Grok key: the environment's, then the file's, then the official xAI key.
pub open spec fn key_sources(env: ConfigEnv, file: JsonV) -> Seq<Option<Seq<char>>> {
    seq![
        env.grok_api_key.deep_view(),
        string_field_spec(file, "api_key"@),
        env.xai_api_key.deep_view(),
    ]
}

/// Whether the key in use is the official xAI key.
pub open spec fn uses_xai_key(env: ConfigEnv, file: JsonV) -> bool {
    first_nonempty_spec(key_sources(env, file).take(2)) is None
        && first_nonempty_spec(seq![env.xai_api_key.deep_view()]) is Some
}

/// The Grok endpoint: the environment's, the file's, the xAI overrides, and the
/// official endpoint when the official key is the one in use.
pub open spec fn url_sources(env: ConfigEnv, file: JsonV) -> Seq<Option<Seq<char>>> {
    seq![
        env.grok_api_url.deep_view(),
        string_field_spec(file, "api_url"@),
        env.xai_api_url.deep_view(),
        env.xai_base_url.deep_view(),
        if uses_xai_key(env, file) {
            Some(OFFICIAL_XAI_API_URL@)
        } else {
            None
        },
    ]
}

/// The model: the environment's, the file's, the xAI model, then the default.
pub open spec fn model_sources(env: ConfigEnv, file: JsonV) -> Seq<Option<Seq<char>>> {
    seq![
        env.grok_model.deep_view(),
        string_field_spec(file, "model"@),
        env.xai_model.deep_view(),
        Some(DEFAULT_MODEL@),
    ]
}

impl Config {
    /// Resolves the configuration from the environment and the configuration file.
    pub fn load(config_file: String, env: &ConfigEnv, file: &Json) -> (r: Config)
        ensures
            r.config_file@ == config_file@,
            r.grok_api_url.deep_view() == first_nonempty_spec(url_sources(*env, jv(*file))),
            r.grok_api_key.deep_view() == first_nonempty_spec(key_sources(*env, jv(*file))),
            Some(r.grok_model@) == first_nonempty_spec(model_sources(*env, jv(*file))),
            Some(r.tavily_api_url@) == first_nonempty_spec(
                seq![env.tavily_api_url.deep_view(), Some(DEFAULT_TAVILY_API_URL@)],
            ),
            r.tavily_api_key.deep_view() == first_nonempty_spec(
                seq![
                    env.tavily_api_key.deep_view(),
                    string_field_spec(jv(*file), "tavily_api_key"@),
                ],
            ),
    {
        let mut v2: Vec<Option<String>> = Vec::new();
        v2.push(env.grok_api_key.clone());
        v2.push(string_field(file, "api_key"));
        let own_key = first_nonempty(&v2);
        assert(v2.deep_view() =~= key_sources(*env, jv(*file)).take(2));
        let mut vx: Vec<Option<String>> = Vec::new();
        vx.push(env.xai_api_key.clone());
        let xai_key = first_nonempty(&vx);
        assert(vx.deep_view() =~= seq![env.xai_api_key.deep_view()]);
        let official = own_key.is_none() && xai_key.is_some();
        v2.push(env.xai_api_key.clone());
        assert(v2.deep_view() =~= key_sources(*env, jv(*file)));
        let grok_api_key = first_nonempty(&v2);

        let mut v1: Vec<Option<String>> = Vec::new();
        v1.push(env.grok_api_url.clone());
        v1.push(string_field(file, "api_url"));
        v1.push(env.xai_api_url.clone());
        v1.push(env.xai_base_url.clone());
        v1.push(if official { Some(owned(OFFICIAL_XAI_API_URL)) } else { None });
        assert(v1.deep_view() =~= url_sources(*env, jv(*file)));
        let grok_api_url = first_nonempty(&v1);

        let mut v3: Vec<Option<String>> = Vec::new();
        v3.push(env.grok_model.clone());
        v3.push(string_field(file, "model"));
        v3.push(env.xai_model.clone());
        v3.push(Some(owned(DEFAULT_MODEL)));
        assert(v3.deep_view() =~= model_sources(*env, jv(*file)));
        proof {
            lemma_default_model_not_blank();
            lemma_first_nonempty_some(v3.deep_view(), 3);
        }
        let grok_model = match first_nonempty(&v3) {
            Some(m) => m,
            None => owned(DEFAULT_MODEL),
        };

        let mut v4: Vec<Option<String>> = Vec::new();
        v4.push(env.tavily_api_url.clone());
        v4.push(Some(owned(DEFAULT_TAVILY_API_URL)));
        assert(v4.deep_view() =~= seq![env.tavily_api_url.deep_view(), Some(DEFAULT_TAVILY_API_URL@)]);
        proof {
            lemma_first_nonempty_some(v4.deep_view(), 1);
        }
        let tavily_api_url = match first_nonempty(&v4) {
            Some(u) => u,
            None => owned(DEFAULT_TAVILY_API_URL),
        };

        let mut v5: Vec<Option<String>> = Vec::new();
        v5.push(env.tavily_api_key.clone());
        v5.push(string_field(file, "tavily_api_key"));
        assert(v5.deep_view() =~= seq![env.tavily_api_key.deep_view(), string_field_spec(jv(*file), "tavily_api_key"@)]);
        let tavily_api_key = first_nonempty(&v5);

        Config { config_file, grok_api_url, grok_api_key, grok_model, tavily_api_url, tavily_api_key }
    }

    /// The configuration with keys masked and absent values spelled out.
    pub fn masked(&self) -> (r: MaskedConfig)
        ensures
            r.config_file@ == self.config_file@,
            r.grok_api_url@ == (match self.grok_api_url {
                Some(u) => u@,
                None => "not configured"@,
            }),
            r.grok_api_key@ == masked_opt(self.grok_api_key.deep_view()),
            r.grok_model@ == self.grok_model@,
            r.tavily_api_url@ == self.tavily_api_url@,
            r.tavily_api_key@ == masked_opt(self.tavily_api_key.deep_view()),
    {
        MaskedConfig {
            config_file: self.config_file.clone(),
            grok_api_url: match &self.grok_api_url {
                Some(u) => u.clone(),
                None => owned("not configured"),
            },
            grok_api_key: match &self.grok_api_key {
                Some(k) => mask(k.as_str()),
                None => owned("not configured"),
            },
            grok_model: self.grok_model.clone(),
            tavily_api_url: self.tavily_api_url.clone(),
            tavily_api_key: match &self.tavily_api_key {
                Some(k) => mask(k.as_str()),
                None => owned("not configured"),
            },
        }
    }
}

proof fn lemma_default_model_not_blank()
    ensures
        trim_spec(DEFAULT_MODEL@).len() > 0,
        trim_spec(DEFAULT_TAVILY_API_URL@).len() > 0,
{
    reveal_strlit("grok-4.20-multi-agent-console");
    reveal_strlit("https://api.tavily.com");
    let m = DEFAULT_MODEL@;
    assert(!crate::text::is_ws(m[0]));
    assert(!crate::text::is_ws(m.last()));
    let t = DEFAULT_TAVILY_API_URL@;
    assert(!crate::text::is_ws(t[0]));
    assert(!crate::text::is_ws(t.last()));
}

/// The message of a missing key.
pub open spec fn not_configured_message(name: Seq<char>) -> Seq<char> {
    name + " is not configured"@
}

/// The key when it is set and not empty; otherwise a message naming it.
pub fn require_key<'a>(key: &'a Option<String>, name: &str) -> (r: Result<&'a str, String>)
    ensures
        match key {
            Some(v) if v@.len() > 0 => r matches Ok(k) && k@ == v@,
            _ => r matches Err(m) && m@ == not_configured_message(name@),
        },
{
    match key {
        Some(value) => {
            let s = value.as_str();
            if !s.is_empty() {
                return Ok(s);
            }
        },
        None => {},
    }
    let mut m = owned(name);
    m.append(" is not configured");
    Err(m)
}

/// The configuration file contents after setting the default model.
pub fn set_model(file: Json, model: &str) -> (r: Json)
    ensures
        jv(r) == JsonV::Object(
            crate::json::set_entry(
                crate::json::entries_or_empty(jv(file)),
                "model"@,
                JsonV::Str(model@),
            ),
        ),
{
    file.with_field(owned("model"), Json::Str(owned(model)))
}

/// What the configuration file holds: its JSON when it was read and parses,
/// else an empty object.
pub open spec fn config_value_spec(text: Option<Seq<char>>) -> JsonV {
    match text {
        Some(t) => match parsed_json(t) {
            Some(v) => v,
            None => JsonV::Object(seq![]),
        },
        None => JsonV::Object(seq![]),
    }
}

/// The configuration file's value from its text (absent when it could not be read).
pub fn config_value(text: Option<&str>) -> (r: Json)
    ensures
        jv(r) == config_value_spec(match text {
            Some(t) => Some(t@),
            None => None,
        }),
{
    let parsed = match text {
        Some(t) => crate::json::parse_json(t),
        None => None,
    };
    match parsed {
        Some(v) => v,
        None => {
            let es: Vec<(String, Json)> = Vec::new();
            proof {
                crate::json::lemma_jv_entries(es@);
            }
            let r = Json::Object(es);
            assert(jv(r) =~= JsonV::Object(seq![]));
            r
        },
    }
}

/// `<home>/.config/grok-search/config.json`.
pub fn config_file(home: &Option<String>) -> (r: String)
    ensures
        r@ == crate::paths::join_path(crate::paths::app_dir_spec(home.deep_view()), "config.json"@),
{
    let d = crate::paths::app_dir(home);
    crate::paths::join(d.as_str(), "config.json")
}


/// A long secret keeps its length when masked and shows only its first and last
/// four characters; a short one shows nothing of itself.
pub proof fn law_mask_hides_middle(secret: Seq<char>)
    ensures
        secret.len() <= 8 ==> mask_spec(secret) == "***"@,
        secret.len() > 8 ==> {
            let m = mask_spec(secret);
            &&& m.len() == secret.len()
            &&& forall|i: int| 0 <= i < 4 ==> m[i] == secret[i]
            &&& forall|i: int| secret.len() - 4 <= i < secret.len() ==> m[i] == secret[i]
            &&& forall|i: int| 4 <= i < secret.len() - 4 ==> m[i] == '*'
        },
{
}

/// After the default model is written to the configuration file, loading picks
/// it up (trimmed) unless the environment names a model.
pub proof fn law_set_model_then_load(
    file: JsonV,
    model: Seq<char>,
    env: ConfigEnv,
)
    requires
        trim_spec(model).len() > 0,
        env.grok_model matches Some(e) ==> trim_spec(e@).len() == 0,
    ensures
        first_nonempty_spec(
            model_sources(
                env,
                JsonV::Object(
                    crate::json::set_entry(
                        crate::json::entries_or_empty(file),
                        "model"@,
                        JsonV::Str(model),
                    ),
                ),
            ),
        ) == Some(trim_spec(model)),
{
    let es = crate::json::entries_or_empty(file);
    crate::json::lemma_lookup_set_entry(es, "model"@, JsonV::Str(model), "model"@);
    crate::text::lemma_trim_idempotent(model);
    let vals = model_sources(
        env,
        JsonV::Object(crate::json::set_entry(es, "model"@, JsonV::Str(model))),
    );
    assert(vals[1] == Some(trim_spec(model)));
    assert(vals.drop_first()[0] == vals[1]);
    assert(trim_spec(trim_spec(model)).len() > 0);
    assert(first_nonempty_spec(vals.drop_first()) == Some(trim_spec(model)));
    assert(first_nonempty_spec(vals) == first_nonempty_spec(vals.drop_first()));
}

} // verus!
