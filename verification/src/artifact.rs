//! Session artifacts: the durable record of one search.

use vstd::prelude::*;
use crate::cli::OutputFormat;
use crate::json::Json;
use crate::source::{Source, ToolCall};
use crate::paths::{join_path, app_dir_spec};

verus! {

/// The tools a search ran with.
pub struct ToolSummary {
    pub web_search: bool,
    pub x_search: bool,
    pub allowed_domains: Vec<String>,
    pub excluded_domains: Vec<String>,
    pub allowed_x_handles: Vec<String>,
    pub excluded_x_handles: Vec<String>,
    pub from_date: Option<String>,
    pub to_date: Option<String>,
    pub prefer_recent: bool,
    pub conflict_policy: String,
}

/// A saved search.
pub struct SearchArtifact {
    pub id: String,
    /// RFC 3339 creation time.
    pub created_at: String,
    pub query: String,
    pub model_requested: String,
    pub model_effective: Option<String>,
    pub tool_summary: ToolSummary,
    pub answer: String,
    pub sources: Vec<Source>,
    pub tool_calls: Vec<ToolCall>,
    pub warnings: Vec<String>,
    pub raw_response: Option<Json>,
    pub artifact_path: Option<String>,
    pub format: OutputFormat,
}

/// Lower-case hexadecimal digits.
pub open spec fn is_lower_hex(c: char) -> bool {
    ('0' <= c && c <= '9') || ('a' <= c && c <= 'f')
}

/// `uuid::Uuid::new_v4().simple()` as text: 32 lower-case hexadecimal digits
/// (random, so nothing more is stated).
#[verifier::external_body]
fn uuid_v4_simple() -> (r: String)
    ensures
        r@.len() == 32,
        forall|i: int| 0 <= i < 32 ==> is_lower_hex(#[trigger] r@[i]),
{
    uuid::Uuid::new_v4().simple().to_string()
}

/// A fresh identifier: twelve random lower-case hexadecimal digits.
pub fn fresh_id() -> (r: String)
    ensures
        r@.len() == 12,
        forall|i: int| 0 <= i < 12 ==> is_lower_hex(#[trigger] r@[i]),
{
    let u = uuid_v4_simple();
    let v = crate::text::chars_of(u.as_str());
    crate::text::string_of_range(&v, 0, 12)
}

impl SearchArtifact {
    /// A fresh session identifier.
    pub fn fresh_id() -> (r: String)
        ensures
            r@.len() == 12,
            forall|i: int| 0 <= i < 12 ==> is_lower_hex(#[trigger] r@[i]),
    {
        fresh_id()
    }
}

/// The directory of saved sessions.
pub open spec fn artifact_dir_spec(override_dir: Option<Seq<char>>, home: Option<Seq<char>>) -> Seq<
    char,
> {
    match override_dir {
        Some(d) => d,
        None => join_path(app_dir_spec(home), "sessions"@),
    }
}

/// The directory of saved sessions: the override, else `<home>/.config/grok-search/sessions`.
pub fn artifact_dir(override_dir: &Option<String>, home: &Option<String>) -> (r: String)
    ensures
        r@ == artifact_dir_spec(override_dir.deep_view(), home.deep_view()),
{
    match override_dir {
        Some(d) => d.clone(),
        None => {
            let a = crate::paths::app_dir(home);
            crate::paths::join(a.as_str(), "sessions")
        },
    }
}

/// A single path component has an extension in the sense of `Path::extension`:
/// a `.` after its first character, the component not being `..`.
pub open spec fn has_extension(s: Seq<char>) -> bool {
    s != ".."@ && exists|i: int| 0 < i < s.len() && s[i] == '.'
}

/// How a session argument names its artifact: as a path when the file exists,
/// has an extension or contains `/`; else as an id under the sessions directory.
pub open spec fn artifact_path_spec(
    session: Seq<char>,
    file_exists: bool,
    override_dir: Option<Seq<char>>,
    home: Option<Seq<char>>,
) -> Seq<char> {
    if file_exists || session.contains('/') || has_extension(session) {
        session
    } else {
        join_path(artifact_dir_spec(override_dir, home), session + ".json"@)
    }
}

fn has_extension_exec(s: &str) -> (b: bool)
    ensures
        !s@.contains('/') ==> b == has_extension(s@),
{
    let v = crate::text::chars_of(s);
    if crate::text::same_text(s, "..") {
        return false;
    }
    let mut i: usize = 1;
    while i < v.len()
        invariant
            1 <= i,
            v@ == s@,
            s@ != ".."@,
            forall|k: int| 0 < k < i && k < v@.len() ==> v@[k] != '.',
        decreases v@.len() - i,
    {
        if v[i] == '.' {
            assert(s@[i as int] == '.');
            return true;
        }
        i = i + 1;
    }
    false
}

/// The artifact file that a session id or path names; `file_exists` tells whether
/// `session` itself names an existing file.
pub fn resolve_artifact_path(
    session: &str,
    file_exists: bool,
    override_dir: &Option<String>,
    home: &Option<String>,
) -> (r: String)
    ensures
        r@ == artifact_path_spec(session@, file_exists, override_dir.deep_view(), home.deep_view()),
{
    if file_exists || crate::text::contains_char(session, '/') || has_extension_exec(session) {
        crate::text::owned(session)
    } else {
        let d = artifact_dir(override_dir, home);
        let mut name = crate::text::owned(session);
        name.append(".json");
        crate::paths::join(d.as_str(), name.as_str())
    }
}

} // verus!
