//! Command-line arguments as plain values.  Paths are held as strings.

use vstd::prelude::*;
use crate::text::{join_spec, owned};

verus! {

/// Output format of most commands.
#[derive(Clone, Copy, Debug, PartialEq, Eq, Structural)]
pub enum OutputFormat {
    Text,
    Json,
}

/// Output format of the source listing commands.
#[derive(Clone, Copy, Debug, PartialEq, Eq, Structural)]
pub enum SourcesFormat {
    Text,
    Json,
    Markdown,
    Urls,
    FetchCommand,
    TavilyCommand,
}

/// How contradictory evidence is presented.
#[derive(Clone, Copy, Debug, PartialEq, Eq, Structural)]
pub enum ConflictPolicy {
    PreferNewer,
    PreferAuthority,
    ShowAll,
}

/// The command-line spelling of a conflict policy.
pub open spec fn conflict_policy_name(p: ConflictPolicy) -> Seq<char> {
    match p {
        ConflictPolicy::PreferNewer => "prefer-newer"@,
        ConflictPolicy::PreferAuthority => "prefer-authority"@,
        ConflictPolicy::ShowAll => "show-all"@,
    }
}

impl ConflictPolicy {
    /// The command-line spelling, as `Display` prints it.
    pub fn name(&self) -> (r: String)
        ensures
            r@ == conflict_policy_name(*self),
    {
        match self {
            ConflictPolicy::PreferNewer => owned("prefer-newer"),
            ConflictPolicy::PreferAuthority => owned("prefer-authority"),
            ConflictPolicy::ShowAll => owned("show-all"),
        }
    }
}

/// Arguments of a search.
pub struct SearchArgs {
    pub query: Vec<String>,
    pub model: Option<String>,
    pub no_web_search: bool,
    pub x_search: bool,
    pub platform: Option<String>,
    pub allowed_domain: Vec<String>,
    pub excluded_domain: Vec<String>,
    pub allowed_x_handle: Vec<String>,
    pub excluded_x_handle: Vec<String>,
    pub from_date: Option<String>,
    pub to_date: Option<String>,
    pub recency_days: Option<i64>,
    pub prefer_recent: bool,
    pub conflict_policy: ConflictPolicy,
    pub enable_image_understanding: bool,
    pub enable_video_understanding: bool,
    pub extra_sources: usize,
    pub max_output_tokens: Option<u32>,
    pub timeout_seconds: u64,
    pub include_raw: bool,
    pub artifact_dir: Option<String>,
    pub format: OutputFormat,
    /// Submit as a background job instead of waiting.
    pub background: bool,
}

impl SearchArgs {
    /// The query words joined with spaces.
    pub fn query_text(&self) -> (r: String)
        ensures
            r@ == join_spec(self.query.deep_view(), " "@),
    {
        crate::text::join(&self.query, " ")
    }
}

/// Arguments of the source listing commands.
pub struct SourcesArgs {
    pub session: String,
    pub artifact_dir: Option<String>,
    pub include_x: bool,
    pub no_web: bool,
    pub no_x: bool,
    pub chunk_size: usize,
    pub parallel: usize,
    pub x_parallel: usize,
    pub x_timeout_seconds: u64,
    pub bird_command: String,
    pub output_dir: Option<String>,
    pub write: bool,
    pub output_file: Option<String>,
    pub format: SourcesFormat,
}

/// Arguments of a batch source fetch.
pub struct FetchSourcesArgs {
    pub session: String,
    pub artifact_dir: Option<String>,
    pub no_web: bool,
    pub no_x: bool,
    pub chunk_size: usize,
    pub parallel: usize,
    pub x_parallel: usize,
    pub output_dir: Option<String>,
    pub timeout_seconds: u64,
    pub x_timeout_seconds: u64,
    pub bird_command: String,
    pub format: OutputFormat,
}

/// Arguments of a single source fetch.
pub struct FetchSourceArgs {
    pub session: String,
    pub artifact_dir: Option<String>,
    pub index: Option<usize>,
    pub url: Option<String>,
    pub output_dir: Option<String>,
    pub output_file: Option<String>,
    pub timeout_seconds: u64,
    pub x_timeout_seconds: u64,
    pub bird_command: String,
    pub format: OutputFormat,
}

/// Arguments of a page fetch.
pub struct FetchArgs {
    pub url: String,
    pub timeout_seconds: u64,
    pub format: OutputFormat,
}

/// Arguments of a site map.
pub struct MapArgs {
    pub url: String,
    pub instructions: String,
    pub max_depth: u32,
    pub max_breadth: u32,
    pub limit: u32,
    pub timeout_seconds: u64,
    pub format: OutputFormat,
}

/// Arguments of the model listing.
pub struct ModelsArgs {
    pub timeout_seconds: u64,
    pub format: OutputFormat,
}

/// Arguments of the setup diagnosis.
pub struct DoctorArgs {
    pub timeout_seconds: u64,
    pub live_x: bool,
    pub format: OutputFormat,
}

/// Arguments of `config show`.
pub struct ConfigShowArgs {
    pub format: OutputFormat,
}

/// Arguments of `config set-model`.
pub struct SetModelArgs {
    pub model: String,
}

/// Arguments of `config set-tavily-key`.
pub struct SetTavilyKeyArgs {
    pub key: String,
}

/// Configuration sub-commands.
pub enum ConfigCommand {
    Show(ConfigShowArgs),
    SetModel(SetModelArgs),
    SetTavilyKey(SetTavilyKeyArgs),
}

/// Arguments of a plan.
pub struct PlanArgs {
    pub query: Vec<String>,
    pub format: OutputFormat,
}

impl PlanArgs {
    /// The query words joined with spaces.
    pub fn query_text(&self) -> (r: String)
        ensures
            r@ == join_spec(self.query.deep_view(), " "@),
    {
        crate::text::join(&self.query, " ")
    }
}

/// The commands.
pub enum Commands {
    Search(SearchArgs),
    Sources(SourcesArgs),
    FetchSources(FetchSourcesArgs),
    FetchSource(FetchSourceArgs),
    Fetch(FetchArgs),
    SiteMap(MapArgs),
    Models(ModelsArgs),
    Doctor(DoctorArgs),
    Config { command: ConfigCommand },
    Plan(PlanArgs),
}

/// A parsed command line.
pub struct Cli {
    pub command: Commands,
}

} // verus!
