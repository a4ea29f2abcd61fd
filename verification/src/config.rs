//! Configuration: what an instance and its agents are set to, how the settings
//! of an agent resolve against the defaults, and which agent a message is for.
pub mod bindings;
pub mod environment;
pub mod file;
pub mod onboarding;
pub mod runtime;

pub use crate::config::bindings::{
    resolve_agent_for_message, Binding, DiscordConfig, DiscordPermissions, MessagingConfig, SlackConfig,
    SlackPermissions, TelegramConfig, TelegramPermissions, WebhookConfig,
};

use crate::llm::routing::RoutingConfig;
use crate::paths;
use crate::paths::path_join;
use crate::settings::store::WorkerLogMode;
use crate::text::str_eq;
use vstd::prelude::*;

verus! {

/// A single-precision number, by its bits. It is carried, never computed with.
#[derive(Clone, Copy, Debug, PartialEq, Eq, Structural)]
pub struct F32 {
    pub bits: u32,
}

/// Top-level configuration.
pub struct Config {
    /// Instance root directory.
    pub instance_dir: String,
    /// Provider credentials, shared across all agents.
    pub llm: LlmConfig,
    /// Settings inherited by all agents.
    pub defaults: DefaultsConfig,
    pub agents: Vec<AgentConfig>,
    pub messaging: MessagingConfig,
    /// Maps platform conversations to agents.
    pub bindings: Vec<Binding>,
    pub api: ApiConfig,
}

/// HTTP API server configuration.
pub struct ApiConfig {
    pub enabled: bool,
    pub port: u16,
    pub bind: String,
}

impl Default for ApiConfig {
    fn default() -> (r: Self)
        ensures
            r.enabled,
            r.port == 19898,
            r.bind@ == "127.0.0.1"@,
    {
        ApiConfig { enabled: true, port: 19898, bind: "127.0.0.1".to_owned() }
    }
}

/// Provider credentials.
pub struct LlmConfig {
    pub anthropic_key: Option<String>,
    pub openai_key: Option<String>,
    pub openrouter_key: Option<String>,
    pub zhipu_key: Option<String>,
    pub groq_key: Option<String>,
    pub together_key: Option<String>,
    pub fireworks_key: Option<String>,
    pub deepseek_key: Option<String>,
    pub xai_key: Option<String>,
    pub mistral_key: Option<String>,
    pub opencode_zen_key: Option<String>,
}

impl LlmConfig {
    /// The keys, in the order of the providers.
    pub open spec fn keys(&self) -> Seq<Option<String>> {
        seq![
            self.anthropic_key,
            self.openai_key,
            self.openrouter_key,
            self.zhipu_key,
            self.groq_key,
            self.together_key,
            self.fireworks_key,
            self.deepseek_key,
            self.xai_key,
            self.mistral_key,
            self.opencode_zen_key,
        ]
    }

    /// Check if any provider key is configured.
    pub fn has_any_key(&self) -> (r: bool)
        ensures
            r == exists|i: int| 0 <= i < self.keys().len() && (#[trigger] self.keys()[i]) is Some,
    {
        let ghost k = self.keys();
        proof {
            assert(k[0] == self.anthropic_key);
            assert(k[1] == self.openai_key);
            assert(k[2] == self.openrouter_key);
            assert(k[3] == self.zhipu_key);
            assert(k[4] == self.groq_key);
            assert(k[5] == self.together_key);
            assert(k[6] == self.fireworks_key);
            assert(k[7] == self.deepseek_key);
            assert(k[8] == self.xai_key);
            assert(k[9] == self.mistral_key);
            assert(k[10] == self.opencode_zen_key);
        }
        self.anthropic_key.is_some() || self.openai_key.is_some() || self.openrouter_key.is_some()
            || self.zhipu_key.is_some() || self.groq_key.is_some() || self.together_key.is_some()
            || self.fireworks_key.is_some() || self.deepseek_key.is_some()
            || self.xai_key.is_some() || self.mistral_key.is_some()
            || self.opencode_zen_key.is_some()
    }
}

/// Settings inherited by all agents. Individual agents can override any field.
pub struct DefaultsConfig {
    pub routing: RoutingConfig,
    pub max_concurrent_branches: usize,
    pub max_concurrent_workers: usize,
    pub max_turns: usize,
    pub branch_max_turns: usize,
    pub context_window: usize,
    pub compaction: CompactionConfig,
    pub memory_persistence: MemoryPersistenceConfig,
    pub coalesce: CoalesceConfig,
    pub ingestion: IngestionConfig,
    pub cortex: CortexConfig,
    pub browser: BrowserConfig,
    pub brave_search_key: Option<String>,
    pub history_backfill_count: usize,
    pub cron: Vec<CronDef>,
    pub opencode: OpenCodeConfig,
    pub worker_log_mode: WorkerLogMode,
}

/// Compaction thresholds: fractions of the context window.
#[derive(Clone, Copy, Debug, PartialEq, Eq, Structural)]
pub struct CompactionConfig {
    pub background_threshold: F32,
    pub aggressive_threshold: F32,
    pub emergency_threshold: F32,
}

/// The built-in compaction thresholds: 0.80, 0.85 and 0.95.
pub open spec fn default_compaction() -> CompactionConfig {
    CompactionConfig {
        background_threshold: F32 { bits: 0x3f4ccccd },
        aggressive_threshold: F32 { bits: 0x3f59999a },
        emergency_threshold: F32 { bits: 0x3f733333 },
    }
}

impl Default for CompactionConfig {
    fn default() -> (r: Self)
        ensures
            r == default_compaction(),
    {
        CompactionConfig {
            background_threshold: F32 { bits: 0x3f4ccccd },
            aggressive_threshold: F32 { bits: 0x3f59999a },
            emergency_threshold: F32 { bits: 0x3f733333 },
        }
    }
}

/// How often a silent branch saves memories from the recent conversation.
#[derive(Clone, Copy, Debug, PartialEq, Eq, Structural)]
pub struct MemoryPersistenceConfig {
    pub enabled: bool,
    /// Number of user messages between two such branches.
    pub message_interval: usize,
}

/// The built-in memory persistence settings.
pub open spec fn default_memory_persistence() -> MemoryPersistenceConfig {
    MemoryPersistenceConfig { enabled: true, message_interval: 50 }
}

impl Default for MemoryPersistenceConfig {
    fn default() -> (r: Self)
        ensures
            r == default_memory_persistence(),
    {
        MemoryPersistenceConfig { enabled: true, message_interval: 50 }
    }
}

/// How messages that arrive in quick succession are batched into one turn.
#[derive(Clone, Copy, Debug, PartialEq, Eq, Structural)]
pub struct CoalesceConfig {
    pub enabled: bool,
    /// Initial debounce window after the first message.
    pub debounce_ms: u64,
    /// Maximum time to wait before flushing regardless.
    pub max_wait_ms: u64,
    /// Messages that trigger batching.
    pub min_messages: usize,
    /// Apply only to multi-user conversations.
    pub multi_user_only: bool,
}

/// The built-in batching settings.
pub open spec fn default_coalesce() -> CoalesceConfig {
    CoalesceConfig {
        enabled: true,
        debounce_ms: 1500,
        max_wait_ms: 5000,
        min_messages: 2,
        multi_user_only: true,
    }
}

impl Default for CoalesceConfig {
    fn default() -> (r: Self)
        ensures
            r == default_coalesce(),
    {
        CoalesceConfig {
            enabled: true,
            debounce_ms: 1500,
            max_wait_ms: 5000,
            min_messages: 2,
            multi_user_only: true,
        }
    }
}

/// How files dropped into the workspace become memories.
#[derive(Clone, Copy, Debug, PartialEq, Eq, Structural)]
pub struct IngestionConfig {
    pub enabled: bool,
    /// How often the directory is scanned.
    pub poll_interval_secs: u64,
    /// Target chunk size.
    pub chunk_size: usize,
}

/// The built-in ingestion settings.
pub open spec fn default_ingestion() -> IngestionConfig {
    IngestionConfig { enabled: true, poll_interval_secs: 30, chunk_size: 4000 }
}

impl Default for IngestionConfig {
    fn default() -> (r: Self)
        ensures
            r == default_ingestion(),
    {
        IngestionConfig { enabled: true, poll_interval_secs: 30, chunk_size: 4000 }
    }
}

/// Browser automation for workers.
pub struct BrowserConfig {
    pub enabled: bool,
    pub headless: bool,
    pub evaluate_enabled: bool,
    pub executable_path: Option<String>,
    pub screenshot_dir: Option<String>,
}

impl Clone for BrowserConfig {
    fn clone(&self) -> (r: Self)
        ensures
            r == *self,
    {
        BrowserConfig {
            enabled: self.enabled,
            headless: self.headless,
            evaluate_enabled: self.evaluate_enabled,
            executable_path: clone_opt(&self.executable_path),
            screenshot_dir: clone_opt(&self.screenshot_dir),
        }
    }
}

/// The built-in browser settings.
pub open spec fn default_browser() -> BrowserConfig {
    BrowserConfig {
        enabled: true,
        headless: true,
        evaluate_enabled: false,
        executable_path: None,
        screenshot_dir: None,
    }
}

impl Default for BrowserConfig {
    fn default() -> (r: Self)
        ensures
            r == default_browser(),
    {
        BrowserConfig {
            enabled: true,
            headless: true,
            evaluate_enabled: false,
            executable_path: None,
            screenshot_dir: None,
        }
    }
}

/// What an OpenCode worker may do.
pub struct OpenCodePermissions {
    pub edit: String,
    pub bash: String,
    pub webfetch: String,
}

impl Clone for OpenCodePermissions {
    fn clone(&self) -> (r: Self)
        ensures
            r == *self,
    {
        OpenCodePermissions {
            edit: self.edit.clone(),
            bash: self.bash.clone(),
            webfetch: self.webfetch.clone(),
        }
    }
}

/// OpenCode subprocess workers.
pub struct OpenCodeConfig {
    pub enabled: bool,
    /// Path to the OpenCode binary.
    pub path: String,
    /// Maximum concurrent server processes.
    pub max_servers: usize,
    pub server_startup_timeout_secs: u64,
    pub max_restart_retries: u32,
    pub permissions: OpenCodePermissions,
}

impl Clone for OpenCodeConfig {
    fn clone(&self) -> (r: Self)
        ensures
            r == *self,
    {
        OpenCodeConfig {
            enabled: self.enabled,
            path: self.path.clone(),
            max_servers: self.max_servers,
            server_startup_timeout_secs: self.server_startup_timeout_secs,
            max_restart_retries: self.max_restart_retries,
            permissions: self.permissions.clone(),
        }
    }
}

impl OpenCodeConfig {
    /// The built-in settings, with the permissions that OpenCode starts from.
    pub fn base(permissions: OpenCodePermissions) -> (r: Self)
        ensures
            !r.enabled,
            r.path@ == "opencode"@,
            r.max_servers == 5,
            r.server_startup_timeout_secs == 30,
            r.max_restart_retries == 5,
            r.permissions == permissions,
    {
        OpenCodeConfig {
            enabled: false,
            path: "opencode".to_owned(),
            max_servers: 5,
            server_startup_timeout_secs: 30,
            max_restart_retries: 5,
            permissions,
        }
    }
}

/// Cortex settings.
#[derive(Clone, Copy, Debug, PartialEq, Eq, Structural)]
pub struct CortexConfig {
    pub tick_interval_secs: u64,
    pub worker_timeout_secs: u64,
    pub branch_timeout_secs: u64,
    pub circuit_breaker_threshold: u8,
    /// Seconds between memory bulletin refreshes.
    pub bulletin_interval_secs: u64,
    /// Target word count of the memory bulletin.
    pub bulletin_max_words: usize,
    /// Turns that bulletin generation may take.
    pub bulletin_max_turns: usize,
    /// Seconds between association passes.
    pub association_interval_secs: u64,
    /// Minimum similarity for a related-to edge.
    pub association_similarity_threshold: F32,
    /// Minimum similarity for an updates edge.
    pub association_updates_threshold: F32,
    /// Associations created per pass at most.
    pub association_max_per_pass: usize,
}

/// The built-in cortex settings.
pub open spec fn default_cortex() -> CortexConfig {
    CortexConfig {
        tick_interval_secs: 30,
        worker_timeout_secs: 300,
        branch_timeout_secs: 60,
        circuit_breaker_threshold: 3,
        bulletin_interval_secs: 3600,
        bulletin_max_words: 1500,
        bulletin_max_turns: 15,
        association_interval_secs: 300,
        association_similarity_threshold: F32 { bits: 0x3f59999a },
        association_updates_threshold: F32 { bits: 0x3f733333 },
        association_max_per_pass: 100,
    }
}

impl Default for CortexConfig {
    fn default() -> (r: Self)
        ensures
            r == default_cortex(),
    {
        CortexConfig {
            tick_interval_secs: 30,
            worker_timeout_secs: 300,
            branch_timeout_secs: 60,
            circuit_breaker_threshold: 3,
            bulletin_interval_secs: 3600,
            bulletin_max_words: 1500,
            bulletin_max_turns: 15,
            association_interval_secs: 300,
            association_similarity_threshold: F32 { bits: 0x3f59999a },
            association_updates_threshold: F32 { bits: 0x3f733333 },
            association_max_per_pass: 100,
        }
    }
}

/// The settings of one agent, before they are resolved against the defaults.
pub struct AgentConfig {
    pub id: String,
    pub default: bool,
    /// Custom workspace path.
    pub workspace: Option<String>,
    pub routing: Option<RoutingConfig>,
    pub max_concurrent_branches: Option<usize>,
    pub max_concurrent_workers: Option<usize>,
    pub max_turns: Option<usize>,
    pub branch_max_turns: Option<usize>,
    pub context_window: Option<usize>,
    pub compaction: Option<CompactionConfig>,
    pub memory_persistence: Option<MemoryPersistenceConfig>,
    pub coalesce: Option<CoalesceConfig>,
    pub ingestion: Option<IngestionConfig>,
    pub cortex: Option<CortexConfig>,
    pub browser: Option<BrowserConfig>,
    pub brave_search_key: Option<String>,
    pub cron: Vec<CronDef>,
}

impl AgentConfig {
    /// An agent that overrides nothing.
    pub fn plain(id: String, default: bool) -> (r: Self)
        ensures
            r.id == id,
            r.default == default,
            r.overrides_nothing(),
    {
        AgentConfig {
            id,
            default,
            workspace: None,
            routing: None,
            max_concurrent_branches: None,
            max_concurrent_workers: None,
            max_turns: None,
            branch_max_turns: None,
            context_window: None,
            compaction: None,
            memory_persistence: None,
            coalesce: None,
            ingestion: None,
            cortex: None,
            browser: None,
            brave_search_key: None,
            cron: Vec::new(),
        }
    }

    /// Every setting but the identity comes from the defaults.
    pub open spec fn overrides_nothing(&self) -> bool {
        &&& self.workspace is None
        &&& self.routing is None
        &&& self.max_concurrent_branches is None
        &&& self.max_concurrent_workers is None
        &&& self.max_turns is None
        &&& self.branch_max_turns is None
        &&& self.context_window is None
        &&& self.compaction is None
        &&& self.memory_persistence is None
        &&& self.coalesce is None
        &&& self.ingestion is None
        &&& self.cortex is None
        &&& self.browser is None
        &&& self.brave_search_key is None
        &&& self.cron@.len() == 0
    }
}

/// A scheduled prompt.
pub struct CronDef {
    pub id: String,
    pub prompt: String,
    pub interval_secs: u64,
    /// Delivery target in "adapter:target" format.
    pub delivery_target: String,
    /// Active hours window in 24h format.
    pub active_hours: Option<(u8, u8)>,
    pub enabled: bool,
}

impl Clone for CronDef {
    fn clone(&self) -> (r: Self)
        ensures
            r == *self,
    {
        CronDef {
            id: self.id.clone(),
            prompt: self.prompt.clone(),
            interval_secs: self.interval_secs,
            delivery_target: self.delivery_target.clone(),
            active_hours: self.active_hours,
            enabled: self.enabled,
        }
    }
}

/// The settings of one agent, merged with the defaults, paths resolved.
pub struct ResolvedAgentConfig {
    pub id: String,
    pub workspace: String,
    pub data_dir: String,
    pub archives_dir: String,
    pub routing: RoutingConfig,
    pub max_concurrent_branches: usize,
    pub max_concurrent_workers: usize,
    pub max_turns: usize,
    pub branch_max_turns: usize,
    pub context_window: usize,
    pub compaction: CompactionConfig,
    pub memory_persistence: MemoryPersistenceConfig,
    pub coalesce: CoalesceConfig,
    pub ingestion: IngestionConfig,
    pub cortex: CortexConfig,
    pub browser: BrowserConfig,
    pub brave_search_key: Option<String>,
    /// Messages fetched from the platform when a channel is created.
    pub history_backfill_count: usize,
    pub cron: Vec<CronDef>,
}

impl DefaultsConfig {
    /// Every setting has its built-in value.
    pub open spec fn is_builtin(&self) -> bool {
        &&& self.max_concurrent_branches == 5
        &&& self.max_concurrent_workers == 5
        &&& self.max_turns == 5
        &&& self.branch_max_turns == 50
        &&& self.context_window == 128_000
        &&& self.compaction == default_compaction()
        &&& self.memory_persistence == default_memory_persistence()
        &&& self.coalesce == default_coalesce()
        &&& self.ingestion == default_ingestion()
        &&& self.cortex == default_cortex()
        &&& self.browser == default_browser()
        &&& self.brave_search_key is None
        &&& self.history_backfill_count == 50
        &&& self.cron@.len() == 0
        &&& !self.opencode.enabled
        &&& self.opencode.path@ == "opencode"@
        &&& self.opencode.max_servers == 5
        &&& self.opencode.server_startup_timeout_secs == 30
        &&& self.opencode.max_restart_retries == 5
        &&& self.worker_log_mode == WorkerLogMode::ErrorsOnly
    }

    /// The built-in defaults around a model routing and OpenCode's permissions.
    pub fn base(routing: RoutingConfig, permissions: OpenCodePermissions) -> (r: Self)
        ensures
            r.is_builtin(),
            r.routing == routing,
            r.opencode.permissions == permissions,
    {
        DefaultsConfig {
            routing,
            max_concurrent_branches: 5,
            max_concurrent_workers: 5,
            max_turns: 5,
            branch_max_turns: 50,
            context_window: 128_000,
            compaction: CompactionConfig::default(),
            memory_persistence: MemoryPersistenceConfig::default(),
            coalesce: CoalesceConfig::default(),
            ingestion: IngestionConfig::default(),
            cortex: CortexConfig::default(),
            browser: BrowserConfig::default(),
            brave_search_key: None,
            history_backfill_count: 50,
            cron: Vec::new(),
            opencode: OpenCodeConfig::base(permissions),
            worker_log_mode: WorkerLogMode::default(),
        }
    }
}

/// Copies an optional string.
pub fn clone_opt(o: &Option<String>) -> (r: Option<String>)
    ensures
        r == *o,
{
    match o {
        Some(s) => Some(s.clone()),
        None => None,
    }
}

/// Copies a list of scheduled prompts.
pub fn clone_crons(v: &Vec<CronDef>) -> (r: Vec<CronDef>)
    ensures
        r@ == v@,
{
    let mut out: Vec<CronDef> = Vec::new();
    let mut i: usize = 0;
    while i < v.len()
        invariant
            i <= v@.len(),
            out@ == v@.take(i as int),
        decreases v@.len() - i,
    {
        out.push(v[i].clone());
        proof {
            assert(v@.take(i as int).push(v@[i as int]) =~= v@.take(i + 1));
        }
        i = i + 1;
    }
    assert(out@ =~= v@);
    out
}

/// The directory of an agent.
pub open spec fn agent_root(instance_dir: Seq<char>, id: Seq<char>) -> Seq<char> {
    paths::joined(paths::joined(instance_dir, "agents"@), id)
}

/// `r` is what `agent` resolves to: each setting of the agent where it has one,
/// else that of the defaults; paths below the directory of the agent.
pub open spec fn resolves_to(
    agent: AgentConfig,
    instance_dir: Seq<char>,
    defaults: DefaultsConfig,
    r: ResolvedAgentConfig,
) -> bool {
    let root = agent_root(instance_dir, agent.id@);
    &&& r.id@ == agent.id@
    &&& r.workspace@ == (match agent.workspace {
        Some(w) => w@,
        None => paths::joined(root, "workspace"@),
    })
    &&& r.data_dir@ == paths::joined(root, "data"@)
    &&& r.archives_dir@ == paths::joined(root, "archives"@)
    &&& r.routing@ == (match agent.routing {
        Some(x) => x@,
        None => defaults.routing@,
    })
    &&& r.max_concurrent_branches == agent.max_concurrent_branches.unwrap_or(
        defaults.max_concurrent_branches,
    )
    &&& r.max_concurrent_workers == agent.max_concurrent_workers.unwrap_or(
        defaults.max_concurrent_workers,
    )
    &&& r.max_turns == agent.max_turns.unwrap_or(defaults.max_turns)
    &&& r.branch_max_turns == agent.branch_max_turns.unwrap_or(defaults.branch_max_turns)
    &&& r.context_window == agent.context_window.unwrap_or(defaults.context_window)
    &&& r.compaction == agent.compaction.unwrap_or(defaults.compaction)
    &&& r.memory_persistence == agent.memory_persistence.unwrap_or(defaults.memory_persistence)
    &&& r.coalesce == agent.coalesce.unwrap_or(defaults.coalesce)
    &&& r.ingestion == agent.ingestion.unwrap_or(defaults.ingestion)
    &&& r.cortex == agent.cortex.unwrap_or(defaults.cortex)
    &&& r.browser == agent.browser.unwrap_or(defaults.browser)
    &&& r.brave_search_key == (match agent.brave_search_key {
        Some(k) => Some(k),
        None => defaults.brave_search_key,
    })
    &&& r.history_backfill_count == defaults.history_backfill_count
    &&& r.cron@ == agent.cron@
}

impl AgentConfig {
    /// Resolve this agent config against instance defaults and base paths.
    pub fn resolve(&self, instance_dir: &str, defaults: &DefaultsConfig) -> (r: ResolvedAgentConfig)
        ensures
            resolves_to(*self, instance_dir@, *defaults, r),
    {
        let agents = path_join(instance_dir, "agents");
        let root = path_join(agents.as_str(), self.id.as_str());
        let workspace = match &self.workspace {
            Some(w) => w.clone(),
            None => path_join(root.as_str(), "workspace"),
        };
        let routing = match &self.routing {
            Some(x) => x.clone(),
            None => defaults.routing.clone(),
        };
        let browser = match &self.browser {
            Some(b) => b.clone(),
            None => defaults.browser.clone(),
        };
        let brave_search_key = match &self.brave_search_key {
            Some(k) => Some(k.clone()),
            None => clone_opt(&defaults.brave_search_key),
        };
        ResolvedAgentConfig {
            id: self.id.clone(),
            workspace,
            data_dir: path_join(root.as_str(), "data"),
            archives_dir: path_join(root.as_str(), "archives"),
            routing,
            max_concurrent_branches: self.max_concurrent_branches.unwrap_or(
                defaults.max_concurrent_branches,
            ),
            max_concurrent_workers: self.max_concurrent_workers.unwrap_or(
                defaults.max_concurrent_workers,
            ),
            max_turns: self.max_turns.unwrap_or(defaults.max_turns),
            branch_max_turns: self.branch_max_turns.unwrap_or(defaults.branch_max_turns),
            context_window: self.context_window.unwrap_or(defaults.context_window),
            compaction: self.compaction.unwrap_or(defaults.compaction),
            memory_persistence: self.memory_persistence.unwrap_or(defaults.memory_persistence),
            coalesce: self.coalesce.unwrap_or(defaults.coalesce),
            ingestion: self.ingestion.unwrap_or(defaults.ingestion),
            cortex: self.cortex.unwrap_or(defaults.cortex),
            browser,
            brave_search_key,
            history_backfill_count: defaults.history_backfill_count,
            cron: clone_crons(&self.cron),
        }
    }
}

impl ResolvedAgentConfig {
    /// The SQLite database of the agent.
    pub fn sqlite_path(&self) -> (r: String)
        ensures
            r@ == paths::joined(self.data_dir@, "spacebot.db"@),
    {
        path_join(self.data_dir.as_str(), "spacebot.db")
    }

    /// The vector database of the agent.
    pub fn lancedb_path(&self) -> (r: String)
        ensures
            r@ == paths::joined(self.data_dir@, "lancedb"@),
    {
        path_join(self.data_dir.as_str(), "lancedb")
    }

    /// The settings database of the agent.
    pub fn redb_path(&self) -> (r: String)
        ensures
            r@ == paths::joined(self.data_dir@, "config.redb"@),
    {
        path_join(self.data_dir.as_str(), "config.redb")
    }

    /// Messages fetched from the platform when a channel is created.
    pub fn history_backfill_count(&self) -> (r: usize)
        ensures
            r == self.history_backfill_count,
    {
        self.history_backfill_count
    }

    /// The screenshot directory, below the data directory unless configured.
    pub fn screenshot_dir(&self) -> (r: String)
        ensures
            r@ == (match self.browser.screenshot_dir {
                Some(d) => d@,
                None => paths::joined(self.data_dir@, "screenshots"@),
            }),
    {
        match &self.browser.screenshot_dir {
            Some(d) => d.clone(),
            None => path_join(self.data_dir.as_str(), "screenshots"),
        }
    }

    /// Directory for worker execution logs.
    pub fn logs_dir(&self) -> (r: String)
        ensures
            r@ == paths::joined(self.data_dir@, "logs"@),
    {
        path_join(self.data_dir.as_str(), "logs")
    }

    /// The skills directory of the workspace.
    pub fn skills_dir(&self) -> (r: String)
        ensures
            r@ == paths::joined(self.workspace@, "skills"@),
    {
        path_join(self.workspace.as_str(), "skills")
    }

    /// The directory where users drop files.
    pub fn ingest_dir(&self) -> (r: String)
        ensures
            r@ == paths::joined(self.workspace@, "ingest"@),
    {
        path_join(self.workspace.as_str(), "ingest")
    }
}

/// The position of the first agent that is marked as the default, or the number
/// of agents.
pub open spec fn first_default(agents: Seq<AgentConfig>) -> nat
    decreases agents.len(),
{
    if agents.len() == 0 || agents[0].default {
        0
    } else {
        1 + first_default(agents.drop_first())
    }
}

/// The position of the first agent with an id, or the number of agents.
pub open spec fn first_with_id(agents: Seq<AgentConfig>, id: Seq<char>) -> nat
    decreases agents.len(),
{
    if agents.len() == 0 || agents[0].id@ == id {
        0
    } else {
        1 + first_with_id(agents.drop_first(), id)
    }
}

impl Config {
    /// Get the default agent ID.
    pub fn default_agent_id(&self) -> (r: String)
        ensures
            r@ == (if first_default(self.agents@) < self.agents@.len() {
                self.agents@[first_default(self.agents@) as int].id@
            } else {
                "main"@
            }),
    {
        let mut i: usize = 0;
        proof {
            assert(self.agents@.skip(0) =~= self.agents@);
        }
        while i < self.agents.len()
            invariant
                i <= self.agents@.len(),
                first_default(self.agents@) == i + first_default(self.agents@.skip(i as int)),
            decreases self.agents@.len() - i,
        {
            proof {
                assert(self.agents@.skip(i as int)[0] == self.agents@[i as int]);
                assert(self.agents@.skip(i as int).drop_first() =~= self.agents@.skip(i + 1));
            }
            if self.agents[i].default {
                return self.agents[i].id.clone();
            }
            i = i + 1;
        }
        "main".to_owned()
    }

    /// The position of the first agent with an id.
    pub fn find_agent(&self, id: &str) -> (r: Option<usize>)
        ensures
            match r {
                Some(i) => i < self.agents@.len() && first_with_id(self.agents@, id@) == i
                    && self.agents@[i as int].id@ == id@,
                None => first_with_id(self.agents@, id@) == self.agents@.len(),
            },
    {
        let mut i: usize = 0;
        proof {
            assert(self.agents@.skip(0) =~= self.agents@);
        }
        while i < self.agents.len()
            invariant
                i <= self.agents@.len(),
                first_with_id(self.agents@, id@) == i + first_with_id(
                    self.agents@.skip(i as int),
                    id@,
                ),
            decreases self.agents@.len() - i,
        {
            proof {
                assert(self.agents@.skip(i as int)[0] == self.agents@[i as int]);
                assert(self.agents@.skip(i as int).drop_first() =~= self.agents@.skip(i + 1));
            }
            if str_eq(self.agents[i].id.as_str(), id) {
                return Some(i);
            }
            i = i + 1;
        }
        None
    }

    /// Resolve all agent configs against defaults.
    pub fn resolve_agents(&self) -> (r: Vec<ResolvedAgentConfig>)
        ensures
            r@.len() == self.agents@.len(),
            forall|i: int|
                0 <= i < r@.len() ==> resolves_to(
                    self.agents@[i],
                    self.instance_dir@,
                    self.defaults,
                    #[trigger] r@[i],
                ),
    {
        let mut out: Vec<ResolvedAgentConfig> = Vec::new();
        let mut i: usize = 0;
        while i < self.agents.len()
            invariant
                i == out@.len(),
                i <= self.agents@.len(),
                forall|j: int|
                    0 <= j < i ==> resolves_to(
                        self.agents@[j],
                        self.instance_dir@,
                        self.defaults,
                        #[trigger] out@[j],
                    ),
            decreases self.agents@.len() - i,
        {
            out.push(self.agents[i].resolve(self.instance_dir.as_str(), &self.defaults));
            i = i + 1;
        }
        out
    }

    /// Path to the instance-level skills directory.
    pub fn skills_dir(&self) -> (r: String)
        ensures
            r@ == paths::joined(self.instance_dir@, "skills"@),
    {
        path_join(self.instance_dir.as_str(), "skills")
    }
}

/// The default agent is the first one that is marked, and an agent is found at the first
/// place that has its id: no agent before it is marked or has the id, and where none is
/// found no agent is marked or has it.
pub proof fn law_first_agent_is_found(agents: Seq<AgentConfig>, id: Seq<char>)
    ensures
        first_default(agents) <= agents.len(),
        first_default(agents) < agents.len() ==> agents[first_default(agents) as int].default,
        forall|i: int| 0 <= i < first_default(agents) ==> !(#[trigger] agents[i]).default,
        first_with_id(agents, id) <= agents.len(),
        first_with_id(agents, id) < agents.len() ==> agents[first_with_id(agents, id) as int].id@
            == id,
        forall|i: int| 0 <= i < first_with_id(agents, id) ==> (#[trigger] agents[i]).id@ != id,
    decreases agents.len(),
{
    if agents.len() > 0 {
        let rest = agents.drop_first();
        law_first_agent_is_found(rest, id);
        assert forall|i: int| 0 <= i < first_default(agents) implies !(
        #[trigger] agents[i]).default by {
            if i > 0 {
                assert(agents[i] == rest[i - 1]);
            }
        }
        assert forall|i: int| 0 <= i < first_with_id(agents, id) implies (
        #[trigger] agents[i]).id@ != id by {
            if i > 0 {
                assert(agents[i] == rest[i - 1]);
            }
        }
    }
}

/// A setting that an agent has wins over the default.
pub proof fn law_settings_of_the_agent_win(
    agent: AgentConfig,
    dir: Seq<char>,
    defaults: DefaultsConfig,
    r: ResolvedAgentConfig,
)
    requires
        resolves_to(agent, dir, defaults, r),
    ensures
        r.id@ == agent.id@,
        agent.workspace matches Some(x) ==> r.workspace@ == x@,
        agent.routing matches Some(x) ==> r.routing@ == x@,
        agent.max_concurrent_branches matches Some(x) ==> r.max_concurrent_branches == x,
        agent.max_concurrent_workers matches Some(x) ==> r.max_concurrent_workers == x,
        agent.max_turns matches Some(x) ==> r.max_turns == x,
        agent.branch_max_turns matches Some(x) ==> r.branch_max_turns == x,
        agent.context_window matches Some(x) ==> r.context_window == x,
        agent.compaction matches Some(x) ==> r.compaction == x,
        agent.memory_persistence matches Some(x) ==> r.memory_persistence == x,
        agent.coalesce matches Some(x) ==> r.coalesce == x,
        agent.ingestion matches Some(x) ==> r.ingestion == x,
        agent.cortex matches Some(x) ==> r.cortex == x,
        agent.browser matches Some(x) ==> r.browser == x,
        agent.brave_search_key is Some ==> r.brave_search_key == agent.brave_search_key,
        r.cron@ == agent.cron@,
{
}

/// An agent that overrides nothing has the settings of the defaults, and no scheduled
/// prompt.
pub proof fn law_defaults_are_inherited(
    agent: AgentConfig,
    dir: Seq<char>,
    defaults: DefaultsConfig,
    r: ResolvedAgentConfig,
)
    requires
        resolves_to(agent, dir, defaults, r),
        agent.overrides_nothing(),
    ensures
        r.routing@ == defaults.routing@,
        r.max_concurrent_branches == defaults.max_concurrent_branches,
        r.max_concurrent_workers == defaults.max_concurrent_workers,
        r.max_turns == defaults.max_turns,
        r.branch_max_turns == defaults.branch_max_turns,
        r.context_window == defaults.context_window,
        r.compaction == defaults.compaction,
        r.memory_persistence == defaults.memory_persistence,
        r.coalesce == defaults.coalesce,
        r.ingestion == defaults.ingestion,
        r.cortex == defaults.cortex,
        r.browser == defaults.browser,
        r.brave_search_key == defaults.brave_search_key,
        r.history_backfill_count == defaults.history_backfill_count,
        r.cron@.len() == 0,
{
}

/// The files of an agent lie in a directory of its own below `agents` in the directory of
/// the instance.
pub proof fn law_agents_have_their_own_directories(
    agent: AgentConfig,
    dir: Seq<char>,
    defaults: DefaultsConfig,
    r: ResolvedAgentConfig,
)
    requires
        resolves_to(agent, dir, defaults, r),
        dir.len() > 0 && dir.last() != '/',
        agent.id@.len() > 0 && agent.id@[0] != '/' && agent.id@.last() != '/',
    ensures
        r.data_dir@ == dir + "/agents/"@ + agent.id@ + "/data"@,
        r.archives_dir@ == dir + "/agents/"@ + agent.id@ + "/archives"@,
        agent.workspace is None ==> r.workspace@ == dir + "/agents/"@ + agent.id@ + "/workspace"@,
{
    reveal_strlit("agents");
    reveal_strlit("/agents/");
    reveal_strlit("data");
    reveal_strlit("/data");
    reveal_strlit("archives");
    reveal_strlit("/archives");
    reveal_strlit("workspace");
    reveal_strlit("/workspace");
    let id = agent.id@;
    let a = paths::joined(dir, "agents"@);
    assert(a == dir + seq!['/'] + "agents"@);
    assert(a.last() == 's');
    let root = agent_root(dir, id);
    assert(root == dir + "/agents/"@ + id);
    assert(root.last() == id.last());
    assert(r.data_dir@ == dir + "/agents/"@ + id + "/data"@);
    assert(r.archives_dir@ == dir + "/agents/"@ + id + "/archives"@);
    if agent.workspace is None {
        assert(r.workspace@ == dir + "/agents/"@ + id + "/workspace"@);
    }
}

/// A key of any provider counts as one, and nothing else does.
pub proof fn law_any_key_counts(llm: LlmConfig)
    ensures
        (exists|i: int| 0 <= i < llm.keys().len() && (#[trigger] llm.keys()[i]) is Some) <==> (
        llm.anthropic_key is Some || llm.openai_key is Some || llm.openrouter_key is Some
            || llm.zhipu_key is Some || llm.groq_key is Some || llm.together_key is Some
            || llm.fireworks_key is Some || llm.deepseek_key is Some || llm.xai_key is Some
            || llm.mistral_key is Some || llm.opencode_zen_key is Some),
{
    let k = llm.keys();
    assert(k[0] == llm.anthropic_key);
    assert(k[1] == llm.openai_key);
    assert(k[2] == llm.openrouter_key);
    assert(k[3] == llm.zhipu_key);
    assert(k[4] == llm.groq_key);
    assert(k[5] == llm.together_key);
    assert(k[6] == llm.fireworks_key);
    assert(k[7] == llm.deepseek_key);
    assert(k[8] == llm.xai_key);
    assert(k[9] == llm.mistral_key);
    assert(k[10] == llm.opencode_zen_key);
}

/// The built-in settings switch on the browser without letting it evaluate scripts, the
/// batching of messages, the saving of memories and the ingestion of files, and leave the
/// workers of OpenCode off. A compaction starts in the background before it is forced, and
/// an update of a memory asks for more similarity than a relation.
pub proof fn law_builtin_defaults(d: DefaultsConfig)
    requires
        d.is_builtin(),
    ensures
        d.max_turns == 5 && d.branch_max_turns == 50 && d.context_window == 128000,
        d.max_concurrent_branches == 5 && d.max_concurrent_workers == 5,
        d.history_backfill_count == 50,
        d.compaction.background_threshold.bits < d.compaction.aggressive_threshold.bits
            < d.compaction.emergency_threshold.bits,
        d.compaction.background_threshold.bits == 0x3f4ccccd,
        d.memory_persistence.enabled && d.memory_persistence.message_interval == 50,
        d.coalesce.enabled && d.coalesce.debounce_ms == 1500 && d.coalesce.max_wait_ms == 5000,
        d.coalesce.min_messages == 2 && d.coalesce.multi_user_only,
        d.ingestion.enabled && d.ingestion.poll_interval_secs == 30 && d.ingestion.chunk_size
            == 4000,
        d.browser.enabled && d.browser.headless && !d.browser.evaluate_enabled,
        d.cortex.bulletin_max_words == 1500 && d.cortex.bulletin_interval_secs == 3600,
        d.cortex.association_similarity_threshold.bits
            < d.cortex.association_updates_threshold.bits,
        d.cortex.association_max_per_pass == 100,
        !d.opencode.enabled && d.opencode.max_servers == 5,
        d.brave_search_key is None && d.cron@.len() == 0,
{
}

} // verus!
