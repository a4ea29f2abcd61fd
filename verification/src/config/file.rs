//! The configuration file: its sections as they were written, and the
//! configuration that they stand for.
use crate::config;
use crate::config::bindings::{Binding, DiscordConfig, MessagingConfig, SlackConfig, TelegramConfig, WebhookConfig};
use crate::config::environment::EnvVars;
use crate::config::{
    clone_opt, AgentConfig, ApiConfig, BrowserConfig, CoalesceConfig, CompactionConfig, Config, CortexConfig,
    CronDef, DefaultsConfig, IngestionConfig, LlmConfig, MemoryPersistenceConfig, OpenCodeConfig,
    OpenCodePermissions, F32,
};
use crate::llm::routing;
use crate::llm::routing::RoutingConfig;
use crate::paths;
use crate::paths::path_join;
use crate::settings::store::WorkerLogMode;
use crate::text;
use crate::text_map::TextMap;
use vstd::prelude::*;

verus! {

// ---------------------------------------------------------------------------
// The sections of the file
// ---------------------------------------------------------------------------

pub struct TomlConfig {
    pub llm: TomlLlmConfig,
    pub defaults: TomlDefaultsConfig,
    pub agents: Vec<TomlAgentConfig>,
    pub messaging: TomlMessagingConfig,
    pub bindings: Vec<TomlBinding>,
    pub api: TomlApiConfig,
}

pub struct TomlApiConfig {
    pub enabled: bool,
    pub port: u16,
    pub bind: String,
}

pub struct TomlLlmConfig {
    pub anthropic_key: Option<String>,
    pub openai_key: Option<String>,
    pub openrouter_key: Option<String>,
    pub zhipu_key: Option<String>,
    pub groq_key: Option<String>,
    pub together_key: Option<String>,
    pub fireworks_key: Option<String>,
    pub deepseek_key: Option<String>,
    pub xai_key: Option<String>,
    pub mistral_key: Option<String>,
    pub opencode_zen_key: Option<String>,
}

pub struct TomlDefaultsConfig {
    pub routing: Option<TomlRoutingConfig>,
    pub max_concurrent_branches: Option<usize>,
    pub max_concurrent_workers: Option<usize>,
    pub max_turns: Option<usize>,
    pub branch_max_turns: Option<usize>,
    pub context_window: Option<usize>,
    pub compaction: Option<TomlCompactionConfig>,
    pub memory_persistence: Option<TomlMemoryPersistenceConfig>,
    pub coalesce: Option<TomlCoalesceConfig>,
    pub ingestion: Option<TomlIngestionConfig>,
    pub cortex: Option<TomlCortexConfig>,
    pub browser: Option<TomlBrowserConfig>,
    pub brave_search_key: Option<String>,
    pub opencode: Option<TomlOpenCodeConfig>,
    pub worker_log_mode: Option<String>,
}

pub struct TomlRoutingConfig {
    pub channel: Option<String>,
    pub branch: Option<String>,
    pub worker: Option<String>,
    pub compactor: Option<String>,
    pub cortex: Option<String>,
    pub rate_limit_cooldown_secs: Option<u64>,
    pub task_overrides: TextMap<String>,
    pub fallbacks: Option<TextMap<Vec<String>>>,
}

#[derive(Clone, Copy, Debug, PartialEq, Eq)]
pub struct TomlMemoryPersistenceConfig {
    pub enabled: Option<bool>,
    pub message_interval: Option<usize>,
}

#[derive(Clone, Copy, Debug, PartialEq, Eq)]
pub struct TomlCoalesceConfig {
    pub enabled: Option<bool>,
    pub debounce_ms: Option<u64>,
    pub max_wait_ms: Option<u64>,
    pub min_messages: Option<usize>,
    pub multi_user_only: Option<bool>,
}

#[derive(Clone, Copy, Debug, PartialEq, Eq)]
pub struct TomlIngestionConfig {
    pub enabled: Option<bool>,
    pub poll_interval_secs: Option<u64>,
    pub chunk_size: Option<usize>,
}

#[derive(Clone, Copy, Debug, PartialEq, Eq)]
pub struct TomlCompactionConfig {
    pub background_threshold: Option<F32>,
    pub aggressive_threshold: Option<F32>,
    pub emergency_threshold: Option<F32>,
}

#[derive(Clone, Copy, Debug, PartialEq, Eq)]
pub struct TomlCortexConfig {
    pub tick_interval_secs: Option<u64>,
    pub worker_timeout_secs: Option<u64>,
    pub branch_timeout_secs: Option<u64>,
    pub circuit_breaker_threshold: Option<u8>,
    pub bulletin_interval_secs: Option<u64>,
    pub bulletin_max_words: Option<usize>,
    pub bulletin_max_turns: Option<usize>,
    pub association_interval_secs: Option<u64>,
    pub association_similarity_threshold: Option<F32>,
    pub association_updates_threshold: Option<F32>,
    pub association_max_per_pass: Option<usize>,
}

pub struct TomlBrowserConfig {
    pub enabled: Option<bool>,
    pub headless: Option<bool>,
    pub evaluate_enabled: Option<bool>,
    pub executable_path: Option<String>,
    pub screenshot_dir: Option<String>,
}

pub struct TomlOpenCodeConfig {
    pub enabled: Option<bool>,
    pub path: Option<String>,
    pub max_servers: Option<usize>,
    pub server_startup_timeout_secs: Option<u64>,
    pub max_restart_retries: Option<u32>,
    pub permissions: Option<TomlOpenCodePermissions>,
}

pub struct TomlOpenCodePermissions {
    pub edit: Option<String>,
    pub bash: Option<String>,
    pub webfetch: Option<String>,
}

pub struct TomlAgentConfig {
    pub id: String,
    pub default: bool,
    pub workspace: Option<String>,
    pub routing: Option<TomlRoutingConfig>,
    pub max_concurrent_branches: Option<usize>,
    pub max_concurrent_workers: Option<usize>,
    pub max_turns: Option<usize>,
    pub branch_max_turns: Option<usize>,
    pub context_window: Option<usize>,
    pub compaction: Option<TomlCompactionConfig>,
    pub memory_persistence: Option<TomlMemoryPersistenceConfig>,
    pub coalesce: Option<TomlCoalesceConfig>,
    pub ingestion: Option<TomlIngestionConfig>,
    pub cortex: Option<TomlCortexConfig>,
    pub browser: Option<TomlBrowserConfig>,
    pub brave_search_key: Option<String>,
    pub cron: Vec<TomlCronDef>,
}

pub struct TomlCronDef {
    pub id: String,
    pub prompt: String,
    pub interval_secs: Option<u64>,
    pub delivery_target: String,
    pub active_start_hour: Option<u8>,
    pub active_end_hour: Option<u8>,
    pub enabled: bool,
}

pub struct TomlMessagingConfig {
    pub discord: Option<TomlDiscordConfig>,
    pub slack: Option<TomlSlackConfig>,
    pub telegram: Option<TomlTelegramConfig>,
    pub webhook: Option<TomlWebhookConfig>,
}

pub struct TomlDiscordConfig {
    pub enabled: bool,
    pub token: Option<String>,
    pub dm_allowed_users: Vec<String>,
    pub allow_bot_messages: bool,
}

pub struct TomlSlackConfig {
    pub enabled: bool,
    pub bot_token: Option<String>,
    pub app_token: Option<String>,
    pub dm_allowed_users: Vec<String>,
}

pub struct TomlTelegramConfig {
    pub enabled: bool,
    pub token: Option<String>,
    pub dm_allowed_users: Vec<String>,
}

pub struct TomlWebhookConfig {
    pub enabled: bool,
    pub port: u16,
    pub bind: String,
}

pub struct TomlBinding {
    pub agent_id: String,
    pub channel: String,
    pub guild_id: Option<String>,
    pub workspace_id: Option<String>,
    pub chat_id: Option<String>,
    pub channel_ids: Vec<String>,
    pub dm_allowed_users: Vec<String>,
}

// ---------------------------------------------------------------------------
// Provider keys
// ---------------------------------------------------------------------------

/// Each provider key is the configured value, else the provider's variable.
pub open spec fn llm_keys(t: TomlLlmConfig, env: EnvVars, r: LlmConfig) -> bool {
    &&& text::opt_text(r.anthropic_key) == env.resolved_or(t.anthropic_key, "ANTHROPIC_API_KEY"@)
    &&& text::opt_text(r.openai_key) == env.resolved_or(t.openai_key, "OPENAI_API_KEY"@)
    &&& text::opt_text(r.openrouter_key) == env.resolved_or(
        t.openrouter_key,
        "OPENROUTER_API_KEY"@,
    )
    &&& text::opt_text(r.zhipu_key) == env.resolved_or(t.zhipu_key, "ZHIPU_API_KEY"@)
    &&& text::opt_text(r.groq_key) == env.resolved_or(t.groq_key, "GROQ_API_KEY"@)
    &&& text::opt_text(r.together_key) == env.resolved_or(t.together_key, "TOGETHER_API_KEY"@)
    &&& text::opt_text(r.fireworks_key) == env.resolved_or(t.fireworks_key, "FIREWORKS_API_KEY"@)
    &&& text::opt_text(r.deepseek_key) == env.resolved_or(t.deepseek_key, "DEEPSEEK_API_KEY"@)
    &&& text::opt_text(r.xai_key) == env.resolved_or(t.xai_key, "XAI_API_KEY"@)
    &&& text::opt_text(r.mistral_key) == env.resolved_or(t.mistral_key, "MISTRAL_API_KEY"@)
    &&& text::opt_text(r.opencode_zen_key) == env.resolved_or(
        t.opencode_zen_key,
        "OPENCODE_ZEN_API_KEY"@,
    )
}

fn resolve_llm(t: &TomlLlmConfig, env: &EnvVars) -> (r: LlmConfig)
    ensures
        llm_keys(*t, *env, r),
{
    LlmConfig {
        anthropic_key: env.resolve_or(&t.anthropic_key, "ANTHROPIC_API_KEY"),
        openai_key: env.resolve_or(&t.openai_key, "OPENAI_API_KEY"),
        openrouter_key: env.resolve_or(&t.openrouter_key, "OPENROUTER_API_KEY"),
        zhipu_key: env.resolve_or(&t.zhipu_key, "ZHIPU_API_KEY"),
        groq_key: env.resolve_or(&t.groq_key, "GROQ_API_KEY"),
        together_key: env.resolve_or(&t.together_key, "TOGETHER_API_KEY"),
        fireworks_key: env.resolve_or(&t.fireworks_key, "FIREWORKS_API_KEY"),
        deepseek_key: env.resolve_or(&t.deepseek_key, "DEEPSEEK_API_KEY"),
        xai_key: env.resolve_or(&t.xai_key, "XAI_API_KEY"),
        mistral_key: env.resolve_or(&t.mistral_key, "MISTRAL_API_KEY"),
        opencode_zen_key: env.resolve_or(&t.opencode_zen_key, "OPENCODE_ZEN_API_KEY"),
    }
}

// ---------------------------------------------------------------------------
// Sections that are merged field by field
// ---------------------------------------------------------------------------

/// The configured compaction thresholds, the others from `base`.
pub open spec fn merged_compaction(
    c: TomlCompactionConfig,
    base: CompactionConfig,
) -> CompactionConfig {
    CompactionConfig {
        background_threshold: c.background_threshold.unwrap_or(base.background_threshold),
        aggressive_threshold: c.aggressive_threshold.unwrap_or(base.aggressive_threshold),
        emergency_threshold: c.emergency_threshold.unwrap_or(base.emergency_threshold),
    }
}

fn merge_compaction(c: TomlCompactionConfig, base: CompactionConfig) -> (r: CompactionConfig)
    ensures
        r == merged_compaction(c, base),
{
    CompactionConfig {
        background_threshold: c.background_threshold.unwrap_or(base.background_threshold),
        aggressive_threshold: c.aggressive_threshold.unwrap_or(base.aggressive_threshold),
        emergency_threshold: c.emergency_threshold.unwrap_or(base.emergency_threshold),
    }
}

/// The configured memory persistence settings, the others from `base`.
pub open spec fn merged_memory_persistence(
    c: TomlMemoryPersistenceConfig,
    base: MemoryPersistenceConfig,
) -> MemoryPersistenceConfig {
    MemoryPersistenceConfig {
        enabled: c.enabled.unwrap_or(base.enabled),
        message_interval: c.message_interval.unwrap_or(base.message_interval),
    }
}

fn merge_memory_persistence(
    c: TomlMemoryPersistenceConfig,
    base: MemoryPersistenceConfig,
) -> (r: MemoryPersistenceConfig)
    ensures
        r == merged_memory_persistence(c, base),
{
    MemoryPersistenceConfig {
        enabled: c.enabled.unwrap_or(base.enabled),
        message_interval: c.message_interval.unwrap_or(base.message_interval),
    }
}

/// The configured batching settings, the others from `base`.
pub open spec fn merged_coalesce(c: TomlCoalesceConfig, base: CoalesceConfig) -> CoalesceConfig {
    CoalesceConfig {
        enabled: c.enabled.unwrap_or(base.enabled),
        debounce_ms: c.debounce_ms.unwrap_or(base.debounce_ms),
        max_wait_ms: c.max_wait_ms.unwrap_or(base.max_wait_ms),
        min_messages: c.min_messages.unwrap_or(base.min_messages),
        multi_user_only: c.multi_user_only.unwrap_or(base.multi_user_only),
    }
}

fn merge_coalesce(c: TomlCoalesceConfig, base: CoalesceConfig) -> (r: CoalesceConfig)
    ensures
        r == merged_coalesce(c, base),
{
    CoalesceConfig {
        enabled: c.enabled.unwrap_or(base.enabled),
        debounce_ms: c.debounce_ms.unwrap_or(base.debounce_ms),
        max_wait_ms: c.max_wait_ms.unwrap_or(base.max_wait_ms),
        min_messages: c.min_messages.unwrap_or(base.min_messages),
        multi_user_only: c.multi_user_only.unwrap_or(base.multi_user_only),
    }
}

/// The configured ingestion settings, the others from `base`.
pub open spec fn merged_ingestion(c: TomlIngestionConfig, base: IngestionConfig) -> IngestionConfig {
    IngestionConfig {
        enabled: c.enabled.unwrap_or(base.enabled),
        poll_interval_secs: c.poll_interval_secs.unwrap_or(base.poll_interval_secs),
        chunk_size: c.chunk_size.unwrap_or(base.chunk_size),
    }
}

fn merge_ingestion(c: TomlIngestionConfig, base: IngestionConfig) -> (r: IngestionConfig)
    ensures
        r == merged_ingestion(c, base),
{
    IngestionConfig {
        enabled: c.enabled.unwrap_or(base.enabled),
        poll_interval_secs: c.poll_interval_secs.unwrap_or(base.poll_interval_secs),
        chunk_size: c.chunk_size.unwrap_or(base.chunk_size),
    }
}

/// The configured cortex settings, the others from `base`.
pub open spec fn merged_cortex(c: TomlCortexConfig, base: CortexConfig) -> CortexConfig {
    CortexConfig {
        tick_interval_secs: c.tick_interval_secs.unwrap_or(base.tick_interval_secs),
        worker_timeout_secs: c.worker_timeout_secs.unwrap_or(base.worker_timeout_secs),
        branch_timeout_secs: c.branch_timeout_secs.unwrap_or(base.branch_timeout_secs),
        circuit_breaker_threshold: c.circuit_breaker_threshold.unwrap_or(
            base.circuit_breaker_threshold,
        ),
        bulletin_interval_secs: c.bulletin_interval_secs.unwrap_or(base.bulletin_interval_secs),
        bulletin_max_words: c.bulletin_max_words.unwrap_or(base.bulletin_max_words),
        bulletin_max_turns: c.bulletin_max_turns.unwrap_or(base.bulletin_max_turns),
        association_interval_secs: c.association_interval_secs.unwrap_or(
            base.association_interval_secs,
        ),
        association_similarity_threshold: c.association_similarity_threshold.unwrap_or(
            base.association_similarity_threshold,
        ),
        association_updates_threshold: c.association_updates_threshold.unwrap_or(
            base.association_updates_threshold,
        ),
        association_max_per_pass: c.association_max_per_pass.unwrap_or(
            base.association_max_per_pass,
        ),
    }
}

fn merge_cortex(c: TomlCortexConfig, base: CortexConfig) -> (r: CortexConfig)
    ensures
        r == merged_cortex(c, base),
{
    CortexConfig {
        tick_interval_secs: c.tick_interval_secs.unwrap_or(base.tick_interval_secs),
        worker_timeout_secs: c.worker_timeout_secs.unwrap_or(base.worker_timeout_secs),
        branch_timeout_secs: c.branch_timeout_secs.unwrap_or(base.branch_timeout_secs),
        circuit_breaker_threshold: c.circuit_breaker_threshold.unwrap_or(
            base.circuit_breaker_threshold,
        ),
        bulletin_interval_secs: c.bulletin_interval_secs.unwrap_or(base.bulletin_interval_secs),
        bulletin_max_words: c.bulletin_max_words.unwrap_or(base.bulletin_max_words),
        bulletin_max_turns: c.bulletin_max_turns.unwrap_or(base.bulletin_max_turns),
        association_interval_secs: c.association_interval_secs.unwrap_or(
            base.association_interval_secs,
        ),
        association_similarity_threshold: c.association_similarity_threshold.unwrap_or(
            base.association_similarity_threshold,
        ),
        association_updates_threshold: c.association_updates_threshold.unwrap_or(
            base.association_updates_threshold,
        ),
        association_max_per_pass: c.association_max_per_pass.unwrap_or(
            base.association_max_per_pass,
        ),
    }
}

/// A configured string, else that of `base`.
pub open spec fn or_base(own: Option<String>, base: Option<String>) -> Option<String> {
    match own {
        Some(s) => Some(s),
        None => base,
    }
}

fn take_or(own: Option<String>, base: &Option<String>) -> (r: Option<String>)
    ensures
        r == or_base(own, *base),
{
    match own {
        Some(s) => Some(s),
        None => clone_opt(base),
    }
}

/// The configured browser settings, the others from `base`.
pub open spec fn merged_browser(b: TomlBrowserConfig, base: BrowserConfig) -> BrowserConfig {
    BrowserConfig {
        enabled: b.enabled.unwrap_or(base.enabled),
        headless: b.headless.unwrap_or(base.headless),
        evaluate_enabled: b.evaluate_enabled.unwrap_or(base.evaluate_enabled),
        executable_path: or_base(b.executable_path, base.executable_path),
        screenshot_dir: or_base(b.screenshot_dir, base.screenshot_dir),
    }
}

fn merge_browser(b: TomlBrowserConfig, base: &BrowserConfig) -> (r: BrowserConfig)
    ensures
        r == merged_browser(b, *base),
{
    BrowserConfig {
        enabled: b.enabled.unwrap_or(base.enabled),
        headless: b.headless.unwrap_or(base.headless),
        evaluate_enabled: b.evaluate_enabled.unwrap_or(base.evaluate_enabled),
        executable_path: take_or(b.executable_path, &base.executable_path),
        screenshot_dir: take_or(b.screenshot_dir, &base.screenshot_dir),
    }
}

/// The configured permissions, the others from `base`.
pub open spec fn merged_permissions(
    p: Option<TomlOpenCodePermissions>,
    base: OpenCodePermissions,
) -> OpenCodePermissions {
    match p {
        Some(p) => OpenCodePermissions {
            edit: p.edit.unwrap_or(base.edit),
            bash: p.bash.unwrap_or(base.bash),
            webfetch: p.webfetch.unwrap_or(base.webfetch),
        },
        None => base,
    }
}

fn take_or_text(own: Option<String>, base: &String) -> (r: String)
    ensures
        r == own.unwrap_or(*base),
{
    match own {
        Some(s) => s,
        None => base.clone(),
    }
}

fn merge_permissions(p: Option<TomlOpenCodePermissions>, base: &OpenCodePermissions) -> (r:
    OpenCodePermissions)
    ensures
        r == merged_permissions(p, *base),
{
    match p {
        Some(p) => OpenCodePermissions {
            edit: take_or_text(p.edit, &base.edit),
            bash: take_or_text(p.bash, &base.bash),
            webfetch: take_or_text(p.webfetch, &base.webfetch),
        },
        None => base.clone(),
    }
}

/// `r` holds the configured OpenCode settings, the others from `base`. A path
/// that refers to a variable that is not set falls back on that of `base`.
pub open spec fn opencode_from(
    t: Option<TomlOpenCodeConfig>,
    env: EnvVars,
    base: OpenCodeConfig,
    r: OpenCodeConfig,
) -> bool {
    match t {
        Some(oc) => {
            &&& r.enabled == oc.enabled.unwrap_or(base.enabled)
            &&& r.path@ == (match env.resolved(oc.path.unwrap_or(base.path)@) {
                Some(p) => p,
                None => base.path@,
            })
            &&& r.max_servers == oc.max_servers.unwrap_or(base.max_servers)
            &&& r.server_startup_timeout_secs == oc.server_startup_timeout_secs.unwrap_or(
                base.server_startup_timeout_secs,
            )
            &&& r.max_restart_retries == oc.max_restart_retries.unwrap_or(base.max_restart_retries)
            &&& r.permissions == merged_permissions(oc.permissions, base.permissions)
        },
        None => r == base,
    }
}

fn resolve_opencode(
    t: Option<TomlOpenCodeConfig>,
    env: &EnvVars,
    base: &OpenCodeConfig,
) -> (r: OpenCodeConfig)
    ensures
        opencode_from(t, *env, *base, r),
{
    match t {
        Some(oc) => {
            let raw = take_or_text(oc.path, &base.path);
            let path = match env.resolve_env_value(raw.as_str()) {
                Some(p) => p,
                None => base.path.clone(),
            };
            OpenCodeConfig {
                enabled: oc.enabled.unwrap_or(base.enabled),
                path,
                max_servers: oc.max_servers.unwrap_or(base.max_servers),
                server_startup_timeout_secs: oc.server_startup_timeout_secs.unwrap_or(
                    base.server_startup_timeout_secs,
                ),
                max_restart_retries: oc.max_restart_retries.unwrap_or(base.max_restart_retries),
                permissions: merge_permissions(oc.permissions, &base.permissions),
            }
        },
        None => base.clone(),
    }
}

// ---------------------------------------------------------------------------
// Routing
// ---------------------------------------------------------------------------

/// The configured routing over `base`: task overrides are added to those of
/// `base`, fallbacks replace them.
pub open spec fn merged_routing(
    t: Option<TomlRoutingConfig>,
    base: routing::RoutingView,
) -> routing::RoutingView {
    match t {
        Some(t) => routing::RoutingView {
            channel: opt_or(t.channel, base.channel),
            branch: opt_or(t.branch, base.branch),
            worker: opt_or(t.worker, base.worker),
            compactor: opt_or(t.compactor, base.compactor),
            cortex: opt_or(t.cortex, base.cortex),
            task_overrides: base.task_overrides.union_prefer_right(t.task_overrides@),
            fallbacks: match t.fallbacks {
                Some(f) => f@,
                None => base.fallbacks,
            },
            rate_limit_cooldown_secs: t.rate_limit_cooldown_secs.unwrap_or(
                base.rate_limit_cooldown_secs,
            ),
        },
        None => base,
    }
}

/// The text of an optional string, else another.
pub open spec fn opt_or(own: Option<String>, base: Seq<char>) -> Seq<char> {
    match own {
        Some(s) => s@,
        None => base,
    }
}

/// Resolve a TomlRoutingConfig against a base RoutingConfig.
pub fn resolve_routing(toml: Option<TomlRoutingConfig>, base: &RoutingConfig) -> (r: RoutingConfig)
    ensures
        r@ == merged_routing(toml, base@),
{
    match toml {
        Some(t) => {
            let mut task_overrides = base.task_overrides.copy();
            task_overrides.extend(&t.task_overrides);
            let fallbacks = match t.fallbacks {
                Some(f) => f,
                None => base.fallbacks.copy_lists(),
            };
            RoutingConfig {
                channel: take_or_text(t.channel, &base.channel),
                branch: take_or_text(t.branch, &base.branch),
                worker: take_or_text(t.worker, &base.worker),
                compactor: take_or_text(t.compactor, &base.compactor),
                cortex: take_or_text(t.cortex, &base.cortex),
                task_overrides,
                fallbacks,
                rate_limit_cooldown_secs: t.rate_limit_cooldown_secs.unwrap_or(
                    base.rate_limit_cooldown_secs,
                ),
            }
        },
        None => base.clone(),
    }
}

// ---------------------------------------------------------------------------
// Defaults
// ---------------------------------------------------------------------------

/// The worker log mode that a text names, else `base`.
pub open spec fn log_mode_or(own: Option<String>, base: WorkerLogMode) -> WorkerLogMode {
    match own {
        Some(s) => match WorkerLogMode::named(s@) {
            Some(m) => m,
            None => base,
        },
        None => base,
    }
}

/// `r` holds the configured defaults, the others from `base`.
pub open spec fn defaults_from(
    t: TomlDefaultsConfig,
    env: EnvVars,
    base: DefaultsConfig,
    r: DefaultsConfig,
) -> bool {
    &&& r.routing@ == merged_routing(t.routing, base.routing@)
    &&& r.max_concurrent_branches == t.max_concurrent_branches.unwrap_or(
        base.max_concurrent_branches,
    )
    &&& r.max_concurrent_workers == t.max_concurrent_workers.unwrap_or(base.max_concurrent_workers)
    &&& r.max_turns == t.max_turns.unwrap_or(base.max_turns)
    &&& r.branch_max_turns == t.branch_max_turns.unwrap_or(base.branch_max_turns)
    &&& r.context_window == t.context_window.unwrap_or(base.context_window)
    &&& r.compaction == (match t.compaction {
        Some(c) => merged_compaction(c, base.compaction),
        None => base.compaction,
    })
    &&& r.memory_persistence == (match t.memory_persistence {
        Some(c) => merged_memory_persistence(c, base.memory_persistence),
        None => base.memory_persistence,
    })
    &&& r.coalesce == (match t.coalesce {
        Some(c) => merged_coalesce(c, base.coalesce),
        None => base.coalesce,
    })
    &&& r.ingestion == (match t.ingestion {
        Some(c) => merged_ingestion(c, base.ingestion),
        None => base.ingestion,
    })
    &&& r.cortex == (match t.cortex {
        Some(c) => merged_cortex(c, base.cortex),
        None => base.cortex,
    })
    &&& r.browser == (match t.browser {
        Some(b) => merged_browser(b, base.browser),
        None => base.browser,
    })
    &&& text::opt_text(r.brave_search_key) == env.resolved_or(
        t.brave_search_key,
        "BRAVE_SEARCH_API_KEY"@,
    )
    &&& r.history_backfill_count == base.history_backfill_count
    &&& r.cron@.len() == 0
    &&& opencode_from(t.opencode, env, base.opencode, r.opencode)
    &&& r.worker_log_mode == log_mode_or(t.worker_log_mode, base.worker_log_mode)
}

fn resolve_defaults(t: TomlDefaultsConfig, env: &EnvVars, base: DefaultsConfig) -> (r:
    DefaultsConfig)
    ensures
        defaults_from(t, *env, base, r),
{
    let worker_log_mode = match &t.worker_log_mode {
        Some(s) => match WorkerLogMode::from_str(s.as_str()) {
            Ok(m) => m,
            Err(_) => base.worker_log_mode,
        },
        None => base.worker_log_mode,
    };
    let brave_search_key = env.resolve_or(&t.brave_search_key, "BRAVE_SEARCH_API_KEY");
    DefaultsConfig {
        routing: resolve_routing(t.routing, &base.routing),
        max_concurrent_branches: t.max_concurrent_branches.unwrap_or(base.max_concurrent_branches),
        max_concurrent_workers: t.max_concurrent_workers.unwrap_or(base.max_concurrent_workers),
        max_turns: t.max_turns.unwrap_or(base.max_turns),
        branch_max_turns: t.branch_max_turns.unwrap_or(base.branch_max_turns),
        context_window: t.context_window.unwrap_or(base.context_window),
        compaction: match t.compaction {
            Some(c) => merge_compaction(c, base.compaction),
            None => base.compaction,
        },
        memory_persistence: match t.memory_persistence {
            Some(c) => merge_memory_persistence(c, base.memory_persistence),
            None => base.memory_persistence,
        },
        coalesce: match t.coalesce {
            Some(c) => merge_coalesce(c, base.coalesce),
            None => base.coalesce,
        },
        ingestion: match t.ingestion {
            Some(c) => merge_ingestion(c, base.ingestion),
            None => base.ingestion,
        },
        cortex: match t.cortex {
            Some(c) => merge_cortex(c, base.cortex),
            None => base.cortex,
        },
        browser: match t.browser {
            Some(b) => merge_browser(b, &base.browser),
            None => base.browser,
        },
        brave_search_key,
        history_backfill_count: base.history_backfill_count,
        cron: Vec::new(),
        opencode: resolve_opencode(t.opencode, env, &base.opencode),
        worker_log_mode,
    }
}

// ---------------------------------------------------------------------------
// Agents
// ---------------------------------------------------------------------------

/// The active hours of a job: both ends, or none.
pub open spec fn hours(start: Option<u8>, end: Option<u8>) -> Option<(u8, u8)> {
    match (start, end) {
        (Some(s), Some(e)) => Some((s, e)),
        _ => None,
    }
}

/// The scheduled prompt that a section stands for.
pub open spec fn cron_from(h: TomlCronDef) -> CronDef {
    CronDef {
        id: h.id,
        prompt: h.prompt,
        interval_secs: h.interval_secs.unwrap_or(3600),
        delivery_target: h.delivery_target,
        active_hours: hours(h.active_start_hour, h.active_end_hour),
        enabled: h.enabled,
    }
}

/// The scheduled prompts of an agent, in order.
pub open spec fn crons_from(v: Seq<TomlCronDef>) -> Seq<CronDef> {
    Seq::new(v.len(), |i: int| cron_from(v[i]))
}

fn resolve_crons(v: Vec<TomlCronDef>) -> (r: Vec<CronDef>)
    ensures
        r@ == crons_from(v@),
{
    let mut out: Vec<CronDef> = Vec::new();
    for h in it: v
        invariant
            out@ == crons_from(it.seq().take(it.index() as int)),
            it.seq() == v@,
    {
        let ghost i = it.index() as int;
        out.push(
            CronDef {
                id: h.id,
                prompt: h.prompt,
                interval_secs: h.interval_secs.unwrap_or(3600),
                delivery_target: h.delivery_target,
                active_hours: match (h.active_start_hour, h.active_end_hour) {
                    (Some(s), Some(e)) => Some((s, e)),
                    _ => None,
                },
                enabled: h.enabled,
            },
        );
        proof {
            assert(crons_from(v@.take(i)).push(cron_from(v@[i])) =~= crons_from(v@.take(i + 1)));
        }
    }
    assert(v@.take(v@.len() as int) =~= v@);
    out
}

/// `r` holds what the section of an agent says. A section of its own is merged
/// over that of the defaults; the rest is left to the defaults.
pub open spec fn agent_from(
    a: TomlAgentConfig,
    env: EnvVars,
    defaults: DefaultsConfig,
    r: AgentConfig,
) -> bool {
    &&& r.id == a.id
    &&& r.workspace == a.workspace
    &&& (match r.routing {
        Some(x) => a.routing is Some && x@ == merged_routing(a.routing, defaults.routing@),
        None => a.routing is None,
    })
    &&& r.max_concurrent_branches == a.max_concurrent_branches
    &&& r.max_concurrent_workers == a.max_concurrent_workers
    &&& r.max_turns == a.max_turns
    &&& r.branch_max_turns == a.branch_max_turns
    &&& r.context_window == a.context_window
    &&& r.compaction == (match a.compaction {
        Some(c) => Some(merged_compaction(c, defaults.compaction)),
        None => None,
    })
    &&& r.memory_persistence == (match a.memory_persistence {
        Some(c) => Some(merged_memory_persistence(c, defaults.memory_persistence)),
        None => None,
    })
    &&& r.coalesce == (match a.coalesce {
        Some(c) => Some(merged_coalesce(c, defaults.coalesce)),
        None => None,
    })
    &&& r.ingestion == (match a.ingestion {
        Some(c) => Some(merged_ingestion(c, defaults.ingestion)),
        None => None,
    })
    &&& r.cortex == (match a.cortex {
        Some(c) => Some(merged_cortex(c, defaults.cortex)),
        None => None,
    })
    &&& r.browser == (match a.browser {
        Some(b) => Some(merged_browser(b, defaults.browser)),
        None => None,
    })
    &&& text::opt_text(r.brave_search_key) == (match a.brave_search_key {
        Some(k) => env.resolved(k@),
        None => None,
    })
    &&& r.cron@ == crons_from(a.cron@)
}

fn resolve_agent(a: TomlAgentConfig, env: &EnvVars, defaults: &DefaultsConfig) -> (r:
    AgentConfig)
    ensures
        agent_from(a, *env, *defaults, r),
        r.default == a.default,
{
    let agent_routing = match a.routing {
        Some(x) => Some(resolve_routing(Some(x), &defaults.routing)),
        None => None,
    };
    let brave_search_key = match &a.brave_search_key {
        Some(k) => env.resolve_env_value(k.as_str()),
        None => None,
    };
    AgentConfig {
        id: a.id,
        default: a.default,
        workspace: a.workspace,
        routing: agent_routing,
        max_concurrent_branches: a.max_concurrent_branches,
        max_concurrent_workers: a.max_concurrent_workers,
        max_turns: a.max_turns,
        branch_max_turns: a.branch_max_turns,
        context_window: a.context_window,
        compaction: match a.compaction {
            Some(c) => Some(merge_compaction(c, defaults.compaction)),
            None => None,
        },
        memory_persistence: match a.memory_persistence {
            Some(c) => Some(merge_memory_persistence(c, defaults.memory_persistence)),
            None => None,
        },
        coalesce: match a.coalesce {
            Some(c) => Some(merge_coalesce(c, defaults.coalesce)),
            None => None,
        },
        ingestion: match a.ingestion {
            Some(c) => Some(merge_ingestion(c, defaults.ingestion)),
            None => None,
        },
        cortex: match a.cortex {
            Some(c) => Some(merge_cortex(c, defaults.cortex)),
            None => None,
        },
        browser: match a.browser {
            Some(b) => Some(merge_browser(b, &defaults.browser)),
            None => None,
        },
        brave_search_key,
        cron: resolve_crons(a.cron),
    }
}

/// Some section marks its agent as the default.
pub open spec fn any_default(v: Seq<TomlAgentConfig>) -> bool {
    exists|i: int| 0 <= i < v.len() && (#[trigger] v[i]).default
}

/// `r` holds the agents of the file in order, or a single agent `main` where it
/// has none. Where no section marks a default agent, the first is.
pub open spec fn agents_from(
    v: Seq<TomlAgentConfig>,
    env: EnvVars,
    defaults: DefaultsConfig,
    r: Seq<AgentConfig>,
) -> bool {
    if v.len() == 0 {
        r.len() == 1 && r[0].id@ == "main"@ && r[0].default && r[0].overrides_nothing()
    } else {
        &&& r.len() == v.len()
        &&& forall|i: int|
            0 <= i < r.len() ==> agent_from(v[i], env, defaults, #[trigger] r[i])
                && r[i].default == (v[i].default || (i == 0 && !any_default(v)))
    }
}

fn resolve_all_agents(v: Vec<TomlAgentConfig>, env: &EnvVars, defaults: &DefaultsConfig) -> (r:
    Vec<AgentConfig>)
    ensures
        agents_from(v@, *env, *defaults, r@),
{
    let mut out: Vec<AgentConfig> = Vec::new();
    let mut marked = false;
    for a in it: v
        invariant
            it.seq() == v@,
            out@.len() == it.index(),
            forall|j: int|
                0 <= j < out@.len() ==> agent_from(v@[j], *env, *defaults, #[trigger] out@[j])
                    && out@[j].default == v@[j].default,
            marked == exists|j: int| 0 <= j < it.index() && (#[trigger] v@[j]).default,
    {
        let ghost i = it.index() as int;
        assert(v@[i] == a);
        if a.default {
            marked = true;
        }
        out.push(resolve_agent(a, env, defaults));
    }
    if out.len() == 0 {
        out.push(AgentConfig::plain("main".to_owned(), true));
        return out;
    }
    if !marked {
        let ghost before = out@;
        let mut first = out.remove(0);
        first.default = true;
        out.insert(0, first);
        assert forall|j: int| 0 < j < out@.len() implies #[trigger] out@[j] == before[j] by {}
    }
    out
}

/// Some agent of the configuration is the default one.
pub proof fn law_default_agent_exists(
    v: Seq<TomlAgentConfig>,
    env: EnvVars,
    defaults: DefaultsConfig,
    r: Seq<AgentConfig>,
)
    requires
        agents_from(v, env, defaults, r),
    ensures
        r.len() > 0,
        config::first_default(r) < r.len(),
        r[config::first_default(r) as int].default,
{
    let k = if v.len() == 0 || !any_default(v) {
        0
    } else {
        choose|i: int| 0 <= i < v.len() && (#[trigger] v[i]).default
    };
    assert(r[k].default);
    lemma_first_default(r, k);
}

proof fn lemma_first_default(r: Seq<AgentConfig>, k: int)
    requires
        0 <= k < r.len(),
        r[k].default,
    ensures
        config::first_default(r) <= k,
        r[config::first_default(r) as int].default,
    decreases r.len(),
{
    if !r[0].default {
        assert(r.drop_first()[k - 1] == r[k]);
        lemma_first_default(r.drop_first(), k - 1);
    }
}

// ---------------------------------------------------------------------------
// Messaging and bindings
// ---------------------------------------------------------------------------

/// `r` holds the Discord settings, where a token can be had.
pub open spec fn discord_from(
    t: Option<TomlDiscordConfig>,
    env: EnvVars,
    r: Option<DiscordConfig>,
) -> bool {
    match t {
        Some(d) => match env.resolved_or(d.token, "DISCORD_BOT_TOKEN"@) {
            Some(token) => match r {
                Some(x) => x.token@ == token && x.enabled == d.enabled && x.dm_allowed_users
                    == d.dm_allowed_users && x.allow_bot_messages == d.allow_bot_messages,
                None => false,
            },
            None => r is None,
        },
        None => r is None,
    }
}

/// `r` holds the Slack settings, where both tokens can be had.
pub open spec fn slack_from(
    t: Option<TomlSlackConfig>,
    env: EnvVars,
    r: Option<SlackConfig>,
) -> bool {
    match t {
        Some(s) => match (
            env.resolved_or(s.bot_token, "SLACK_BOT_TOKEN"@),
            env.resolved_or(s.app_token, "SLACK_APP_TOKEN"@),
        ) {
            (Some(bot), Some(app)) => match r {
                Some(x) => x.bot_token@ == bot && x.app_token@ == app && x.enabled == s.enabled
                    && x.dm_allowed_users == s.dm_allowed_users,
                None => false,
            },
            _ => r is None,
        },
        None => r is None,
    }
}

/// `r` holds the Telegram settings, where a token can be had.
pub open spec fn telegram_from(
    t: Option<TomlTelegramConfig>,
    env: EnvVars,
    r: Option<TelegramConfig>,
) -> bool {
    match t {
        Some(s) => match env.resolved_or(s.token, "TELEGRAM_BOT_TOKEN"@) {
            Some(token) => match r {
                Some(x) => x.token@ == token && x.enabled == s.enabled && x.dm_allowed_users
                    == s.dm_allowed_users,
                None => false,
            },
            None => r is None,
        },
        None => r is None,
    }
}

/// The webhook settings of a section.
pub open spec fn webhook_from(t: Option<TomlWebhookConfig>) -> Option<WebhookConfig> {
    match t {
        Some(w) => Some(WebhookConfig { enabled: w.enabled, port: w.port, bind: w.bind }),
        None => None,
    }
}

/// `r` holds the settings of every platform.
pub open spec fn messaging_from(
    t: TomlMessagingConfig,
    env: EnvVars,
    r: MessagingConfig,
) -> bool {
    &&& discord_from(t.discord, env, r.discord)
    &&& slack_from(t.slack, env, r.slack)
    &&& telegram_from(t.telegram, env, r.telegram)
    &&& r.webhook == webhook_from(t.webhook)
}

fn resolve_messaging(t: TomlMessagingConfig, env: &EnvVars) -> (r: MessagingConfig)
    ensures
        messaging_from(t, *env, r),
{
    let discord = match t.discord {
        Some(d) => match env.resolve_or(&d.token, "DISCORD_BOT_TOKEN") {
            Some(token) => Some(
                DiscordConfig {
                    enabled: d.enabled,
                    token,
                    dm_allowed_users: d.dm_allowed_users,
                    allow_bot_messages: d.allow_bot_messages,
                },
            ),
            None => None,
        },
        None => None,
    };
    let slack = match t.slack {
        Some(s) => match env.resolve_or(&s.bot_token, "SLACK_BOT_TOKEN") {
            Some(bot_token) => match env.resolve_or(&s.app_token, "SLACK_APP_TOKEN") {
                Some(app_token) => Some(
                    SlackConfig {
                        enabled: s.enabled,
                        bot_token,
                        app_token,
                        dm_allowed_users: s.dm_allowed_users,
                    },
                ),
                None => None,
            },
            None => None,
        },
        None => None,
    };
    let telegram = match t.telegram {
        Some(s) => match env.resolve_or(&s.token, "TELEGRAM_BOT_TOKEN") {
            Some(token) => Some(
                TelegramConfig {
                    enabled: s.enabled,
                    token,
                    dm_allowed_users: s.dm_allowed_users,
                },
            ),
            None => None,
        },
        None => None,
    };
    let webhook = match t.webhook {
        Some(w) => Some(WebhookConfig { enabled: w.enabled, port: w.port, bind: w.bind }),
        None => None,
    };
    MessagingConfig { discord, slack, telegram, webhook }
}

/// The binding that a section stands for.
pub open spec fn binding_from(b: TomlBinding) -> Binding {
    Binding {
        agent_id: b.agent_id,
        channel: b.channel,
        guild_id: b.guild_id,
        workspace_id: b.workspace_id,
        chat_id: b.chat_id,
        channel_ids: b.channel_ids,
        dm_allowed_users: b.dm_allowed_users,
    }
}

/// The bindings of the file, in order.
pub open spec fn bindings_from(v: Seq<TomlBinding>) -> Seq<Binding> {
    Seq::new(v.len(), |i: int| binding_from(v[i]))
}

fn resolve_bindings(v: Vec<TomlBinding>) -> (r: Vec<Binding>)
    ensures
        r@ == bindings_from(v@),
{
    let mut out: Vec<Binding> = Vec::new();
    for b in it: v
        invariant
            out@ == bindings_from(it.seq().take(it.index() as int)),
            it.seq() == v@,
    {
        let ghost i = it.index() as int;
        out.push(
            Binding {
                agent_id: b.agent_id,
                channel: b.channel,
                guild_id: b.guild_id,
                workspace_id: b.workspace_id,
                chat_id: b.chat_id,
                channel_ids: b.channel_ids,
                dm_allowed_users: b.dm_allowed_users,
            },
        );
        proof {
            assert(bindings_from(v@.take(i)).push(binding_from(v@[i])) =~= bindings_from(
                v@.take(i + 1),
            ));
        }
    }
    assert(v@.take(v@.len() as int) =~= v@);
    out
}

// ---------------------------------------------------------------------------
// The configuration
// ---------------------------------------------------------------------------

impl Config {
    /// The configuration that a file stands for, below an instance directory and
    /// over the built-in defaults.
    pub fn from_toml(
        toml: TomlConfig,
        instance_dir: String,
        env: &EnvVars,
        base_routing: RoutingConfig,
        base_permissions: OpenCodePermissions,
    ) -> (r: Config)
        ensures
            r.instance_dir == instance_dir,
            llm_keys(toml.llm, *env, r.llm),
            exists|base: DefaultsConfig|
                #![trigger base.is_builtin()]
                base.is_builtin() && base.routing == base_routing && base.opencode.permissions
                    == base_permissions && defaults_from(toml.defaults, *env, base, r.defaults),
            agents_from(toml.agents@, *env, r.defaults, r.agents@),
            messaging_from(toml.messaging, *env, r.messaging),
            r.bindings@ == bindings_from(toml.bindings@),
            r.api == (ApiConfig {
                enabled: toml.api.enabled,
                port: toml.api.port,
                bind: toml.api.bind,
            }),
    {
        let llm = resolve_llm(&toml.llm, env);
        let base = DefaultsConfig::base(base_routing, base_permissions);
        let defaults = resolve_defaults(toml.defaults, env, base);
        let agents = resolve_all_agents(toml.agents, env, &defaults);
        let messaging = resolve_messaging(toml.messaging, env);
        let bindings = resolve_bindings(toml.bindings);
        Config {
            instance_dir,
            llm,
            defaults,
            agents,
            messaging,
            bindings,
            api: ApiConfig { enabled: toml.api.enabled, port: toml.api.port, bind: toml.api.bind },
        }
    }

    /// The configuration that the environment alone stands for, where there is
    /// no file: one agent `main`, the provider keys of the environment, and the
    /// built-in defaults.
    pub fn load_from_env(
        instance_dir: &str,
        env: &EnvVars,
        base_routing: &RoutingConfig,
        base_permissions: OpenCodePermissions,
    ) -> (r: Config)
        ensures
            r.instance_dir@ == instance_dir@,
            env_keys(*env, r.llm),
            r.defaults.is_builtin(),
            r.defaults.routing@ == base_routing@,
            r.defaults.opencode.permissions == base_permissions,
            r.agents@.len() == 1,
            r.agents@[0].id@ == "main"@,
            r.agents@[0].default,
            env_agent(*env, base_routing@, r.agents@[0]),
            r.messaging.discord is None,
            r.messaging.slack is None,
            r.messaging.telegram is None,
            r.messaging.webhook is None,
            r.bindings@.len() == 0,
            r.api.enabled,
            r.api.port == 19898,
            r.api.bind@ == "127.0.0.1"@,
    {
        let llm = LlmConfig {
            anthropic_key: env.var("ANTHROPIC_API_KEY"),
            openai_key: env.var("OPENAI_API_KEY"),
            openrouter_key: env.var("OPENROUTER_API_KEY"),
            zhipu_key: env.var("ZHIPU_API_KEY"),
            groq_key: env.var("GROQ_API_KEY"),
            together_key: env.var("TOGETHER_API_KEY"),
            fireworks_key: env.var("FIREWORKS_API_KEY"),
            deepseek_key: env.var("DEEPSEEK_API_KEY"),
            xai_key: env.var("XAI_API_KEY"),
            mistral_key: env.var("MISTRAL_API_KEY"),
            opencode_zen_key: env.var("OPENCODE_ZEN_API_KEY"),
        };
        let mut own = base_routing.clone();
        if let Some(channel_model) = env.var("SPACEBOT_CHANNEL_MODEL") {
            own.channel = channel_model;
        }
        if let Some(worker_model) = env.var("SPACEBOT_WORKER_MODEL") {
            own.worker = worker_model;
        }
        let mut agent = AgentConfig::plain("main".to_owned(), true);
        agent.routing = Some(own);
        let mut agents: Vec<AgentConfig> = Vec::new();
        agents.push(agent);
        Config {
            instance_dir: instance_dir.to_owned(),
            llm,
            defaults: DefaultsConfig::base(base_routing.clone(), base_permissions),
            agents,
            messaging: MessagingConfig::default(),
            bindings: Vec::new(),
            api: ApiConfig::default(),
        }
    }

    /// The instance directory: that of the environment, else `.spacebot` in the
    /// home directory, else in the working directory.
    pub fn default_instance_dir(env: &EnvVars, home: Option<&str>) -> (r: String)
        ensures
            r@ == instance_dir_of(*env, home),
    {
        match env.var("SPACEBOT_DIR") {
            Some(d) => d,
            None => match home {
                Some(h) => path_join(h, ".spacebot"),
                None => "./.spacebot".to_owned(),
            },
        }
    }

    /// Check whether a first-run onboarding is needed (no config file and no env
    /// keys).
    pub fn needs_onboarding(config_exists: bool, env: &EnvVars) -> (r: bool)
        ensures
            r == (!config_exists && has_no_key(*env)),
    {
        !config_exists && !env.is_set("ANTHROPIC_API_KEY") && !env.is_set("OPENAI_API_KEY")
            && !env.is_set("OPENROUTER_API_KEY") && !env.is_set("ZHIPU_API_KEY") && !env.is_set(
            "GROQ_API_KEY",
        ) && !env.is_set("TOGETHER_API_KEY") && !env.is_set("FIREWORKS_API_KEY") && !env.is_set(
            "DEEPSEEK_API_KEY",
        ) && !env.is_set("XAI_API_KEY") && !env.is_set("MISTRAL_API_KEY") && !env.is_set(
            "OPENCODE_ZEN_API_KEY",
        )
    }
}

/// The instance directory.
pub open spec fn instance_dir_of(env: EnvVars, home: Option<&str>) -> Seq<char> {
    match env.value("SPACEBOT_DIR"@) {
        Some(d) => d,
        None => match home {
            Some(h) => paths::joined(h@, ".spacebot"@),
            None => "./.spacebot"@,
        },
    }
}

/// The environment holds no provider key.
pub open spec fn has_no_key(env: EnvVars) -> bool {
    &&& env.value("ANTHROPIC_API_KEY"@) is None
    &&& env.value("OPENAI_API_KEY"@) is None
    &&& env.value("OPENROUTER_API_KEY"@) is None
    &&& env.value("ZHIPU_API_KEY"@) is None
    &&& env.value("GROQ_API_KEY"@) is None
    &&& env.value("TOGETHER_API_KEY"@) is None
    &&& env.value("FIREWORKS_API_KEY"@) is None
    &&& env.value("DEEPSEEK_API_KEY"@) is None
    &&& env.value("XAI_API_KEY"@) is None
    &&& env.value("MISTRAL_API_KEY"@) is None
    &&& env.value("OPENCODE_ZEN_API_KEY"@) is None
}

/// An environment holds no provider key exactly where the configuration that is
/// loaded from it has none.
pub proof fn law_onboarding_is_for_want_of_keys(env: EnvVars, llm: LlmConfig)
    requires
        env_keys(env, llm),
    ensures
        has_no_key(env) <==> forall|i: int|
            0 <= i < llm.keys().len() ==> (#[trigger] llm.keys()[i]) is None,
{
    let k = llm.keys();
    assert(k[0] == llm.anthropic_key && k[1] == llm.openai_key && k[2] == llm.openrouter_key);
    assert(k[3] == llm.zhipu_key && k[4] == llm.groq_key && k[5] == llm.together_key);
    assert(k[6] == llm.fireworks_key && k[7] == llm.deepseek_key && k[8] == llm.xai_key);
    assert(k[9] == llm.mistral_key && k[10] == llm.opencode_zen_key);
}

/// Each provider key is the provider's variable.
pub open spec fn env_keys(env: EnvVars, r: LlmConfig) -> bool {
    &&& text::opt_text(r.anthropic_key) == env.value("ANTHROPIC_API_KEY"@)
    &&& text::opt_text(r.openai_key) == env.value("OPENAI_API_KEY"@)
    &&& text::opt_text(r.openrouter_key) == env.value("OPENROUTER_API_KEY"@)
    &&& text::opt_text(r.zhipu_key) == env.value("ZHIPU_API_KEY"@)
    &&& text::opt_text(r.groq_key) == env.value("GROQ_API_KEY"@)
    &&& text::opt_text(r.together_key) == env.value("TOGETHER_API_KEY"@)
    &&& text::opt_text(r.fireworks_key) == env.value("FIREWORKS_API_KEY"@)
    &&& text::opt_text(r.deepseek_key) == env.value("DEEPSEEK_API_KEY"@)
    &&& text::opt_text(r.xai_key) == env.value("XAI_API_KEY"@)
    &&& text::opt_text(r.mistral_key) == env.value("MISTRAL_API_KEY"@)
    &&& text::opt_text(r.opencode_zen_key) == env.value("OPENCODE_ZEN_API_KEY"@)
}

/// The agent overrides the models that the environment names, and nothing else.
pub open spec fn env_agent(env: EnvVars, base: routing::RoutingView, a: AgentConfig) -> bool {
    let own = routing::RoutingView {
        channel: match env.value("SPACEBOT_CHANNEL_MODEL"@) {
            Some(m) => m,
            None => base.channel,
        },
        worker: match env.value("SPACEBOT_WORKER_MODEL"@) {
            Some(m) => m,
            None => base.worker,
        },
        ..base
    };
    &&& (match a.routing {
        Some(x) => x@ == own,
        None => false,
    })
    &&& (AgentConfig { routing: None, ..a }).overrides_nothing()
}

/// A compaction threshold that is configured counts, and any other keeps its value.
pub proof fn law_configured_compaction_counts(own: TomlCompactionConfig, base: CompactionConfig)
    ensures
        own.background_threshold matches Some(x) ==> merged_compaction(own, base).background_threshold == x,
        own.background_threshold is None ==> merged_compaction(own, base).background_threshold == base.background_threshold,
        own.aggressive_threshold matches Some(x) ==> merged_compaction(own, base).aggressive_threshold == x,
        own.aggressive_threshold is None ==> merged_compaction(own, base).aggressive_threshold == base.aggressive_threshold,
        own.emergency_threshold matches Some(x) ==> merged_compaction(own, base).emergency_threshold == x,
        own.emergency_threshold is None ==> merged_compaction(own, base).emergency_threshold == base.emergency_threshold,
{
}

/// A setting of memory persistence that is configured counts, and any other keeps its value.
pub proof fn law_configured_memory_persistence_counts(own: TomlMemoryPersistenceConfig, base: MemoryPersistenceConfig)
    ensures
        own.enabled matches Some(x) ==> merged_memory_persistence(own, base).enabled == x,
        own.enabled is None ==> merged_memory_persistence(own, base).enabled == base.enabled,
        own.message_interval matches Some(x) ==> merged_memory_persistence(own, base).message_interval == x,
        own.message_interval is None ==> merged_memory_persistence(own, base).message_interval == base.message_interval,
{
}

/// A batching setting that is configured counts, and any other keeps its value.
pub proof fn law_configured_coalesce_counts(own: TomlCoalesceConfig, base: CoalesceConfig)
    ensures
        own.enabled matches Some(x) ==> merged_coalesce(own, base).enabled == x,
        own.enabled is None ==> merged_coalesce(own, base).enabled == base.enabled,
        own.debounce_ms matches Some(x) ==> merged_coalesce(own, base).debounce_ms == x,
        own.debounce_ms is None ==> merged_coalesce(own, base).debounce_ms == base.debounce_ms,
        own.max_wait_ms matches Some(x) ==> merged_coalesce(own, base).max_wait_ms == x,
        own.max_wait_ms is None ==> merged_coalesce(own, base).max_wait_ms == base.max_wait_ms,
        own.min_messages matches Some(x) ==> merged_coalesce(own, base).min_messages == x,
        own.min_messages is None ==> merged_coalesce(own, base).min_messages == base.min_messages,
        own.multi_user_only matches Some(x) ==> merged_coalesce(own, base).multi_user_only == x,
        own.multi_user_only is None ==> merged_coalesce(own, base).multi_user_only == base.multi_user_only,
{
}

/// A ingestion setting that is configured counts, and any other keeps its value.
pub proof fn law_configured_ingestion_counts(own: TomlIngestionConfig, base: IngestionConfig)
    ensures
        own.enabled matches Some(x) ==> merged_ingestion(own, base).enabled == x,
        own.enabled is None ==> merged_ingestion(own, base).enabled == base.enabled,
        own.poll_interval_secs matches Some(x) ==> merged_ingestion(own, base).poll_interval_secs == x,
        own.poll_interval_secs is None ==> merged_ingestion(own, base).poll_interval_secs == base.poll_interval_secs,
        own.chunk_size matches Some(x) ==> merged_ingestion(own, base).chunk_size == x,
        own.chunk_size is None ==> merged_ingestion(own, base).chunk_size == base.chunk_size,
{
}

/// A cortex setting that is configured counts, and any other keeps its value.
pub proof fn law_configured_cortex_counts(own: TomlCortexConfig, base: CortexConfig)
    ensures
        own.tick_interval_secs matches Some(x) ==> merged_cortex(own, base).tick_interval_secs == x,
        own.tick_interval_secs is None ==> merged_cortex(own, base).tick_interval_secs == base.tick_interval_secs,
        own.worker_timeout_secs matches Some(x) ==> merged_cortex(own, base).worker_timeout_secs == x,
        own.worker_timeout_secs is None ==> merged_cortex(own, base).worker_timeout_secs == base.worker_timeout_secs,
        own.branch_timeout_secs matches Some(x) ==> merged_cortex(own, base).branch_timeout_secs == x,
        own.branch_timeout_secs is None ==> merged_cortex(own, base).branch_timeout_secs == base.branch_timeout_secs,
        own.circuit_breaker_threshold matches Some(x) ==> merged_cortex(own, base).circuit_breaker_threshold == x,
        own.circuit_breaker_threshold is None ==> merged_cortex(own, base).circuit_breaker_threshold == base.circuit_breaker_threshold,
        own.bulletin_interval_secs matches Some(x) ==> merged_cortex(own, base).bulletin_interval_secs == x,
        own.bulletin_interval_secs is None ==> merged_cortex(own, base).bulletin_interval_secs == base.bulletin_interval_secs,
        own.bulletin_max_words matches Some(x) ==> merged_cortex(own, base).bulletin_max_words == x,
        own.bulletin_max_words is None ==> merged_cortex(own, base).bulletin_max_words == base.bulletin_max_words,
        own.bulletin_max_turns matches Some(x) ==> merged_cortex(own, base).bulletin_max_turns == x,
        own.bulletin_max_turns is None ==> merged_cortex(own, base).bulletin_max_turns == base.bulletin_max_turns,
        own.association_interval_secs matches Some(x) ==> merged_cortex(own, base).association_interval_secs == x,
        own.association_interval_secs is None ==> merged_cortex(own, base).association_interval_secs == base.association_interval_secs,
        own.association_similarity_threshold matches Some(x) ==> merged_cortex(own, base).association_similarity_threshold == x,
        own.association_similarity_threshold is None ==> merged_cortex(own, base).association_similarity_threshold == base.association_similarity_threshold,
        own.association_updates_threshold matches Some(x) ==> merged_cortex(own, base).association_updates_threshold == x,
        own.association_updates_threshold is None ==> merged_cortex(own, base).association_updates_threshold == base.association_updates_threshold,
        own.association_max_per_pass matches Some(x) ==> merged_cortex(own, base).association_max_per_pass == x,
        own.association_max_per_pass is None ==> merged_cortex(own, base).association_max_per_pass == base.association_max_per_pass,
{
}

/// A browser setting that is configured counts, and any other keeps its value.
pub proof fn law_configured_browser_counts(own: TomlBrowserConfig, base: BrowserConfig)
    ensures
        own.enabled matches Some(x) ==> merged_browser(own, base).enabled == x,
        own.enabled is None ==> merged_browser(own, base).enabled == base.enabled,
        own.headless matches Some(x) ==> merged_browser(own, base).headless == x,
        own.headless is None ==> merged_browser(own, base).headless == base.headless,
        own.evaluate_enabled matches Some(x) ==> merged_browser(own, base).evaluate_enabled == x,
        own.evaluate_enabled is None ==> merged_browser(own, base).evaluate_enabled == base.evaluate_enabled,
        merged_browser(own, base).executable_path == (if own.executable_path is Some {
            own.executable_path
        } else {
            base.executable_path
        }),
        merged_browser(own, base).screenshot_dir == (if own.screenshot_dir is Some {
            own.screenshot_dir
        } else {
            base.screenshot_dir
        }),
{
}

/// A permission of OpenCode that is configured counts, and any other keeps its value.
pub proof fn law_configured_permissions_count(
    own: TomlOpenCodePermissions,
    base: OpenCodePermissions,
)
    ensures
        own.edit matches Some(x) ==> merged_permissions(Some(own), base).edit == x,
        own.edit is None ==> merged_permissions(Some(own), base).edit == base.edit,
        own.bash matches Some(x) ==> merged_permissions(Some(own), base).bash == x,
        own.bash is None ==> merged_permissions(Some(own), base).bash == base.bash,
        own.webfetch matches Some(x) ==> merged_permissions(Some(own), base).webfetch == x,
        own.webfetch is None ==> merged_permissions(Some(own), base).webfetch == base.webfetch,
        merged_permissions(None, base) == base,
{
}

/// A model that is configured for a process counts, and any other process keeps its own.
/// A task that is configured gets its model, and the other tasks keep theirs; fallbacks
/// that are configured replace all others.
pub proof fn law_configured_models_count(
    own: TomlRoutingConfig,
    base: routing::RoutingView,
    task: Seq<char>,
)
    ensures
        own.channel matches Some(x) ==> merged_routing(Some(own), base).channel == x@,
        own.channel is None ==> merged_routing(Some(own), base).channel == base.channel,
        own.branch matches Some(x) ==> merged_routing(Some(own), base).branch == x@,
        own.branch is None ==> merged_routing(Some(own), base).branch == base.branch,
        own.worker matches Some(x) ==> merged_routing(Some(own), base).worker == x@,
        own.worker is None ==> merged_routing(Some(own), base).worker == base.worker,
        own.compactor matches Some(x) ==> merged_routing(Some(own), base).compactor == x@,
        own.compactor is None ==> merged_routing(Some(own), base).compactor == base.compactor,
        own.cortex matches Some(x) ==> merged_routing(Some(own), base).cortex == x@,
        own.cortex is None ==> merged_routing(Some(own), base).cortex == base.cortex,
        own.task_overrides@.contains_key(task) ==> merged_routing(
            Some(own),
            base,
        ).task_overrides[task] == own.task_overrides@[task],
        !own.task_overrides@.contains_key(task) && base.task_overrides.contains_key(task)
            ==> merged_routing(Some(own), base).task_overrides[task] == base.task_overrides[task],
        merged_routing(Some(own), base).task_overrides.contains_key(task)
            <==> own.task_overrides@.contains_key(task) || base.task_overrides.contains_key(task),
        own.fallbacks matches Some(f) ==> merged_routing(Some(own), base).fallbacks == f@,
        own.fallbacks is None ==> merged_routing(Some(own), base).fallbacks == base.fallbacks,
        own.rate_limit_cooldown_secs matches Some(n) ==> merged_routing(
            Some(own),
            base,
        ).rate_limit_cooldown_secs == n,
        own.rate_limit_cooldown_secs is None ==> merged_routing(
            Some(own),
            base,
        ).rate_limit_cooldown_secs == base.rate_limit_cooldown_secs,
        merged_routing(None, base) == base,
{
}

/// A default that is configured counts, and any other keeps its built-in value.
pub proof fn law_configured_defaults_count(
    t: TomlDefaultsConfig,
    env: EnvVars,
    base: DefaultsConfig,
    r: DefaultsConfig,
)
    requires
        defaults_from(t, env, base, r),
    ensures
        t.max_turns matches Some(n) ==> r.max_turns == n,
        t.max_turns is None ==> r.max_turns == base.max_turns,
        t.branch_max_turns matches Some(n) ==> r.branch_max_turns == n,
        t.branch_max_turns is None ==> r.branch_max_turns == base.branch_max_turns,
        t.context_window matches Some(n) ==> r.context_window == n,
        t.context_window is None ==> r.context_window == base.context_window,
        t.max_concurrent_branches matches Some(n) ==> r.max_concurrent_branches == n,
        t.max_concurrent_branches is None ==> r.max_concurrent_branches
            == base.max_concurrent_branches,
        t.max_concurrent_workers matches Some(n) ==> r.max_concurrent_workers == n,
        t.max_concurrent_workers is None ==> r.max_concurrent_workers
            == base.max_concurrent_workers,
        t.routing is None ==> r.routing@ == base.routing@,
        t.compaction is None ==> r.compaction == base.compaction,
        t.memory_persistence is None ==> r.memory_persistence == base.memory_persistence,
        t.coalesce is None ==> r.coalesce == base.coalesce,
        t.ingestion is None ==> r.ingestion == base.ingestion,
        t.cortex is None ==> r.cortex == base.cortex,
        t.browser is None ==> r.browser == base.browser,
        t.opencode is None ==> r.opencode == base.opencode,
        t.worker_log_mode is None ==> r.worker_log_mode == base.worker_log_mode,
        t.worker_log_mode matches Some(s) ==> (s@ == "all_combined"@ ==> r.worker_log_mode
            == WorkerLogMode::AllCombined),
        t.compaction matches Some(c) ==> (c.emergency_threshold matches Some(x)
            ==> r.compaction.emergency_threshold == x),
        t.routing matches Some(c) ==> (c.channel matches Some(x) ==> r.routing@.channel == x@),
        r.history_backfill_count == base.history_backfill_count,
{
    reveal_strlit("errors_only");
    reveal_strlit("all_separate");
    reveal_strlit("all_combined");
    assert("errors_only"@[0] != "all_combined"@[0]);
    assert("all_separate"@[4] != "all_combined"@[4]);
}

/// A scheduled prompt is taken over as it stands, every hour unless another interval is
/// given. It has active hours where both ends are given.
pub proof fn law_scheduled_prompts_are_taken_over(v: Seq<TomlCronDef>, i: int)
    requires
        0 <= i < v.len(),
    ensures
        crons_from(v).len() == v.len(),
        crons_from(v)[i].id@ == v[i].id@,
        crons_from(v)[i].prompt@ == v[i].prompt@,
        crons_from(v)[i].delivery_target@ == v[i].delivery_target@,
        crons_from(v)[i].enabled <==> v[i].enabled,
        v[i].interval_secs matches Some(n) ==> crons_from(v)[i].interval_secs == n,
        v[i].interval_secs is None ==> crons_from(v)[i].interval_secs == 3600,
        crons_from(v)[i].active_hours is Some <==> v[i].active_start_hour is Some
            && v[i].active_end_hour is Some,
        crons_from(v)[i].active_hours matches Some(h) ==> v[i].active_start_hour == Some(h.0)
            && v[i].active_end_hour == Some(h.1),
{
}

/// A binding is taken over as it stands, in the order of the file.
pub proof fn law_bindings_are_taken_over(v: Seq<TomlBinding>, i: int)
    requires
        0 <= i < v.len(),
    ensures
        bindings_from(v).len() == v.len(),
        bindings_from(v)[i].agent_id@ == v[i].agent_id@,
        bindings_from(v)[i].channel@ == v[i].channel@,
        bindings_from(v)[i].guild_id == v[i].guild_id,
        bindings_from(v)[i].workspace_id == v[i].workspace_id,
        bindings_from(v)[i].chat_id == v[i].chat_id,
        bindings_from(v)[i].channel_ids@ == v[i].channel_ids@,
        bindings_from(v)[i].dm_allowed_users@ == v[i].dm_allowed_users@,
{
}

/// The agents stand in the order of the file, with what they override. The one that is
/// marked is the default, and the first one is where none is marked.
pub proof fn law_agents_are_taken_over(
    v: Seq<TomlAgentConfig>,
    env: EnvVars,
    defaults: DefaultsConfig,
    r: Seq<AgentConfig>,
    i: int,
)
    requires
        agents_from(v, env, defaults, r),
        0 <= i < v.len(),
    ensures
        r.len() == v.len(),
        r[i].id@ == v[i].id@,
        r[i].workspace == v[i].workspace,
        r[i].max_turns == v[i].max_turns,
        r[i].branch_max_turns == v[i].branch_max_turns,
        r[i].context_window == v[i].context_window,
        r[i].max_concurrent_branches == v[i].max_concurrent_branches,
        r[i].max_concurrent_workers == v[i].max_concurrent_workers,
        r[i].routing is Some <==> v[i].routing is Some,
        r[i].compaction is Some <==> v[i].compaction is Some,
        r[i].memory_persistence is Some <==> v[i].memory_persistence is Some,
        r[i].coalesce is Some <==> v[i].coalesce is Some,
        r[i].ingestion is Some <==> v[i].ingestion is Some,
        r[i].cortex is Some <==> v[i].cortex is Some,
        r[i].browser is Some <==> v[i].browser is Some,
        r[i].cron@.len() == v[i].cron@.len(),
        v[i].default ==> r[i].default,
        r[i].default ==> v[i].default || (i == 0 && forall|k: int|
            0 <= k < v.len() ==> !(#[trigger] v[k]).default),
        (forall|k: int| 0 <= k < v.len() ==> !(#[trigger] v[k]).default) ==> r[0].default,
{
    assert(agent_from(v[i], env, defaults, r[i]));
    assert(agent_from(v[0], env, defaults, r[0]));
}

/// A file without an agent stands for one agent, `main`, with the settings of the
/// defaults.
pub proof fn law_main_agent_stands_in(
    env: EnvVars,
    defaults: DefaultsConfig,
    r: Seq<AgentConfig>,
)
    requires
        agents_from(Seq::empty(), env, defaults, r),
    ensures
        r.len() == 1 && r[0].id@ == "main"@ && r[0].default && r[0].max_turns is None
            && r[0].routing is None && r[0].workspace is None && r[0].cron@.len() == 0,
{
}

/// A platform has settings where its section gives a token or the environment does, for
/// Slack both of them. It is enabled where the section says so, and lets in the users that
/// it lists.
pub proof fn law_platforms_need_their_tokens(
    t: TomlMessagingConfig,
    env: EnvVars,
    r: MessagingConfig,
)
    requires
        messaging_from(t, env, r),
    ensures
        r.discord is Some <==> t.discord is Some && env.resolved_or(
            t.discord->0.token,
            "DISCORD_BOT_TOKEN"@,
        ) is Some,
        r.discord matches Some(d) ==> (d.enabled <==> t.discord->0.enabled)
            && d.dm_allowed_users@ == t.discord->0.dm_allowed_users@ && (d.allow_bot_messages
            <==> t.discord->0.allow_bot_messages) && Some(d.token@) == env.resolved_or(
            t.discord->0.token,
            "DISCORD_BOT_TOKEN"@,
        ),
        r.slack is Some <==> t.slack is Some && env.resolved_or(
            t.slack->0.bot_token,
            "SLACK_BOT_TOKEN"@,
        ) is Some && env.resolved_or(t.slack->0.app_token, "SLACK_APP_TOKEN"@) is Some,
        r.slack matches Some(s) ==> (s.enabled <==> t.slack->0.enabled) && s.dm_allowed_users@
            == t.slack->0.dm_allowed_users@ && Some(s.bot_token@) == env.resolved_or(
            t.slack->0.bot_token,
            "SLACK_BOT_TOKEN"@,
        ) && Some(s.app_token@) == env.resolved_or(t.slack->0.app_token, "SLACK_APP_TOKEN"@),
        r.telegram is Some <==> t.telegram is Some && env.resolved_or(
            t.telegram->0.token,
            "TELEGRAM_BOT_TOKEN"@,
        ) is Some,
        r.telegram matches Some(s) ==> (s.enabled <==> t.telegram->0.enabled)
            && s.dm_allowed_users@ == t.telegram->0.dm_allowed_users@ && Some(s.token@)
            == env.resolved_or(t.telegram->0.token, "TELEGRAM_BOT_TOKEN"@),
        r.webhook is Some <==> t.webhook is Some,
        r.webhook matches Some(w) ==> (w.enabled <==> t.webhook->0.enabled) && w.port
            == t.webhook->0.port && w.bind@ == t.webhook->0.bind@,
{
}

/// Every provider has a variable of its own: a key that is configured counts, and the
/// variable counts where none is.
pub proof fn law_keys_come_from_their_variables(t: TomlLlmConfig, env: EnvVars, r: LlmConfig)
    requires
        llm_keys(t, env, r),
    ensures
        t.anthropic_key is None ==> text::opt_text(r.anthropic_key) == env.value("ANTHROPIC_API_KEY"@),
        t.openai_key is None ==> text::opt_text(r.openai_key) == env.value("OPENAI_API_KEY"@),
        t.openrouter_key is None ==> text::opt_text(r.openrouter_key) == env.value("OPENROUTER_API_KEY"@),
        t.zhipu_key is None ==> text::opt_text(r.zhipu_key) == env.value("ZHIPU_API_KEY"@),
        t.groq_key is None ==> text::opt_text(r.groq_key) == env.value("GROQ_API_KEY"@),
        t.together_key is None ==> text::opt_text(r.together_key) == env.value("TOGETHER_API_KEY"@),
        t.fireworks_key is None ==> text::opt_text(r.fireworks_key) == env.value("FIREWORKS_API_KEY"@),
        t.deepseek_key is None ==> text::opt_text(r.deepseek_key) == env.value("DEEPSEEK_API_KEY"@),
        t.xai_key is None ==> text::opt_text(r.xai_key) == env.value("XAI_API_KEY"@),
        t.mistral_key is None ==> text::opt_text(r.mistral_key) == env.value("MISTRAL_API_KEY"@),
        t.opencode_zen_key is None ==> text::opt_text(r.opencode_zen_key) == env.value("OPENCODE_ZEN_API_KEY"@),
{
}

/// The instance lies where the environment says, else in the home directory, else in the
/// working directory.
pub proof fn law_place_of_the_instance(env: EnvVars, home: Option<&str>)
    ensures
        env.value("SPACEBOT_DIR"@) matches Some(d) ==> instance_dir_of(env, home) == d,
        env.value("SPACEBOT_DIR"@) is None && home is None ==> instance_dir_of(env, home)
            == "./.spacebot"@,
        env.value("SPACEBOT_DIR"@) is None && home is Some && home->0@.len() > 0 && home->0@.last()
            != '/' ==> instance_dir_of(env, home) == home->0@ + "/.spacebot"@,
{
    reveal_strlit(".spacebot");
    reveal_strlit("/.spacebot");
    if env.value("SPACEBOT_DIR"@) is None && home is Some && home->0@.len() > 0 && home->0@.last()
        != '/' {
        assert(instance_dir_of(env, home) == home->0@ + "/.spacebot"@);
    }
}

/// Without a file the models of channels and workers come from the environment where it
/// names them, and every other model is the built-in one.
pub proof fn law_environment_names_models(env: EnvVars, base: routing::RoutingView, a: AgentConfig)
    requires
        env_agent(env, base, a),
    ensures
        a.routing is Some,
        env.value("SPACEBOT_CHANNEL_MODEL"@) matches Some(m) ==> a.routing->0@.channel == m,
        env.value("SPACEBOT_CHANNEL_MODEL"@) is None ==> a.routing->0@.channel == base.channel,
        env.value("SPACEBOT_WORKER_MODEL"@) matches Some(m) ==> a.routing->0@.worker == m,
        env.value("SPACEBOT_WORKER_MODEL"@) is None ==> a.routing->0@.worker == base.worker,
        a.routing->0@.branch == base.branch && a.routing->0@.compactor == base.compactor
            && a.routing->0@.cortex == base.cortex,
        a.routing->0@.fallbacks == base.fallbacks && a.routing->0@.task_overrides
            == base.task_overrides,
        a.max_turns is None && a.compaction is None && a.workspace is None,
{
}

/// The settings of OpenCode that are configured count, and the others keep their values.
/// A path that refers to a variable is that of the variable where it is set.
pub proof fn law_configured_opencode_counts(
    own: TomlOpenCodeConfig,
    env: EnvVars,
    base: OpenCodeConfig,
    r: OpenCodeConfig,
)
    requires
        opencode_from(Some(own), env, base, r),
    ensures
        own.enabled matches Some(x) ==> r.enabled == x,
        own.enabled is None ==> r.enabled == base.enabled,
        own.max_servers matches Some(x) ==> r.max_servers == x,
        own.max_servers is None ==> r.max_servers == base.max_servers,
        own.server_startup_timeout_secs matches Some(x) ==> r.server_startup_timeout_secs == x,
        own.server_startup_timeout_secs is None ==> r.server_startup_timeout_secs
            == base.server_startup_timeout_secs,
        own.max_restart_retries matches Some(x) ==> r.max_restart_retries == x,
        own.max_restart_retries is None ==> r.max_restart_retries == base.max_restart_retries,
        own.path matches Some(x) ==> (!"env:"@.is_prefix_of(x@) ==> r.path@ == x@),
        own.path is None && !"env:"@.is_prefix_of(base.path@) ==> r.path@ == base.path@,
        own.permissions is None ==> r.permissions == base.permissions,
{
}

/// A section of an agent is its own where it says something, and that of the defaults
/// where it does not.
pub proof fn law_sections_of_an_agent(
    a: TomlAgentConfig,
    env: EnvVars,
    defaults: DefaultsConfig,
    r: AgentConfig,
)
    requires
        agent_from(a, env, defaults, r),
    ensures
        a.routing matches Some(t) ==> (t.channel matches Some(x) ==> r.routing->0@.channel == x@),
        a.routing matches Some(t) ==> (t.channel is None ==> r.routing->0@.channel
            == defaults.routing@.channel),
        a.compaction matches Some(t) ==> (t.background_threshold matches Some(x) ==> r.compaction->0.background_threshold == x),
        a.compaction matches Some(t) ==> (t.background_threshold is None ==> r.compaction->0.background_threshold
            == defaults.compaction.background_threshold),
        a.compaction matches Some(t) ==> (t.aggressive_threshold matches Some(x) ==> r.compaction->0.aggressive_threshold == x),
        a.compaction matches Some(t) ==> (t.aggressive_threshold is None ==> r.compaction->0.aggressive_threshold
            == defaults.compaction.aggressive_threshold),
        a.compaction matches Some(t) ==> (t.emergency_threshold matches Some(x) ==> r.compaction->0.emergency_threshold == x),
        a.compaction matches Some(t) ==> (t.emergency_threshold is None ==> r.compaction->0.emergency_threshold
            == defaults.compaction.emergency_threshold),
        a.memory_persistence matches Some(t) ==> (t.enabled matches Some(x) ==> r.memory_persistence->0.enabled == x),
        a.memory_persistence matches Some(t) ==> (t.enabled is None ==> r.memory_persistence->0.enabled
            == defaults.memory_persistence.enabled),
        a.memory_persistence matches Some(t) ==> (t.message_interval matches Some(x) ==> r.memory_persistence->0.message_interval == x),
        a.memory_persistence matches Some(t) ==> (t.message_interval is None ==> r.memory_persistence->0.message_interval
            == defaults.memory_persistence.message_interval),
        a.coalesce matches Some(t) ==> (t.enabled matches Some(x) ==> r.coalesce->0.enabled == x),
        a.coalesce matches Some(t) ==> (t.enabled is None ==> r.coalesce->0.enabled
            == defaults.coalesce.enabled),
        a.coalesce matches Some(t) ==> (t.debounce_ms matches Some(x) ==> r.coalesce->0.debounce_ms == x),
        a.coalesce matches Some(t) ==> (t.debounce_ms is None ==> r.coalesce->0.debounce_ms
            == defaults.coalesce.debounce_ms),
        a.coalesce matches Some(t) ==> (t.max_wait_ms matches Some(x) ==> r.coalesce->0.max_wait_ms == x),
        a.coalesce matches Some(t) ==> (t.max_wait_ms is None ==> r.coalesce->0.max_wait_ms
            == defaults.coalesce.max_wait_ms),
        a.ingestion matches Some(t) ==> (t.enabled matches Some(x) ==> r.ingestion->0.enabled == x),
        a.ingestion matches Some(t) ==> (t.enabled is None ==> r.ingestion->0.enabled
            == defaults.ingestion.enabled),
        a.ingestion matches Some(t) ==> (t.poll_interval_secs matches Some(x) ==> r.ingestion->0.poll_interval_secs == x),
        a.ingestion matches Some(t) ==> (t.poll_interval_secs is None ==> r.ingestion->0.poll_interval_secs
            == defaults.ingestion.poll_interval_secs),
        a.ingestion matches Some(t) ==> (t.chunk_size matches Some(x) ==> r.ingestion->0.chunk_size == x),
        a.ingestion matches Some(t) ==> (t.chunk_size is None ==> r.ingestion->0.chunk_size
            == defaults.ingestion.chunk_size),
        a.cortex matches Some(t) ==> (t.tick_interval_secs matches Some(x) ==> r.cortex->0.tick_interval_secs == x),
        a.cortex matches Some(t) ==> (t.tick_interval_secs is None ==> r.cortex->0.tick_interval_secs
            == defaults.cortex.tick_interval_secs),
        a.cortex matches Some(t) ==> (t.bulletin_max_words matches Some(x) ==> r.cortex->0.bulletin_max_words == x),
        a.cortex matches Some(t) ==> (t.bulletin_max_words is None ==> r.cortex->0.bulletin_max_words
            == defaults.cortex.bulletin_max_words),
        a.browser matches Some(t) ==> (t.enabled matches Some(x) ==> r.browser->0.enabled == x),
        a.browser matches Some(t) ==> (t.enabled is None ==> r.browser->0.enabled
            == defaults.browser.enabled),
        a.browser matches Some(t) ==> (t.headless matches Some(x) ==> r.browser->0.headless == x),
        a.browser matches Some(t) ==> (t.headless is None ==> r.browser->0.headless
            == defaults.browser.headless),
        a.brave_search_key is None ==> r.brave_search_key is None,
        a.brave_search_key matches Some(k) ==> text::opt_text(r.brave_search_key) == env.resolved(
            k@,
        ),
{
}

} // verus!
