//! The settings that a running agent works with, and how they follow the files
//! that they came from.
use crate::config;
use crate::config::bindings;
use crate::config::bindings::{
    Binding, DiscordPermissions, MessagingConfig, SlackPermissions, TelegramPermissions,
};
use crate::config::{
    clone_opt, BrowserConfig, CoalesceConfig, CompactionConfig, Config, CortexConfig, DefaultsConfig,
    IngestionConfig, MemoryPersistenceConfig, OpenCodeConfig, ResolvedAgentConfig,
};
use crate::hashing;
use crate::hashing::hash_bytes;
use crate::llm::routing::RoutingConfig;
use crate::paths;
use crate::paths::path_file_name;
use crate::text;
use crate::text::{contains_text, join_texts, str_eq};
use vstd::prelude::*;

verus! {

/// The settings of a running agent.
pub struct RuntimeConfig {
    /// Instance root directory. Fixed at startup.
    pub instance_dir: String,
    /// Agent workspace directory. Fixed at startup.
    pub workspace_dir: String,
    pub routing: RoutingConfig,
    pub compaction: CompactionConfig,
    pub memory_persistence: MemoryPersistenceConfig,
    pub coalesce: CoalesceConfig,
    pub ingestion: IngestionConfig,
    pub max_turns: usize,
    pub branch_max_turns: usize,
    pub context_window: usize,
    pub max_concurrent_branches: usize,
    pub max_concurrent_workers: usize,
    pub browser_config: BrowserConfig,
    pub history_backfill_count: usize,
    pub brave_search_key: Option<String>,
    pub cortex: CortexConfig,
    /// The memory bulletin. Empty until the cortex has run.
    pub memory_bulletin: String,
    pub opencode: OpenCodeConfig,
}

/// The reloadable settings are those of a resolved agent.
pub open spec fn tracks(rc: RuntimeConfig, r: ResolvedAgentConfig) -> bool {
    &&& rc.routing@ == r.routing@
    &&& rc.compaction == r.compaction
    &&& rc.memory_persistence == r.memory_persistence
    &&& rc.coalesce == r.coalesce
    &&& rc.ingestion == r.ingestion
    &&& rc.max_turns == r.max_turns
    &&& rc.branch_max_turns == r.branch_max_turns
    &&& rc.context_window == r.context_window
    &&& rc.max_concurrent_branches == r.max_concurrent_branches
    &&& rc.max_concurrent_workers == r.max_concurrent_workers
    &&& rc.browser_config == r.browser
    &&& rc.history_backfill_count == r.history_backfill_count
    &&& rc.brave_search_key == r.brave_search_key
    &&& rc.cortex == r.cortex
}

/// What a reload leaves alone is the same.
pub open spec fn same_fixed_part(a: RuntimeConfig, b: RuntimeConfig) -> bool {
    &&& a.instance_dir == b.instance_dir
    &&& a.workspace_dir == b.workspace_dir
    &&& a.memory_bulletin == b.memory_bulletin
    &&& a.opencode == b.opencode
}

/// `rc` is tuned by the agent with an id, as a configuration resolves it.
pub open spec fn tuned_by(rc: RuntimeConfig, config: Config, agent_id: Seq<char>) -> bool {
    let k = config::first_with_id(config.agents@, agent_id) as int;
    exists|r: ResolvedAgentConfig|
        config::resolves_to(config.agents@[k], config.instance_dir@, config.defaults, r)
            && #[trigger] tracks(rc, r)
}

impl RuntimeConfig {
    /// Build from a resolved agent config.
    pub fn new(
        instance_dir: &str,
        agent_config: &ResolvedAgentConfig,
        defaults: &DefaultsConfig,
    ) -> (r: Self)
        ensures
            r.instance_dir@ == instance_dir@,
            r.workspace_dir == agent_config.workspace,
            tracks(r, *agent_config),
            r.memory_bulletin@.len() == 0,
            r.opencode == defaults.opencode,
    {
        RuntimeConfig {
            instance_dir: instance_dir.to_owned(),
            workspace_dir: agent_config.workspace.clone(),
            routing: agent_config.routing.clone(),
            compaction: agent_config.compaction,
            memory_persistence: agent_config.memory_persistence,
            coalesce: agent_config.coalesce,
            ingestion: agent_config.ingestion,
            max_turns: agent_config.max_turns,
            branch_max_turns: agent_config.branch_max_turns,
            context_window: agent_config.context_window,
            max_concurrent_branches: agent_config.max_concurrent_branches,
            max_concurrent_workers: agent_config.max_concurrent_workers,
            browser_config: agent_config.browser.clone(),
            history_backfill_count: agent_config.history_backfill_count,
            brave_search_key: clone_opt(&agent_config.brave_search_key),
            cortex: agent_config.cortex,
            memory_bulletin: String::new(),
            opencode: defaults.opencode.clone(),
        }
    }

    /// Reload tunable values from a freshly parsed configuration.
    ///
    /// Finds the agent by its id, resolves it against the defaults, and takes
    /// over all reloadable settings. An agent that the configuration does not
    /// hold keeps its settings.
    pub fn reload_config(&mut self, config: &Config, agent_id: &str)
        ensures
            same_fixed_part(*final(self), *old(self)),
            if config::first_with_id(config.agents@, agent_id@) < config.agents@.len() {
                tuned_by(*final(self), *config, agent_id@)
            } else {
                *final(self) == *old(self)
            },
    {
        if let Some(i) = config.find_agent(agent_id) {
            let resolved = config.agents[i].resolve(config.instance_dir.as_str(), &config.defaults);
            let ghost r = resolved;
            self.routing = resolved.routing;
            self.compaction = resolved.compaction;
            self.memory_persistence = resolved.memory_persistence;
            self.coalesce = resolved.coalesce;
            self.ingestion = resolved.ingestion;
            self.max_turns = resolved.max_turns;
            self.branch_max_turns = resolved.branch_max_turns;
            self.context_window = resolved.context_window;
            self.max_concurrent_branches = resolved.max_concurrent_branches;
            self.max_concurrent_workers = resolved.max_concurrent_workers;
            self.browser_config = resolved.browser;
            self.history_backfill_count = resolved.history_backfill_count;
            self.brave_search_key = resolved.brave_search_key;
            self.cortex = resolved.cortex;
            proof {
                assert(tracks(*self, r));
            }
        }
    }
}

impl RuntimeConfig {
    /// Takes over what a round of reloading loaded. Where nothing could be loaded, the
    /// previous values are kept.
    pub fn apply_reload(&mut self, loaded: Option<&Config>, agent_id: &str)
        ensures
            same_fixed_part(*final(self), *old(self)),
            match loaded {
                Some(config) => if config::first_with_id(config.agents@, agent_id@)
                    < config.agents@.len() {
                    tuned_by(*final(self), *config, agent_id@)
                } else {
                    *final(self) == *old(self)
                },
                None => *final(self) == *old(self),
            },
    {
        if let Some(config) = loaded {
            self.reload_config(config, agent_id);
        }
    }

    /// Stores a bulletin. Where there is none to store, the previous one is kept.
    pub fn store_bulletin(&mut self, bulletin: &Option<String>)
        ensures
            match bulletin {
                Some(b) => *final(self) == (RuntimeConfig { memory_bulletin: *b, ..*old(self) }),
                None => *final(self) == *old(self),
            },
    {
        if let Some(b) = bulletin {
            self.memory_bulletin = b.clone();
        }
    }
}

/// Two runtime configurations hold the same reloadable settings.
pub open spec fn same_tuning(a: RuntimeConfig, b: RuntimeConfig) -> bool {
    &&& a.routing@ == b.routing@
    &&& a.compaction == b.compaction
    &&& a.memory_persistence == b.memory_persistence
    &&& a.coalesce == b.coalesce
    &&& a.ingestion == b.ingestion
    &&& a.max_turns == b.max_turns
    &&& a.branch_max_turns == b.branch_max_turns
    &&& a.context_window == b.context_window
    &&& a.max_concurrent_branches == b.max_concurrent_branches
    &&& a.max_concurrent_workers == b.max_concurrent_workers
    &&& a.browser_config == b.browser_config
    &&& a.history_backfill_count == b.history_backfill_count
    &&& a.brave_search_key == b.brave_search_key
    &&& a.cortex == b.cortex
}

/// What a reload leads to depends on the configuration alone, not on what was
/// set before: reloading twice changes nothing more than reloading once.
pub proof fn law_reload_depends_on_config(
    a: RuntimeConfig,
    b: RuntimeConfig,
    config: Config,
    agent_id: Seq<char>,
)
    requires
        tuned_by(a, config, agent_id),
        tuned_by(b, config, agent_id),
    ensures
        same_tuning(a, b),
{
}

// ---------------------------------------------------------------------------
// Following the files
// ---------------------------------------------------------------------------

/// What happened to a watched file.
#[derive(Clone, Copy, Debug, PartialEq, Eq, Structural)]
pub enum FileEventKind {
    Create,
    ModifyData,
    /// A modification of a kind that the backend does not tell.
    ModifyAny,
    ModifyOther,
    Remove,
    Other,
}

impl FileEventKind {
    /// The contents of a file may have changed.
    pub open spec fn changes_contents(self) -> bool {
        self is Create || self is ModifyData || self is ModifyAny || self is Remove
    }

    /// Tells whether the contents of a file may have changed.
    pub fn is_relevant(&self) -> (r: bool)
        ensures
            r == self.changes_contents(),
    {
        match self {
            FileEventKind::Create => true,
            FileEventKind::ModifyData => true,
            FileEventKind::ModifyAny => true,
            FileEventKind::Remove => true,
            FileEventKind::ModifyOther => false,
            FileEventKind::Other => false,
        }
    }
}

/// Which kinds of files changed.
#[derive(Clone, Copy, Debug, PartialEq, Eq, Structural)]
pub struct Changes {
    pub config: bool,
    pub identity: bool,
    pub skills: bool,
}

/// The path of the configuration file.
pub open spec fn is_config_path(path: Seq<char>) -> bool {
    paths::file_name(path) == Some("config.toml"@)
}

/// The path of an identity file.
pub open spec fn is_identity_path(path: Seq<char>) -> bool {
    match paths::file_name(path) {
        Some(n) => n == "SOUL.md"@ || n == "IDENTITY.md"@ || n == "USER.md"@,
        None => false,
    }
}

/// A path in a skills directory.
pub open spec fn is_skills_path(path: Seq<char>) -> bool {
    text::has_text(path, "skills"@)
}

/// The kinds of files that some of the paths belong to.
pub open spec fn changes_of(changed: Seq<String>, r: Changes) -> bool {
    &&& r.config == exists|i: int| 0 <= i < changed.len() && is_config_path(#[trigger] changed[i]@)
    &&& r.identity == exists|i: int|
        0 <= i < changed.len() && is_identity_path(#[trigger] changed[i]@)
    &&& r.skills == exists|i: int| 0 <= i < changed.len() && is_skills_path(#[trigger] changed[i]@)
}

/// Categorizes what changed.
pub fn categorize(changed: &Vec<String>) -> (r: Changes)
    ensures
        changes_of(changed@, r),
{
    let mut r = Changes { config: false, identity: false, skills: false };
    let mut i: usize = 0;
    while i < changed.len()
        invariant
            i <= changed@.len(),
            r.config == exists|j: int| 0 <= j < i && is_config_path(#[trigger] changed@[j]@),
            r.identity == exists|j: int| 0 <= j < i && is_identity_path(#[trigger] changed@[j]@),
            r.skills == exists|j: int| 0 <= j < i && is_skills_path(#[trigger] changed@[j]@),
        decreases changed@.len() - i,
    {
        let path = &changed[i];
        let (is_config, is_identity) = match path_file_name(path.as_str()) {
            Some(n) => (
                str_eq(n.as_str(), "config.toml"),
                str_eq(n.as_str(), "SOUL.md") || str_eq(n.as_str(), "IDENTITY.md") || str_eq(
                    n.as_str(),
                    "USER.md",
                ),
            ),
            None => (false, false),
        };
        let is_skills = contains_text(path.as_str(), "skills");
        proof {
            assert(is_config == is_config_path(changed@[i as int]@));
            assert(is_identity == is_identity_path(changed@[i as int]@));
            assert(is_skills == is_skills_path(changed@[i as int]@));
        }
        r = Changes {
            config: r.config || is_config,
            identity: r.identity || is_identity,
            skills: r.skills || is_skills,
        };
        i = i + 1;
    }
    r
}

impl Changes {
    /// The names of the kinds that changed.
    pub open spec fn names(self) -> Seq<Seq<char>> {
        (if self.config {
            seq!["config"@]
        } else {
            Seq::empty()
        }) + (if self.identity {
            seq!["identity"@]
        } else {
            Seq::empty()
        }) + (if self.skills {
            seq!["skills"@]
        } else {
            Seq::empty()
        })
    }

    /// The names of the kinds that changed, separated by commas.
    pub fn summary(&self) -> (r: String)
        ensures
            r@ == text::join(self.names(), ", "@),
    {
        let mut names: Vec<String> = Vec::new();
        if self.config {
            names.push("config".to_owned());
        }
        if self.identity {
            names.push("identity".to_owned());
        }
        if self.skills {
            names.push("skills".to_owned());
        }
        assert(text::texts(names@) =~= self.names());
        join_texts(&names, ", ")
    }
}

/// The hash of the contents of a file, zero where it cannot be read.
pub open spec fn file_hash(contents: Option<Seq<u8>>) -> u64 {
    match contents {
        Some(b) => hashing::bytes_hash(b),
        None => 0,
    }
}

/// Hashes the contents of a file.
pub fn content_digest(contents: Option<&Vec<u8>>) -> (r: u64)
    ensures
        r == file_hash(match contents {
            Some(b) => Some(b@),
            None => None,
        }),
{
    match contents {
        Some(b) => hash_bytes(b),
        None => 0,
    }
}

/// What the watcher remembers between two rounds of changes.
pub struct FileWatch {
    /// The hash of the configuration file at the last reload.
    pub last_config_hash: u64,
}

/// The changes that a round acts on: a configuration file with the contents of
/// the last reload has not changed.
pub open spec fn effective(changes: Changes, last: u64, current: u64) -> Changes {
    Changes { config: changes.config && current != last, ..changes }
}

impl FileWatch {
    /// Starts watching a configuration file with the given contents.
    pub fn new(contents: Option<&Vec<u8>>) -> (r: Self)
        ensures
            r.last_config_hash == file_hash(match contents {
                Some(b) => Some(b@),
                None => None,
            }),
    {
        FileWatch { last_config_hash: content_digest(contents) }
    }

    /// What a round of changes calls for, given the hash of the configuration
    /// file: nothing, where no watched kind of file changed.
    pub fn plan(&mut self, changes: Changes, current_hash: u64) -> (r: Option<Changes>)
        ensures
            ({
                let e = effective(changes, old(self).last_config_hash, current_hash);
                match r {
                    Some(c) => c == e && (e.config || e.identity || e.skills),
                    None => !e.config && !e.identity && !e.skills,
                }
            }),
            final(self).last_config_hash == (if changes.config {
                current_hash
            } else {
                old(self).last_config_hash
            }),
    {
        let mut config_changed = changes.config;
        if !config_changed && !changes.identity && !changes.skills {
            return None;
        }
        if config_changed {
            if current_hash == self.last_config_hash {
                config_changed = false;
                if !changes.identity && !changes.skills {
                    return None;
                }
            } else {
                self.last_config_hash = current_hash;
            }
        }
        Some(
            Changes { config: config_changed, identity: changes.identity, skills: changes.skills },
        )
    }
}

/// A round on a configuration file whose contents have not changed since the
/// last one reloads no configuration.
pub proof fn law_unchanged_config_is_not_reloaded(changes: Changes, hash: u64)
    ensures
        !effective(changes, hash, hash).config,
{
}

/// Messaging platforms that can be started while running.
#[derive(Clone, Copy, Debug, PartialEq, Eq, Structural)]
pub enum Platform {
    Discord,
    Slack,
    Telegram,
}

/// The platform is enabled in the configuration.
pub open spec fn platform_enabled(m: MessagingConfig, p: Platform) -> bool {
    match p {
        Platform::Discord => m.discord is Some && m.discord->0.enabled,
        Platform::Slack => m.slack is Some && m.slack->0.enabled,
        Platform::Telegram => m.telegram is Some && m.telegram->0.enabled,
    }
}

/// Which adapters run already.
#[derive(Clone, Copy, Debug, PartialEq, Eq, Structural)]
pub struct RunningAdapters {
    pub discord: bool,
    pub slack: bool,
    pub telegram: bool,
}

impl RunningAdapters {
    /// The adapter of a platform runs.
    pub open spec fn runs(self, p: Platform) -> bool {
        match p {
            Platform::Discord => self.discord,
            Platform::Slack => self.slack,
            Platform::Telegram => self.telegram,
        }
    }
}

/// The platforms to start, in a fixed order: those that are enabled and do not
/// run yet.
pub open spec fn startable(m: MessagingConfig, running: RunningAdapters) -> Seq<Platform> {
    seq![Platform::Discord, Platform::Slack, Platform::Telegram].filter(
        |p: Platform| platform_enabled(m, p) && !running.runs(p),
    )
}

/// The adapters that a reloaded configuration calls for.
pub fn adapters_to_start(m: &MessagingConfig, running: RunningAdapters) -> (r: Vec<Platform>)
    ensures
        r@ == startable(*m, running),
{
    let mut out: Vec<Platform> = Vec::new();
    let discord = match &m.discord {
        Some(d) => d.enabled && !running.discord,
        None => false,
    };
    let slack = match &m.slack {
        Some(d) => d.enabled && !running.slack,
        None => false,
    };
    let telegram = match &m.telegram {
        Some(d) => d.enabled && !running.telegram,
        None => false,
    };
    if discord {
        out.push(Platform::Discord);
    }
    if slack {
        out.push(Platform::Slack);
    }
    if telegram {
        out.push(Platform::Telegram);
    }
    proof {
        let all = seq![Platform::Discord, Platform::Slack, Platform::Telegram];
        let p = |p: Platform| platform_enabled(*m, p) && !running.runs(p);
        reveal_with_fuel(Seq::filter, 4);
        assert(all.drop_last() =~= seq![Platform::Discord, Platform::Slack]);
        assert(all.drop_last().drop_last() =~= seq![Platform::Discord]);
        assert(all.drop_last().drop_last().drop_last() =~= Seq::<Platform>::empty());
        assert(out@ =~= all.filter(p));
    }
    out
}

/// The permission filters that a reloaded configuration leads to. A platform
/// that has no filters yet, or no settings, gets none.
pub struct ReloadedPermissions {
    pub discord: Option<DiscordPermissions>,
    pub slack: Option<SlackPermissions>,
    pub telegram: Option<TelegramPermissions>,
}

/// Rebuilds the permission filters of the platforms that have some.
pub fn reload_permissions(config: &Config, existing: RunningAdapters) -> (r: ReloadedPermissions)
    ensures
        permissions_for(*config, existing, r),
{
    let discord = match &config.messaging.discord {
        Some(d) => if existing.discord {
            Some(DiscordPermissions::from_config(d, config.bindings.as_slice()))
        } else {
            None
        },
        None => None,
    };
    let slack = match &config.messaging.slack {
        Some(d) => if existing.slack {
            Some(SlackPermissions::from_config(d, config.bindings.as_slice()))
        } else {
            None
        },
        None => None,
    };
    let telegram = match &config.messaging.telegram {
        Some(d) => if existing.telegram {
            Some(TelegramPermissions::from_config(d, config.bindings.as_slice()))
        } else {
            None
        },
        None => None,
    };
    ReloadedPermissions { discord, slack, telegram }
}

/// What a round of reloading does. What it leaves out stays as it was.
pub struct ReloadPlan {
    /// The bindings to store.
    pub bindings: Option<Vec<Binding>>,
    /// The permission filters to store.
    pub permissions: ReloadedPermissions,
    /// The adapters to start.
    pub start: Vec<Platform>,
    /// The permission filters for the adapters to start that have none yet.
    pub new_permissions: ReloadedPermissions,
    /// The settings of every agent are taken from the configuration.
    pub settings: bool,
    /// The identity files are read again.
    pub identity: bool,
    /// The skills are read again.
    pub skills: bool,
}

/// The configuration that a round works with: the one that was loaded, where the
/// file changed.
pub open spec fn fresh_config(changes: Changes, loaded: Option<&Config>) -> Option<&Config> {
    if changes.config {
        loaded
    } else {
        None
    }
}

/// Nothing that comes from the configuration is changed, and no adapter is started.
pub open spec fn keeps_everything(r: ReloadPlan) -> bool {
    &&& r.bindings is None
    &&& r.permissions.discord is None && r.permissions.slack is None && r.permissions.telegram
        is None
    &&& r.start@.len() == 0
    &&& r.new_permissions.discord is None && r.new_permissions.slack is None
        && r.new_permissions.telegram is None
    &&& !r.settings
}

/// The permission filters are those that a configuration gives for the wanted
/// platforms, as far as it has settings for them.
pub open spec fn permissions_for(
    config: Config,
    wanted: RunningAdapters,
    r: ReloadedPermissions,
) -> bool {
    &&& match r.discord {
        Some(p) => wanted.discord && config.messaging.discord is Some && bindings::discord_permits(
            config.messaging.discord->0,
            config.bindings@,
            p,
        ),
        None => !wanted.discord || config.messaging.discord is None,
    }
    &&& match r.slack {
        Some(p) => wanted.slack && config.messaging.slack is Some && bindings::slack_permits(
            config.messaging.slack->0,
            config.bindings@,
            p,
        ),
        None => !wanted.slack || config.messaging.slack is None,
    }
    &&& match r.telegram {
        Some(p) => wanted.telegram && config.messaging.telegram is Some
            && bindings::telegram_permits(config.messaging.telegram->0, config.bindings@, p),
        None => !wanted.telegram || config.messaging.telegram is None,
    }
}

/// The platforms that are to be started and have no permission filter yet.
pub open spec fn unfiltered(
    m: MessagingConfig,
    existing: RunningAdapters,
    running: RunningAdapters,
) -> RunningAdapters {
    RunningAdapters {
        discord: platform_enabled(m, Platform::Discord) && !running.discord && !existing.discord,
        slack: platform_enabled(m, Platform::Slack) && !running.slack && !existing.slack,
        telegram: platform_enabled(m, Platform::Telegram) && !running.telegram
            && !existing.telegram,
    }
}

/// The adapters to start that have no permission filter yet.
fn adapters_without_filter(
    m: &MessagingConfig,
    existing: RunningAdapters,
    running: RunningAdapters,
) -> (r: RunningAdapters)
    ensures
        r == unfiltered(*m, existing, running),
{
    let discord = match &m.discord {
        Some(d) => d.enabled && !running.discord && !existing.discord,
        None => false,
    };
    let slack = match &m.slack {
        Some(d) => d.enabled && !running.slack && !existing.slack,
        None => false,
    };
    let telegram = match &m.telegram {
        Some(d) => d.enabled && !running.telegram && !existing.telegram,
        None => false,
    };
    RunningAdapters { discord, slack, telegram }
}

/// Decides what a round of changes does, given the configuration as it was loaded
/// again, or none where that failed. `filters` are the platforms that have a
/// permission filter, and `running` those whose adapter runs, where there is a
/// manager that can start others. Where the configuration file has not changed or
/// cannot be loaded, everything that comes from it stays as it was.
pub fn reload_round(
    changes: Changes,
    loaded: Option<&Config>,
    filters: RunningAdapters,
    running: Option<RunningAdapters>,
) -> (r: ReloadPlan)
    ensures
        r.identity == changes.identity,
        r.skills == changes.skills,
        match fresh_config(changes, loaded) {
            None => keeps_everything(r),
            Some(config) => {
                &&& r.settings
                &&& r.bindings is Some && same_bindings(r.bindings->0@, config.bindings@)
                &&& permissions_for(*config, filters, r.permissions)
                &&& match running {
                    Some(running) => r.start@ == startable(config.messaging, running)
                        && permissions_for(
                        *config,
                        unfiltered(config.messaging, filters, running),
                        r.new_permissions,
                    ),
                    None => r.start@.len() == 0 && r.new_permissions.discord is None
                        && r.new_permissions.slack is None && r.new_permissions.telegram is None,
                }
            },
        },
{
    let none = ReloadedPermissions { discord: None, slack: None, telegram: None };
    let unfilled = ReloadedPermissions { discord: None, slack: None, telegram: None };
    let config = match loaded {
        Some(config) if changes.config => config,
        _ => {
            return ReloadPlan {
                bindings: None,
                permissions: none,
                start: Vec::new(),
                new_permissions: unfilled,
                settings: false,
                identity: changes.identity,
                skills: changes.skills,
            };
        },
    };
    let (start, new_permissions) = match running {
        Some(running) => {
            let wanted = adapters_without_filter(&config.messaging, filters, running);
            (
                adapters_to_start(&config.messaging, running),
                reload_permissions(config, wanted),
            )
        },
        None => (Vec::new(), unfilled),
    };
    ReloadPlan {
        bindings: Some(copy_bindings(&config.bindings)),
        permissions: reload_permissions(config, filters),
        start,
        new_permissions,
        settings: true,
        identity: changes.identity,
        skills: changes.skills,
    }
}

/// Bindings hold the same values, one by one.
pub open spec fn same_bindings(a: Seq<Binding>, b: Seq<Binding>) -> bool {
    a.len() == b.len() && forall|i: int|
        0 <= i < a.len() ==> bindings::same_binding(#[trigger] a[i], b[i])
}

fn copy_bindings(v: &Vec<Binding>) -> (r: Vec<Binding>)
    ensures
        same_bindings(r@, v@),
{
    let mut out: Vec<Binding> = Vec::new();
    let n: usize = v.len();
    let mut i: usize = 0;
    while i < n
        invariant
            n == v@.len(),
            i <= n,
            out@.len() == i,
            forall|j: int| 0 <= j < i ==> bindings::same_binding(#[trigger] out@[j], v@[j]),
        decreases n - i,
    {
        out.push(v[i].clone());
        i = i + 1;
    }
    out
}

/// A running agent works with every setting that its configuration resolves to.
pub proof fn law_runtime_follows_the_settings(rc: RuntimeConfig, r: ResolvedAgentConfig)
    requires
        tracks(rc, r),
    ensures
        rc.routing@ == r.routing@ && rc.compaction == r.compaction && rc.coalesce == r.coalesce,
        rc.memory_persistence == r.memory_persistence && rc.ingestion == r.ingestion,
        rc.max_turns == r.max_turns && rc.branch_max_turns == r.branch_max_turns,
        rc.context_window == r.context_window && rc.browser_config == r.browser,
        rc.max_concurrent_branches == r.max_concurrent_branches && rc.max_concurrent_workers
            == r.max_concurrent_workers,
        rc.history_backfill_count == r.history_backfill_count && rc.cortex == r.cortex,
        rc.brave_search_key == r.brave_search_key,
{
}

/// A reload leaves the directories, the bulletin and the settings of OpenCode as they are.
pub proof fn law_reload_keeps_the_bulletin(a: RuntimeConfig, b: RuntimeConfig)
    requires
        same_fixed_part(a, b),
    ensures
        a.memory_bulletin@ == b.memory_bulletin@,
        a.instance_dir@ == b.instance_dir@ && a.workspace_dir@ == b.workspace_dir@,
        a.opencode == b.opencode,
{
}

/// A setting that the configuration of an agent overrides is what the agent runs with
/// after a reload, and one that it does not override has the value of the defaults.
pub proof fn law_reload_takes_over_the_settings(
    rc: RuntimeConfig,
    config: Config,
    agent_id: Seq<char>,
    k: int,
)
    requires
        tuned_by(rc, config, agent_id),
        0 <= k < config.agents@.len(),
        config.agents@[k].id@ == agent_id,
        forall|i: int| 0 <= i < k ==> (#[trigger] config.agents@[i]).id@ != agent_id,
    ensures
        config.agents@[k].max_turns matches Some(n) ==> rc.max_turns == n,
        config.agents@[k].max_turns is None ==> rc.max_turns == config.defaults.max_turns,
        config.agents@[k].context_window matches Some(n) ==> rc.context_window == n,
        config.agents@[k].context_window is None ==> rc.context_window
            == config.defaults.context_window,
        config.agents@[k].routing matches Some(x) ==> rc.routing@ == x@,
        config.agents@[k].routing is None ==> rc.routing@ == config.defaults.routing@,
        config.agents@[k].compaction matches Some(x) ==> rc.compaction == x,
        config.agents@[k].compaction is None ==> rc.compaction == config.defaults.compaction,
{
    config::law_first_agent_is_found(config.agents@, agent_id);
    let f = config::first_with_id(config.agents@, agent_id) as int;
    if f > k {
        assert(config.agents@[k].id@ != agent_id);
    }
    assert(f == k);
}

/// A file that was made, written or removed may have other contents; a change of its
/// access or its name alone does not count.
pub proof fn law_contents_may_have_changed(k: FileEventKind)
    ensures
        k.changes_contents() <==> !(k is ModifyOther) && !(k is Other),
{
}

/// A changed file counts by its name, wherever it lies: `config.toml` is the
/// configuration, and `SOUL.md`, `IDENTITY.md` and `USER.md` are the identity. A path with
/// `skills` in it belongs to the skills.
pub proof fn law_files_count_by_their_names(dir: Seq<char>, name: Seq<char>, rest: Seq<char>)
    requires
        !name.contains('/'),
        name.len() > 0,
        name != "."@,
        name != ".."@,
    ensures
        is_config_path(dir + "/"@ + name) <==> name == "config.toml"@,
        is_identity_path(dir + "/"@ + name) <==> name == "SOUL.md"@ || name == "IDENTITY.md"@ || name
            == "USER.md"@,
        is_skills_path(dir + "skills"@ + rest),
{
    paths::law_file_name_follows_the_last_slash(dir, name);
    let s = dir + "skills"@ + rest;
    assert(s.subrange(dir.len() as int, dir.len() as int + "skills"@.len()) == "skills"@);
    assert(text::matches_at(s, "skills"@, dir.len() as int));
}

/// What changed says what it was: each kind is named where a file of it changed, and a
/// further path changes the answer for its own kinds alone.
pub proof fn law_one_more_path_changed(changed: Seq<String>, p: String, r: Changes, s: Changes)
    requires
        changes_of(changed, r),
        changes_of(changed.push(p), s),
    ensures
        s.config <==> r.config || is_config_path(p@),
        s.identity <==> r.identity || is_identity_path(p@),
        s.skills <==> r.skills || is_skills_path(p@),
        changed.len() == 0 ==> !r.config && !r.identity && !r.skills,
        s.names().contains("config"@) || !s.config,
        s.names().contains("identity"@) || !s.identity,
        s.names().contains("skills"@) || !s.skills,
        s.names().len() == (if s.config {
            1int
        } else {
            0
        }) + (if s.identity {
            1int
        } else {
            0
        }) + (if s.skills {
            1int
        } else {
            0
        }),
{
    let all = changed.push(p);
    assert(all.last() == p);
    assert(forall|i: int| 0 <= i < changed.len() ==> all[i] == changed[i]);
    assert(s.config ==> s.names()[0] == "config"@);
    assert(s.identity ==> s.names()[if s.config { 1int } else { 0 }] == "identity"@);
    assert(s.skills ==> s.names().last() == "skills"@);
}

/// A configuration file with other contents than at the last reload is reloaded, and the
/// identity and the skills are read again whenever they changed.
pub proof fn law_changed_config_is_reloaded(changes: Changes, last: u64, current: u64)
    ensures
        effective(changes, last, current).config <==> changes.config && current != last,
        effective(changes, last, current).identity <==> changes.identity,
        effective(changes, last, current).skills <==> changes.skills,
{
}

/// An adapter is started if and only if its platform has settings that enable it and it
/// does not run yet, and none is started twice. One that has no permission filter yet
/// gets one.
pub proof fn law_enabled_platforms_are_started(
    m: MessagingConfig,
    filters: RunningAdapters,
    running: RunningAdapters,
)
    ensures
        startable(m, running).contains(Platform::Discord) <==> (m.discord is Some
            && m.discord->0.enabled && !running.discord),
        startable(m, running).contains(Platform::Slack) <==> (m.slack is Some && m.slack->0.enabled
            && !running.slack),
        startable(m, running).contains(Platform::Telegram) <==> (m.telegram is Some
            && m.telegram->0.enabled && !running.telegram),
        startable(m, running).len() <= 3,
        unfiltered(m, filters, running).discord <==> startable(m, running).contains(
            Platform::Discord,
        ) && !filters.discord,
        unfiltered(m, filters, running).slack <==> startable(m, running).contains(Platform::Slack)
            && !filters.slack,
        unfiltered(m, filters, running).telegram <==> startable(m, running).contains(
            Platform::Telegram,
        ) && !filters.telegram,
{
    let all = seq![Platform::Discord, Platform::Slack, Platform::Telegram];
    let keep = |p: Platform| platform_enabled(m, p) && !running.runs(p);
    assert forall|i: int| 0 <= i < 3 && keep(#[trigger] all[i]) implies all.filter(keep).contains(
        all[i],
    ) by {
        all.lemma_filter_contains(keep, i);
    }
    assert(all[0] == Platform::Discord && all[1] == Platform::Slack && all[2]
        == Platform::Telegram);
    all.lemma_filter_len(keep);
    assert forall|p: Platform| all.filter(keep).contains(p) implies keep(p) by {
        let i = choose|i: int| 0 <= i < all.filter(keep).len() && all.filter(keep)[i] == p;
        all.lemma_filter_pred(keep, i);
    }
}

/// A platform gets a permission filter if and only if it is wanted and has settings.
pub proof fn law_wanted_platforms_get_filters(
    config: Config,
    wanted: RunningAdapters,
    r: ReloadedPermissions,
)
    requires
        permissions_for(config, wanted, r),
    ensures
        r.discord is Some <==> wanted.discord && config.messaging.discord is Some,
        r.slack is Some <==> wanted.slack && config.messaging.slack is Some,
        r.telegram is Some <==> wanted.telegram && config.messaging.telegram is Some,
{
}

/// A round works with the configuration that was loaded where its file changed, and with
/// none where it did not change or could not be loaded; then nothing changes.
pub proof fn law_failed_reload_changes_nothing(
    changes: Changes,
    loaded: Option<&Config>,
    r: ReloadPlan,
)
    ensures
        fresh_config(changes, loaded) is Some <==> changes.config && loaded is Some,
        fresh_config(changes, loaded) is Some ==> fresh_config(changes, loaded) == loaded,
        keeps_everything(r) ==> r.bindings is None && r.start@.len() == 0 && !r.settings
            && r.permissions.discord is None && r.permissions.slack is None
            && r.permissions.telegram is None && r.new_permissions.discord is None
            && r.new_permissions.slack is None && r.new_permissions.telegram is None,
{
}

/// The bindings that a reload stores are those of the configuration, in order.
pub proof fn law_bindings_are_kept_in_order(a: Seq<Binding>, b: Seq<Binding>, i: int)
    requires
        same_bindings(a, b),
        0 <= i < b.len(),
    ensures
        a.len() == b.len(),
        a[i].agent_id@ == b[i].agent_id@ && a[i].channel@ == b[i].channel@,
        a[i].guild_id == b[i].guild_id && a[i].workspace_id == b[i].workspace_id && a[i].chat_id
            == b[i].chat_id,
        a[i].channel_ids@ == b[i].channel_ids@ && a[i].dm_allowed_users@ == b[i].dm_allowed_users@,
{
    assert(bindings::same_binding(a[i], b[i]));
}

} // verus!
