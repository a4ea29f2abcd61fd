//! The configuration of an agent: reading it, and changing it in the
//! configuration file.
use crate::api::ApiError;
use crate::bits;
use crate::bits::to_i64;
use crate::config::runtime::RuntimeConfig;
use crate::config::F32;
use crate::text::str_eq;
use crate::toml_doc;
use crate::toml_doc::{
    flag_item, integer_item, item_table_mut, item_tables_mut, new_table, no_tables_item,
    parse_document, render_document, root_mut, subtable_mut, table_get, table_get_mut, table_set,
    table_text, tables_get, tables_get_mut, tables_len, tables_push, text_item, value_item,
};
use crate::toml_doc::TomlTree;
use vstd::prelude::*;

verus! {

/// A change of the models of an agent: what is not given stays as it is.
pub struct RoutingUpdate {
    pub channel: Option<String>,
    pub branch: Option<String>,
    pub worker: Option<String>,
    pub compactor: Option<String>,
    pub cortex: Option<String>,
    pub rate_limit_cooldown_secs: Option<u64>,
}

/// A change of the settings of the cortex: what is not given stays as it is.
pub struct CortexUpdate {
    pub tick_interval_secs: Option<u64>,
    pub worker_timeout_secs: Option<u64>,
    pub branch_timeout_secs: Option<u64>,
    pub circuit_breaker_threshold: Option<u8>,
    pub bulletin_interval_secs: Option<u64>,
    pub bulletin_max_words: Option<usize>,
    pub bulletin_max_turns: Option<usize>,
}

/// A change of the batching of messages: what is not given stays as it is.
pub struct CoalesceUpdate {
    pub enabled: Option<bool>,
    pub debounce_ms: Option<u64>,
    pub max_wait_ms: Option<u64>,
    pub min_messages: Option<usize>,
    pub multi_user_only: Option<bool>,
}

/// A change of the persistence of memories: what is not given stays as it is.
pub struct MemoryPersistenceUpdate {
    pub enabled: Option<bool>,
    pub message_interval: Option<usize>,
}

/// A change of the browser settings: what is not given stays as it is.
pub struct BrowserUpdate {
    pub enabled: Option<bool>,
    pub headless: Option<bool>,
    pub evaluate_enabled: Option<bool>,
}

/// A change of the limits of an agent: what is not given stays as it is.
pub struct TuningUpdate {
    pub max_concurrent_branches: Option<usize>,
    pub max_concurrent_workers: Option<usize>,
    pub max_turns: Option<usize>,
    pub branch_max_turns: Option<usize>,
    pub context_window: Option<usize>,
    pub history_backfill_count: Option<usize>,
}

/// A change of the compaction thresholds, each written as a TOML number: what is
/// not given stays as it is.
pub struct CompactionUpdate {
    pub background_threshold: Option<String>,
    pub aggressive_threshold: Option<String>,
    pub emergency_threshold: Option<String>,
}

/// A change of the Discord settings of the instance.
pub struct DiscordUpdate {
    pub allow_bot_messages: Option<bool>,
}

/// A change of the configuration of an agent.
pub struct AgentConfigUpdateRequest {
    pub agent_id: String,
    pub routing: Option<RoutingUpdate>,
    pub tuning: Option<TuningUpdate>,
    pub compaction: Option<CompactionUpdate>,
    pub cortex: Option<CortexUpdate>,
    pub coalesce: Option<CoalesceUpdate>,
    pub memory_persistence: Option<MemoryPersistenceUpdate>,
    pub browser: Option<BrowserUpdate>,
    pub discord: Option<DiscordUpdate>,
}

/// A table with a value under a key, where it is given.
pub open spec fn with_opt(
    table: Map<Seq<char>, TomlTree>,
    key: Seq<char>,
    value: Option<TomlTree>,
) -> Map<Seq<char>, TomlTree> {
    match value {
        Some(v) => table.insert(key, v),
        None => table,
    }
}

/// An optional text as a value.
pub open spec fn opt_text_value(o: Option<String>) -> Option<TomlTree> {
    match o {
        Some(s) => Some(TomlTree::Text(s@)),
        None => None,
    }
}

/// An optional truth value as a value.
pub open spec fn opt_flag(o: Option<bool>) -> Option<TomlTree> {
    match o {
        Some(b) => Some(TomlTree::Flag(b)),
        None => None,
    }
}

/// An optional number as a value: its 64 bits, read as a signed number.
pub open spec fn opt_number(o: Option<u64>) -> Option<TomlTree> {
    match o {
        Some(n) => Some(TomlTree::Integer(bits::signed_64(n) as i64)),
        None => None,
    }
}

/// An optional size as a value: its bits, read as a signed number.
pub open spec fn opt_size(o: Option<usize>) -> Option<TomlTree> {
    match o {
        Some(n) => Some(TomlTree::Integer(bits::signed_64(n as u64) as i64)),
        None => None,
    }
}

/// An optional byte as a value.
pub open spec fn opt_byte(o: Option<u8>) -> Option<TomlTree> {
    match o {
        Some(n) => Some(TomlTree::Integer(n as i64)),
        None => None,
    }
}

/// Writes a text, where it is given.
fn set_text(table: &mut toml_edit::Table, key: &str, value: &Option<String>)
    ensures
        toml_doc::table_tree(*final(table)) == with_opt(
            toml_doc::table_tree(*old(table)),
            key@,
            opt_text_value(*value),
        ),
{
    if let Some(v) = value {
        table_set(table, key, text_item(v.as_str()));
    }
}

/// Writes a truth value, where it is given.
fn set_flag(table: &mut toml_edit::Table, key: &str, value: Option<bool>)
    ensures
        toml_doc::table_tree(*final(table)) == with_opt(
            toml_doc::table_tree(*old(table)),
            key@,
            opt_flag(value),
        ),
{
    if let Some(v) = value {
        table_set(table, key, flag_item(v));
    }
}

/// Writes a number, where it is given.
fn set_number(table: &mut toml_edit::Table, key: &str, value: Option<u64>)
    ensures
        toml_doc::table_tree(*final(table)) == with_opt(
            toml_doc::table_tree(*old(table)),
            key@,
            opt_number(value),
        ),
{
    if let Some(v) = value {
        table_set(table, key, integer_item(to_i64(v)));
    }
}

/// Writes a size, where it is given.
fn set_size(table: &mut toml_edit::Table, key: &str, value: Option<usize>)
    ensures
        toml_doc::table_tree(*final(table)) == with_opt(
            toml_doc::table_tree(*old(table)),
            key@,
            opt_size(value),
        ),
{
    if let Some(v) = value {
        table_set(table, key, integer_item(to_i64(v as u64)));
    }
}

/// Writes a byte, where it is given.
fn set_byte(table: &mut toml_edit::Table, key: &str, value: Option<u8>)
    ensures
        toml_doc::table_tree(*final(table)) == with_opt(
            toml_doc::table_tree(*old(table)),
            key@,
            opt_byte(value),
        ),
{
    if let Some(v) = value {
        table_set(table, key, integer_item(v as i64));
    }
}

/// A table with the models of an agent of a change.
pub open spec fn with_routing(t: Map<Seq<char>, TomlTree>, u: RoutingUpdate) -> Map<Seq<char>, TomlTree> {
    let t = with_opt(t, "channel"@, opt_text_value(u.channel));
    let t = with_opt(t, "branch"@, opt_text_value(u.branch));
    let t = with_opt(t, "worker"@, opt_text_value(u.worker));
    let t = with_opt(t, "compactor"@, opt_text_value(u.compactor));
    let t = with_opt(t, "cortex"@, opt_text_value(u.cortex));
    let t = with_opt(t, "rate_limit_cooldown_secs"@, opt_number(u.rate_limit_cooldown_secs));
    t
}

/// A table with the settings of the cortex of a change.
pub open spec fn with_cortex(t: Map<Seq<char>, TomlTree>, u: CortexUpdate) -> Map<Seq<char>, TomlTree> {
    let t = with_opt(t, "tick_interval_secs"@, opt_number(u.tick_interval_secs));
    let t = with_opt(t, "worker_timeout_secs"@, opt_number(u.worker_timeout_secs));
    let t = with_opt(t, "branch_timeout_secs"@, opt_number(u.branch_timeout_secs));
    let t = with_opt(t, "circuit_breaker_threshold"@, opt_byte(u.circuit_breaker_threshold));
    let t = with_opt(t, "bulletin_interval_secs"@, opt_number(u.bulletin_interval_secs));
    let t = with_opt(t, "bulletin_max_words"@, opt_size(u.bulletin_max_words));
    let t = with_opt(t, "bulletin_max_turns"@, opt_size(u.bulletin_max_turns));
    t
}

/// A table with the batching of messages of a change.
pub open spec fn with_coalesce(t: Map<Seq<char>, TomlTree>, u: CoalesceUpdate) -> Map<Seq<char>, TomlTree> {
    let t = with_opt(t, "enabled"@, opt_flag(u.enabled));
    let t = with_opt(t, "debounce_ms"@, opt_number(u.debounce_ms));
    let t = with_opt(t, "max_wait_ms"@, opt_number(u.max_wait_ms));
    let t = with_opt(t, "min_messages"@, opt_size(u.min_messages));
    let t = with_opt(t, "multi_user_only"@, opt_flag(u.multi_user_only));
    t
}

/// A table with the persistence of memories of a change.
pub open spec fn with_memory_persistence(t: Map<Seq<char>, TomlTree>, u: MemoryPersistenceUpdate) -> Map<Seq<char>, TomlTree> {
    let t = with_opt(t, "enabled"@, opt_flag(u.enabled));
    let t = with_opt(t, "message_interval"@, opt_size(u.message_interval));
    t
}

/// A table with the browser settings of a change.
pub open spec fn with_browser(t: Map<Seq<char>, TomlTree>, u: BrowserUpdate) -> Map<Seq<char>, TomlTree> {
    let t = with_opt(t, "enabled"@, opt_flag(u.enabled));
    let t = with_opt(t, "headless"@, opt_flag(u.headless));
    let t = with_opt(t, "evaluate_enabled"@, opt_flag(u.evaluate_enabled));
    t
}

/// The table of an agent with the limits of a change.
pub open spec fn with_tuning(t: Map<Seq<char>, TomlTree>, u: TuningUpdate) -> Map<
    Seq<char>,
    TomlTree,
> {
    let t = with_opt(t, "max_concurrent_branches"@, opt_size(u.max_concurrent_branches));
    let t = with_opt(t, "max_concurrent_workers"@, opt_size(u.max_concurrent_workers));
    let t = with_opt(t, "max_turns"@, opt_size(u.max_turns));
    let t = with_opt(t, "branch_max_turns"@, opt_size(u.branch_max_turns));
    let t = with_opt(t, "context_window"@, opt_size(u.context_window));
    let t = with_opt(t, "history_backfill_count"@, opt_size(u.history_backfill_count));
    t
}

/// A table with a threshold, where it is given, which fails where its text is no
/// value.
pub open spec fn with_threshold(
    table: Option<Map<Seq<char>, TomlTree>>,
    key: Seq<char>,
    value: Option<String>,
) -> Option<Map<Seq<char>, TomlTree>> {
    match (table, value) {
        (Some(t), Some(s)) => match toml_doc::parsed_value(s@) {
            Some(v) => Some(t.insert(key, v)),
            None => None,
        },
        _ => table,
    }
}

/// A table with the thresholds of a change.
pub open spec fn with_compaction(t: Map<Seq<char>, TomlTree>, u: CompactionUpdate) -> Option<
    Map<Seq<char>, TomlTree>,
> {
    let t = with_threshold(Some(t), "background_threshold"@, u.background_threshold);
    let t = with_threshold(t, "aggressive_threshold"@, u.aggressive_threshold);
    with_threshold(t, "emergency_threshold"@, u.emergency_threshold)
}

/// The table of an agent with a section, where the section could be made.
pub open spec fn with_table(
    agent: Map<Seq<char>, TomlTree>,
    key: Seq<char>,
    section: Option<Map<Seq<char>, TomlTree>>,
) -> Option<Map<Seq<char>, TomlTree>> {
    match section {
        Some(t) => Some(agent.insert(key, TomlTree::Table(t))),
        None => None,
    }
}

/// The table of an agent after the compaction thresholds changed. It fails where
/// something else stands in the place of the section.
pub open spec fn after_compaction(agent: Map<Seq<char>, TomlTree>, u: CompactionUpdate) -> Option<
    Map<Seq<char>, TomlTree>,
> {
    match toml_doc::table_or_new(agent, "compaction"@) {
        Some(t) => with_table(agent, "compaction"@, with_compaction(t, u)),
        None => None,
    }
}

/// The table of an agent after the models of an agent changed. It fails where
/// something else stands in the place of the section.
pub open spec fn after_routing(agent: Map<Seq<char>, TomlTree>, u: RoutingUpdate) -> Option<
    Map<Seq<char>, TomlTree>,
> {
    match toml_doc::table_or_new(agent, "routing"@) {
        Some(t) => with_table(agent, "routing"@, Some(with_routing(t, u))),
        None => None,
    }
}

/// The table of an agent after the settings of the cortex changed. It fails where
/// something else stands in the place of the section.
pub open spec fn after_cortex(agent: Map<Seq<char>, TomlTree>, u: CortexUpdate) -> Option<
    Map<Seq<char>, TomlTree>,
> {
    match toml_doc::table_or_new(agent, "cortex"@) {
        Some(t) => with_table(agent, "cortex"@, Some(with_cortex(t, u))),
        None => None,
    }
}

/// The table of an agent after the batching of messages changed. It fails where
/// something else stands in the place of the section.
pub open spec fn after_coalesce(agent: Map<Seq<char>, TomlTree>, u: CoalesceUpdate) -> Option<
    Map<Seq<char>, TomlTree>,
> {
    match toml_doc::table_or_new(agent, "coalesce"@) {
        Some(t) => with_table(agent, "coalesce"@, Some(with_coalesce(t, u))),
        None => None,
    }
}

/// The table of an agent after the persistence of memories changed. It fails where
/// something else stands in the place of the section.
pub open spec fn after_memory_persistence(agent: Map<Seq<char>, TomlTree>, u: MemoryPersistenceUpdate) -> Option<
    Map<Seq<char>, TomlTree>,
> {
    match toml_doc::table_or_new(agent, "memory_persistence"@) {
        Some(t) => with_table(agent, "memory_persistence"@, Some(with_memory_persistence(t, u))),
        None => None,
    }
}

/// The table of an agent after the browser settings changed. It fails where
/// something else stands in the place of the section.
pub open spec fn after_browser(agent: Map<Seq<char>, TomlTree>, u: BrowserUpdate) -> Option<
    Map<Seq<char>, TomlTree>,
> {
    match toml_doc::table_or_new(agent, "browser"@) {
        Some(t) => with_table(agent, "browser"@, Some(with_browser(t, u))),
        None => None,
    }
}

/// Changes the models of an agent.
fn update_routing_table(agent: &mut toml_edit::Table, update: &RoutingUpdate) -> (r: Result<(), ApiError>)
    ensures
        match after_routing(toml_doc::table_tree(*old(agent)), *update) {
            Some(t) => r is Ok && toml_doc::table_tree(*final(agent)) == t,
            None => r == Err::<(), _>(ApiError::Internal),
        },
{
    if let Some(table) = subtable_mut(agent, "routing") {
        set_text(table, "channel", &update.channel);
        set_text(table, "branch", &update.branch);
        set_text(table, "worker", &update.worker);
        set_text(table, "compactor", &update.compactor);
        set_text(table, "cortex", &update.cortex);
        set_number(table, "rate_limit_cooldown_secs", update.rate_limit_cooldown_secs);
        Ok(())
    } else {
        Err(ApiError::Internal)
    }
}

/// Changes the settings of the cortex.
fn update_cortex_table(agent: &mut toml_edit::Table, update: &CortexUpdate) -> (r: Result<(), ApiError>)
    ensures
        match after_cortex(toml_doc::table_tree(*old(agent)), *update) {
            Some(t) => r is Ok && toml_doc::table_tree(*final(agent)) == t,
            None => r == Err::<(), _>(ApiError::Internal),
        },
{
    if let Some(table) = subtable_mut(agent, "cortex") {
        set_number(table, "tick_interval_secs", update.tick_interval_secs);
        set_number(table, "worker_timeout_secs", update.worker_timeout_secs);
        set_number(table, "branch_timeout_secs", update.branch_timeout_secs);
        set_byte(table, "circuit_breaker_threshold", update.circuit_breaker_threshold);
        set_number(table, "bulletin_interval_secs", update.bulletin_interval_secs);
        set_size(table, "bulletin_max_words", update.bulletin_max_words);
        set_size(table, "bulletin_max_turns", update.bulletin_max_turns);
        Ok(())
    } else {
        Err(ApiError::Internal)
    }
}

/// Changes the batching of messages.
fn update_coalesce_table(agent: &mut toml_edit::Table, update: &CoalesceUpdate) -> (r: Result<(), ApiError>)
    ensures
        match after_coalesce(toml_doc::table_tree(*old(agent)), *update) {
            Some(t) => r is Ok && toml_doc::table_tree(*final(agent)) == t,
            None => r == Err::<(), _>(ApiError::Internal),
        },
{
    if let Some(table) = subtable_mut(agent, "coalesce") {
        set_flag(table, "enabled", update.enabled);
        set_number(table, "debounce_ms", update.debounce_ms);
        set_number(table, "max_wait_ms", update.max_wait_ms);
        set_size(table, "min_messages", update.min_messages);
        set_flag(table, "multi_user_only", update.multi_user_only);
        Ok(())
    } else {
        Err(ApiError::Internal)
    }
}

/// Changes the persistence of memories.
fn update_memory_persistence_table(agent: &mut toml_edit::Table, update: &MemoryPersistenceUpdate) -> (r: Result<(), ApiError>)
    ensures
        match after_memory_persistence(toml_doc::table_tree(*old(agent)), *update) {
            Some(t) => r is Ok && toml_doc::table_tree(*final(agent)) == t,
            None => r == Err::<(), _>(ApiError::Internal),
        },
{
    if let Some(table) = subtable_mut(agent, "memory_persistence") {
        set_flag(table, "enabled", update.enabled);
        set_size(table, "message_interval", update.message_interval);
        Ok(())
    } else {
        Err(ApiError::Internal)
    }
}

/// Changes the browser settings.
fn update_browser_table(agent: &mut toml_edit::Table, update: &BrowserUpdate) -> (r: Result<(), ApiError>)
    ensures
        match after_browser(toml_doc::table_tree(*old(agent)), *update) {
            Some(t) => r is Ok && toml_doc::table_tree(*final(agent)) == t,
            None => r == Err::<(), _>(ApiError::Internal),
        },
{
    if let Some(table) = subtable_mut(agent, "browser") {
        set_flag(table, "enabled", update.enabled);
        set_flag(table, "headless", update.headless);
        set_flag(table, "evaluate_enabled", update.evaluate_enabled);
        Ok(())
    } else {
        Err(ApiError::Internal)
    }
}

/// Changes the limits of an agent.
fn update_tuning_table(agent: &mut toml_edit::Table, update: &TuningUpdate)
    ensures
        toml_doc::table_tree(*final(agent)) == with_tuning(
            toml_doc::table_tree(*old(agent)),
            *update,
        ),
{
    set_size(agent, "max_concurrent_branches", update.max_concurrent_branches);
    set_size(agent, "max_concurrent_workers", update.max_concurrent_workers);
    set_size(agent, "max_turns", update.max_turns);
    set_size(agent, "branch_max_turns", update.branch_max_turns);
    set_size(agent, "context_window", update.context_window);
    set_size(agent, "history_backfill_count", update.history_backfill_count);
}

/// Writes a threshold, where it is given.
fn set_threshold(table: &mut toml_edit::Table, key: &str, value: &Option<String>) -> (r: Result<
    (),
    ApiError,
>)
    ensures
        match with_threshold(Some(toml_doc::table_tree(*old(table))), key@, *value) {
            Some(t) => r is Ok && toml_doc::table_tree(*final(table)) == t,
            None => r == Err::<(), _>(ApiError::Internal),
        },
{
    match value {
        Some(s) => match value_item(s.as_str()) {
            Some(item) => {
                table_set(table, key, item);
                Ok(())
            },
            None => Err(ApiError::Internal),
        },
        None => Ok(()),
    }
}

/// Changes the compaction thresholds.
fn update_compaction_table(agent: &mut toml_edit::Table, update: &CompactionUpdate) -> (r: Result<
    (),
    ApiError,
>)
    ensures
        match after_compaction(toml_doc::table_tree(*old(agent)), *update) {
            Some(t) => r is Ok && toml_doc::table_tree(*final(agent)) == t,
            None => r == Err::<(), _>(ApiError::Internal),
        },
{
    if let Some(table) = subtable_mut(agent, "compaction") {
        if set_threshold(table, "background_threshold", &update.background_threshold).is_err() {
            return Err(ApiError::Internal);
        }
        if set_threshold(table, "aggressive_threshold", &update.aggressive_threshold).is_err() {
            return Err(ApiError::Internal);
        }
        if set_threshold(table, "emergency_threshold", &update.emergency_threshold).is_err() {
            return Err(ApiError::Internal);
        }
        Ok(())
    } else {
        Err(ApiError::Internal)
    }
}

/// The table of an agent after a change of its configuration. It fails where a
/// section cannot be changed.
pub open spec fn agent_after(
    agent: Map<Seq<char>, TomlTree>,
    request: AgentConfigUpdateRequest,
) -> Option<Map<Seq<char>, TomlTree>> {
    let t = Some(agent);
    let t = match (t, request.routing) {
        (Some(a), Some(u)) => after_routing(a, u),
        _ => t,
    };
    let t = match (t, request.tuning) {
        (Some(a), Some(u)) => Some(with_tuning(a, u)),
        _ => t,
    };
    let t = match (t, request.compaction) {
        (Some(a), Some(u)) => after_compaction(a, u),
        _ => t,
    };
    let t = match (t, request.cortex) {
        (Some(a), Some(u)) => after_cortex(a, u),
        _ => t,
    };
    let t = match (t, request.coalesce) {
        (Some(a), Some(u)) => after_coalesce(a, u),
        _ => t,
    };
    let t = match (t, request.memory_persistence) {
        (Some(a), Some(u)) => after_memory_persistence(a, u),
        _ => t,
    };
    let t = match (t, request.browser) {
        (Some(a), Some(u)) => after_browser(a, u),
        _ => t,
    };
    t
}

/// Changes the table of an agent.
fn update_agent(agent: &mut toml_edit::Table, request: &AgentConfigUpdateRequest) -> (r: Result<
    (),
    ApiError,
>)
    ensures
        match agent_after(toml_doc::table_tree(*old(agent)), *request) {
            Some(t) => r is Ok && toml_doc::table_tree(*final(agent)) == t,
            None => r == Err::<(), _>(ApiError::Internal),
        },
{
    if let Some(u) = &request.routing {
        if update_routing_table(agent, u).is_err() {
            return Err(ApiError::Internal);
        }
    }
    if let Some(u) = &request.tuning {
        update_tuning_table(agent, u);
    }
    if let Some(u) = &request.compaction {
        if update_compaction_table(agent, u).is_err() {
            return Err(ApiError::Internal);
        }
    }
    if let Some(u) = &request.cortex {
        if update_cortex_table(agent, u).is_err() {
            return Err(ApiError::Internal);
        }
    }
    if let Some(u) = &request.coalesce {
        if update_coalesce_table(agent, u).is_err() {
            return Err(ApiError::Internal);
        }
    }
    if let Some(u) = &request.memory_persistence {
        if update_memory_persistence_table(agent, u).is_err() {
            return Err(ApiError::Internal);
        }
    }
    if let Some(u) = &request.browser {
        if update_browser_table(agent, u).is_err() {
            return Err(ApiError::Internal);
        }
    }
    Ok(())
}

/// The agents of a document: none where it has no such part.
pub open spec fn agent_tables(doc: Map<Seq<char>, TomlTree>) -> Option<
    Seq<Map<Seq<char>, TomlTree>>,
> {
    if !doc.contains_key("agents"@) {
        Some(Seq::empty())
    } else {
        match doc["agents"@] {
            TomlTree::Tables(t) => Some(t),
            _ => None,
        }
    }
}

/// The position of the first agent with an id, from a position on: the number of
/// agents where there is none.
pub open spec fn agent_index(
    tables: Seq<Map<Seq<char>, TomlTree>>,
    id: Seq<char>,
    from: nat,
) -> nat
    decreases tables.len() - from,
{
    if from >= tables.len() {
        tables.len()
    } else if toml_doc::text_at(tables[from as int], "id"@) == Some(id) {
        from
    } else {
        agent_index(tables, id, from + 1)
    }
}

/// The table of a new agent.
pub open spec fn new_agent(id: Seq<char>) -> Map<Seq<char>, TomlTree> {
    toml_doc::no_parts().insert("id"@, TomlTree::Text(id))
}

/// The agents with one more at the end, where none has the id.
pub open spec fn with_agent(
    tables: Seq<Map<Seq<char>, TomlTree>>,
    id: Seq<char>,
) -> Seq<Map<Seq<char>, TomlTree>> {
    if agent_index(tables, id, 0) < tables.len() {
        tables
    } else {
        tables.push(new_agent(id))
    }
}

/// Finds the first agent with an id among the agents.
fn find_agent_table(tables: &toml_edit::ArrayOfTables, id: &str) -> (r: Option<usize>)
    ensures
        match r {
            Some(i) => agent_index(toml_doc::tables_tree(*tables), id@, 0) == i
                && i < toml_doc::tables_tree(*tables).len(),
            None => agent_index(toml_doc::tables_tree(*tables), id@, 0) == toml_doc::tables_tree(
                *tables,
            ).len(),
        },
{
    let n: usize = tables_len(tables);
    let mut i: usize = 0;
    while i < n
        invariant
            n == toml_doc::tables_tree(*tables).len(),
            i <= n,
            agent_index(toml_doc::tables_tree(*tables), id@, 0) == agent_index(
                toml_doc::tables_tree(*tables),
                id@,
                i as nat,
            ),
        decreases n - i,
    {
        if let Some(t) = tables_get(tables, i) {
            if let Some(s) = table_text(t, "id") {
                if str_eq(s, id) {
                    return Some(i);
                }
            }
        }
        i = i + 1;
    }
    None
}

/// Find the index of an agent table in the `[[agents]]` array, or create a new
/// one.
pub fn find_or_create_agent_table(doc: &mut toml_edit::DocumentMut, agent_id: &str) -> (r: Result<
    usize,
    ApiError,
>)
    ensures
        match agent_tables(toml_doc::doc_tree(*old(doc))) {
            Some(tables) => r is Ok && r->Ok_0 == agent_index(tables, agent_id@, 0)
                && toml_doc::doc_tree(*final(doc)) == toml_doc::doc_tree(*old(doc)).insert(
                "agents"@,
                TomlTree::Tables(with_agent(tables, agent_id@)),
            ),
            None => r == Err::<usize, _>(ApiError::Internal),
        },
{
    let ghost before = toml_doc::doc_tree(*doc);
    let table = root_mut(doc);
    if table_get(table, "agents").is_none() {
        table_set(table, "agents", no_tables_item());
    }
    assert forall|part: TomlTree| #[trigger]
        toml_doc::table_tree(*table).insert("agents"@, part) == before.insert(
            "agents"@,
            part,
        ) by {
        assert(toml_doc::table_tree(*table).insert("agents"@, part) =~= before.insert(
            "agents"@,
            part,
        ));
    }
    match table_get_mut(table, "agents") {
        Some(item) => match item_tables_mut(item) {
            Some(tables) => match find_agent_table(tables, agent_id) {
                Some(i) => Ok(i),
                None => {
                    let i: usize = tables_len(tables);
                    let mut t = new_table();
                    table_set(&mut t, "id", text_item(agent_id));
                    tables_push(tables, t);
                    Ok(i)
                },
            },
            None => Err(ApiError::Internal),
        },
        None => Err(ApiError::Internal),
    }
}

/// The table at a position of the `[[agents]]` array, to be changed.
fn get_agent_table_mut(doc: &mut toml_edit::DocumentMut, agent_idx: usize) -> (r: Option<
    &mut toml_edit::Table,
>)
    requires
        toml_doc::doc_tree(*old(doc)).contains_key("agents"@),
        toml_doc::doc_tree(*old(doc))["agents"@] is Tables,
        agent_idx < toml_doc::doc_tree(*old(doc))["agents"@]->Tables_0.len(),
    ensures
        r is Some,
        toml_doc::table_tree(*(r->0)) == toml_doc::doc_tree(
            *old(doc),
        )["agents"@]->Tables_0[agent_idx as int],
        toml_doc::doc_tree(*final(doc)) == toml_doc::doc_tree(*old(doc)).insert(
            "agents"@,
            TomlTree::Tables(
                toml_doc::doc_tree(*old(doc))["agents"@]->Tables_0.update(
                    agent_idx as int,
                    toml_doc::table_tree(*final(r->0)),
                ),
            ),
        ),
{
    match table_get_mut(root_mut(doc), "agents") {
        Some(item) => match item_tables_mut(item) {
            Some(tables) => tables_get_mut(tables, agent_idx),
            None => None,
        },
        None => None,
    }
}

/// A document after the Discord settings of the instance changed. It fails where
/// Discord has no section.
pub open spec fn with_discord(doc: Map<Seq<char>, TomlTree>, u: DiscordUpdate) -> Option<
    Map<Seq<char>, TomlTree>,
> {
    if !doc.contains_key("messaging"@) {
        None
    } else {
        match doc["messaging"@] {
            TomlTree::Table(messaging) => if !messaging.contains_key("discord"@) {
                None
            } else {
                match messaging["discord"@] {
                    TomlTree::Table(t) => Some(
                        doc.insert(
                            "messaging"@,
                            TomlTree::Table(
                                messaging.insert(
                                    "discord"@,
                                    TomlTree::Table(
                                        with_opt(
                                            t,
                                            "allow_bot_messages"@,
                                            opt_flag(u.allow_bot_messages),
                                        ),
                                    ),
                                ),
                            ),
                        ),
                    ),
                    _ => None,
                }
            },
            _ => None,
        }
    }
}

/// Update instance-level Discord config at `[messaging.discord]`.
fn update_discord_table(doc: &mut toml_edit::DocumentMut, update: &DiscordUpdate) -> (r: Result<
    (),
    ApiError,
>)
    ensures
        match with_discord(toml_doc::doc_tree(*old(doc)), *update) {
            Some(d) => r is Ok && toml_doc::doc_tree(*final(doc)) == d,
            None => r == Err::<(), _>(ApiError::Internal),
        },
{
    match table_get_mut(root_mut(doc), "messaging") {
        Some(m) => match item_table_mut(m) {
            Some(messaging) => match table_get_mut(messaging, "discord") {
                Some(d) => match item_table_mut(d) {
                    Some(table) => {
                        set_flag(table, "allow_bot_messages", update.allow_bot_messages);
                        Ok(())
                    },
                    None => Err(ApiError::Internal),
                },
                None => Err(ApiError::Internal),
            },
            None => Err(ApiError::Internal),
        },
        None => Err(ApiError::Internal),
    }
}

/// A document after a change of the configuration of an agent, which is made
/// where there is none with its id. It fails where a part cannot be changed.
pub open spec fn config_after(
    doc: Map<Seq<char>, TomlTree>,
    request: AgentConfigUpdateRequest,
) -> Option<Map<Seq<char>, TomlTree>> {
    match agent_tables(doc) {
        Some(tables) => {
            let i = agent_index(tables, request.agent_id@, 0) as int;
            let agents = with_agent(tables, request.agent_id@);
            match agent_after(agents[i], request) {
                Some(agent) => {
                    let d = doc.insert("agents"@, TomlTree::Tables(agents.update(i, agent)));
                    match request.discord {
                        Some(u) => with_discord(d, u),
                        None => Some(d),
                    }
                },
                None => None,
            }
        },
        None => None,
    }
}

/// The position of an agent is within the agents once it was made.
proof fn lemma_agent_index(tables: Seq<Map<Seq<char>, TomlTree>>, id: Seq<char>, from: nat)
    requires
        from <= tables.len(),
    ensures
        agent_index(tables, id, from) <= tables.len(),
    decreases tables.len() - from,
{
    if from < tables.len() {
        lemma_agent_index(tables, id, from + 1);
    }
}

/// Changes the configuration of an agent in a document.
pub fn edit_agent_config(
    doc: &mut toml_edit::DocumentMut,
    request: &AgentConfigUpdateRequest,
) -> (r: Result<(), ApiError>)
    ensures
        match config_after(toml_doc::doc_tree(*old(doc)), *request) {
            Some(d) => r is Ok && toml_doc::doc_tree(*final(doc)) == d,
            None => r == Err::<(), _>(ApiError::Internal),
        },
{
    let ghost before = toml_doc::doc_tree(*doc);
    let idx: usize = match find_or_create_agent_table(doc, request.agent_id.as_str()) {
        Ok(i) => i,
        Err(e) => {
            return Err(e);
        },
    };
    let ghost tables = agent_tables(before)->0;
    let ghost agents = with_agent(tables, request.agent_id@);
    proof {
        lemma_agent_index(tables, request.agent_id@, 0);
        assert forall|t: Seq<Map<Seq<char>, TomlTree>>| #[trigger]
            toml_doc::doc_tree(*doc).insert("agents"@, TomlTree::Tables(t)) == before.insert(
                "agents"@,
                TomlTree::Tables(t),
            ) by {
            assert(toml_doc::doc_tree(*doc).insert("agents"@, TomlTree::Tables(t))
                =~= before.insert("agents"@, TomlTree::Tables(t)));
        }
    }
    match get_agent_table_mut(doc, idx) {
        Some(agent) => {
            if update_agent(agent, request).is_err() {
                return Err(ApiError::Internal);
            }
        },
        None => {
            return Err(ApiError::Internal);
        },
    }
    match &request.discord {
        Some(u) => update_discord_table(doc, u),
        None => Ok(()),
    }
}

/// Changes the configuration of an agent in the text of the configuration file,
/// and gives the new text. It fails where the text is no document, and where a
/// part that the change writes to is no table.
pub fn update_agent_config(content: &str, request: &AgentConfigUpdateRequest) -> (r: Result<
    String,
    ApiError,
>)
    ensures
        match toml_doc::parsed_document(content@) {
            Some(doc) => match config_after(doc, *request) {
                Some(d) => r is Ok && toml_doc::renders(r->Ok_0@, d),
                None => r == Err::<String, _>(ApiError::Internal),
            },
            None => r == Err::<String, _>(ApiError::Internal),
        },
{
    let mut doc = match parse_document(content) {
        Some(d) => d,
        None => {
            return Err(ApiError::Internal);
        },
    };
    match edit_agent_config(&mut doc, request) {
        Ok(_) => {
            let text = render_document(&doc);
            assert(toml_doc::doc_text(doc) == text@);
            Ok(text)
        },
        Err(e) => Err(e),
    }
}

/// A change of the configuration of one agent leaves the other agents as they
/// were.
pub proof fn law_other_agents_are_kept(
    doc: Map<Seq<char>, TomlTree>,
    request: AgentConfigUpdateRequest,
    j: int,
)
    requires
        config_after(doc, request) is Some,
        0 <= j < agent_tables(doc)->0.len(),
        j != agent_index(agent_tables(doc)->0, request.agent_id@, 0),
    ensures
        agent_tables(config_after(doc, request)->0) is Some,
        agent_tables(config_after(doc, request)->0)->0[j] == agent_tables(doc)->0[j],
{
    reveal_strlit("agents");
    reveal_strlit("messaging");
    assert("agents"@.len() != "messaging"@.len());
    lemma_agent_index(agent_tables(doc)->0, request.agent_id@, 0);
}

/// A change of the configuration of an agent leaves every part of the document but
/// the agents as it was, and the messaging section too unless Discord is changed.
pub proof fn law_other_parts_are_kept(
    doc: Map<Seq<char>, TomlTree>,
    request: AgentConfigUpdateRequest,
    key: Seq<char>,
)
    requires
        config_after(doc, request) is Some,
        key != "agents"@,
        key != "messaging"@ || request.discord is None,
    ensures
        config_after(doc, request)->0.contains_key(key) == doc.contains_key(key),
        doc.contains_key(key) ==> config_after(doc, request)->0[key] == doc[key],
{
}

/// The models of an agent.
pub struct RoutingSection {
    pub channel: String,
    pub branch: String,
    pub worker: String,
    pub compactor: String,
    pub cortex: String,
    pub rate_limit_cooldown_secs: u64,
}

/// The limits of an agent.
pub struct TuningSection {
    pub max_concurrent_branches: usize,
    pub max_concurrent_workers: usize,
    pub max_turns: usize,
    pub branch_max_turns: usize,
    pub context_window: usize,
    pub history_backfill_count: usize,
}

/// The compaction thresholds.
pub struct CompactionSection {
    pub background_threshold: F32,
    pub aggressive_threshold: F32,
    pub emergency_threshold: F32,
}

/// The settings of the cortex.
pub struct CortexSection {
    pub tick_interval_secs: u64,
    pub worker_timeout_secs: u64,
    pub branch_timeout_secs: u64,
    pub circuit_breaker_threshold: u8,
    pub bulletin_interval_secs: u64,
    pub bulletin_max_words: usize,
    pub bulletin_max_turns: usize,
}

/// The batching of messages.
pub struct CoalesceSection {
    pub enabled: bool,
    pub debounce_ms: u64,
    pub max_wait_ms: u64,
    pub min_messages: usize,
    pub multi_user_only: bool,
}

/// The persistence of memories.
pub struct MemoryPersistenceSection {
    pub enabled: bool,
    pub message_interval: usize,
}

/// The browser settings.
pub struct BrowserSection {
    pub enabled: bool,
    pub headless: bool,
    pub evaluate_enabled: bool,
}

/// The Discord settings of the instance.
pub struct DiscordSection {
    pub enabled: bool,
    pub allow_bot_messages: bool,
}

/// The configuration of an agent.
pub struct AgentConfigResponse {
    pub routing: RoutingSection,
    pub tuning: TuningSection,
    pub compaction: CompactionSection,
    pub cortex: CortexSection,
    pub coalesce: CoalesceSection,
    pub memory_persistence: MemoryPersistenceSection,
    pub browser: BrowserSection,
    pub discord: DiscordSection,
}

/// The sections are those of a running agent, and of the Discord filter where
/// there is one.
pub open spec fn shows(
    r: AgentConfigResponse,
    rc: RuntimeConfig,
    allow_bot_messages: Option<bool>,
) -> bool {
    &&& r.routing.channel@ == rc.routing.channel@
    &&& r.routing.branch@ == rc.routing.branch@
    &&& r.routing.worker@ == rc.routing.worker@
    &&& r.routing.compactor@ == rc.routing.compactor@
    &&& r.routing.cortex@ == rc.routing.cortex@
    &&& r.routing.rate_limit_cooldown_secs == rc.routing.rate_limit_cooldown_secs
    &&& r.tuning == (TuningSection {
        max_concurrent_branches: rc.max_concurrent_branches,
        max_concurrent_workers: rc.max_concurrent_workers,
        max_turns: rc.max_turns,
        branch_max_turns: rc.branch_max_turns,
        context_window: rc.context_window,
        history_backfill_count: rc.history_backfill_count,
    })
    &&& r.compaction == (CompactionSection {
        background_threshold: rc.compaction.background_threshold,
        aggressive_threshold: rc.compaction.aggressive_threshold,
        emergency_threshold: rc.compaction.emergency_threshold,
    })
    &&& r.cortex == (CortexSection {
        tick_interval_secs: rc.cortex.tick_interval_secs,
        worker_timeout_secs: rc.cortex.worker_timeout_secs,
        branch_timeout_secs: rc.cortex.branch_timeout_secs,
        circuit_breaker_threshold: rc.cortex.circuit_breaker_threshold,
        bulletin_interval_secs: rc.cortex.bulletin_interval_secs,
        bulletin_max_words: rc.cortex.bulletin_max_words,
        bulletin_max_turns: rc.cortex.bulletin_max_turns,
    })
    &&& r.coalesce == (CoalesceSection {
        enabled: rc.coalesce.enabled,
        debounce_ms: rc.coalesce.debounce_ms,
        max_wait_ms: rc.coalesce.max_wait_ms,
        min_messages: rc.coalesce.min_messages,
        multi_user_only: rc.coalesce.multi_user_only,
    })
    &&& r.memory_persistence == (MemoryPersistenceSection {
        enabled: rc.memory_persistence.enabled,
        message_interval: rc.memory_persistence.message_interval,
    })
    &&& r.browser == (BrowserSection {
        enabled: rc.browser_config.enabled,
        headless: rc.browser_config.headless,
        evaluate_enabled: rc.browser_config.evaluate_enabled,
    })
    &&& r.discord == (match allow_bot_messages {
        Some(b) => DiscordSection { enabled: true, allow_bot_messages: b },
        None => DiscordSection { enabled: false, allow_bot_messages: false },
    })
}

/// The configuration that a running agent works with. `allow_bot_messages` comes
/// from the Discord filter, where there is one.
pub fn get_agent_config(rc: &RuntimeConfig, allow_bot_messages: Option<bool>) -> (r:
    AgentConfigResponse)
    ensures
        shows(r, *rc, allow_bot_messages),
{
    AgentConfigResponse {
        routing: RoutingSection {
            channel: rc.routing.channel.clone(),
            branch: rc.routing.branch.clone(),
            worker: rc.routing.worker.clone(),
            compactor: rc.routing.compactor.clone(),
            cortex: rc.routing.cortex.clone(),
            rate_limit_cooldown_secs: rc.routing.rate_limit_cooldown_secs,
        },
        tuning: TuningSection {
            max_concurrent_branches: rc.max_concurrent_branches,
            max_concurrent_workers: rc.max_concurrent_workers,
            max_turns: rc.max_turns,
            branch_max_turns: rc.branch_max_turns,
            context_window: rc.context_window,
            history_backfill_count: rc.history_backfill_count,
        },
        compaction: CompactionSection {
            background_threshold: rc.compaction.background_threshold,
            aggressive_threshold: rc.compaction.aggressive_threshold,
            emergency_threshold: rc.compaction.emergency_threshold,
        },
        cortex: CortexSection {
            tick_interval_secs: rc.cortex.tick_interval_secs,
            worker_timeout_secs: rc.cortex.worker_timeout_secs,
            branch_timeout_secs: rc.cortex.branch_timeout_secs,
            circuit_breaker_threshold: rc.cortex.circuit_breaker_threshold,
            bulletin_interval_secs: rc.cortex.bulletin_interval_secs,
            bulletin_max_words: rc.cortex.bulletin_max_words,
            bulletin_max_turns: rc.cortex.bulletin_max_turns,
        },
        coalesce: CoalesceSection {
            enabled: rc.coalesce.enabled,
            debounce_ms: rc.coalesce.debounce_ms,
            max_wait_ms: rc.coalesce.max_wait_ms,
            min_messages: rc.coalesce.min_messages,
            multi_user_only: rc.coalesce.multi_user_only,
        },
        memory_persistence: MemoryPersistenceSection {
            enabled: rc.memory_persistence.enabled,
            message_interval: rc.memory_persistence.message_interval,
        },
        browser: BrowserSection {
            enabled: rc.browser_config.enabled,
            headless: rc.browser_config.headless,
            evaluate_enabled: rc.browser_config.evaluate_enabled,
        },
        discord: match allow_bot_messages {
            Some(b) => DiscordSection { enabled: true, allow_bot_messages: b },
            None => DiscordSection { enabled: false, allow_bot_messages: false },
        },
    }
}

/// The keys of the models of an agent differ.
proof fn lemma_routing_keys()
    ensures
        "channel"@ != "branch"@,
        "channel"@ != "worker"@,
        "channel"@ != "compactor"@,
        "channel"@ != "cortex"@,
        "channel"@ != "rate_limit_cooldown_secs"@,
        "branch"@ != "worker"@,
        "branch"@ != "compactor"@,
        "branch"@ != "cortex"@,
        "branch"@ != "rate_limit_cooldown_secs"@,
        "worker"@ != "compactor"@,
        "worker"@ != "cortex"@,
        "worker"@ != "rate_limit_cooldown_secs"@,
        "compactor"@ != "cortex"@,
        "compactor"@ != "rate_limit_cooldown_secs"@,
        "cortex"@ != "rate_limit_cooldown_secs"@,
{
    reveal_strlit("channel");
    reveal_strlit("branch");
    reveal_strlit("worker");
    reveal_strlit("compactor");
    reveal_strlit("cortex");
    reveal_strlit("rate_limit_cooldown_secs");
    assert("branch"@[0] != "worker"@[0]);
    assert("branch"@[0] != "cortex"@[0]);
    assert("worker"@[0] != "cortex"@[0]);
    assert("channel"@.len() == 7);
    assert("branch"@.len() == 6);
    assert("worker"@.len() == 6);
    assert("compactor"@.len() == 9);
    assert("cortex"@.len() == 6);
    assert("rate_limit_cooldown_secs"@.len() == 24);
}

/// A change of the models of an agent writes what is given under its own key, and keeps
/// everything else.
pub proof fn law_routing_is_changed(t: Map<Seq<char>, TomlTree>, u: RoutingUpdate, key: Seq<char>)
    ensures
        u.channel matches Some(x) ==> (with_routing(t, u).contains_key("channel"@)
            && with_routing(t, u)["channel"@] == TomlTree::Text(x@)),
        u.channel is None ==> with_routing(t, u).contains_key("channel"@) == t.contains_key("channel"@) && (t.contains_key("channel"@)
            ==> with_routing(t, u)["channel"@] == t["channel"@]),
        u.branch matches Some(x) ==> (with_routing(t, u).contains_key("branch"@)
            && with_routing(t, u)["branch"@] == TomlTree::Text(x@)),
        u.branch is None ==> with_routing(t, u).contains_key("branch"@) == t.contains_key("branch"@) && (t.contains_key("branch"@)
            ==> with_routing(t, u)["branch"@] == t["branch"@]),
        u.worker matches Some(x) ==> (with_routing(t, u).contains_key("worker"@)
            && with_routing(t, u)["worker"@] == TomlTree::Text(x@)),
        u.worker is None ==> with_routing(t, u).contains_key("worker"@) == t.contains_key("worker"@) && (t.contains_key("worker"@)
            ==> with_routing(t, u)["worker"@] == t["worker"@]),
        u.compactor matches Some(x) ==> (with_routing(t, u).contains_key("compactor"@)
            && with_routing(t, u)["compactor"@] == TomlTree::Text(x@)),
        u.compactor is None ==> with_routing(t, u).contains_key("compactor"@) == t.contains_key("compactor"@) && (t.contains_key("compactor"@)
            ==> with_routing(t, u)["compactor"@] == t["compactor"@]),
        u.cortex matches Some(x) ==> (with_routing(t, u).contains_key("cortex"@)
            && with_routing(t, u)["cortex"@] == TomlTree::Text(x@)),
        u.cortex is None ==> with_routing(t, u).contains_key("cortex"@) == t.contains_key("cortex"@) && (t.contains_key("cortex"@)
            ==> with_routing(t, u)["cortex"@] == t["cortex"@]),
        u.rate_limit_cooldown_secs matches Some(x) ==> (x <= i64::MAX ==> with_routing(t, u).contains_key("rate_limit_cooldown_secs"@)
            && with_routing(t, u)["rate_limit_cooldown_secs"@] == TomlTree::Integer(x as i64)),
        u.rate_limit_cooldown_secs is None ==> with_routing(t, u).contains_key("rate_limit_cooldown_secs"@) == t.contains_key("rate_limit_cooldown_secs"@) && (t.contains_key("rate_limit_cooldown_secs"@)
            ==> with_routing(t, u)["rate_limit_cooldown_secs"@] == t["rate_limit_cooldown_secs"@]),
        key != "channel"@ && key != "branch"@ && key != "worker"@ && key != "compactor"@ && key != "cortex"@ && key != "rate_limit_cooldown_secs"@ ==> with_routing(t, u).contains_key(key) == t.contains_key(key) && (t.contains_key(key)
            ==> with_routing(t, u)[key] == t[key]),
{
    lemma_routing_keys();
}

/// The keys of the settings of the cortex differ.
proof fn lemma_cortex_keys()
    ensures
        "tick_interval_secs"@ != "worker_timeout_secs"@,
        "tick_interval_secs"@ != "branch_timeout_secs"@,
        "tick_interval_secs"@ != "circuit_breaker_threshold"@,
        "tick_interval_secs"@ != "bulletin_interval_secs"@,
        "tick_interval_secs"@ != "bulletin_max_words"@,
        "tick_interval_secs"@ != "bulletin_max_turns"@,
        "worker_timeout_secs"@ != "branch_timeout_secs"@,
        "worker_timeout_secs"@ != "circuit_breaker_threshold"@,
        "worker_timeout_secs"@ != "bulletin_interval_secs"@,
        "worker_timeout_secs"@ != "bulletin_max_words"@,
        "worker_timeout_secs"@ != "bulletin_max_turns"@,
        "branch_timeout_secs"@ != "circuit_breaker_threshold"@,
        "branch_timeout_secs"@ != "bulletin_interval_secs"@,
        "branch_timeout_secs"@ != "bulletin_max_words"@,
        "branch_timeout_secs"@ != "bulletin_max_turns"@,
        "circuit_breaker_threshold"@ != "bulletin_interval_secs"@,
        "circuit_breaker_threshold"@ != "bulletin_max_words"@,
        "circuit_breaker_threshold"@ != "bulletin_max_turns"@,
        "bulletin_interval_secs"@ != "bulletin_max_words"@,
        "bulletin_interval_secs"@ != "bulletin_max_turns"@,
        "bulletin_max_words"@ != "bulletin_max_turns"@,
{
    reveal_strlit("tick_interval_secs");
    reveal_strlit("worker_timeout_secs");
    reveal_strlit("branch_timeout_secs");
    reveal_strlit("circuit_breaker_threshold");
    reveal_strlit("bulletin_interval_secs");
    reveal_strlit("bulletin_max_words");
    reveal_strlit("bulletin_max_turns");
    assert("tick_interval_secs"@[0] != "bulletin_max_words"@[0]);
    assert("tick_interval_secs"@[0] != "bulletin_max_turns"@[0]);
    assert("worker_timeout_secs"@[0] != "branch_timeout_secs"@[0]);
    assert("bulletin_max_words"@[13] != "bulletin_max_turns"@[13]);
    assert("tick_interval_secs"@.len() == 18);
    assert("worker_timeout_secs"@.len() == 19);
    assert("branch_timeout_secs"@.len() == 19);
    assert("circuit_breaker_threshold"@.len() == 25);
    assert("bulletin_interval_secs"@.len() == 22);
    assert("bulletin_max_words"@.len() == 18);
    assert("bulletin_max_turns"@.len() == 18);
}

/// A change of the settings of the cortex writes what is given under its own key, and keeps
/// everything else.
pub proof fn law_cortex_is_changed(t: Map<Seq<char>, TomlTree>, u: CortexUpdate, key: Seq<char>)
    ensures
        u.tick_interval_secs matches Some(x) ==> (x <= i64::MAX ==> with_cortex(t, u).contains_key("tick_interval_secs"@)
            && with_cortex(t, u)["tick_interval_secs"@] == TomlTree::Integer(x as i64)),
        u.tick_interval_secs is None ==> with_cortex(t, u).contains_key("tick_interval_secs"@) == t.contains_key("tick_interval_secs"@) && (t.contains_key("tick_interval_secs"@)
            ==> with_cortex(t, u)["tick_interval_secs"@] == t["tick_interval_secs"@]),
        u.worker_timeout_secs matches Some(x) ==> (x <= i64::MAX ==> with_cortex(t, u).contains_key("worker_timeout_secs"@)
            && with_cortex(t, u)["worker_timeout_secs"@] == TomlTree::Integer(x as i64)),
        u.worker_timeout_secs is None ==> with_cortex(t, u).contains_key("worker_timeout_secs"@) == t.contains_key("worker_timeout_secs"@) && (t.contains_key("worker_timeout_secs"@)
            ==> with_cortex(t, u)["worker_timeout_secs"@] == t["worker_timeout_secs"@]),
        u.branch_timeout_secs matches Some(x) ==> (x <= i64::MAX ==> with_cortex(t, u).contains_key("branch_timeout_secs"@)
            && with_cortex(t, u)["branch_timeout_secs"@] == TomlTree::Integer(x as i64)),
        u.branch_timeout_secs is None ==> with_cortex(t, u).contains_key("branch_timeout_secs"@) == t.contains_key("branch_timeout_secs"@) && (t.contains_key("branch_timeout_secs"@)
            ==> with_cortex(t, u)["branch_timeout_secs"@] == t["branch_timeout_secs"@]),
        u.circuit_breaker_threshold matches Some(x) ==> (with_cortex(t, u).contains_key("circuit_breaker_threshold"@)
            && with_cortex(t, u)["circuit_breaker_threshold"@] == TomlTree::Integer(x as i64)),
        u.circuit_breaker_threshold is None ==> with_cortex(t, u).contains_key("circuit_breaker_threshold"@) == t.contains_key("circuit_breaker_threshold"@) && (t.contains_key("circuit_breaker_threshold"@)
            ==> with_cortex(t, u)["circuit_breaker_threshold"@] == t["circuit_breaker_threshold"@]),
        u.bulletin_interval_secs matches Some(x) ==> (x <= i64::MAX ==> with_cortex(t, u).contains_key("bulletin_interval_secs"@)
            && with_cortex(t, u)["bulletin_interval_secs"@] == TomlTree::Integer(x as i64)),
        u.bulletin_interval_secs is None ==> with_cortex(t, u).contains_key("bulletin_interval_secs"@) == t.contains_key("bulletin_interval_secs"@) && (t.contains_key("bulletin_interval_secs"@)
            ==> with_cortex(t, u)["bulletin_interval_secs"@] == t["bulletin_interval_secs"@]),
        u.bulletin_max_words matches Some(x) ==> (x <= i64::MAX ==> with_cortex(t, u).contains_key("bulletin_max_words"@)
            && with_cortex(t, u)["bulletin_max_words"@] == TomlTree::Integer(x as i64)),
        u.bulletin_max_words is None ==> with_cortex(t, u).contains_key("bulletin_max_words"@) == t.contains_key("bulletin_max_words"@) && (t.contains_key("bulletin_max_words"@)
            ==> with_cortex(t, u)["bulletin_max_words"@] == t["bulletin_max_words"@]),
        u.bulletin_max_turns matches Some(x) ==> (x <= i64::MAX ==> with_cortex(t, u).contains_key("bulletin_max_turns"@)
            && with_cortex(t, u)["bulletin_max_turns"@] == TomlTree::Integer(x as i64)),
        u.bulletin_max_turns is None ==> with_cortex(t, u).contains_key("bulletin_max_turns"@) == t.contains_key("bulletin_max_turns"@) && (t.contains_key("bulletin_max_turns"@)
            ==> with_cortex(t, u)["bulletin_max_turns"@] == t["bulletin_max_turns"@]),
        key != "tick_interval_secs"@ && key != "worker_timeout_secs"@ && key != "branch_timeout_secs"@ && key != "circuit_breaker_threshold"@ && key != "bulletin_interval_secs"@ && key != "bulletin_max_words"@ && key != "bulletin_max_turns"@ ==> with_cortex(t, u).contains_key(key) == t.contains_key(key) && (t.contains_key(key)
            ==> with_cortex(t, u)[key] == t[key]),
{
    lemma_cortex_keys();
}

/// The keys of the batching of messages differ.
proof fn lemma_coalesce_keys()
    ensures
        "enabled"@ != "debounce_ms"@,
        "enabled"@ != "max_wait_ms"@,
        "enabled"@ != "min_messages"@,
        "enabled"@ != "multi_user_only"@,
        "debounce_ms"@ != "max_wait_ms"@,
        "debounce_ms"@ != "min_messages"@,
        "debounce_ms"@ != "multi_user_only"@,
        "max_wait_ms"@ != "min_messages"@,
        "max_wait_ms"@ != "multi_user_only"@,
        "min_messages"@ != "multi_user_only"@,
{
    reveal_strlit("enabled");
    reveal_strlit("debounce_ms");
    reveal_strlit("max_wait_ms");
    reveal_strlit("min_messages");
    reveal_strlit("multi_user_only");
    assert("debounce_ms"@[0] != "max_wait_ms"@[0]);
    assert("enabled"@.len() == 7);
    assert("debounce_ms"@.len() == 11);
    assert("max_wait_ms"@.len() == 11);
    assert("min_messages"@.len() == 12);
    assert("multi_user_only"@.len() == 15);
}

/// A change of the batching of messages writes what is given under its own key, and keeps
/// everything else.
pub proof fn law_coalesce_is_changed(t: Map<Seq<char>, TomlTree>, u: CoalesceUpdate, key: Seq<char>)
    ensures
        u.enabled matches Some(x) ==> (with_coalesce(t, u).contains_key("enabled"@)
            && with_coalesce(t, u)["enabled"@] == TomlTree::Flag(x)),
        u.enabled is None ==> with_coalesce(t, u).contains_key("enabled"@) == t.contains_key("enabled"@) && (t.contains_key("enabled"@)
            ==> with_coalesce(t, u)["enabled"@] == t["enabled"@]),
        u.debounce_ms matches Some(x) ==> (x <= i64::MAX ==> with_coalesce(t, u).contains_key("debounce_ms"@)
            && with_coalesce(t, u)["debounce_ms"@] == TomlTree::Integer(x as i64)),
        u.debounce_ms is None ==> with_coalesce(t, u).contains_key("debounce_ms"@) == t.contains_key("debounce_ms"@) && (t.contains_key("debounce_ms"@)
            ==> with_coalesce(t, u)["debounce_ms"@] == t["debounce_ms"@]),
        u.max_wait_ms matches Some(x) ==> (x <= i64::MAX ==> with_coalesce(t, u).contains_key("max_wait_ms"@)
            && with_coalesce(t, u)["max_wait_ms"@] == TomlTree::Integer(x as i64)),
        u.max_wait_ms is None ==> with_coalesce(t, u).contains_key("max_wait_ms"@) == t.contains_key("max_wait_ms"@) && (t.contains_key("max_wait_ms"@)
            ==> with_coalesce(t, u)["max_wait_ms"@] == t["max_wait_ms"@]),
        u.min_messages matches Some(x) ==> (x <= i64::MAX ==> with_coalesce(t, u).contains_key("min_messages"@)
            && with_coalesce(t, u)["min_messages"@] == TomlTree::Integer(x as i64)),
        u.min_messages is None ==> with_coalesce(t, u).contains_key("min_messages"@) == t.contains_key("min_messages"@) && (t.contains_key("min_messages"@)
            ==> with_coalesce(t, u)["min_messages"@] == t["min_messages"@]),
        u.multi_user_only matches Some(x) ==> (with_coalesce(t, u).contains_key("multi_user_only"@)
            && with_coalesce(t, u)["multi_user_only"@] == TomlTree::Flag(x)),
        u.multi_user_only is None ==> with_coalesce(t, u).contains_key("multi_user_only"@) == t.contains_key("multi_user_only"@) && (t.contains_key("multi_user_only"@)
            ==> with_coalesce(t, u)["multi_user_only"@] == t["multi_user_only"@]),
        key != "enabled"@ && key != "debounce_ms"@ && key != "max_wait_ms"@ && key != "min_messages"@ && key != "multi_user_only"@ ==> with_coalesce(t, u).contains_key(key) == t.contains_key(key) && (t.contains_key(key)
            ==> with_coalesce(t, u)[key] == t[key]),
{
    lemma_coalesce_keys();
}

/// The keys of the persistence of memories differ.
proof fn lemma_memory_persistence_keys()
    ensures
        "enabled"@ != "message_interval"@,
{
    reveal_strlit("enabled");
    reveal_strlit("message_interval");
    assert("enabled"@.len() == 7);
    assert("message_interval"@.len() == 16);
}

/// A change of the persistence of memories writes what is given under its own key, and keeps
/// everything else.
pub proof fn law_memory_persistence_is_changed(t: Map<Seq<char>, TomlTree>, u: MemoryPersistenceUpdate, key: Seq<char>)
    ensures
        u.enabled matches Some(x) ==> (with_memory_persistence(t, u).contains_key("enabled"@)
            && with_memory_persistence(t, u)["enabled"@] == TomlTree::Flag(x)),
        u.enabled is None ==> with_memory_persistence(t, u).contains_key("enabled"@) == t.contains_key("enabled"@) && (t.contains_key("enabled"@)
            ==> with_memory_persistence(t, u)["enabled"@] == t["enabled"@]),
        u.message_interval matches Some(x) ==> (x <= i64::MAX ==> with_memory_persistence(t, u).contains_key("message_interval"@)
            && with_memory_persistence(t, u)["message_interval"@] == TomlTree::Integer(x as i64)),
        u.message_interval is None ==> with_memory_persistence(t, u).contains_key("message_interval"@) == t.contains_key("message_interval"@) && (t.contains_key("message_interval"@)
            ==> with_memory_persistence(t, u)["message_interval"@] == t["message_interval"@]),
        key != "enabled"@ && key != "message_interval"@ ==> with_memory_persistence(t, u).contains_key(key) == t.contains_key(key) && (t.contains_key(key)
            ==> with_memory_persistence(t, u)[key] == t[key]),
{
    lemma_memory_persistence_keys();
}

/// The keys of the browser settings differ.
proof fn lemma_browser_keys()
    ensures
        "enabled"@ != "headless"@,
        "enabled"@ != "evaluate_enabled"@,
        "headless"@ != "evaluate_enabled"@,
{
    reveal_strlit("enabled");
    reveal_strlit("headless");
    reveal_strlit("evaluate_enabled");
    assert("enabled"@.len() == 7);
    assert("headless"@.len() == 8);
    assert("evaluate_enabled"@.len() == 16);
}

/// A change of the browser settings writes what is given under its own key, and keeps
/// everything else.
pub proof fn law_browser_is_changed(t: Map<Seq<char>, TomlTree>, u: BrowserUpdate, key: Seq<char>)
    ensures
        u.enabled matches Some(x) ==> (with_browser(t, u).contains_key("enabled"@)
            && with_browser(t, u)["enabled"@] == TomlTree::Flag(x)),
        u.enabled is None ==> with_browser(t, u).contains_key("enabled"@) == t.contains_key("enabled"@) && (t.contains_key("enabled"@)
            ==> with_browser(t, u)["enabled"@] == t["enabled"@]),
        u.headless matches Some(x) ==> (with_browser(t, u).contains_key("headless"@)
            && with_browser(t, u)["headless"@] == TomlTree::Flag(x)),
        u.headless is None ==> with_browser(t, u).contains_key("headless"@) == t.contains_key("headless"@) && (t.contains_key("headless"@)
            ==> with_browser(t, u)["headless"@] == t["headless"@]),
        u.evaluate_enabled matches Some(x) ==> (with_browser(t, u).contains_key("evaluate_enabled"@)
            && with_browser(t, u)["evaluate_enabled"@] == TomlTree::Flag(x)),
        u.evaluate_enabled is None ==> with_browser(t, u).contains_key("evaluate_enabled"@) == t.contains_key("evaluate_enabled"@) && (t.contains_key("evaluate_enabled"@)
            ==> with_browser(t, u)["evaluate_enabled"@] == t["evaluate_enabled"@]),
        key != "enabled"@ && key != "headless"@ && key != "evaluate_enabled"@ ==> with_browser(t, u).contains_key(key) == t.contains_key(key) && (t.contains_key(key)
            ==> with_browser(t, u)[key] == t[key]),
{
    lemma_browser_keys();
}

/// The keys of the limits of an agent differ.
proof fn lemma_tuning_keys()
    ensures
        "max_concurrent_branches"@ != "max_concurrent_workers"@,
        "max_concurrent_branches"@ != "max_turns"@,
        "max_concurrent_branches"@ != "branch_max_turns"@,
        "max_concurrent_branches"@ != "context_window"@,
        "max_concurrent_branches"@ != "history_backfill_count"@,
        "max_concurrent_workers"@ != "max_turns"@,
        "max_concurrent_workers"@ != "branch_max_turns"@,
        "max_concurrent_workers"@ != "context_window"@,
        "max_concurrent_workers"@ != "history_backfill_count"@,
        "max_turns"@ != "branch_max_turns"@,
        "max_turns"@ != "context_window"@,
        "max_turns"@ != "history_backfill_count"@,
        "branch_max_turns"@ != "context_window"@,
        "branch_max_turns"@ != "history_backfill_count"@,
        "context_window"@ != "history_backfill_count"@,
{
    reveal_strlit("max_concurrent_branches");
    reveal_strlit("max_concurrent_workers");
    reveal_strlit("max_turns");
    reveal_strlit("branch_max_turns");
    reveal_strlit("context_window");
    reveal_strlit("history_backfill_count");
    assert("max_concurrent_workers"@[0] != "history_backfill_count"@[0]);
    assert("max_concurrent_branches"@.len() == 23);
    assert("max_concurrent_workers"@.len() == 22);
    assert("max_turns"@.len() == 9);
    assert("branch_max_turns"@.len() == 16);
    assert("context_window"@.len() == 14);
    assert("history_backfill_count"@.len() == 22);
}

/// A change of the limits of an agent writes what is given under its own key, and keeps
/// everything else.
pub proof fn law_tuning_is_changed(t: Map<Seq<char>, TomlTree>, u: TuningUpdate, key: Seq<char>)
    ensures
        u.max_concurrent_branches matches Some(x) ==> (x <= i64::MAX ==> with_tuning(t, u).contains_key("max_concurrent_branches"@)
            && with_tuning(t, u)["max_concurrent_branches"@] == TomlTree::Integer(x as i64)),
        u.max_concurrent_branches is None ==> with_tuning(t, u).contains_key("max_concurrent_branches"@) == t.contains_key("max_concurrent_branches"@) && (t.contains_key("max_concurrent_branches"@)
            ==> with_tuning(t, u)["max_concurrent_branches"@] == t["max_concurrent_branches"@]),
        u.max_concurrent_workers matches Some(x) ==> (x <= i64::MAX ==> with_tuning(t, u).contains_key("max_concurrent_workers"@)
            && with_tuning(t, u)["max_concurrent_workers"@] == TomlTree::Integer(x as i64)),
        u.max_concurrent_workers is None ==> with_tuning(t, u).contains_key("max_concurrent_workers"@) == t.contains_key("max_concurrent_workers"@) && (t.contains_key("max_concurrent_workers"@)
            ==> with_tuning(t, u)["max_concurrent_workers"@] == t["max_concurrent_workers"@]),
        u.max_turns matches Some(x) ==> (x <= i64::MAX ==> with_tuning(t, u).contains_key("max_turns"@)
            && with_tuning(t, u)["max_turns"@] == TomlTree::Integer(x as i64)),
        u.max_turns is None ==> with_tuning(t, u).contains_key("max_turns"@) == t.contains_key("max_turns"@) && (t.contains_key("max_turns"@)
            ==> with_tuning(t, u)["max_turns"@] == t["max_turns"@]),
        u.branch_max_turns matches Some(x) ==> (x <= i64::MAX ==> with_tuning(t, u).contains_key("branch_max_turns"@)
            && with_tuning(t, u)["branch_max_turns"@] == TomlTree::Integer(x as i64)),
        u.branch_max_turns is None ==> with_tuning(t, u).contains_key("branch_max_turns"@) == t.contains_key("branch_max_turns"@) && (t.contains_key("branch_max_turns"@)
            ==> with_tuning(t, u)["branch_max_turns"@] == t["branch_max_turns"@]),
        u.context_window matches Some(x) ==> (x <= i64::MAX ==> with_tuning(t, u).contains_key("context_window"@)
            && with_tuning(t, u)["context_window"@] == TomlTree::Integer(x as i64)),
        u.context_window is None ==> with_tuning(t, u).contains_key("context_window"@) == t.contains_key("context_window"@) && (t.contains_key("context_window"@)
            ==> with_tuning(t, u)["context_window"@] == t["context_window"@]),
        u.history_backfill_count matches Some(x) ==> (x <= i64::MAX ==> with_tuning(t, u).contains_key("history_backfill_count"@)
            && with_tuning(t, u)["history_backfill_count"@] == TomlTree::Integer(x as i64)),
        u.history_backfill_count is None ==> with_tuning(t, u).contains_key("history_backfill_count"@) == t.contains_key("history_backfill_count"@) && (t.contains_key("history_backfill_count"@)
            ==> with_tuning(t, u)["history_backfill_count"@] == t["history_backfill_count"@]),
        key != "max_concurrent_branches"@ && key != "max_concurrent_workers"@ && key != "max_turns"@ && key != "branch_max_turns"@ && key != "context_window"@ && key != "history_backfill_count"@ ==> with_tuning(t, u).contains_key(key) == t.contains_key(key) && (t.contains_key(key)
            ==> with_tuning(t, u)[key] == t[key]),
{
    lemma_tuning_keys();
}

/// A threshold that is given is written where its text is a value, and the change fails
/// where it is none; what is not given stays.
pub proof fn law_thresholds_are_changed(
    t: Map<Seq<char>, TomlTree>,
    key: Seq<char>,
    s: String,
    other: Seq<char>,
)
    requires
        other != key,
    ensures
        with_threshold(Some(t), key, None) == Some(t),
        with_threshold(None, key, Some(s)) is None,
        toml_doc::parsed_value(s@) is None ==> with_threshold(Some(t), key, Some(s)) is None,
        toml_doc::parsed_value(s@) matches Some(v) ==> (with_threshold(Some(t), key, Some(s))
            matches Some(r) && r.contains_key(key) && r[key] == v && (t.contains_key(other)
            ==> r.contains_key(other) && r[other] == t[other])),
{
}

/// The thresholds of a compaction are written under their own keys.
pub proof fn law_compaction_is_changed(t: Map<Seq<char>, TomlTree>, u: CompactionUpdate, s: String)
    requires
        toml_doc::parsed_value(s@) is Some,
    ensures
        u.background_threshold == Some(s) && u.aggressive_threshold is None
            && u.emergency_threshold is None ==> with_compaction(t, u) == Some(
            t.insert("background_threshold"@, toml_doc::parsed_value(s@)->0),
        ),
        u.background_threshold is None && u.aggressive_threshold == Some(s)
            && u.emergency_threshold is None ==> with_compaction(t, u) == Some(
            t.insert("aggressive_threshold"@, toml_doc::parsed_value(s@)->0),
        ),
        u.background_threshold is None && u.aggressive_threshold is None && u.emergency_threshold
            == Some(s) ==> with_compaction(t, u) == Some(
            t.insert("emergency_threshold"@, toml_doc::parsed_value(s@)->0),
        ),
        u.background_threshold is None && u.aggressive_threshold is None && u.emergency_threshold
            is None ==> with_compaction(t, u) == Some(t),
{
}

/// The sections of an agent are changed where the request gives them: each by itself, with
/// the rest of the agent kept.
pub proof fn law_sections_are_changed(
    agent: Map<Seq<char>, TomlTree>,
    request: AgentConfigUpdateRequest,
    section: Map<Seq<char>, TomlTree>,
)
    ensures
        request.routing is None && request.tuning is None && request.compaction is None
            && request.cortex is None && request.coalesce is None && request.memory_persistence
            is None && request.browser is None ==> agent_after(agent, request) == Some(agent),
        request.routing matches Some(u) ==> (request.tuning is None && request.compaction is None && request.cortex is None && request.coalesce is None && request.memory_persistence is None && request.browser is None
            && agent.contains_key("routing"@) && agent["routing"@] == TomlTree::Table(section)
            ==> agent_after(agent, request) == Some(
            agent.insert("routing"@, TomlTree::Table(with_routing(section, u))),
        )),
        request.routing matches Some(u) ==> (request.tuning is None && request.compaction is None && request.cortex is None && request.coalesce is None && request.memory_persistence is None && request.browser is None
            && !agent.contains_key("routing"@) ==> agent_after(agent, request) == Some(
            agent.insert("routing"@, TomlTree::Table(with_routing(Map::empty(), u))),
        )),
        request.cortex matches Some(u) ==> (request.routing is None && request.tuning is None && request.compaction is None && request.coalesce is None && request.memory_persistence is None && request.browser is None
            && agent.contains_key("cortex"@) && agent["cortex"@] == TomlTree::Table(section)
            ==> agent_after(agent, request) == Some(
            agent.insert("cortex"@, TomlTree::Table(with_cortex(section, u))),
        )),
        request.cortex matches Some(u) ==> (request.routing is None && request.tuning is None && request.compaction is None && request.coalesce is None && request.memory_persistence is None && request.browser is None
            && !agent.contains_key("cortex"@) ==> agent_after(agent, request) == Some(
            agent.insert("cortex"@, TomlTree::Table(with_cortex(Map::empty(), u))),
        )),
        request.coalesce matches Some(u) ==> (request.routing is None && request.tuning is None && request.compaction is None && request.cortex is None && request.memory_persistence is None && request.browser is None
            && agent.contains_key("coalesce"@) && agent["coalesce"@] == TomlTree::Table(section)
            ==> agent_after(agent, request) == Some(
            agent.insert("coalesce"@, TomlTree::Table(with_coalesce(section, u))),
        )),
        request.coalesce matches Some(u) ==> (request.routing is None && request.tuning is None && request.compaction is None && request.cortex is None && request.memory_persistence is None && request.browser is None
            && !agent.contains_key("coalesce"@) ==> agent_after(agent, request) == Some(
            agent.insert("coalesce"@, TomlTree::Table(with_coalesce(Map::empty(), u))),
        )),
        request.memory_persistence matches Some(u) ==> (request.routing is None && request.tuning is None && request.compaction is None && request.cortex is None && request.coalesce is None && request.browser is None
            && agent.contains_key("memory_persistence"@) && agent["memory_persistence"@] == TomlTree::Table(section)
            ==> agent_after(agent, request) == Some(
            agent.insert("memory_persistence"@, TomlTree::Table(with_memory_persistence(section, u))),
        )),
        request.memory_persistence matches Some(u) ==> (request.routing is None && request.tuning is None && request.compaction is None && request.cortex is None && request.coalesce is None && request.browser is None
            && !agent.contains_key("memory_persistence"@) ==> agent_after(agent, request) == Some(
            agent.insert("memory_persistence"@, TomlTree::Table(with_memory_persistence(Map::empty(), u))),
        )),
        request.browser matches Some(u) ==> (request.routing is None && request.tuning is None && request.compaction is None && request.cortex is None && request.coalesce is None && request.memory_persistence is None
            && agent.contains_key("browser"@) && agent["browser"@] == TomlTree::Table(section)
            ==> agent_after(agent, request) == Some(
            agent.insert("browser"@, TomlTree::Table(with_browser(section, u))),
        )),
        request.browser matches Some(u) ==> (request.routing is None && request.tuning is None && request.compaction is None && request.cortex is None && request.coalesce is None && request.memory_persistence is None
            && !agent.contains_key("browser"@) ==> agent_after(agent, request) == Some(
            agent.insert("browser"@, TomlTree::Table(with_browser(Map::empty(), u))),
        )),
        request.tuning matches Some(u) ==> (request.routing is None && request.compaction is None && request.cortex is None && request.coalesce is None && request.memory_persistence is None && request.browser is None ==> agent_after(agent, request) == Some(
            with_tuning(agent, u),
        )),
{
}

/// The agent that is changed is the first one with the id, and one more at the end where
/// there is none.
pub proof fn law_first_agent_is_changed(
    tables: Seq<Map<Seq<char>, TomlTree>>,
    id: Seq<char>,
    from: nat,
)
    requires
        from <= tables.len(),
    ensures
        from <= agent_index(tables, id, from) <= tables.len(),
        agent_index(tables, id, from) < tables.len() ==> toml_doc::text_at(
            tables[agent_index(tables, id, from) as int],
            "id"@,
        ) == Some(id),
        forall|k: int|
            from <= k < agent_index(tables, id, from) ==> toml_doc::text_at(
                #[trigger] tables[k],
                "id"@,
            ) != Some(id),
        with_agent(tables, id).len() >= tables.len(),
        from == 0 && agent_index(tables, id, 0) == tables.len() ==> with_agent(tables, id)
            == tables.push(Map::empty().insert("id"@, TomlTree::Text(id))),
        from == 0 && agent_index(tables, id, 0) < tables.len() ==> with_agent(tables, id) == tables,
    decreases tables.len() - from,
{
    if from < tables.len() && toml_doc::text_at(tables[from as int], "id"@) != Some(id) {
        law_first_agent_is_changed(tables, id, from + 1);
    }
}

/// Discord lets in messages of bots as the change says, and fails to where it has no
/// section; the rest of its section stays.
pub proof fn law_discord_is_changed(
    doc: Map<Seq<char>, TomlTree>,
    messaging: Map<Seq<char>, TomlTree>,
    section: Map<Seq<char>, TomlTree>,
    u: DiscordUpdate,
    b: bool,
    key: Seq<char>,
)
    requires
        doc.contains_key("messaging"@),
        doc["messaging"@] == TomlTree::Table(messaging),
        key != "allow_bot_messages"@,
    ensures
        !messaging.contains_key("discord"@) ==> with_discord(doc, u) is None,
        messaging.contains_key("discord"@) && messaging["discord"@] == TomlTree::Table(section) ==> {
            let r = with_discord(doc, u);
            &&& r is Some
            &&& (u.allow_bot_messages is None ==> toml_doc::section(
                r->0,
                "messaging"@,
                "discord"@,
            ) == Some(TomlTree::Table(section)))
            &&& (u.allow_bot_messages == Some(b) ==> toml_doc::section(
                r->0,
                "messaging"@,
                "discord"@,
            ) == Some(TomlTree::Table(section.insert("allow_bot_messages"@, TomlTree::Flag(b)))))
        },
{
}

/// The settings that are shown are those that the agent works with.
pub proof fn law_running_settings_are_shown(
    r: AgentConfigResponse,
    rc: RuntimeConfig,
    allow: Option<bool>,
)
    requires
        shows(r, rc, allow),
    ensures
        r.routing.channel@ == rc.routing.channel@ && r.routing.worker@ == rc.routing.worker@,
        r.routing.branch@ == rc.routing.branch@ && r.routing.compactor@ == rc.routing.compactor@,
        r.routing.cortex@ == rc.routing.cortex@ && r.routing.rate_limit_cooldown_secs
            == rc.routing.rate_limit_cooldown_secs,
        r.tuning.max_turns == rc.max_turns && r.tuning.branch_max_turns == rc.branch_max_turns,
        r.tuning.context_window == rc.context_window && r.tuning.history_backfill_count
            == rc.history_backfill_count,
        r.tuning.max_concurrent_branches == rc.max_concurrent_branches
            && r.tuning.max_concurrent_workers == rc.max_concurrent_workers,
        r.compaction.background_threshold == rc.compaction.background_threshold
            && r.compaction.aggressive_threshold == rc.compaction.aggressive_threshold
            && r.compaction.emergency_threshold == rc.compaction.emergency_threshold,
        r.cortex.bulletin_max_words == rc.cortex.bulletin_max_words && r.cortex.tick_interval_secs
            == rc.cortex.tick_interval_secs,
        r.coalesce.enabled == rc.coalesce.enabled && r.coalesce.debounce_ms
            == rc.coalesce.debounce_ms && r.coalesce.max_wait_ms == rc.coalesce.max_wait_ms,
        r.memory_persistence.enabled == rc.memory_persistence.enabled,
        r.browser.enabled == rc.browser_config.enabled && r.browser.headless
            == rc.browser_config.headless,
        r.discord.enabled <==> allow is Some,
        r.discord.allow_bot_messages <==> allow == Some(true),
{
}

} // verus!
