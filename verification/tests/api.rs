//! Tests of the HTTP interface.
use spacebot::agent::cortex::CortexEvent;
use spacebot::api::agent_config::{
    get_agent_config, update_agent_config, AgentConfigUpdateRequest, CoalesceUpdate,
    CompactionUpdate, DiscordUpdate, RoutingUpdate, TuningUpdate,
};
use spacebot::api::bindings::{
    create_binding, delete_binding, hot_reload, list_bindings, messaging_status,
    CreateBindingRequest, DeleteBindingRequest, NewTokens, PlatformCredentials, Running,
};
use spacebot::api::memories;
use spacebot::api::memories::{
    exclude_ids, memories_page, memories_to_fetch, neighbor_depth, parse_memory_type, parse_sort,
};
use spacebot::api::models::{
    curated_models, get_models, openrouter_key, refresh_models, OpenRouterModel,
};
use spacebot::api::overview::{
    activity_daily, activity_sparkline, agent_overview, agent_summary, channel_responses,
    cron_jobs, fetch_limit, instance_overview, lagged_data, latest_bulletin, memory_counts,
    timeline_page, AgentActivity, AgentRows, CronJobRow, DayCount, HeatmapCell,
};
use spacebot::api::providers::{
    configured_providers, delete_provider, get_providers, provider_key, providers,
    update_provider, ProviderUpdateRequest,
};
use spacebot::api::server::{
    asset_path, cancel_answer, cancel_target, chat_event_name, choose_thread, cron_message,
    events_limit, identity_files, job_with_stats, requested_cron, resolve_thread, safe_name,
    static_answer, unique_name, upload_names, CancelTarget, ChatEventKind, CreateCronRequest,
    CronAction, IdentityUpdate, StaticAnswer,
};
use spacebot::api::settings::{
    get_global_settings, update_global_settings, GlobalSettingsUpdate,
};
use spacebot::api::state::{process_id_info, translate_event, AgentInfo, ApiEvent};
use spacebot::api::ApiError;
use spacebot::config::bindings::{Binding, DiscordConfig};
use spacebot::config::environment::EnvVars;
use spacebot::config::runtime::RuntimeConfig;
use spacebot::config::{AgentConfig, Config, DefaultsConfig, OpenCodePermissions, F32};
use spacebot::conversation::channels::ChannelInfo;
use spacebot::conversation::history::TimelineItem;
use spacebot::cron::store::CronExecutionStats;
use spacebot::llm::routing::RoutingConfig;
use spacebot::memory::search::{SearchMode, SearchSort};
use spacebot::memory::types::{Memory, MemoryType};
use spacebot::message::Timestamp;
use spacebot::process::{ProcessEvent, ProcessId};
use spacebot::text_map::TextMap;

fn s(text: &str) -> String {
    text.to_string()
}

fn env(vars: &[(&str, &str)]) -> EnvVars {
    EnvVars { vars: vars.iter().map(|(k, v)| (s(k), s(v))).collect() }
}

fn routing(channel: &str) -> RoutingConfig {
    RoutingConfig {
        channel: s(channel),
        branch: s(channel),
        worker: s("p/worker"),
        compactor: s("p/worker"),
        cortex: s("p/worker"),
        task_overrides: TextMap::new(),
        fallbacks: TextMap::new(),
        rate_limit_cooldown_secs: 60,
    }
}

fn parse(content: &str) -> toml::Value {
    content.parse::<toml::Table>().map(toml::Value::Table).unwrap()
}

fn new_binding(channel: &str) -> CreateBindingRequest {
    CreateBindingRequest {
        agent_id: s("main"),
        channel: s(channel),
        guild_id: Some(s("7")),
        workspace_id: None,
        chat_id: None,
        channel_ids: vec![s("70")],
        dm_allowed_users: vec![],
        platform_credentials: None,
    }
}

fn memory(id: &str) -> Memory {
    let now = Timestamp { secs: 0, nanos: 0 };
    Memory {
        id: s(id),
        content: s("text"),
        memory_type: MemoryType::Fact,
        importance: F32 { bits: 0 },
        created_at: now,
        updated_at: now,
        last_accessed_at: now,
        access_count: 0,
        source: None,
        channel_id: None,
        forgotten: false,
    }
}

fn channel(id: &str, secs: i64) -> ChannelInfo {
    ChannelInfo {
        id: s(id),
        platform: s("slack"),
        display_name: Some(s("general")),
        platform_meta: None,
        is_active: true,
        created_at: Timestamp { secs: 0, nanos: 0 },
        last_activity_at: Timestamp { secs, nanos: 0 },
    }
}

const CONFIG: &str = "# my file\n[llm]\nanthropic_key = \"k\" # keep\n\n[[agents]]\nid = \"main\"\n";

#[test]
fn a_binding_is_created_and_deleted() {
    let created = match create_binding(CONFIG, &new_binding("discord")) {
        Ok(c) => c,
        Err(_) => panic!("the file is valid"),
    };
    assert!(created.answer.success);
    assert!(!created.restart_required);
    assert!(created.content.starts_with("# my file\n[llm]\nanthropic_key = \"k\" # keep\n"));
    let doc = parse(&created.content);
    assert_eq!(doc["bindings"][0]["agent_id"].as_str(), Some("main"));
    assert_eq!(doc["bindings"][0]["guild_id"].as_str(), Some("7"));
    assert_eq!(doc["bindings"][0]["channel_ids"][0].as_str(), Some("70"));
    let request = DeleteBindingRequest {
        agent_id: s("main"),
        channel: s("discord"),
        guild_id: Some(s("7")),
        workspace_id: None,
        chat_id: None,
    };
    let deleted = match delete_binding(Some(&created.content), &request) {
        Ok(d) => d,
        Err(_) => panic!("the binding is there"),
    };
    assert!(deleted.answer.success);
    let doc = parse(&deleted.content.unwrap());
    assert!(doc.get("bindings").and_then(|b| b.as_array()).map_or(true, |b| b.is_empty()));
    assert_eq!(doc["agents"][0]["id"].as_str(), Some("main"));
}

#[test]
fn credentials_come_with_a_binding() {
    let mut request = new_binding("slack");
    request.platform_credentials = Some(PlatformCredentials {
        discord_token: None,
        slack_bot_token: Some(s("bot")),
        slack_app_token: Some(s("app")),
    });
    let created = match create_binding(CONFIG, &request) {
        Ok(c) => c,
        Err(_) => panic!("the file is valid"),
    };
    assert_eq!(created.tokens.slack, Some((s("bot"), s("app"))));
    assert!(created.restart_required);
    let status = match messaging_status(Some(&created.content)) {
        Ok(status) => status,
        Err(_) => panic!("the file is valid"),
    };
    assert!(status.slack.configured && status.slack.enabled);
    assert!(!status.discord.configured);
    assert!(matches!(create_binding("not = [toml", &request), Err(ApiError::Internal)));
    assert!(matches!(messaging_status(None), Ok(status) if !status.slack.configured));
}

#[test]
fn bindings_are_listed_by_agent() {
    let b = |agent: &str| Binding {
        agent_id: s(agent),
        channel: s("slack"),
        guild_id: None,
        workspace_id: None,
        chat_id: None,
        channel_ids: vec![],
        dm_allowed_users: vec![],
    };
    let all = vec![b("a"), b("b"), b("a")];
    assert_eq!(list_bindings(&all, &Some(s("a"))).len(), 2);
    assert_eq!(list_bindings(&all, &None).len(), 3);
}

#[test]
fn keys_of_providers_are_written() {
    let request = ProviderUpdateRequest { provider: s("openai"), api_key: s("new") };
    let updated = match update_provider(CONFIG, &request, &routing("openai/gpt")) {
        Ok(u) => u,
        Err(_) => panic!("the file is valid"),
    };
    assert!(updated.success);
    let content = updated.content.unwrap();
    assert_eq!(parse(&content)["llm"]["openai_key"].as_str(), Some("new"));
    assert_eq!(updated.message, "Provider 'openai' configured.");
    let status = match get_providers(Some(&content), &env(&[])) {
        Ok(p) => p,
        Err(_) => panic!("the file is valid"),
    };
    assert!(status.has_any && status.providers.openai && status.providers.anthropic);
    assert!(!status.providers.groq);
    let removed = match delete_provider(Some(&content), "openai") {
        Ok(u) => u,
        Err(_) => panic!("the file is valid"),
    };
    assert!(parse(&removed.content.unwrap())["llm"].get("openai_key").is_none());
    let unknown = ProviderUpdateRequest { provider: s("nobody"), api_key: s("k") };
    let refused = update_provider(CONFIG, &unknown, &routing("p/m"));
    assert!(matches!(refused, Ok(u) if !u.success && u.content.is_none()));
    let empty = ProviderUpdateRequest { provider: s("openai"), api_key: s("  ") };
    let refused = update_provider(CONFIG, &empty, &routing("p/m"));
    assert!(matches!(refused, Ok(u) if !u.success && u.content.is_none()));
}

#[test]
fn a_first_key_sets_the_routing() {
    let request = ProviderUpdateRequest { provider: s("groq"), api_key: s("new") };
    let updated = match update_provider("", &request, &routing("groq/fast")) {
        Ok(u) => u,
        Err(_) => panic!("an empty file is valid"),
    };
    let content = updated.content.unwrap();
    assert_eq!(updated.message, "Provider 'groq' configured. Model routing updated to use groq defaults.");
    assert_eq!(parse(&content)["defaults"]["routing"]["channel"].as_str(), Some("groq/fast"));
    assert!(matches!(
        update_provider("= =", &request, &routing("groq/fast")),
        Err(ApiError::Internal)
    ));
}

#[test]
fn a_routing_to_a_provider_with_a_key_is_kept() {
    let content = "[llm]\ngroq_key = \"g\"\n\n[defaults.routing]\nchannel = \"groq/llama-3.3-70b-versatile\"\n";
    let request = ProviderUpdateRequest { provider: s("openai"), api_key: s("k") };
    let updated = match update_provider(content, &request, &routing("openai/gpt")) {
        Ok(u) => u,
        Err(_) => panic!("the file is valid"),
    };
    assert!(updated.success);
    assert_eq!(updated.message, "Provider 'openai' configured.");
    let doc = parse(&updated.content.unwrap());
    assert_eq!(doc["llm"]["openai_key"].as_str(), Some("k"));
    assert_eq!(
        doc["defaults"]["routing"]["channel"].as_str(),
        Some("groq/llama-3.3-70b-versatile")
    );
    let keyless = content.replace("groq_key", "xai_key");
    let updated = match update_provider(&keyless, &request, &routing("openai/gpt")) {
        Ok(u) => u,
        Err(_) => panic!("the file is valid"),
    };
    let doc = parse(&updated.content.unwrap());
    assert_eq!(doc["defaults"]["routing"]["channel"].as_str(), Some("openai/gpt"));
}

#[test]
fn providers_are_configured_by_file_or_environment() {
    let env = env(&[("GROQ_API_KEY", "k"), ("OTHER", "k2")]);
    assert_eq!(configured_providers(Some(""), &env), vec!["groq"]);
    assert!(configured_providers(None, &env).is_empty());
    assert!(configured_providers(Some("= ="), &env).is_empty());
    let content = "[llm]\nopenai_key = \"env:OTHER\"\nxai_key = \"env:UNSET\"\n";
    let found = configured_providers(Some(content), &env);
    assert!(found.contains(&"openai"));
    assert!(!found.contains(&"xai"));
    assert_eq!(provider_key("zhipu"), Some("zhipu_key"));
    assert_eq!(provider_key("nobody"), None);
    assert_eq!(providers().len(), 11);
}

#[test]
fn global_settings_read_back() {
    let update = GlobalSettingsUpdate {
        brave_search_key: Some(s("b")),
        api_enabled: Some(false),
        api_port: Some(1234),
        api_bind: Some(s("0.0.0.0")),
        worker_log_mode: Some(s("all_separate")),
    };
    let updated = match update_global_settings(CONFIG, &update) {
        Ok(u) => u,
        Err(_) => panic!("the file is valid"),
    };
    assert!(updated.success && updated.requires_restart);
    let content = updated.content.unwrap();
    let read = match get_global_settings(Some(&content), &env(&[])) {
        Ok(r) => r,
        Err(_) => panic!("the file is valid"),
    };
    assert_eq!(read.brave_search_key.as_deref(), Some("b"));
    assert!(!read.api_enabled);
    assert_eq!((read.api_port, read.api_bind.as_str()), (1234, "0.0.0.0"));
    assert_eq!(read.worker_log_mode, "all_separate");
    let defaults = match get_global_settings(None, &env(&[])) {
        Ok(r) => r,
        Err(_) => panic!("there is no file"),
    };
    assert_eq!(defaults.api_port, 19898);
}

#[test]
fn an_agent_is_configured_in_its_own_table() {
    let content = "[messaging.discord]\nenabled = true\n\n[[agents]]\nid = \"a\"\nmax_turns = 1\n\n[[agents]]\nid = \"b\"\n";
    let request = AgentConfigUpdateRequest {
        agent_id: s("b"),
        routing: Some(RoutingUpdate {
            channel: Some(s("p/m")),
            branch: None,
            worker: None,
            compactor: None,
            cortex: None,
            rate_limit_cooldown_secs: Some(9),
        }),
        tuning: Some(TuningUpdate {
            max_concurrent_branches: None,
            max_concurrent_workers: None,
            max_turns: Some(7),
            branch_max_turns: None,
            context_window: None,
            history_backfill_count: None,
        }),
        compaction: Some(CompactionUpdate {
            background_threshold: Some(s("0.5")),
            aggressive_threshold: None,
            emergency_threshold: None,
        }),
        cortex: None,
        coalesce: Some(CoalesceUpdate {
            enabled: Some(true),
            debounce_ms: None,
            max_wait_ms: None,
            min_messages: None,
            multi_user_only: None,
        }),
        memory_persistence: None,
        browser: None,
        discord: Some(DiscordUpdate { allow_bot_messages: Some(true) }),
    };
    let doc = match update_agent_config(content, &request) {
        Ok(c) => parse(&c),
        Err(_) => panic!("the file is valid"),
    };
    assert_eq!(doc["agents"][0]["max_turns"].as_integer(), Some(1));
    assert_eq!(doc["agents"][1]["max_turns"].as_integer(), Some(7));
    assert_eq!(doc["agents"][1]["routing"]["channel"].as_str(), Some("p/m"));
    assert_eq!(doc["agents"][1]["compaction"]["background_threshold"].as_float(), Some(0.5));
    assert_eq!(doc["agents"][1]["coalesce"]["enabled"].as_bool(), Some(true));
    assert_eq!(doc["messaging"]["discord"]["allow_bot_messages"].as_bool(), Some(true));
    // There is no Discord to configure.
    assert!(matches!(
        update_agent_config("[[agents]]\nid = \"b\"\n", &request),
        Err(ApiError::Internal)
    ));
    let mut unknown = request;
    unknown.agent_id = s("c");
    let doc = match update_agent_config(content, &unknown) {
        Ok(c) => parse(&c),
        Err(_) => panic!("the file is valid"),
    };
    assert_eq!(doc["agents"][2]["id"].as_str(), Some("c"));
}

#[test]
fn the_configuration_of_an_agent_is_shown() {
    let permissions = OpenCodePermissions { edit: s("a"), bash: s("b"), webfetch: s("c") };
    let defaults = DefaultsConfig::base(routing("p/m"), permissions);
    let resolved = AgentConfig::plain(s("x"), true).resolve("/d", &defaults);
    let rc = RuntimeConfig::new("/d", &resolved, &defaults);
    let shown = get_agent_config(&rc, Some(true));
    assert_eq!(shown.routing.channel, "p/m");
    assert_eq!(shown.tuning.max_turns, 5);
    assert!(shown.discord.enabled && shown.discord.allow_bot_messages);
    assert!(!get_agent_config(&rc, None).discord.enabled);
    let info = AgentInfo::of(&resolved);
    assert_eq!((info.id.as_str(), info.max_turns), ("x", 5));
}

#[test]
fn models_of_configured_providers() {
    let all = curated_models("family");
    assert_eq!(all.len(), 57);
    assert_eq!(all[0].id, "anthropic/family-sonnet-4-20250514");
    assert_eq!(all[0].name, "Family Sonnet 4");
    assert_eq!(all[0].context_window, Some(200_000));
    assert_eq!(all[4].id, "openrouter/anthropic/family-haiku-4.5-20250514");
    assert_eq!(all[4].name, "Family Haiku 4.5");
    let counts = [
        ("anthropic", 3),
        ("openrouter", 13),
        ("openai", 6),
        ("zhipu", 3),
        ("groq", 5),
        ("together", 5),
        ("fireworks", 5),
        ("deepseek", 2),
        ("xai", 3),
        ("mistral", 5),
        ("opencode-zen", 7),
    ];
    for (provider, count) in counts {
        assert_eq!(all.iter().filter(|m| m.provider == provider).count(), count);
    }
    for (i, m) in all.iter().enumerate() {
        assert!(m.curated);
        assert!(m.id.starts_with(&format!("{}/", m.provider)));
        assert_eq!(m.context_window.is_none(), m.provider == "opencode-zen");
        assert!(all[..i].iter().all(|other| other.id != m.id));
    }
    let fetched = refresh_models(
        &vec!["openrouter"],
        &Some(vec![
            OpenRouterModel { id: s("openai/gpt-4.1"), name: None, context_length: None },
            OpenRouterModel { id: s("x/new"), name: Some(s("New")), context_length: Some(8) },
        ]),
    );
    assert_eq!(fetched.len(), 2);
    assert_eq!(fetched[0].name, "openai/gpt-4.1");
    let models = get_models("family", &vec!["openrouter"], &fetched, 10);
    assert!(models.iter().all(|m| m.provider == "openrouter"));
    assert_eq!(models.iter().filter(|m| m.id == "openrouter/openai/gpt-4.1").count(), 1);
    assert_eq!(models.last().unwrap().id, "openrouter/x/new");
    let stale = get_models("family", &vec!["openrouter"], &fetched, 3600);
    assert!(stale.iter().all(|m| m.curated));
    let content = "[llm]\nopenrouter_key = \"env:OR\"\n";
    assert!(matches!(openrouter_key(content, &env(&[("OR", "k")])), Ok(k) if k == "k"));
    assert!(matches!(openrouter_key(content, &env(&[])), Err(ApiError::NotFound)));
}

#[test]
fn the_activity_of_fourteen_days() {
    let rows = vec![
        DayCount { date: s("1970-01-20"), count: 3 },
        DayCount { date: s("1970-01-07"), count: 5 },
        DayCount { date: s("1970-01-06"), count: 9 },
    ];
    // The twentieth of January.
    let line = activity_sparkline(&rows, 19 * 86400 + 5);
    assert_eq!(line.len(), 14);
    assert_eq!(line[13], 3);
    assert_eq!(line[0], 5);
    assert_eq!(line.iter().sum::<i64>(), 8);
    let daily = activity_daily(
        &vec![DayCount { date: s("b"), count: 1 }],
        &vec![DayCount { date: s("a"), count: 2 }, DayCount { date: s("b"), count: 3 }],
    );
    assert_eq!(daily.len(), 2);
    assert_eq!((daily[0].date.as_str(), daily[0].branches, daily[0].workers), ("a", 0, 2));
    assert_eq!((daily[1].branches, daily[1].workers), (1, 3));
    let (counts, total) = memory_counts(&vec![(s("fact"), 2), (s("goal"), 3)]);
    assert_eq!(total, 5);
    assert_eq!(counts.get("goal"), Some(&3));
}

#[test]
fn an_overview_of_agents() {
    let event = CortexEvent {
        id: s("e"),
        event_type: s("bulletin_generated"),
        summary: s("news"),
        details: None,
        created_at: s("2024-01-01T00:00:00+00:00"),
    };
    let activity = AgentActivity {
        channels: vec![channel("a", 10), channel("b", 20)],
        memory_total: 4,
        cron_jobs: 2,
        messages: vec![],
        bulletins: vec![event],
    };
    let summary = agent_summary("x", &activity, 0);
    assert_eq!(summary.channel_count, 2);
    assert_eq!(summary.memory_total, 4);
    assert_eq!(summary.cron_job_count, 2);
    assert!(summary.last_activity_at.unwrap().starts_with("1970-01-01T00:00:20"));
    assert_eq!(summary.last_bulletin_at.as_deref(), Some("2024-01-01T00:00:00+00:00"));
    assert_eq!(latest_bulletin(&vec![]), (None, None));
    let info = AgentInfo {
        id: s("x"),
        workspace: s("/w"),
        context_window: 1,
        max_turns: 1,
        max_concurrent_branches: 1,
        max_concurrent_workers: 1,
    };
    assert!(instance_overview(&vec![info], &vec![None], 0).is_empty());
    let shown = channel_responses("x", &vec![channel("a", 10)]);
    assert_eq!(shown[0].agent_id, "x");
    assert_eq!(shown[0].display_name.as_deref(), Some("general"));
}

#[test]
fn an_overview_of_one_agent() {
    let event = |id: &str, details: Option<serde_json::Value>| CortexEvent {
        id: s(id),
        event_type: s("bulletin_generated"),
        summary: s("news"),
        details,
        created_at: s("2024-01-01T00:00:00+00:00"),
    };
    let day = |date: &str, count: i64| DayCount { date: s(date), count };
    let told = serde_json::from_str("{\"bulletin_text\":\"all is well\"}").unwrap();
    let rows = AgentRows {
        memories: Some(vec![(s("fact"), 2), (s("goal"), 3)]),
        channels: Some(vec![channel("a", 10), channel("b", 20)]),
        cron_jobs: Some(vec![CronJobRow {
            id: s("j"),
            prompt: s("p"),
            interval_secs: 60,
            delivery_target: s("d"),
            enabled: 0,
            active_start_hour: Some(8),
            active_end_hour: Some(9),
        }]),
        bulletins: Some(vec![event("b", Some(told))]),
        recent_events: Some(vec![event("e", None)]),
        memory_daily: Some(vec![day("2024-01-01", 7)]),
        branches: Some(vec![day("2024-01-02", 1)]),
        workers: None,
        heatmap: Some(vec![HeatmapCell { day: 1, hour: 2, count: 3 }]),
    };
    let shown = match agent_overview(Some(rows)) {
        Ok(shown) => shown,
        Err(_) => panic!("the agent is there"),
    };
    assert_eq!(shown.memory_counts.get("goal"), Some(&3));
    assert_eq!(shown.memory_total, 5);
    assert_eq!(shown.channel_count, 2);
    assert_eq!(shown.cron_jobs.len(), 1);
    assert_eq!(shown.cron_jobs[0].active_hours, Some((8, 9)));
    assert_eq!(shown.last_bulletin_at.as_deref(), Some("2024-01-01T00:00:00+00:00"));
    assert_eq!(shown.latest_bulletin.as_deref(), Some("all is well"));
    assert_eq!(shown.recent_cortex_events[0].id, "e");
    assert_eq!(shown.memory_daily[0].count, 7);
    assert_eq!(shown.activity_daily[0].branches, 1);
    assert_eq!(shown.activity_daily[0].workers, 0);
    assert_eq!(shown.activity_heatmap[0].hour, 2);
}

#[test]
fn an_overview_needs_the_agent_and_its_memories() {
    assert!(matches!(agent_overview(None), Err(ApiError::NotFound)));
    let nothing = AgentRows {
        memories: None,
        channels: None,
        cron_jobs: None,
        bulletins: None,
        recent_events: None,
        memory_daily: None,
        branches: None,
        workers: None,
        heatmap: None,
    };
    assert!(matches!(agent_overview(Some(nothing)), Err(ApiError::Internal)));
}

#[test]
fn pages_of_a_timeline() {
    assert_eq!(fetch_limit(20), 21);
    assert_eq!(fetch_limit(1000), 101);
    let item = |id: &str| TimelineItem::WorkerRun {
        id: s(id),
        task: s("t"),
        result: None,
        status: s("running"),
        started_at: s(""),
        completed_at: None,
    };
    let page = timeline_page(2, vec![item("1"), item("2"), item("3")]);
    assert!(page.has_more);
    assert_eq!(page.items.len(), 2);
    let last = timeline_page(2, vec![item("1")]);
    assert!(!last.has_more);
    assert_eq!(lagged_data(3), "{\"skipped\":3}");
}

#[test]
fn jobs_of_rows() {
    let jobs = cron_jobs(vec![CronJobRow {
        id: s("j"),
        prompt: s("p"),
        interval_secs: 60,
        delivery_target: s("d"),
        enabled: 1,
        active_start_hour: Some(9),
        active_end_hour: Some(17),
    }]);
    assert_eq!(jobs[0].interval_secs, 60);
    assert_eq!(jobs[0].active_hours, Some((9, 17)));
    assert!(jobs[0].enabled);
}

#[test]
fn pages_of_memories() {
    assert_eq!(memories_to_fetch(500, 200, 10), 210);
    let page = memories_page(vec![memory("a"), memory("b"), memory("c")], 1);
    assert_eq!(page.total, 3);
    assert_eq!(page.memories.len(), 2);
    assert_eq!(page.memories[0].id, "b");
    assert!(memories_page(vec![memory("a")], 5).memories.is_empty());
    assert_eq!(parse_sort("importance"), SearchSort::Importance);
    assert_eq!(parse_sort("most_accessed"), SearchSort::MostAccessed);
    assert_eq!(parse_sort("?"), SearchSort::Recent);
    assert_eq!(parse_memory_type(&Some(s("goal"))), Some(MemoryType::Goal));
    assert_eq!(parse_memory_type(&Some(s("?"))), None);
    let config = memories::search_config(1000, &Some(s("goal")));
    assert_eq!(config.mode, SearchMode::Hybrid);
    assert_eq!(config.max_results, 100);
    assert_eq!(neighbor_depth(9), 3);
    assert_eq!(exclude_ids(&Some(s("a,b"))), vec!["a", "b"]);
    assert!(exclude_ids(&None).is_empty());
}

#[test]
fn requests_for_jobs() {
    let request = CreateCronRequest {
        id: s("j"),
        prompt: s("p"),
        interval_secs: 60,
        delivery_target: s("d"),
        active_start_hour: Some(9),
        active_end_hour: None,
        enabled: true,
    };
    let config = requested_cron(&request);
    assert_eq!(config.active_hours, None);
    let stats = CronExecutionStats { success_count: 2, failure_count: 1, last_executed_at: None };
    let job = job_with_stats(&config, &stats);
    assert_eq!((job.success_count, job.failure_count), (2, 1));
    assert!(cron_message("j", CronAction::Saved).contains('j'));
    assert!(cron_message("j", CronAction::Toggled(true)).contains("enabled"));
}

#[test]
fn processes_are_cancelled_by_id() {
    let id = "6ba7b810-9dad-11d1-80b4-00c04fd430c8";
    let target = match cancel_target("worker", &id.to_uppercase()) {
        Ok(t) => t,
        Err(_) => panic!("the id is one"),
    };
    assert!(matches!(&target, CancelTarget::Worker(w) if w == id));
    assert!(matches!(cancel_target("branch", "no id"), Err(ApiError::BadRequest)));
    assert!(matches!(cancel_target("cortex", id), Err(ApiError::BadRequest)));
    assert!(matches!(cancel_answer(&target, id, true), Ok(m) if m.contains(id)));
    assert!(matches!(cancel_answer(&target, id, false), Err(ApiError::NotFound)));
}

#[test]
fn threads_of_the_chat() {
    assert_eq!(choose_thread(Some(s("a")), Some(s("b")), s("c")), "a");
    assert_eq!(choose_thread(None, Some(s("b")), s("c")), "b");
    assert_eq!(choose_thread(None, None, s("c")), "c");
    assert_eq!(resolve_thread(None, None).len(), 36);
    assert_eq!(chat_event_name(ChatEventKind::Thinking), "thinking");
    assert_eq!(events_limit(1000), 200);
}

#[test]
fn uploads_stay_in_their_directory() {
    let id = "0123456789abcdef";
    assert_eq!(safe_name(&Some(s("../../etc/passwd")), id), "passwd");
    assert!(unique_name("notes.txt", id).contains("01234567"));
    assert!(unique_name("notes.txt", id).ends_with(".txt"));
    let (name, unique) = upload_names(&Some(s("a/b.md")));
    assert_eq!(name, "b.md");
    assert_ne!(name, unique);
    assert!(!upload_names(&None).0.is_empty());
}

#[test]
fn assets_and_pages() {
    assert_eq!(asset_path("/app.js"), "app.js");
    assert!(matches!(static_answer("/app.js", true, true), StaticAnswer::Asset(t) if t.contains("javascript")));
    assert!(matches!(static_answer("/agents/x", false, true), StaticAnswer::Index));
    assert!(matches!(static_answer("/agents/x", false, false), StaticAnswer::NotFound));
}

#[test]
fn what_follows_a_change_of_the_bindings() {
    let permissions =
        OpenCodePermissions { edit: s("allow"), bash: s("ask"), webfetch: s("allow") };
    let mut config = Config::load_from_env("/d", &env(&[]), &routing("p/m"), permissions);
    config.messaging.discord = Some(DiscordConfig {
        enabled: true,
        token: s("old"),
        dm_allowed_users: vec![s("7")],
        allow_bot_messages: true,
    });
    let none = NewTokens { discord: None, slack: None };
    let idle = Running { discord_permissions: false, slack_permissions: false, manager: true };
    let r = hot_reload(&config, idle, &none);
    assert!(r.discord_permissions.is_none() && r.slack_permissions.is_none());
    assert!(r.start_discord.is_none() && r.start_slack.is_none());

    let token = NewTokens { discord: Some(s("new")), slack: None };
    let r = hot_reload(&config, idle, &token);
    assert_eq!(r.start_discord.as_deref(), Some("new"));
    assert_eq!(r.discord_permissions.map(|p| p.dm_allowed_users), Some(vec![7]));

    let unmanaged = Running { discord_permissions: true, slack_permissions: true, manager: false };
    let r = hot_reload(&config, unmanaged, &token);
    assert!(r.start_discord.is_none());
    assert!(r.discord_permissions.is_some_and(|p| p.allow_bot_messages));
    assert!(r.slack_permissions.is_none());
}

#[test]
fn identity_files_that_are_given_are_written() {
    let update = IdentityUpdate { soul: Some(s("kind")), identity: None, user: Some(s("")) };
    assert_eq!(
        identity_files("/w", &update),
        vec![(s("/w/SOUL.md"), s("kind")), (s("/w/USER.md"), s(""))]
    );
    let none = IdentityUpdate { soul: None, identity: None, user: None };
    assert!(identity_files("/w", &none).is_empty());
}

#[test]
fn events_for_clients() {
    let (kind, id) = process_id_info(&ProcessId::Branch(s("b")));
    assert_eq!((kind.as_str(), id.as_str()), ("branch", "b"));
    let event = translate_event(
        &s("agent"),
        &ProcessEvent::WorkerStarted { worker_id: s("w"), channel_id: None, task: s("t") },
    );
    match event {
        Some(e) => {
            assert_eq!(e.name(), "worker_started");
            assert!(matches!(e, ApiEvent::WorkerStarted { worker_id, .. } if worker_id == "w"));
        }
        None => panic!("the start of a worker is shown"),
    }
    assert!(translate_event(&s("agent"), &ProcessEvent::MemorySaved { memory_id: s("m") }).is_none());
    assert_eq!(ApiEvent::ConfigReloaded.name(), "config_reloaded");
}
