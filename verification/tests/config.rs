//! Tests of the configuration.
use spacebot::config::bindings::{
    parse_user_id, parse_user_ids, resolve_agent_for_message, route_message, Binding, DiscordConfig,
    DiscordPermissions, SlackConfig, SlackPermissions, TelegramConfig, TelegramPermissions,
};
use spacebot::config::environment::EnvVars;
use spacebot::config::file::{
    resolve_routing, TomlAgentConfig, TomlApiConfig, TomlBinding, TomlConfig, TomlCronDef,
    TomlDefaultsConfig, TomlDiscordConfig, TomlLlmConfig, TomlMessagingConfig, TomlRoutingConfig,
};
use spacebot::config::onboarding::{
    onboard, parse_list, provider_choice, run_onboarding, Answers, DiscordAnswers,
    OnboardingError, SetupMethod,
};
use spacebot::config::runtime::{
    adapters_to_start, categorize, content_digest, reload_permissions, reload_round, Changes,
    FileEventKind, FileWatch, Platform, RunningAdapters, RuntimeConfig,
};
use spacebot::config::{
    AgentConfig, ApiConfig, BrowserConfig, CoalesceConfig, CompactionConfig, Config, CortexConfig,
    DefaultsConfig, IngestionConfig, MemoryPersistenceConfig, OpenCodePermissions,
};
use spacebot::llm::routing::RoutingConfig;
use spacebot::message::{InboundMessage, Json, MessageContent, Timestamp};
use spacebot::text_map::TextMap;

fn s(text: &str) -> String {
    text.to_string()
}

fn list(items: &[&str]) -> Vec<String> {
    items.iter().map(|i| i.to_string()).collect()
}

fn env(vars: &[(&str, &str)]) -> EnvVars {
    EnvVars { vars: vars.iter().map(|(k, v)| (s(k), s(v))).collect() }
}

fn routing() -> RoutingConfig {
    RoutingConfig {
        channel: s("anthropic/big"),
        branch: s("anthropic/big"),
        worker: s("anthropic/small"),
        compactor: s("anthropic/small"),
        cortex: s("anthropic/small"),
        task_overrides: TextMap::new(),
        fallbacks: TextMap::new(),
        rate_limit_cooldown_secs: 60,
    }
}

fn permissions() -> OpenCodePermissions {
    OpenCodePermissions { edit: s("allow"), bash: s("ask"), webfetch: s("allow") }
}

fn toml() -> TomlConfig {
    TomlConfig {
        llm: TomlLlmConfig {
            anthropic_key: None,
            openai_key: None,
            openrouter_key: None,
            zhipu_key: None,
            groq_key: None,
            together_key: None,
            fireworks_key: None,
            deepseek_key: None,
            xai_key: None,
            mistral_key: None,
            opencode_zen_key: None,
        },
        defaults: TomlDefaultsConfig {
            routing: None,
            max_concurrent_branches: None,
            max_concurrent_workers: None,
            max_turns: None,
            branch_max_turns: None,
            context_window: None,
            compaction: None,
            memory_persistence: None,
            coalesce: None,
            ingestion: None,
            cortex: None,
            browser: None,
            brave_search_key: None,
            opencode: None,
            worker_log_mode: None,
        },
        agents: vec![],
        messaging: TomlMessagingConfig {
            discord: None,
            slack: None,
            telegram: None,
            webhook: None,
        },
        bindings: vec![],
        api: TomlApiConfig { enabled: true, port: 19898, bind: s("127.0.0.1") },
    }
}

fn agent(id: &str, default: bool) -> TomlAgentConfig {
    TomlAgentConfig {
        id: s(id),
        default,
        workspace: None,
        routing: None,
        max_concurrent_branches: None,
        max_concurrent_workers: None,
        max_turns: None,
        branch_max_turns: None,
        context_window: None,
        compaction: None,
        memory_persistence: None,
        coalesce: None,
        ingestion: None,
        cortex: None,
        browser: None,
        brave_search_key: None,
        cron: vec![],
    }
}

fn binding(channel: &str) -> Binding {
    Binding {
        agent_id: s("bound"),
        channel: s(channel),
        guild_id: None,
        workspace_id: None,
        chat_id: None,
        channel_ids: vec![],
        dm_allowed_users: vec![],
    }
}

fn message(source: &str, meta: Vec<(&str, Json)>) -> InboundMessage {
    let mut metadata = TextMap::new();
    for (k, v) in meta {
        metadata.insert(s(k), v);
    }
    InboundMessage {
        id: s("m"),
        source: s(source),
        conversation_id: s("conv"),
        sender_id: s("u1"),
        agent_id: None,
        content: MessageContent::Text(s("hi")),
        timestamp: Timestamp { secs: 0, nanos: 0 },
        metadata,
    }
}

fn load(toml: TomlConfig, env: &EnvVars) -> Config {
    Config::from_toml(toml, s("/data"), env, routing(), permissions())
}

#[test]
fn defaults_of_the_configuration() {
    let c = CompactionConfig::default();
    assert_eq!(c.background_threshold.bits, 0.8f32.to_bits());
    assert_eq!(c.aggressive_threshold.bits, 0.85f32.to_bits());
    assert_eq!(c.emergency_threshold.bits, 0.95f32.to_bits());
    assert_eq!(MemoryPersistenceConfig::default().message_interval, 50);
    assert_eq!(CoalesceConfig::default().debounce_ms, 1500);
    assert_eq!(IngestionConfig::default().chunk_size, 4000);
    assert_eq!(CortexConfig::default().tick_interval_secs, 30);
    assert!(BrowserConfig::default().enabled);
    let api = ApiConfig::default();
    assert_eq!((api.port, api.bind.as_str()), (19898, "127.0.0.1"));
    let d = DefaultsConfig::base(routing(), permissions());
    assert_eq!(d.max_turns, 5);
    assert_eq!(d.context_window, 128_000);
}

#[test]
fn values_of_the_environment() {
    let env = env(&[("KEY", "secret"), ("EMPTY", "")]);
    assert_eq!(env.var("KEY").as_deref(), Some("secret"));
    assert_eq!(env.var("OTHER"), None);
    assert!(env.is_set("EMPTY"));
    assert_eq!(env.resolve_env_value("plain").as_deref(), Some("plain"));
    assert_eq!(env.resolve_env_value("env:KEY").as_deref(), Some("secret"));
    assert_eq!(env.resolve_env_value("env:OTHER"), None);
    assert_eq!(env.resolve_or(&Some(s("env:OTHER")), "KEY").as_deref(), Some("secret"));
    assert_eq!(env.resolve_or(&None, "KEY").as_deref(), Some("secret"));
}

#[test]
fn the_instance_directory() {
    assert_eq!(Config::default_instance_dir(&env(&[("SPACEBOT_DIR", "/x")]), None), "/x");
    assert_eq!(Config::default_instance_dir(&env(&[]), Some("/home/a")), "/home/a/.spacebot");
    assert_eq!(Config::default_instance_dir(&env(&[]), None), "./.spacebot");
}

#[test]
fn onboarding_is_needed_without_file_and_key() {
    assert!(Config::needs_onboarding(false, &env(&[])));
    assert!(!Config::needs_onboarding(true, &env(&[])));
    for key in [
        "ANTHROPIC_API_KEY",
        "OPENAI_API_KEY",
        "OPENROUTER_API_KEY",
        "ZHIPU_API_KEY",
        "GROQ_API_KEY",
        "TOGETHER_API_KEY",
        "FIREWORKS_API_KEY",
        "DEEPSEEK_API_KEY",
        "XAI_API_KEY",
        "MISTRAL_API_KEY",
        "OPENCODE_ZEN_API_KEY",
    ] {
        assert!(!Config::needs_onboarding(false, &env(&[(key, "k")])));
    }
    assert!(Config::needs_onboarding(false, &env(&[("OTHER_KEY", "k")])));
}

#[test]
fn an_empty_file_gives_one_main_agent() {
    let config = load(toml(), &env(&[("ANTHROPIC_API_KEY", "k")]));
    assert_eq!(config.llm.anthropic_key.as_deref(), Some("k"));
    assert_eq!(config.agents.len(), 1);
    assert_eq!(config.default_agent_id(), "main");
    assert!(config.messaging.discord.is_none());
    let agents = config.resolve_agents();
    assert_eq!(agents.len(), 1);
    assert_eq!(agents[0].id, "main");
    assert_eq!(agents[0].workspace, "/data/agents/main/workspace");
    assert_eq!(agents[0].data_dir, "/data/agents/main/data");
    assert_eq!(agents[0].sqlite_path(), "/data/agents/main/data/spacebot.db");
    assert_eq!(agents[0].routing.channel, "anthropic/big");
    assert_eq!(agents[0].ingest_dir(), "/data/agents/main/workspace/ingest");
}

#[test]
fn agents_override_the_defaults() {
    let mut t = toml();
    t.defaults.max_turns = Some(9);
    t.defaults.brave_search_key = Some(s("env:BRAVE"));
    let mut a = agent("a", false);
    a.max_turns = Some(3);
    a.cron = vec![TomlCronDef {
        id: s("daily"),
        prompt: s("report"),
        interval_secs: None,
        delivery_target: s("discord:1"),
        active_start_hour: Some(9),
        active_end_hour: Some(17),
        enabled: true,
    }];
    t.agents = vec![a, agent("b", true)];
    let config = load(t, &env(&[("BRAVE", "key")]));
    assert_eq!(config.default_agent_id(), "b");
    let agents = config.resolve_agents();
    assert_eq!(agents[0].max_turns, 3);
    assert_eq!(agents[1].max_turns, 9);
    assert_eq!(agents[0].cron[0].interval_secs, 3600);
    assert_eq!(agents[0].cron[0].active_hours, Some((9, 17)));
    assert_eq!(agents[1].brave_search_key.as_deref(), Some("key"));
}

#[test]
fn a_platform_without_a_token_is_left_out() {
    let mut t = toml();
    t.messaging.discord = Some(TomlDiscordConfig {
        enabled: true,
        token: Some(s("env:TOKEN")),
        dm_allowed_users: list(&["1"]),
        allow_bot_messages: false,
    });
    t.bindings = vec![TomlBinding {
        agent_id: s("main"),
        channel: s("discord"),
        guild_id: Some(s("7")),
        workspace_id: None,
        chat_id: None,
        channel_ids: vec![],
        dm_allowed_users: list(&["2"]),
    }];
    let without = load(t, &env(&[]));
    assert!(without.messaging.discord.is_none());
    assert_eq!(without.bindings.len(), 1);
}

#[test]
fn the_routing_of_a_file_is_merged() {
    let mut overrides = TextMap::new();
    overrides.insert(s("coding"), s("openai/coder"));
    let merged = resolve_routing(
        Some(TomlRoutingConfig {
            channel: Some(s("openai/gpt")),
            branch: None,
            worker: None,
            compactor: None,
            cortex: None,
            rate_limit_cooldown_secs: Some(5),
            task_overrides: overrides,
            fallbacks: None,
        }),
        &routing(),
    );
    assert_eq!(merged.channel, "openai/gpt");
    assert_eq!(merged.branch, "anthropic/big");
    assert_eq!(merged.rate_limit_cooldown_secs, 5);
    assert_eq!(merged.task_overrides.get("coding").map(|m| m.as_str()), Some("openai/coder"));
}

#[test]
fn a_configuration_from_the_environment() {
    let env = env(&[("OPENAI_API_KEY", "k"), ("SPACEBOT_CHANNEL_MODEL", "openai/gpt")]);
    let config = Config::load_from_env("/data", &env, &routing(), permissions());
    assert_eq!(config.llm.openai_key.as_deref(), Some("k"));
    assert_eq!(config.agents.len(), 1);
    assert_eq!(config.resolve_agents()[0].routing.channel, "openai/gpt");
}

#[test]
fn bindings_match_messages() {
    let mut b = binding("discord");
    b.guild_id = Some(s("7"));
    let guild = message("discord", vec![("discord_guild_id", Json::PosInt(7))]);
    let other = message("discord", vec![("discord_guild_id", Json::PosInt(8))]);
    assert!(b.matches(&guild));
    assert!(!b.matches(&other));
    assert!(!b.matches(&message("slack", vec![])));
    assert!(binding("webhook").matches(&message("webhook", vec![])));
    let bindings = [b];
    assert_eq!(resolve_agent_for_message(&bindings, &guild, "main"), "bound");
    assert_eq!(resolve_agent_for_message(&bindings, &other, "main"), "main");
    assert_eq!(route_message(&bindings, &guild, "main"), "bound");
    let mut named = message("discord", vec![("discord_guild_id", Json::PosInt(7))]);
    named.agent_id = Some(s("chosen"));
    assert_eq!(route_message(&bindings, &named, "main"), "chosen");
}

#[test]
fn telegram_bindings_match_their_chat() {
    let mut b = binding("telegram");
    b.chat_id = Some(s("-100"));
    let chat = message("telegram", vec![("telegram_chat_id", Json::NegInt(-100))]);
    let other = message("telegram", vec![("telegram_chat_id", Json::NegInt(-101))]);
    assert!(b.matches(&chat));
    assert!(!b.matches(&other));
}

#[test]
fn permissions_of_discord() {
    let config = DiscordConfig {
        enabled: true,
        token: s("t"),
        dm_allowed_users: list(&["1", "x"]),
        allow_bot_messages: true,
    };
    let mut b = binding("discord");
    b.guild_id = Some(s("7"));
    b.channel_ids = list(&["70", "71"]);
    b.dm_allowed_users = list(&["2", "1"]);
    let p = DiscordPermissions::from_config(&config, &[b, binding("slack")]);
    assert_eq!(p.guild_filter, Some(vec![7]));
    assert_eq!(p.channel_filter.get(&7), Some(&vec![70, 71]));
    assert_eq!(p.dm_allowed_users, vec![1, 2]);
    assert!(p.allow_bot_messages);
    let open = DiscordPermissions::from_config(&config, &[]);
    assert_eq!(open.guild_filter, None);
    assert_eq!(parse_user_id("42"), Some(42));
    assert_eq!(parse_user_id("-42"), None);
    assert_eq!(parse_user_ids(&list(&["1", "", "2"])), vec![1, 2]);
}

#[test]
fn permissions_of_slack_and_telegram() {
    let slack = SlackConfig {
        enabled: true,
        bot_token: s("b"),
        app_token: s("a"),
        dm_allowed_users: list(&["U1"]),
    };
    let mut b = binding("slack");
    b.workspace_id = Some(s("T1"));
    b.channel_ids = list(&["C1"]);
    let p = SlackPermissions::from_config(&slack, &[b]);
    assert_eq!(p.workspace_filter, Some(list(&["T1"])));
    assert_eq!(p.channel_filter.get("T1"), Some(&list(&["C1"])));
    assert_eq!(p.dm_allowed_users, list(&["U1"]));
    let telegram = TelegramConfig { enabled: true, token: s("t"), dm_allowed_users: list(&["5"]) };
    let mut b = binding("telegram");
    b.chat_id = Some(s("-100"));
    b.dm_allowed_users = list(&["6"]);
    let p = TelegramPermissions::from_config(&telegram, &[b]);
    assert_eq!(p.chat_filter, Some(vec![-100]));
    assert_eq!(p.dm_allowed_users, vec![5, 6]);
}

#[test]
fn the_wizard_offers_eleven_providers() {
    assert_eq!(provider_choice(0).unwrap().id, "anthropic");
    assert_eq!(provider_choice(10).unwrap().toml_key, "opencode_zen_key");
    assert!(provider_choice(11).is_none());
    assert_eq!(parse_list(" a, ,b "), list(&["a", "b"]));
}

#[test]
fn the_wizard_writes_a_file() {
    let choice = provider_choice(1).unwrap();
    let answers = Answers {
        api_key: s(" key "),
        agent_name: s("My Bot"),
        discord: Some(DiscordAnswers {
            token: s("tok"),
            guild_id: s("7"),
            channel_ids: s("70, 71"),
            dm_user_ids: s(""),
        }),
    };
    let done = match onboard(&choice, &answers, &routing()) {
        Ok(done) => done,
        Err(_) => panic!("there is a key"),
    };
    assert_eq!(done.agent_id, "my-bot");
    let doc: toml::Value = done.config.parse::<toml::Table>().map(toml::Value::Table).unwrap();
    assert_eq!(doc["llm"]["openrouter_key"].as_str(), Some("key"));
    assert_eq!(doc["defaults"]["routing"]["worker"].as_str(), Some("anthropic/small"));
    assert_eq!(doc["agents"][0]["id"].as_str(), Some("my-bot"));
    assert_eq!(doc["bindings"][0]["guild_id"].as_str(), Some("7"));
    assert_eq!(doc["bindings"][0]["channel_ids"][1].as_str(), Some("71"));
    let method = SetupMethod::Cli { choice: provider_choice(1).unwrap(), answers };
    match run_onboarding(&method, &routing(), &env(&[]), Some("/home/a")) {
        Ok(Some(file)) => {
            assert_eq!(file.path, "/home/a/.spacebot/config.toml");
            assert_eq!(file.setup.config, done.config);
        }
        _ => panic!("there is a key"),
    }
    let browser = run_onboarding(&SetupMethod::Browser, &routing(), &env(&[]), None);
    assert!(matches!(browser, Ok(None)));
    let empty = Answers { api_key: s("  "), agent_name: s("x"), discord: None };
    assert!(matches!(
        onboard(&choice, &empty, &routing()),
        Err(OnboardingError::EmptyApiKey)
    ));
    let method = SetupMethod::Cli { choice, answers: empty };
    assert!(matches!(
        run_onboarding(&method, &routing(), &env(&[]), None),
        Err(OnboardingError::EmptyApiKey)
    ));
}

#[test]
fn runtime_values_follow_the_file() {
    let config = load(toml(), &env(&[]));
    let agent = &config.resolve_agents()[0];
    let mut rc = RuntimeConfig::new("/data", agent, &config.defaults);
    assert_eq!(rc.max_turns, 5);
    let mut t = toml();
    t.defaults.max_turns = Some(8);
    let changed = load(t, &env(&[]));
    rc.reload_config(&changed, "main");
    assert_eq!(rc.max_turns, 8);
    rc.reload_config(&config, "nobody");
    assert_eq!(rc.max_turns, 8);
}

#[test]
fn changed_files_are_sorted_by_kind() {
    let c = categorize(&list(&["/d/config.toml", "/d/agents/a/workspace/SOUL.md"]));
    assert_eq!(c, Changes { config: true, identity: true, skills: false });
    assert_eq!(c.summary(), "config, identity");
    assert!(categorize(&list(&["/d/skills/x/SKILL.md"])).skills);
    assert!(FileEventKind::Create.is_relevant());
    assert!(!FileEventKind::Other.is_relevant());
}

#[test]
fn an_unchanged_file_is_not_reloaded() {
    let contents = b"a = 1".to_vec();
    let mut watch = FileWatch::new(Some(&contents));
    let config = Changes { config: true, identity: false, skills: false };
    assert_eq!(watch.plan(config, content_digest(Some(&contents))), None);
    let edited = b"a = 2".to_vec();
    assert_ne!(content_digest(Some(&contents)), content_digest(Some(&edited)));
    assert_eq!(watch.plan(config, content_digest(Some(&edited))), Some(config));
    assert_eq!(watch.plan(config, content_digest(Some(&edited))), None);
    let identity = Changes { config: true, identity: true, skills: false };
    assert_eq!(
        watch.plan(identity, content_digest(Some(&edited))),
        Some(Changes { config: false, identity: true, skills: false })
    );
}

#[test]
fn adapters_start_once() {
    let mut config = load(toml(), &env(&[]));
    config.messaging.telegram =
        Some(TelegramConfig { enabled: true, token: s("t"), dm_allowed_users: vec![] });
    let none = RunningAdapters { discord: false, slack: false, telegram: false };
    let running = RunningAdapters { telegram: true, ..none };
    assert_eq!(adapters_to_start(&config.messaging, none), vec![Platform::Telegram]);
    assert!(adapters_to_start(&config.messaging, running).is_empty());
    assert!(reload_permissions(&config, running).telegram.is_some());
    assert!(reload_permissions(&config, none).telegram.is_none());
}

#[test]
fn a_failed_load_changes_nothing() {
    let mut config = load(toml(), &env(&[]));
    config.messaging.telegram =
        Some(TelegramConfig { enabled: true, token: s("t"), dm_allowed_users: vec![s("7")] });
    config.bindings.push(binding("telegram"));
    let none = RunningAdapters { discord: false, slack: false, telegram: false };
    let all = Changes { config: true, identity: true, skills: false };

    let failed = reload_round(all, None, none, Some(none));
    let unchanged = reload_round(Changes { config: false, ..all }, Some(&config), none, Some(none));
    for plan in [failed, unchanged] {
        assert!(plan.bindings.is_none() && !plan.settings && plan.start.is_empty());
        assert!(plan.permissions.telegram.is_none() && plan.new_permissions.telegram.is_none());
        assert!(plan.identity && !plan.skills);
    }

    let plan = reload_round(all, Some(&config), none, Some(none));
    assert!(plan.settings);
    assert_eq!(plan.bindings.map(|b| b.len()), Some(1));
    assert_eq!(plan.start, vec![Platform::Telegram]);
    assert!(plan.permissions.telegram.is_none());
    assert_eq!(plan.new_permissions.telegram.map(|p| p.dm_allowed_users), Some(vec![7]));
    let started = RunningAdapters { telegram: true, ..none };
    let plan = reload_round(all, Some(&config), started, Some(started));
    assert!(plan.start.is_empty() && plan.new_permissions.telegram.is_none());
    assert!(plan.permissions.telegram.is_some());
    assert!(reload_round(all, Some(&config), none, None).start.is_empty());

    let agent = &config.resolve_agents()[0];
    let mut rc = RuntimeConfig::new("/data", agent, &config.defaults);
    rc.max_turns = 77;
    rc.apply_reload(None, "main");
    assert_eq!(rc.max_turns, 77);
    rc.apply_reload(Some(&config), "main");
    assert_eq!(rc.max_turns, 5);
    rc.store_bulletin(&Some(s("news")));
    rc.store_bulletin(&None);
    assert_eq!(rc.memory_bulletin, "news");
}

#[test]
fn a_plain_agent_takes_the_defaults() {
    let config = load(toml(), &env(&[]));
    let resolved = AgentConfig::plain(s("x"), false).resolve("/data", &config.defaults);
    assert_eq!(resolved.context_window, config.defaults.context_window);
    assert_eq!(resolved.history_backfill_count(), 50);
}
