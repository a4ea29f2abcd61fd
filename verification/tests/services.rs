//! Tests of the services around the agents.
use spacebot::config::environment::EnvVars;
use spacebot::daemon::{
    answer_command, is_running, read_pid, wait_for_exit, DaemonPaths, ExitWait, IpcCommand,
    IpcResponse, SocketState,
};
use spacebot::hooks::cortex::CortexHook;
use spacebot::hooks::spacebot::{
    scan_for_leaks, SpacebotHook, ToolCallAction, ToolResultAction,
};
use spacebot::opencode::server::{
    port_for_directory, port_of_hash, HealthWait, OpenCodeServer, OpenCodeServerPool, PoolAnswer,
    PoolStep, Request,
};
use spacebot::process::{ProcessEvent, ProcessId};
use spacebot::prompts::engine::{PromptEngine, PromptError, SkillInfo, Var};
use spacebot::secrets::store::SecretsStore;
use spacebot::settings::store::{initial_worker_log_mode, worker_log_mode, WorkerLogMode};
use spacebot::text_map::TextMap;

const NAMES: [&str; 25] = [
    "channel",
    "branch",
    "worker",
    "cortex",
    "cortex_bulletin",
    "compactor",
    "memory_persistence",
    "ingestion",
    "cortex_chat",
    "cortex_profile",
    "fragments/worker_capabilities",
    "fragments/conversation_context",
    "fragments/skills_channel",
    "fragments/skills_worker",
    "fragments/system/retrigger",
    "fragments/system/truncation",
    "fragments/system/worker_overflow",
    "fragments/system/worker_compact",
    "fragments/system/memory_persistence",
    "fragments/system/cortex_synthesis",
    "fragments/system/profile_synthesis",
    "fragments/system/ingestion_chunk",
    "fragments/system/history_backfill",
    "fragments/system/tool_syntax_correction",
    "fragments/coalesce_hint",
];

fn texts(changed: &[(&str, &str)]) -> TextMap<String> {
    let mut texts = TextMap::new();
    for name in NAMES {
        texts.insert(name.to_string(), format!("text of {name}"));
    }
    for (name, text) in changed {
        texts.insert(name.to_string(), text.to_string());
    }
    texts
}

fn engine(changed: &[(&str, &str)]) -> PromptEngine {
    match PromptEngine::new("en", &texts(changed)) {
        Ok(engine) => engine,
        Err(e) => panic!("{}", e.message()),
    }
}

fn rendered(r: Result<String, PromptError>) -> String {
    match r {
        Ok(s) => s,
        Err(e) => panic!("{}", e.message()),
    }
}

fn hook() -> SpacebotHook {
    SpacebotHook::new(ProcessId::Worker("w".to_string()), Some("c".to_string()))
}

#[test]
fn files_of_the_daemon() {
    let paths = DaemonPaths::new("/data");
    assert_eq!(paths.pid_file, "/data/spacebot.pid");
    assert_eq!(paths.socket, "/data/spacebot.sock");
    assert_eq!(paths.log_dir, "/data/logs");
    let env = EnvVars { vars: vec![("SPACEBOT_DIR".to_string(), "/x".to_string())] };
    assert_eq!(DaemonPaths::from_default(&env, None).socket, "/x/spacebot.sock");
}

#[test]
fn a_daemon_runs_while_its_process_lives() {
    assert_eq!(read_pid(" 42\n"), Some(42));
    assert_eq!(read_pid("x"), None);
    assert_eq!(read_pid("4294967296"), None);
    let up = is_running(Some(42), true, SocketState::Connects);
    assert_eq!((up.pid, up.stale), (Some(42), false));
    let starting = is_running(Some(42), true, SocketState::Missing);
    assert_eq!((starting.pid, starting.stale), (Some(42), false));
    let refuses = is_running(Some(42), true, SocketState::Refuses);
    assert_eq!((refuses.pid, refuses.stale), (None, true));
    let dead = is_running(Some(42), false, SocketState::Connects);
    assert_eq!((dead.pid, dead.stale), (None, true));
    let none = is_running(None, false, SocketState::Missing);
    assert_eq!((none.pid, none.stale), (None, false));
}

#[test]
fn commands_are_answered() {
    assert!(matches!(answer_command(IpcCommand::Shutdown, 1, 2), (IpcResponse::Done, true)));
    assert!(matches!(
        answer_command(IpcCommand::Status, 1, 2),
        (IpcResponse::Status { pid: 1, uptime_seconds: 2 }, false)
    ));
    assert_eq!(wait_for_exit(0, false), ExitWait::Exited);
    assert_eq!(wait_for_exit(99, true), ExitWait::Again { pause_ms: 100 });
    assert_eq!(wait_for_exit(100, true), ExitWait::GaveUp);
}

#[test]
fn secrets_are_found() {
    let key = format!("sk-{}", "a1".repeat(12));
    assert_eq!(scan_for_leaks(&format!("key: {key}.")).as_deref(), Some(key.as_str()));
    let token = format!("ghp_{}", "b".repeat(36));
    assert_eq!(scan_for_leaks(&token).as_deref(), Some(token.as_str()));
    let pem = format!("-----BEGIN {} KEY-----", "PRIVATE");
    assert_eq!(scan_for_leaks(&pem).as_deref(), Some(pem.as_str()));
    assert_eq!(scan_for_leaks("sk-short"), None);
    assert_eq!(scan_for_leaks(""), None);
}

#[test]
fn a_tool_call_with_a_secret_is_skipped() {
    let secret = format!("{{\"key\":\"sk-{}\"}}", "a".repeat(20));
    match hook().on_tool_call("shell", &secret) {
        ToolCallAction::Skip { reason } => {
            assert_eq!(reason, "Tool call blocked: arguments contained a secret.")
        }
        ToolCallAction::Continue { .. } => panic!("the call is blocked"),
    }
    match hook().on_tool_call("shell", "{}") {
        ToolCallAction::Continue {
            event: ProcessEvent::ToolStarted { tool_name, channel_id, .. },
        } => {
            assert_eq!(tool_name, "shell");
            assert_eq!(channel_id.as_deref(), Some("c"));
        }
        _ => panic!("the call runs"),
    }
}

#[test]
fn a_secret_in_a_result_ends_the_agent() {
    let secret = format!("sk-{}", "a".repeat(20));
    assert!(matches!(
        hook().on_tool_result("shell", &secret, "cut"),
        ToolResultAction::Terminate { reason }
            if reason == "Tool output contained a secret. Agent terminated to prevent exfiltration."
    ));
    assert!(matches!(
        hook().on_tool_result("shell", "fine", "cut"),
        ToolResultAction::Continue { event: ProcessEvent::ToolCompleted { result, .. } } if result == "cut"
    ));
    assert!(matches!(
        hook().send_status("busy"),
        ProcessEvent::StatusUpdate { status, .. } if status == "busy"
    ));
    assert_eq!(CortexHook::new(), CortexHook::default());
}

#[test]
fn the_port_of_a_directory_is_fixed() {
    assert_eq!(port_of_hash(0), 10000);
    assert_eq!(port_of_hash(123_456_789), 16789);
    assert_eq!(port_of_hash(u64::MAX), 10000 + (u64::MAX % 50000) as u16);
    let port = port_for_directory("/work/a");
    assert_eq!(port, port_for_directory("/work/a"));
    assert!((10000..60000).contains(&port));
    // A trailing separator names the same directory.
    assert_eq!(port, port_for_directory("/work/a/"));
}

#[test]
fn urls_of_a_server() {
    let server = OpenCodeServer::spawn("/work/a");
    let base = format!("http://127.0.0.1:{}", port_for_directory("/work/a"));
    assert_eq!(server.base_url(), base);
    assert_eq!(server.directory(), "/work/a");
    assert_eq!(server.arguments()[2], format!("{}", server.port()));
    let id = || "s1".to_string();
    assert_eq!(server.url(&Request::CreateSession), format!("{base}/session"));
    assert_eq!(
        server.url(&Request::SendPromptAsync { session_id: id() }),
        format!("{base}/session/s1/prompt_async")
    );
    assert_eq!(
        server.url(&Request::ReplyQuestion { request_id: id() }),
        format!("{base}/question/s1/reply")
    );
    assert_eq!(server.health_urls().0, format!("{base}/global/health"));
    assert_eq!(
        Request::AbortSession { session_id: id() }.failure("404 Not Found", "gone"),
        "abort session failed (404 Not Found): gone"
    );
}

#[test]
fn a_server_is_restarted_five_times() {
    let mut server = OpenCodeServer::spawn("/work/a");
    assert!(server.is_alive(true, false));
    for _ in 0..5 {
        assert_eq!(server.restart(), Ok(true));
        server.restarted();
    }
    assert_eq!(
        server.restart(),
        Err("OpenCode server for '/work/a' exceeded max restart attempts (5)".to_string())
    );
    assert_eq!(server.restart_count(), 6);
    let mut found = OpenCodeServer::reattach("/work/a");
    assert!(found.is_alive(false, true));
    assert!(!found.kill());
    assert!(matches!(found.wait_for_health(1, true), HealthWait::Ready));
    assert!(matches!(found.wait_for_health(30, false), HealthWait::Again { pause_ms: 1000 }));
    assert!(matches!(found.wait_for_health(31, false), HealthWait::Failed { .. }));
}

#[test]
fn the_pool_spawns_up_to_its_limit() {
    let mut pool = OpenCodeServerPool::new("opencode".to_string(), 1);
    assert_eq!(pool.get_or_create("/a"), PoolStep::Reattach);
    assert_eq!(pool.reattached("/a", false), Ok(PoolAnswer::Spawn));
    pool.spawned("/a");
    assert_eq!(pool.get_or_create("/a"), PoolStep::CheckAlive);
    assert_eq!(pool.checked("/a", true), Ok(PoolAnswer::Use));
    assert_eq!(
        pool.reattached("/b", false),
        Err("OpenCode server pool limit reached (1). Kill an existing server or increase the limit."
            .to_string())
    );
    assert_eq!(pool.reattached("/b", true), Ok(PoolAnswer::Use));
    assert_eq!(pool.server_count(), 2);
    assert_eq!(pool.checked("/a", false), Ok(PoolAnswer::Restart { kill: true }));
    pool.restarted("/a");
    assert_eq!(pool.server("/a").map(|s| s.restart_count()), Some(1));
    assert_eq!(pool.shutdown_all(), vec!["/a"]);
    assert_eq!(pool.server_count(), 0);
}

#[test]
fn prompts_are_rendered_from_templates() {
    let e = engine(&[
        ("worker", "In {{ instance_dir }} and {{ workspace_dir }}."),
        ("fragments/worker_capabilities", "{% if browser_enabled %}browser{% endif %}"),
        ("fragments/conversation_context", "{{ platform }}{% if server_name %} {{ server_name }}{% endif %}"),
        ("fragments/system/truncation", "cut {{ remove_count + 1 }}"),
        (
            "fragments/skills_channel",
            "{% for s in skills %}{{ s.name }}={{ s.description }}@{{ s.location }};{% endfor %}",
        ),
    ]);
    assert_eq!(rendered(e.render_worker_prompt("/i", "/w")), "In /i and /w.");
    assert_eq!(rendered(e.render_worker_capabilities(true, false, false)), "browser");
    assert_eq!(rendered(e.render_worker_capabilities(false, true, true)), "");
    assert_eq!(
        rendered(e.render_conversation_context("slack", Some("HQ"), None)),
        "slack HQ"
    );
    assert_eq!(rendered(e.render_conversation_context("slack", None, None)), "slack");
    assert_eq!(rendered(e.render_system_truncation(4)), "cut 5");
    let skill = SkillInfo {
        name: "n".to_string(),
        description: "d".to_string(),
        location: "l".to_string(),
    };
    assert_eq!(rendered(e.render_skills_channel(vec![skill])), "n=d@l;");
    assert_eq!(
        rendered(e.render_system_retrigger()),
        "text of fragments/system/retrigger"
    );
    assert_eq!(e.language(), "en");
}

#[test]
fn prompts_of_the_processes() {
    let e = engine(&[
        ("fragments/skills_worker", "{{ skill_name }}:{{ skill_content }}"),
        ("fragments/system/worker_compact", "{{ remove_count }} {{ recap }}"),
        ("fragments/system/profile_synthesis", "{{ identity_context or '-' }}{{ memory_bulletin or '-' }}"),
        ("fragments/system/cortex_synthesis", "{{ max_words }} {{ raw_sections }}"),
        (
            "fragments/system/ingestion_chunk",
            "{{ filename }} {{ chunk_number }}/{{ total_chunks }} {{ chunk }}",
        ),
        ("fragments/system/history_backfill", "<{{ transcript }}>"),
        ("fragments/coalesce_hint", "{{ message_count }} {{ elapsed }} {{ unique_senders }}"),
        (
            "channel",
            "{{ identity_context or '-' }}{{ memory_bulletin or '-' }}{{ skills_prompt or '-' }}{{ worker_capabilities }}{{ conversation_context or '-' }}{{ status_text or '-' }}{{ coalesce_hint or '-' }}",
        ),
        (
            "cortex_chat",
            "{{ identity_context or '-' }}{{ memory_bulletin or '-' }}{{ channel_transcript or '-' }}{{ worker_capabilities }}",
        ),
    ]);
    assert_eq!(rendered(e.render_skills_worker("n", "c")), "n:c");
    assert_eq!(rendered(e.render_system_worker_compact(3, "so far")), "3 so far");
    assert_eq!(rendered(e.render_system_profile_synthesis(Some("i"), None)), "i-");
    assert_eq!(rendered(e.render_system_cortex_synthesis(200, "raw")), "200 raw");
    assert_eq!(rendered(e.render_system_ingestion_chunk("f", 1, 2, "text")), "f 1/2 text");
    assert_eq!(rendered(e.render_system_history_backfill("t")), "<t>");
    assert_eq!(rendered(e.render_coalesce_hint(3, "1.5s", 2)), "3 1.5s 2");
    assert_eq!(
        rendered(e.render_channel_prompt(Some("i"), None, Some("s"), "w", None, Some("t"), None)),
        "i-sw-t-"
    );
    assert_eq!(rendered(e.render_cortex_chat_prompt(None, Some("m"), Some("c"), "w")), "-mcw");
    assert_eq!(
        rendered(e.render_system_worker_overflow()),
        "text of fragments/system/worker_overflow"
    );
    assert_eq!(
        rendered(e.render_system_memory_persistence()),
        "text of fragments/system/memory_persistence"
    );
    assert_eq!(
        rendered(e.render_system_tool_syntax_correction()),
        "text of fragments/system/tool_syntax_correction"
    );
}

#[test]
fn prompts_that_cannot_be_had() {
    let e = engine(&[("branch", "{{ missing.part }}"), ("cortex", "{% include 'channel' %}!")]);
    assert!(matches!(
        e.render_static("nothing"),
        Err(PromptError::NotFound { name }) if name == "nothing"
    ));
    assert!(matches!(
        e.render_branch_prompt("/i", "/w"),
        Err(PromptError::Failed { name }) if name == "branch"
    ));
    assert_eq!(rendered(e.render_static("cortex")), "text of channel!");
    let vars = vec![("x".to_string(), Var::Text("y".to_string()))];
    assert_eq!(rendered(e.render_map("channel", vars)), "text of channel");
    match PromptEngine::new("de", &texts(&[("compactor", "{% if %}")])) {
        Ok(_) => panic!("the template does not compile"),
        Err(error) => assert_eq!(error.message(), "template 'compactor' does not compile"),
    }
}

#[test]
fn the_log_mode_of_workers() {
    for mode in [WorkerLogMode::ErrorsOnly, WorkerLogMode::AllSeparate, WorkerLogMode::AllCombined] {
        assert_eq!(WorkerLogMode::from_str(&mode.to_string()), Ok(mode));
    }
    assert!(WorkerLogMode::from_str("loud").is_err());
    assert_eq!(worker_log_mode(None), WorkerLogMode::default());
    assert_eq!(initial_worker_log_mode(Some("errors_only")), None);
    assert_eq!(SecretsStore::new(), SecretsStore::default());
}
