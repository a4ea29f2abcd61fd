//! Tests of the processes of an agent.
use spacebot::agent::branch::{Branch, BranchNext, BranchOutcome};
use spacebot::agent::channel::{
    spawn_branch_from_state, spawn_worker_from_state, system_prompt_for_turn, user_prompt,
    worker_complete, worker_report, ChannelConfig, ChannelState,
};
use spacebot::agent::compactor::{
    check_and_compact, compaction_percent, compaction_summary, count_history_chars,
    emergency_truncate, estimate_history_tokens, extract_summary_section, removal_count,
    render_messages_as_transcript, start_compaction, CompactionAction, Reached,
};
use spacebot::agent::cortex::{
    after_attempt, association_query, bulletin_searched, bulletin_sections, bulletin_skipped, bulletin_written,
    clean_profile_response, events_query, gather_bulletin_sections, profile_answered,
    profile_failed, profile_read, profile_summary, profile_unreadable, AfterAttempt,
    AgentProfileRow, AssociationPass, BulletinItem, BulletinStep, Cortex, CortexEventRow,
    ProfileLlmResponse, ProfileStep, Signal, SimilarMemory,
};
use spacebot::agent::worker::{
    InvalidStateTransition, PromptOutcome, Worker, WorkerNext, WorkerState,
};
use spacebot::prompts::engine::PromptEngine;
use spacebot::text_map::TextMap;
use spacebot::config::F32;
use spacebot::llm::chat::{
    user_text, AssistantContent, ChatMessage, ToolCall, ToolResult, ToolResultPart, UserContent,
};
use spacebot::memory::types::{MemoryType, RelationType};
use spacebot::message::{MessageContent, Timestamp};
use spacebot::process::ProcessEvent;

const TEMPLATES: [&str; 25] = [
    "channel",
    "branch",
    "worker",
    "cortex",
    "cortex_bulletin",
    "compactor",
    "memory_persistence",
    "ingestion",
    "cortex_chat",
    "cortex_profile",
    "fragments/worker_capabilities",
    "fragments/conversation_context",
    "fragments/skills_channel",
    "fragments/skills_worker",
    "fragments/system/retrigger",
    "fragments/system/truncation",
    "fragments/system/worker_overflow",
    "fragments/system/worker_compact",
    "fragments/system/memory_persistence",
    "fragments/system/cortex_synthesis",
    "fragments/system/profile_synthesis",
    "fragments/system/ingestion_chunk",
    "fragments/system/history_backfill",
    "fragments/system/tool_syntax_correction",
    "fragments/coalesce_hint",
];

/// An engine whose truncation marker has a given text.
fn prompts(marker: &str) -> PromptEngine {
    let mut texts = TextMap::new();
    for name in TEMPLATES {
        texts.insert(name.to_string(), format!("text of {name}"));
    }
    texts.insert("fragments/system/truncation".to_string(), marker.to_string());
    match PromptEngine::new("en", &texts) {
        Ok(engine) => engine,
        Err(e) => panic!("{}", e.message()),
    }
}

fn json(text: &str) -> serde_json::Value {
    serde_json::from_str(text).unwrap()
}

fn user(s: &str) -> ChatMessage {
    user_text(s.to_string())
}

fn assistant(s: &str) -> ChatMessage {
    ChatMessage::Assistant(vec![AssistantContent::Text(s.to_string())])
}

fn text_of(m: &ChatMessage) -> String {
    match m {
        ChatMessage::User(v) => match &v[0] {
            UserContent::Text(s) => s.clone(),
            _ => String::new(),
        },
        ChatMessage::Assistant(v) => match &v[0] {
            AssistantContent::Text(s) => s.clone(),
            _ => String::new(),
        },
    }
}

fn history(n: usize) -> Vec<ChatMessage> {
    (0..n).map(|i| user(&format!("m{i}"))).collect()
}

fn worker(interactive: bool) -> Worker {
    let channel_id = Some("c".to_string());
    if interactive {
        Worker::new_interactive(channel_id, "task".to_string(), "prompt".to_string())
    } else {
        Worker::new(channel_id, "task".to_string(), "prompt".to_string())
    }
}

fn branch(n: usize) -> Branch {
    Branch::new("c".to_string(), "why?".to_string(), "prompt".to_string(), history(n), 10)
}

#[test]
fn a_worker_ends_once() {
    let mut w = worker(false);
    assert_eq!(w.state, WorkerState::Running);
    assert_eq!(w.status, "starting");
    assert_eq!(w.id.len(), 36);
    w.begin();
    assert_eq!(w.status, "running");
    assert!(w.transition_to(WorkerState::Done).is_ok());
    assert!(w.is_done());
    let refused = w.transition_to(WorkerState::Running);
    assert!(matches!(
        refused,
        Err(InvalidStateTransition { from: WorkerState::Done, to: WorkerState::Running })
    ));
    assert_eq!(w.state, WorkerState::Done);
}

#[test]
fn worker_transitions() {
    let all = [
        WorkerState::Running,
        WorkerState::WaitingForInput,
        WorkerState::Done,
        WorkerState::Failed,
    ];
    let allowed = [
        (WorkerState::Running, WorkerState::WaitingForInput),
        (WorkerState::Running, WorkerState::Done),
        (WorkerState::Running, WorkerState::Failed),
        (WorkerState::WaitingForInput, WorkerState::Running),
        (WorkerState::WaitingForInput, WorkerState::Failed),
    ];
    for from in all {
        for to in all {
            let mut w = worker(true);
            w.state = from;
            assert_eq!(w.can_transition_to(to), allowed.contains(&(from, to)));
        }
    }
}

#[test]
fn a_fire_and_forget_worker_returns_its_answer() {
    let mut w = worker(false);
    let next = w.task_answered(&PromptOutcome::Response("done".to_string()), &vec![]);
    assert!(matches!(next, WorkerNext::Finish(Ok(s)) if s == "done"));
    assert_eq!(w.state, WorkerState::Done);
}

#[test]
fn an_interactive_worker_waits_for_input() {
    let mut w = worker(true);
    assert!(w.is_interactive());
    let next = w.task_answered(&PromptOutcome::Response("first".to_string()), &vec![]);
    assert!(matches!(next, WorkerNext::Wait));
    assert_eq!(w.state, WorkerState::WaitingForInput);
    w.input_arrived();
    assert_eq!(w.status, "processing follow-up");
    assert!(matches!(w.follow_up_answered(true), WorkerNext::Wait));
    let end = w.input_closed("first");
    assert!(matches!(end, WorkerNext::Finish(Ok(s)) if s == "first"));
}

#[test]
fn a_failed_follow_up_is_reported_before_the_end() {
    let mut w = worker(true);
    w.task_answered(&PromptOutcome::Response("first".to_string()), &vec![]);
    w.input_arrived();
    assert!(matches!(w.follow_up_answered(false), WorkerNext::Close));
    assert_eq!(w.state, WorkerState::Failed);
    assert_eq!(w.status, "failed");
    let end = w.input_closed("first");
    assert!(matches!(end, WorkerNext::Finish(Ok(s)) if s == "first"));
    assert_eq!(w.state, WorkerState::Done);
    assert_eq!(w.status, "completed");
}

#[test]
fn a_worker_that_is_stopped_says_why() {
    let mut w = worker(false);
    let next = w.task_answered(&PromptOutcome::Cancelled("no need".to_string()), &vec![]);
    assert!(matches!(next, WorkerNext::Finish(Ok(s)) if s == "Worker cancelled: no need"));
    assert_eq!(w.state, WorkerState::Failed);
    let mut w = worker(false);
    let next = w.task_answered(&PromptOutcome::Failed("boom".to_string()), &vec![]);
    assert!(matches!(next, WorkerNext::Finish(Err(s)) if s == "boom"));
    let mut w = worker(false);
    let next = w.task_answered(&PromptOutcome::MaxTurns, &vec![assistant("so far")]);
    assert!(matches!(next, WorkerNext::Finish(Ok(s)) if s == "so far"));
    assert_eq!(w.status, "completed (hit turn limit)");
}

#[test]
fn a_branch_concludes_with_its_answer() {
    let mut b = branch(1);
    let next = b.answered(&BranchOutcome::Response("because".to_string()), 0);
    assert!(matches!(next, BranchNext::Conclude(s) if s == "because"));
    let next = b.answered(&BranchOutcome::MaxTurns, 0);
    assert!(matches!(
        next,
        BranchNext::Conclude(s) if s == "Branch exhausted its turns without a final conclusion."
    ));
    let next = b.answered(&BranchOutcome::Cancelled("late".to_string()), 0);
    assert!(matches!(next, BranchNext::Conclude(s) if s == "Branch was cancelled: late"));
    let next = b.answered(&BranchOutcome::Failed("boom".to_string()), 0);
    assert!(matches!(next, BranchNext::Fail(s) if s == "boom"));
}

#[test]
fn a_branch_recovers_from_overflow_twice() {
    let mut b = branch(10);
    for _ in 0..2 {
        let next = b.answered(&BranchOutcome::Overflow, 3);
        assert!(matches!(next, BranchNext::Retry(_)));
    }
    // Ten messages lose three for a marker, and then again.
    assert_eq!(b.history.len(), 6);
    assert_eq!(
        text_of(&b.history[0]),
        "[Branch context compacted: 3 older messages removed to stay within context limits. Continue with the information available.]"
    );
    assert_eq!(text_of(&b.history[5]), "m9");
    let next = b.answered(&BranchOutcome::Overflow, 3);
    assert!(matches!(
        next,
        BranchNext::Conclude(s) if s == "Branch failed: context overflow after 2 compaction attempts"
    ));
}

#[test]
fn a_short_branch_history_is_kept() {
    let mut b = branch(4);
    b.compact_history(2);
    assert_eq!(b.history.len(), 4);
    b.maybe_compact_history(false, 2);
    assert_eq!(b.history.len(), 4);
}

#[test]
fn channel_defaults() {
    let config = ChannelConfig::default();
    assert_eq!(config.max_concurrent_branches, 5);
    assert_eq!(config.max_turns, 5);
}

#[test]
fn a_channel_limits_its_branches() {
    let config = ChannelConfig { max_concurrent_branches: 1, max_turns: 5 };
    let mut state = ChannelState::new("c".to_string(), &config);
    state.history = vec![user("hello"), assistant("hi")];
    let spawned = spawn_branch_from_state(&mut state, "why?".to_string(), "p".to_string(), 7);
    let branch = match spawned {
        Ok(b) => b,
        Err(_) => panic!("there is room for one branch"),
    };
    assert_eq!(branch.channel_id, "c");
    assert_eq!(branch.description, "why?");
    assert_eq!(branch.max_turns, 7);
    assert_eq!(branch.history.len(), 2);
    assert_eq!(text_of(&branch.history[1]), "hi");
    assert_eq!(state.active_branches, vec![branch.id.clone()]);
    match spawn_branch_from_state(&mut state, "again".to_string(), "p".to_string(), 7) {
        Ok(_) => panic!("the limit is reached"),
        Err(e) => {
            assert_eq!(e.channel_id, "c");
            assert_eq!(e.max, 1);
        }
    }
    state.handle_event(&ProcessEvent::BranchResult {
        branch_id: branch.id.clone(),
        channel_id: "c".to_string(),
        conclusion: "so".to_string(),
    });
    assert!(state.active_branches.is_empty());
    assert_eq!(text_of(state.history.last().unwrap()), "[Branch result]: so");
    assert!(state.check_branch_limit().is_ok());
}

#[test]
fn no_more_branches_than_allowed_are_active() {
    let config = ChannelConfig { max_concurrent_branches: 1, max_turns: 5 };
    let mut state = ChannelState::new("c".to_string(), &config);
    let spawn = |state: &mut ChannelState| {
        spawn_branch_from_state(state, "d".to_string(), "p".to_string(), 10).ok().map(|b| b.id)
    };
    let first = spawn(&mut state);
    assert!(first.is_some());
    assert!(spawn(&mut state).is_none());
    assert_eq!(state.active_branches.len(), 1);
    state.handle_event(&ProcessEvent::BranchResult {
        branch_id: first.unwrap_or_default(),
        channel_id: "c".to_string(),
        conclusion: "done".to_string(),
    });
    assert!(state.active_branches.is_empty());
    assert!(spawn(&mut state).is_some());
}

#[test]
fn a_worker_reports_to_its_channel() {
    let mut state = ChannelState::new("c".to_string(), &ChannelConfig::default());
    let w = spawn_worker_from_state(&state, "task".to_string(), "p".to_string(), true);
    assert_eq!(w.channel_id.as_deref(), Some("c"));
    assert!(w.interactive);
    assert_eq!(worker_report(&Err("boom".to_string())), "Worker failed: boom");
    let event = worker_complete(w.id.clone(), w.channel_id.clone(), &Ok("found".to_string()));
    state.handle_event(&event);
    assert_eq!(text_of(&state.history[0]), "[Worker completed]: found");
    state.handle_event(&ProcessEvent::WorkerComplete {
        worker_id: "w".to_string(),
        channel_id: None,
        result: "quiet".to_string(),
        notify: false,
    });
    assert_eq!(state.history.len(), 1);
}

#[test]
fn the_prompt_of_a_turn() {
    assert_eq!(system_prompt_for_turn("base", ""), "base");
    assert_eq!(system_prompt_for_turn("base", "busy"), "base\n\n## Current Status\n\nbusy");
    let media = MessageContent::Media { text: None, attachments: vec![] };
    assert_eq!(user_prompt(&media), "");
    assert_eq!(user_prompt(&MessageContent::Text("hi".to_string())), "hi");
}

#[test]
fn the_strongest_compaction_wins() {
    let reached = |background, aggressive, emergency| Reached { background, aggressive, emergency };
    assert_eq!(check_and_compact(false, reached(false, false, false)), None);
    assert_eq!(
        check_and_compact(false, reached(true, false, false)),
        Some(CompactionAction::Background)
    );
    assert_eq!(
        check_and_compact(false, reached(true, true, false)),
        Some(CompactionAction::Aggressive)
    );
    assert_eq!(
        check_and_compact(false, reached(true, true, true)),
        Some(CompactionAction::EmergencyTruncate)
    );
    assert_eq!(check_and_compact(true, reached(true, true, true)), None);
    assert_eq!(compaction_percent(CompactionAction::Background), 30);
    assert_eq!(compaction_percent(CompactionAction::Aggressive), 50);
}

#[test]
fn the_last_two_messages_are_never_removed() {
    assert_eq!(removal_count(3, 10), 3);
    assert_eq!(removal_count(0, 10), 1);
    assert_eq!(removal_count(10, 10), 8);
    assert_eq!(removal_count(1, 2), 0);
    let mut h = history(10);
    let removed = start_compaction(&mut h, 3).unwrap();
    assert_eq!(removed.len(), 3);
    assert_eq!(h.len(), 7);
    assert_eq!(text_of(&h[0]), "m3");
}

#[test]
fn an_emergency_drops_the_older_half() {
    let prompts = prompts("cut {{ remove_count }}");
    let mut h = history(7);
    assert!(emergency_truncate(&mut h, &prompts).is_ok());
    assert_eq!(h.len(), 5);
    assert_eq!(text_of(&h[0]), "cut 3");
    assert_eq!(text_of(&h[1]), "m3");
    let mut short = history(2);
    assert!(emergency_truncate(&mut short, &prompts).is_ok());
    assert_eq!(short.len(), 2);
    assert_eq!(text_of(&short[0]), "m0");
}

#[test]
fn a_marker_that_cannot_be_rendered_leaves_the_history() {
    let prompts = prompts("{{ remove_count.nothing.at_all }}");
    let mut h = history(7);
    assert!(emergency_truncate(&mut h, &prompts).is_err());
    assert_eq!(h.len(), 7);
    assert_eq!(text_of(&h[0]), "m0");
}

#[test]
fn tokens_are_a_quarter_of_the_characters() {
    let h = vec![
        user("12345678"),
        ChatMessage::Assistant(vec![AssistantContent::ToolCall(ToolCall {
            id: "1".to_string(),
            name: "read".to_string(),
            arguments: json("{\"a\":1}"),
        })]),
        ChatMessage::User(vec![UserContent::ToolResult(ToolResult {
            id: "1".to_string(),
            parts: vec![ToolResultPart::Text("ab".to_string()), ToolResultPart::Image],
        })]),
    ];
    assert_eq!(count_history_chars(&h), Some(8 + 4 + 7 + 102));
    assert_eq!(estimate_history_tokens(&h), Some(30));
    assert_eq!(estimate_history_tokens(&vec![]), Some(0));
}

#[test]
fn a_transcript_of_messages() {
    let h = vec![
        user("hello"),
        ChatMessage::Assistant(vec![
            AssistantContent::Text("hi".to_string()),
            AssistantContent::ToolCall(ToolCall {
                id: "1".to_string(),
                name: "read".to_string(),
                arguments: json("{ \"a\": 1 }"),
            }),
        ]),
    ];
    assert_eq!(
        render_messages_as_transcript(&h),
        "User: hello\nAssistant: hi\n[Tool Call: read({\"a\":1})]\n"
    );
}

#[test]
fn the_summary_follows_its_header() {
    assert_eq!(extract_summary_section("intro\n## Summary\n\n the gist \n"), "the gist");
    assert_eq!(extract_summary_section("  plain "), "plain");
    let text = compaction_summary(&None, 4);
    assert!(text.contains('4'));
    assert!(compaction_summary(&Some("## Summary\nthe gist".to_string()), 4).contains("the gist"));
}

#[test]
fn the_cortex_keeps_a_window_of_signals() {
    let mut cortex = Cortex::new("watch".to_string());
    for i in 0..105 {
        cortex.observe(
            &ProcessEvent::WorkerComplete {
                worker_id: "w".to_string(),
                channel_id: None,
                result: format!("{i}"),
                notify: true,
            },
            0,
        );
    }
    assert_eq!(cortex.signal_buffer.len(), 100);
    assert!(matches!(
        &cortex.signal_buffer[0],
        Signal::WorkerCompleted { result_summary, .. } if result_summary == "5"
    ));
}

#[test]
fn details_of_events_are_json() {
    let row = |details: &str| CortexEventRow {
        id: "e".to_string(),
        event_type: "bulletin".to_string(),
        summary: "s".to_string(),
        details: Some(details.to_string()),
        created_at: Timestamp { secs: 0, nanos: 0 },
    };
    let event = row("{\"a\": 1}").into_event();
    assert_eq!(event.details, Some(json("{\"a\":1}")));
    assert!(event.created_at.starts_with("1970-01-01T00:00:00"));
    assert_eq!(row("no json").into_event().details, None);
    assert_ne!(events_query(true), events_query(false));
    assert_ne!(association_query(true), association_query(false));
}

#[test]
fn a_bulletin_is_retried() {
    assert!(matches!(after_attempt(0, true), AfterAttempt::GoOn));
    assert!(matches!(after_attempt(1, false), AfterAttempt::Retry(_)));
}

#[test]
fn sections_without_memories_are_left_out() {
    let sections = bulletin_sections();
    let mut found: Vec<Option<Vec<BulletinItem>>> = sections.iter().map(|_| None).collect();
    assert_eq!(gather_bulletin_sections(&found), "");
    found[0] = Some(vec![BulletinItem {
        memory_type: MemoryType::Identity,
        importance: "1.00".to_string(),
        content: "A gardener".to_string(),
    }]);
    let text = gather_bulletin_sections(&found);
    assert!(text.contains(sections[0].label));
    assert!(text.contains("A gardener"));
    assert!(text.contains("1.00"));
    let config = sections[0].search_config();
    assert_eq!(config.max_results, sections[0].max_results);
}

#[test]
fn failed_searches_keep_the_old_bulletin() {
    let failed: Vec<Option<Vec<BulletinItem>>> =
        bulletin_sections().iter().map(|_| None).collect();
    match bulletin_searched(&failed, 5) {
        BulletinStep::Done(o) => {
            assert!(o.bulletin.is_none() && !o.succeeded);
            assert_eq!(o.log.event_type, "bulletin_failed");
            assert_eq!(o.log.summary, "Bulletin failed after 5ms: every section query failed");
        }
        BulletinStep::Synthesize(_) => panic!("nothing was found"),
    }
    let empty: Vec<Option<Vec<BulletinItem>>> =
        bulletin_sections().iter().map(|_| Some(vec![])).collect();
    match bulletin_searched(&empty, 5) {
        BulletinStep::Done(o) => assert!(o.succeeded && o.bulletin.as_deref() == Some("")),
        BulletinStep::Synthesize(_) => panic!("nothing was found"),
    }
    let mut some = failed;
    some[1] = Some(vec![BulletinItem {
        memory_type: MemoryType::Fact,
        importance: "0.50".to_string(),
        content: "It rains".to_string(),
    }]);
    match bulletin_searched(&some, 5) {
        BulletinStep::Synthesize(raw) => assert!(raw.contains("It rains")),
        BulletinStep::Done(_) => panic!("a memory was found"),
    }
}

#[test]
fn a_failed_bulletin_keeps_the_old_one() {
    let skipped = bulletin_skipped(5);
    assert!(skipped.succeeded);
    let failed = bulletin_written("raw", &Err("boom".to_string()), 5, "model");
    assert!(!failed.succeeded);
    assert!(failed.bulletin.is_none());
    let written = bulletin_written("raw", &Ok("news".to_string()), 5, "model");
    assert!(written.succeeded);
    assert_eq!(written.bulletin.as_deref(), Some("news"));
}

#[test]
fn profiles_are_read_without_fences() {
    assert_eq!(clean_profile_response("```json\n{\"a\":1}\n```"), "{\"a\":1}");
    let profile = AgentProfileRow {
        agent_id: "a".to_string(),
        display_name: Some("Ada".to_string()),
        status: None,
        bio: None,
        avatar_seed: None,
        generated_at: Timestamp { secs: 0, nanos: 0 },
        updated_at: Timestamp { secs: 60, nanos: 0 },
    }
    .into_profile();
    assert_eq!(profile.agent_id, "a");
    assert!(profile.updated_at.starts_with("1970-01-01T00:01:00"));
    assert!(profile_unreadable("eof").contains("eof"));
    assert!(profile_failed("eof", 7).contains("eof"));
    let named = ProfileLlmResponse {
        display_name: Some("Ada".to_string()),
        status: None,
        bio: None,
    };
    assert!(profile_summary(&named, 7).contains("Ada"));
}

#[test]
fn an_answer_becomes_a_profile() {
    match profile_answered(&Ok(" ```json\n{\"status\":\"up\"}\n``` ".to_string()), 7, "m") {
        ProfileStep::Read(text) => assert_eq!(text, "{\"status\":\"up\"}"),
        ProfileStep::Failed(_) => panic!("an answer is read"),
    }
    match profile_answered(&Err("no key".to_string()), 7, "m") {
        ProfileStep::Failed(log) => {
            assert_eq!(log.event_type, "profile_failed");
            assert_eq!(log.summary, "Profile generation failed after 7ms: no key");
            let details = json(r#"{"error":"no key","duration_ms":7,"model":"m"}"#);
            assert_eq!(log.details, details);
        }
        ProfileStep::Read(_) => panic!("a failure is logged"),
    }
}

#[test]
fn a_profile_is_stored_under_its_agent() {
    let said = ProfileLlmResponse { display_name: None, status: Some("up".to_string()), bio: None };
    let outcome = profile_read("ada", "{}", Ok(said), 7, "m");
    let stored = outcome.profile.unwrap();
    assert_eq!(stored.agent_id, "ada");
    assert_eq!(stored.avatar_seed, "ada");
    assert_eq!(stored.display_name, None);
    assert_eq!(stored.status.as_deref(), Some("up"));
    assert_eq!(outcome.log.event_type, "profile_generated");
    assert_eq!(outcome.log.summary, "Profile generated: unnamed — \"up\" (7ms)");
    let details = json(r#"{"display_name":null,"status":"up","duration_ms":7,"model":"m"}"#);
    assert_eq!(outcome.log.details, details);

    let outcome = profile_read("ada", "oops", Err("eof".to_string()), 7, "m");
    assert!(outcome.profile.is_none());
    assert_eq!(outcome.log.event_type, "profile_failed");
    assert_eq!(
        outcome.log.summary,
        "Profile generation failed: could not parse LLM response — eof"
    );
    assert_eq!(outcome.log.details, json(r#"{"error":"eof","raw_response":"oops"}"#));
}

#[test]
fn an_association_pass_ends_at_its_limit() {
    let mut pass = AssociationPass { created: 0, max_per_pass: 1 };
    assert!(pass.may_go_on());
    let now = Timestamp { secs: 5, nanos: 0 };
    let similar = |id: &str, is_update: bool| SimilarMemory {
        target_id: id.to_string(),
        is_update,
        weight: F32 { bits: 0.9f32.to_bits() },
    };
    let related = pass.associate("m", &similar("k", false), now).unwrap();
    assert_eq!(related.relation_type, RelationType::RelatedTo);
    let a = pass.associate("m", &similar("n", true), now).unwrap();
    assert_eq!(a.source_id, "m");
    assert_eq!(a.target_id, "n");
    assert_eq!(a.relation_type, RelationType::Updates);
    pass.stored(true);
    assert!(!pass.may_go_on());
    assert!(pass.associate("m", &similar("o", false), now).is_none());
    assert_eq!(
        pass.summary(3, false).as_deref(),
        Some("Created 1 associations from 3 new memories")
    );
    assert_eq!(
        pass.summary(3, true).as_deref(),
        Some("Backfill: created 1 associations from 3 memories")
    );
    assert_eq!(AssociationPass { created: 0, max_per_pass: 1 }.summary(3, true), None);
}
