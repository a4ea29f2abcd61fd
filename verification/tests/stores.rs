//! Tests of what is read from and written to the stores.
use spacebot::config::F32;
use spacebot::conversation::channels::{
    extract_display_name, extract_platform, extract_platform_meta, find_by_name,
    row_to_channel_info, ChannelInfo, ChannelRow,
};
use spacebot::conversation::history::{
    channel_timeline, recent_messages, timeline_query, MessageRow, TimelineItem, TimelineRow,
};
use spacebot::cron::store::{
    config_to_row, load_all, load_executions, row_to_config, stats_from, CronConfig, CronRow,
    ExecutionRow, StatsRow,
};
use spacebot::memory::maintenance::{
    access_boost_tenths, days_since, decaying_types, prune_cutoff, MaintenanceConfig,
    MaintenanceReport,
};
use spacebot::memory::search::SearchSort;
use spacebot::memory::store::{
    between_query, distinct_associations, keep_remembered, memory_to_row, neighbour,
    loaded_memory, parse_memory_type, parse_relation_type, row_to_association, sorted_query,
    AssociationRow, NeighborWalk,
};
use spacebot::memory::types::{Association, Memory, MemoryType, RelationType};
use spacebot::message::{Json, Timestamp};
use spacebot::text_map::TextMap;

fn s(text: &str) -> String {
    text.to_string()
}

fn at(secs: i64) -> Timestamp {
    Timestamp { secs, nanos: 0 }
}

fn memory(id: &str, forgotten: bool) -> Memory {
    Memory {
        id: s(id),
        content: s("Rust is great"),
        memory_type: MemoryType::Decision,
        importance: F32 { bits: 0.9f32.to_bits() },
        created_at: at(1),
        updated_at: at(2),
        last_accessed_at: at(3),
        access_count: 4,
        source: Some(s("chat")),
        channel_id: None,
        forgotten,
    }
}

fn edge(from: &str, to: &str) -> Association {
    Association {
        id: format!("{from}-{to}"),
        source_id: s(from),
        target_id: s(to),
        relation_type: RelationType::RelatedTo,
        weight: F32 { bits: 0.5f32.to_bits() },
        created_at: at(0),
    }
}

fn channel(id: &str, name: &str) -> ChannelInfo {
    ChannelInfo {
        id: s(id),
        platform: s("discord"),
        display_name: Some(s(name)),
        platform_meta: None,
        is_active: true,
        created_at: at(0),
        last_activity_at: at(0),
    }
}

#[test]
fn a_memory_reads_back() {
    let m = memory("m", false);
    assert!(loaded_memory(None, at(9)).is_none());
    let back = loaded_memory(Some(memory_to_row(&m)), at(9)).unwrap();
    assert_eq!(back.id, "m");
    assert_eq!(back.content, "Rust is great");
    assert_eq!(back.memory_type, MemoryType::Decision);
    assert_eq!(back.importance.bits, 0.9f32.to_bits());
    assert_eq!(back.created_at, at(1));
    assert_eq!(back.access_count, 4);
    assert_eq!(back.source.as_deref(), Some("chat"));
}

#[test]
fn names_of_types_and_relations() {
    for t in [MemoryType::Fact, MemoryType::Todo, MemoryType::Identity] {
        assert_eq!(parse_memory_type(&t.to_string()), t);
    }
    assert_eq!(parse_memory_type("?"), MemoryType::Fact);
    assert_eq!(parse_relation_type("contradicts"), RelationType::Contradicts);
    assert_eq!(parse_relation_type("?"), RelationType::RelatedTo);
    let row = AssociationRow {
        id: Some(s("a")),
        source_id: Some(s("x")),
        target_id: Some(s("y")),
        relation_type: Some(RelationType::PartOf.to_string()),
        weight: None,
        created_at: None,
    };
    let a = row_to_association(row, at(7));
    assert_eq!(a.relation_type, RelationType::PartOf);
    assert_eq!(a.created_at, at(7));
    assert_eq!(neighbour(&a, "x"), "y");
    assert_eq!(neighbour(&a, "y"), "x");
}

#[test]
fn queries_for_sorted_memories() {
    let (recent, none) = sorted_query(SearchSort::Recent, None);
    assert!(recent.contains("ORDER BY created_at DESC"));
    assert!(recent.contains("forgotten = 0"));
    assert_eq!(none, None);
    let (typed, bound) = sorted_query(SearchSort::Importance, Some(MemoryType::Goal));
    assert!(typed.contains("ORDER BY importance DESC"));
    assert_eq!(bound.as_deref(), Some("goal"));
    assert!(between_query(0).is_none());
    let query = between_query(2).unwrap();
    assert_eq!(query.matches('?').count(), 4);
}

#[test]
fn a_walk_finds_the_neighbours() {
    let edges = [edge("s", "a"), edge("b", "a"), edge("b", "c")];
    let mut walk = NeighborWalk::start("s", 2, vec![s("x")]);
    while let Some(node) = walk.next_node() {
        walk.follow(
            edges
                .iter()
                .filter(|e| e.source_id == node || e.target_id == node)
                .map(|e| edge(&e.source_id, &e.target_id))
                .collect(),
        );
    }
    let (mut ids, associations) = walk.finish();
    ids.sort();
    assert_eq!(ids, vec!["a", "b"]);
    assert_eq!(distinct_associations(associations).len(), 2);
    let kept = keep_remembered(vec![Some(memory("a", false)), None, Some(memory("b", true))]);
    assert_eq!(kept.len(), 1);
    assert_eq!(kept[0].id, "a");
}

#[test]
fn excluded_memories_are_not_visited() {
    let mut walk = NeighborWalk::start("s", 1, vec![s("a")]);
    while let Some(node) = walk.next_node() {
        assert_eq!(node, "s");
        walk.follow(vec![edge("s", "a"), edge("s", "b")]);
    }
    assert_eq!(walk.finish().0, vec!["b"]);
}

#[test]
fn maintenance_spares_identities() {
    assert!(!decaying_types().contains(&MemoryType::Identity));
    assert_eq!(decaying_types().len(), 7);
    assert_eq!(days_since(&at(86400 * 3 + 5), &at(0)), 3);
    assert!(access_boost_tenths(1) > access_boost_tenths(100));
    let config = MaintenanceConfig::default();
    assert_eq!(config.prune_threshold.bits, 0.1f32.to_bits());
    assert_eq!(config.decay_rate.bits, 0.05f32.to_bits());
    assert_eq!(config.merge_similarity_threshold.bits, 0.95f32.to_bits());
    assert_eq!(prune_cutoff(&at(86400 * 40), &config), at(86400 * (40 - config.min_age_days)));
    let report = MaintenanceReport::default();
    assert_eq!((report.decayed, report.pruned, report.merged), (0, 0, 0));
}

#[test]
fn channels_are_found_by_name() {
    let channels = vec![
        channel("discord:1:2", "general-chat"),
        channel("discord:1:3", "general"),
        channel("discord:1:4", "off-topic"),
    ];
    assert_eq!(find_by_name(&channels, "General"), Some(1));
    assert_eq!(find_by_name(&channels, "general-"), Some(0));
    assert_eq!(find_by_name(&channels, "topic"), Some(2));
    assert_eq!(find_by_name(&channels, "1:4"), Some(2));
    assert_eq!(find_by_name(&channels, "nothing"), None);
    let mut slack = channels;
    slack.truncate(1);
    slack[0].id = "slack:T01:C01".to_string();
    slack[0].display_name = None;
    assert_eq!(find_by_name(&slack, "C01"), Some(0));
    assert_eq!(find_by_name(&slack, "c01"), Some(0));
}

#[test]
fn what_a_channel_is_called() {
    assert_eq!(extract_platform("discord:1:2"), "discord");
    let mut meta = TextMap::new();
    meta.insert(s("discord_channel_name"), Json::Text(s("general")));
    meta.insert(s("discord_guild_id"), Json::PosInt(7));
    assert_eq!(extract_display_name("discord", &meta).as_deref(), Some("general"));
    let stored: serde_json::Value =
        serde_json::from_str(&extract_platform_meta("discord", &meta).unwrap()).unwrap();
    assert_eq!(stored["discord_guild_id"], 7);
    meta.insert(s("discord_guild_id"), Json::NegInt(-7));
    meta.insert(s("discord_guild_name"), Json::Raw(s("[1, 2.5]")));
    meta.insert(s("discord_channel_id"), Json::Raw(s("no json")));
    meta.insert(s("discord_is_thread"), Json::Bool(true));
    meta.insert(s("discord_parent_channel_id"), Json::Null);
    let stored: serde_json::Value =
        serde_json::from_str(&extract_platform_meta("discord", &meta).unwrap()).unwrap();
    assert_eq!(stored["discord_guild_id"], -7);
    assert_eq!(stored["discord_guild_name"].to_string(), "[1,2.5]");
    assert!(stored["discord_channel_id"].is_null());
    assert_eq!(stored["discord_is_thread"], true);
    assert_eq!(stored.as_object().map(|o| o.len()), Some(5));
    assert_eq!(extract_platform_meta("webhook", &TextMap::new()), None);
    let info = row_to_channel_info(
        ChannelRow {
            id: Some(s("c")),
            platform: None,
            display_name: None,
            platform_meta: Some(s("not json")),
            is_active: Some(1),
            created_at: None,
            last_activity_at: Some(at(3)),
        },
        at(9),
    );
    assert_eq!(info.platform_meta, None);
    assert_eq!(info.created_at, at(9));
    assert_eq!(info.last_activity_at, at(3));
    assert!(info.is_active);
}

#[test]
fn recent_messages_are_in_order() {
    let row = |id: &str| MessageRow {
        id: Some(s(id)),
        channel_id: Some(s("c")),
        role: Some(s("user")),
        sender_name: None,
        sender_id: None,
        content: Some(s("hi")),
        metadata: None,
        created_at: None,
    };
    let messages = recent_messages(vec![row("new"), row("old")], at(9));
    assert_eq!(messages[0].id, "old");
    assert_eq!(messages[1].id, "new");
    assert_eq!(messages[0].created_at, at(9));
}

#[test]
fn a_timeline_of_rows() {
    let row = |kind: &str| TimelineRow {
        item_type: Some(s(kind)),
        id: Some(s("i")),
        role: Some(s("user")),
        sender_name: None,
        sender_id: None,
        content: Some(s("hi")),
        description: Some(s("why")),
        conclusion: None,
        task: Some(s("do")),
        result: None,
        status: Some(s("running")),
        timestamp: Some(at(0)),
        completed_at: None,
    };
    let items = channel_timeline(vec![row("message"), row("other"), row("worker_run")]);
    assert_eq!(items.len(), 2);
    // The rows come newest first.
    assert!(matches!(&items[0], TimelineItem::WorkerRun { task, .. } if task == "do"));
    assert!(matches!(
        &items[1],
        TimelineItem::Message { content, created_at, .. }
            if content == "hi" && created_at.starts_with("1970-01-01T00:00:00")
    ));
}

#[test]
fn a_timeline_is_cut_before_a_time() {
    let all = timeline_query(false);
    let before = timeline_query(true);
    assert!(all.ends_with(" ) WHERE 1=1  ORDER BY timestamp DESC LIMIT ?2"));
    assert!(before.ends_with(" ) WHERE 1=1 AND timestamp < ?3 ORDER BY timestamp DESC LIMIT ?2"));
    assert_eq!(before.replace("AND timestamp < ?3", ""), all);
}

#[test]
fn a_job_reads_back() {
    let config = CronConfig {
        id: s("j"),
        prompt: s("p"),
        interval_secs: 60,
        delivery_target: s("d"),
        active_hours: Some((22, 6)),
        enabled: true,
    };
    let back = row_to_config(config_to_row(&config));
    assert_eq!(back.interval_secs, 60);
    assert_eq!(back.active_hours, Some((22, 6)));
    assert!(back.enabled);
    let rows: Vec<CronRow> = vec![config_to_row(&config)];
    assert_eq!(load_all(rows).len(), 1);
    let executions = load_executions(vec![ExecutionRow {
        id: Some(s("e")),
        executed_at: Some(s("now")),
        success: Some(1),
        result_summary: None,
    }]);
    assert!(executions[0].success);
    let stats = stats_from(Some(StatsRow {
        success_count: Some(3),
        failure_count: None,
        last_executed_at: None,
    }));
    assert_eq!((stats.success_count, stats.failure_count), (3, 0));
    assert_eq!(stats_from(None).success_count, 0);
}
