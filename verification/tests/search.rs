//! Tests of the search over memories.
use spacebot::config::F32;
use spacebot::memory::search::{
    curate_results, fuse_sources, has_some_word, hybrid_results, is_related, metadata_results, reciprocal_ranks,
    relation_tenths, search_plan, source_results, FusedMemory, GraphTraversal, ScoredMemory, SearchConfig,
    SearchMode, SearchPlan, SearchSort,
};
use spacebot::memory::types::{Association, Memory, MemorySearchResult, MemoryType, RelationType};
use spacebot::message::Timestamp;

fn memory(id: &str, content: &str, memory_type: MemoryType) -> Memory {
    let now = Timestamp { secs: 1_700_000_000, nanos: 0 };
    Memory {
        id: id.to_string(),
        content: content.to_string(),
        memory_type,
        importance: F32 { bits: 0.5f32.to_bits() },
        created_at: now,
        updated_at: now,
        last_accessed_at: now,
        access_count: 0,
        source: None,
        channel_id: None,
        forgotten: false,
    }
}

fn scored(id: &str) -> Memory {
    memory(id, &format!("content for {id}"), MemoryType::Fact)
}

/// The score of a fused memory, and the memories in the order of their scores.
fn ranked(fused: &[FusedMemory], k: f64) -> Vec<(String, f64)> {
    let mut out: Vec<(String, f64)> = fused
        .iter()
        .map(|f| (f.memory.id.clone(), f.ranks.iter().map(|rank| 1.0 / (k + *rank as f64)).sum()))
        .collect();
    out.sort_by(|a, b| b.1.partial_cmp(&a.1).unwrap());
    out
}

#[test]
fn test_rrf_single_list() {
    let fused = reciprocal_ranks(&vec![scored("a"), scored("b")], &vec![], &vec![]);
    let ranked = ranked(&fused, 60.0);

    assert_eq!(ranked.len(), 2);
    assert_eq!(ranked[0].0, "a");
    assert_eq!(ranked[1].0, "b");
    // First item: 1/(60+1)
    assert!((ranked[0].1 - 1.0 / 61.0).abs() < 1e-10);
}

#[test]
fn test_rrf_deduplication() {
    let fused = reciprocal_ranks(&vec![scored("a")], &vec![scored("a")], &vec![]);
    assert_eq!(fused.len(), 1);
    assert_eq!(fused[0].ranks, vec![1, 1]);
    let expected = 2.0 / 61.0;
    assert!((ranked(&fused, 60.0)[0].1 - expected).abs() < 1e-10);
}

#[test]
fn test_rrf_multi_list_ranking() {
    let fused = reciprocal_ranks(
        &vec![scored("a"), scored("b")],
        &vec![scored("a")],
        &vec![scored("a")],
    );
    let ranked = ranked(&fused, 60.0);
    assert_eq!(ranked[0].0, "a");
    assert!(ranked[0].1 > ranked[1].1);
}

#[test]
fn test_rrf_empty_lists() {
    let fused = reciprocal_ranks(&vec![], &vec![], &vec![]);
    assert!(fused.is_empty());
}

#[test]
fn forgotten_matches_are_left_out() {
    let mut gone = scored("gone");
    gone.forgotten = true;
    let mut config = SearchConfig::default();
    let fused = fuse_sources(
        Some(vec![Some(gone), Some(scored("a")), None]),
        None,
        vec![scored("b"), scored("c")],
        &config,
    );
    let ids: Vec<&str> = fused.iter().map(|f| f.memory.id.as_str()).collect();
    assert_eq!(ids, vec!["a", "b", "c"]);
    assert_eq!(fused[0].ranks, vec![1]);
    config.max_results_per_source = 1;
    let fused = fuse_sources(None, None, vec![scored("b"), scored("c")], &config);
    assert_eq!(fused.len(), 1);
}

#[test]
fn test_curate_results_respects_limit() {
    let results: Vec<MemorySearchResult> = (0..10)
        .map(|i| MemorySearchResult {
            memory: memory(&format!("{i}"), &format!("mem {i}"), MemoryType::Fact),
            score: F32 { bits: (1.0 - (i as f32 * 0.1)).to_bits() },
            rank: i + 1,
        })
        .collect();

    let curated = curate_results(&results, 3);
    assert_eq!(curated.len(), 3);
    assert_eq!(curated[0].rank, 1);
}

#[test]
fn test_curate_results_handles_empty() {
    let curated = curate_results(&[], 5);
    assert!(curated.is_empty());
}

#[test]
fn search_defaults() {
    let config = SearchConfig::default();
    assert_eq!(config.mode, SearchMode::Hybrid);
    assert_eq!(config.sort_by, SearchSort::Recent);
    assert_eq!(config.rrf_k.bits, 60.0f64.to_bits());
    assert!(matches!(search_plan(&config), SearchPlan::Hybrid));
}

#[test]
fn each_mode_has_its_order() {
    let plan = |mode: SearchMode, sort_by: SearchSort| {
        search_plan(&SearchConfig { mode, sort_by, ..SearchConfig::default() })
    };
    assert!(matches!(
        plan(SearchMode::Recent, SearchSort::MostAccessed),
        SearchPlan::Sorted(SearchSort::Recent)
    ));
    assert!(matches!(
        plan(SearchMode::Important, SearchSort::MostAccessed),
        SearchPlan::Sorted(SearchSort::Importance)
    ));
    assert!(matches!(
        plan(SearchMode::Typed, SearchSort::MostAccessed),
        SearchPlan::Sorted(SearchSort::MostAccessed)
    ));
}

#[test]
fn positional_scores_descend() {
    let results = metadata_results(vec![scored("a"), scored("b"), scored("c")]);
    let got: Vec<(usize, f64)> = results
        .iter()
        .map(|r| (r.rank, r.score_num as f64 / r.score_den as f64))
        .collect();
    assert_eq!(got[0], (1, 1.0));
    assert_eq!(got[1].0, 2);
    assert!((got[1].1 - 2.0 / 3.0).abs() < 1e-10);
    assert!((got[2].1 - 1.0 / 3.0).abs() < 1e-10);
}

#[test]
fn words_of_a_query_relate_contents() {
    assert!(has_some_word("rust is great", "great things"));
    assert!(!has_some_word("Rust is GREAT", "great things"));
    assert!(is_related("Rust is GREAT", "Great things"));
    assert!(!has_some_word("Rust is great", "python"));
    assert!(is_related("The Rust book", "rust"));
    assert!(!is_related("The Rust book", "gardening"));
}

#[test]
fn a_source_gives_no_more_than_its_share() {
    let config = SearchConfig { max_results_per_source: 2, ..SearchConfig::default() };
    let found = |n: usize| -> Vec<Memory> {
        (0..n).map(|i| memory(&format!("m{i}"), "text", MemoryType::Fact)).collect()
    };
    assert_eq!(source_results(found(1), &config).len(), 1);
    let kept = source_results(found(3), &config);
    assert_eq!(kept.len(), 2);
    assert_eq!(kept[1].id, "m1");
}

#[test]
fn hybrid_results_pass_the_score_and_the_type() {
    let scored = |id: &str, memory_type: MemoryType, passes: bool| ScoredMemory {
        memory: memory(id, "text", memory_type),
        score: F32 { bits: 0.25f32.to_bits() },
        passes,
    };
    let results = hybrid_results(
        vec![
            scored("low", MemoryType::Fact, false),
            scored("goal", MemoryType::Goal, true),
            scored("a", MemoryType::Fact, true),
            scored("b", MemoryType::Fact, true),
        ],
        &SearchConfig {
            memory_type: Some(MemoryType::Fact),
            max_results: 1,
            ..SearchConfig::default()
        },
    );
    assert_eq!(results.len(), 1);
    assert_eq!(results[0].memory.id, "a");
    // The memory with the low score has the first rank of its type.
    assert_eq!(results[0].rank, 2);
    assert_eq!(results[0].score.bits, 0.25f32.to_bits());
}

#[test]
fn relations_weigh_differently() {
    assert!(relation_tenths(RelationType::Updates) > relation_tenths(RelationType::RelatedTo));
}

#[test]
fn a_traversal_meets_each_memory_once() {
    let edge = |from: &str, to: &str| Association {
        id: format!("{from}-{to}"),
        source_id: from.to_string(),
        target_id: to.to_string(),
        relation_type: RelationType::RelatedTo,
        weight: F32 { bits: 0.5f32.to_bits() },
        created_at: Timestamp { secs: 0, nanos: 0 },
    };
    let edges = [edge("s", "x"), edge("x", "s"), edge("s", "y"), edge("x", "y")];
    let mut walk = GraphTraversal::start("s", 2);
    while let Some((node, depth)) = walk.next_node() {
        for e in edges.iter().filter(|e| e.source_id == node || e.target_id == node) {
            if let Some(id) = walk.related(e, &node) {
                walk.loaded(e, &id, depth, Some(scored(&id)));
            }
        }
    }
    let mut ids: Vec<String> = walk.finish().into_iter().map(|h| h.memory.id).collect();
    ids.sort();
    assert_eq!(ids, vec!["x", "y"]);
}
