//! Memory search: hybrid (vector, full-text and graph results, fused by their
//! ranks), by time, by importance and by type.
use crate::config::F32;
use crate::memory::store;
use crate::memory::store::{keep_remembered, neighbour};
use crate::memory::types::{Association, Memory, MemorySearchResult, MemoryType, RelationType};
use crate::text;
use crate::text::{contains_text, holds_text, lower_text, split_words, str_eq};
use vstd::prelude::*;

verus! {

/// Which search strategy to use.
#[derive(Clone, Copy, Debug, PartialEq, Eq, Structural)]
pub enum SearchMode {
    /// Full hybrid: vector, full-text and graph search, fused. Needs a query.
    Hybrid,
    /// Most recent memories by creation time. No query needed.
    Recent,
    /// Highest importance memories. No query needed.
    Important,
    /// Memories of one type in a configurable order. Needs the type.
    Typed,
}

impl Default for SearchMode {
    fn default() -> (r: Self)
        ensures
            r == SearchMode::Hybrid,
    {
        SearchMode::Hybrid
    }
}

/// Sort order for non-hybrid search modes.
#[derive(Clone, Copy, Debug, PartialEq, Eq, Structural)]
pub enum SearchSort {
    /// Most recent first.
    Recent,
    /// Highest importance first.
    Importance,
    /// Most accessed first.
    MostAccessed,
}

impl Default for SearchSort {
    fn default() -> (r: Self)
        ensures
            r == SearchSort::Recent,
    {
        SearchSort::Recent
    }
}

/// A double-precision number, by its bits. It is carried, never computed with.
#[derive(Clone, Copy, Debug, PartialEq, Eq, Structural)]
pub struct F64 {
    pub bits: u64,
}

/// Search configuration for all modes.
#[derive(Clone, Copy, Debug, PartialEq, Eq, Structural)]
pub struct SearchConfig {
    /// Which search strategy to use.
    pub mode: SearchMode,
    /// Optional memory type filter. Required for `Typed` mode, optional for others.
    pub memory_type: Option<MemoryType>,
    /// Sort order for non-hybrid modes.
    pub sort_by: SearchSort,
    /// Maximum number of results to return.
    pub max_results: usize,
    /// Maximum number of results from each source (vector, full-text, graph) in
    /// hybrid mode.
    pub max_results_per_source: usize,
    /// The constant that is added to every rank in the fusion. Only used in hybrid
    /// mode.
    pub rrf_k: F64,
    /// Minimum score threshold for results. Only used in hybrid mode.
    pub min_score: F32,
    /// Maximum graph traversal depth. Only used in hybrid mode.
    pub max_graph_depth: usize,
}

/// The built-in search configuration: the constant of the fusion is 60, and every
/// score passes.
pub open spec fn default_search() -> SearchConfig {
    SearchConfig {
        mode: SearchMode::Hybrid,
        memory_type: None,
        sort_by: SearchSort::Recent,
        max_results: 10,
        max_results_per_source: 50,
        rrf_k: F64 { bits: 0x404e_0000_0000_0000 },
        min_score: F32 { bits: 0 },
        max_graph_depth: 2,
    }
}

impl Default for SearchConfig {
    fn default() -> (r: Self)
        ensures
            r == default_search(),
    {
        SearchConfig {
            mode: SearchMode::Hybrid,
            memory_type: None,
            sort_by: SearchSort::Recent,
            max_results: 10,
            max_results_per_source: 50,
            rrf_k: F64 { bits: 0x404e_0000_0000_0000 },
            min_score: F32 { bits: 0 },
            max_graph_depth: 2,
        }
    }
}

/// How a search is carried out.
#[derive(Clone, Copy, Debug, PartialEq, Eq, Structural)]
pub enum SearchPlan {
    /// By the hybrid search.
    Hybrid,
    /// By reading stored memories in an order.
    Sorted(SearchSort),
}

/// How a search with a configuration is carried out.
pub fn search_plan(config: &SearchConfig) -> (r: SearchPlan)
    ensures
        r == (match config.mode {
            SearchMode::Hybrid => SearchPlan::Hybrid,
            SearchMode::Recent => SearchPlan::Sorted(SearchSort::Recent),
            SearchMode::Important => SearchPlan::Sorted(SearchSort::Importance),
            SearchMode::Typed => SearchPlan::Sorted(config.sort_by),
        }),
{
    match config.mode {
        SearchMode::Hybrid => SearchPlan::Hybrid,
        SearchMode::Recent => SearchPlan::Sorted(SearchSort::Recent),
        SearchMode::Important => SearchPlan::Sorted(SearchSort::Importance),
        SearchMode::Typed => SearchPlan::Sorted(config.sort_by),
    }
}

/// A memory at a rank, with its score as a fraction.
pub struct RankedMemory {
    pub memory: Memory,
    pub rank: usize,
    pub score_num: usize,
    pub score_den: usize,
}

/// Memories are ranked by their position: the first has the score 1, and the
/// scores go down evenly.
pub open spec fn ranked_by_position(memories: Seq<Memory>, r: Seq<RankedMemory>) -> bool {
    &&& r.len() == memories.len()
    &&& forall|i: int|
        0 <= i < r.len() ==> {
            &&& (#[trigger] r[i]).memory == memories[i]
            &&& r[i].rank == i + 1
            &&& r[i].score_num == memories.len() - i
            &&& r[i].score_den == memories.len()
        }
}

/// Ranks stored memories by their position.
pub fn metadata_results(memories: Vec<Memory>) -> (r: Vec<RankedMemory>)
    ensures
        ranked_by_position(memories@, r@),
{
    let total: usize = memories.len();
    let mut out: Vec<RankedMemory> = Vec::new();
    let mut rank: usize = 0;
    for memory in it: memories
        invariant
            it.seq() == memories@,
            total == memories@.len(),
            rank == it.index(),
            out@.len() == it.index(),
            forall|i: int|
                0 <= i < out@.len() ==> {
                    &&& (#[trigger] out@[i]).memory == memories@[i]
                    &&& out@[i].rank == i + 1
                    &&& out@[i].score_num == memories@.len() - i
                    &&& out@[i].score_den == memories@.len()
                },
    {
        out.push(RankedMemory { memory, rank: rank + 1, score_num: total - rank, score_den: total });
        rank = rank + 1;
    }
    out
}

/// The scores of memories that are ranked by their position go down from 1, and
/// stay above 0.
pub proof fn law_positional_scores_descend(
    memories: Seq<Memory>,
    r: Seq<RankedMemory>,
    i: int,
    j: int,
)
    requires
        ranked_by_position(memories, r),
        0 <= i < j < r.len(),
    ensures
        r[0].score_num == r[0].score_den,
        r[i].score_den == r[j].score_den,
        r[i].score_num > r[j].score_num,
        r[j].score_num > 0,
{
}

/// A memory speaks of a query: some word of the query stands in its content,
/// whatever the case of the letters.
pub open spec fn speaks_of(content: Seq<char>, query: Seq<char>) -> bool {
    exists|i: int|
        0 <= i < text::words(text::lower(query)).len() && text::has_text(
            text::lower(content),
            #[trigger] text::words(text::lower(query))[i],
        )
}

/// Whether some word of a lower-case query stands in a lower-case content.
pub fn has_some_word(content: &str, query: &str) -> (r: bool)
    ensures
        r == (exists|i: int|
            0 <= i < text::words(query@).len() && text::has_text(
                content@,
                #[trigger] text::words(query@)[i],
            )),
{
    let terms = split_words(query);
    let n: usize = terms.len();
    let mut i: usize = 0;
    while i < n
        invariant
            n == terms@.len(),
            i <= n,
            text::texts(terms@) == text::words(query@),
            forall|j: int|
                0 <= j < i ==> !text::has_text(content@, #[trigger] text::words(query@)[j]),
        decreases n - i,
    {
        assert(text::words(query@)[i as int] == terms@[i as int]@);
        if contains_text(content, terms[i].as_str()) {
            return true;
        }
        i = i + 1;
    }
    false
}

/// Whether a memory speaks of a query.
pub fn is_related(content: &str, query: &str) -> (r: bool)
    ensures
        r == speaks_of(content@, query@),
{
    let q = lower_text(query);
    let c = lower_text(content);
    has_some_word(c.as_str(), q.as_str())
}

/// A memory that a walk over the graph found, with the association that led to it.
pub struct GraphHit {
    pub memory: Memory,
    pub weight: F32,
    pub relation_type: RelationType,
}

/// By how many tenths the relation that led to a memory weighs its score.
pub fn relation_tenths(relation: RelationType) -> (r: u32)
    ensures
        r == (match relation {
            RelationType::Updates => 15u32,
            RelationType::CausedBy => 13,
            RelationType::ResultOf => 13,
            RelationType::RelatedTo => 10,
            RelationType::Contradicts => 5,
            RelationType::PartOf => 8,
        }),
{
    match relation {
        RelationType::Updates => 15,
        RelationType::CausedBy => 13,
        RelationType::ResultOf => 13,
        RelationType::RelatedTo => 10,
        RelationType::Contradicts => 5,
        RelationType::PartOf => 8,
    }
}

/// A walk over the memory graph to find related memories, nearest first.
pub struct GraphTraversal {
    max_depth: usize,
    /// Memories whose associations are to be followed, with their depth.
    queue: Vec<(String, usize)>,
    visited: Vec<String>,
    hits: Vec<GraphHit>,
}

/// What a [`GraphTraversal`] stands for.
pub struct TraversalView {
    pub max_depth: usize,
    pub queue: Seq<(Seq<char>, usize)>,
    pub visited: Seq<Seq<char>>,
    pub hits: Seq<GraphHit>,
}

/// The entries of a queue.
pub open spec fn entries(queue: Seq<(String, usize)>) -> Seq<(Seq<char>, usize)> {
    Seq::new(queue.len(), |i: int| (queue[i].0@, queue[i].1))
}

/// The queue without the entries in front that lie too deep.
pub open spec fn within(queue: Seq<(Seq<char>, usize)>, max_depth: usize) -> Seq<(Seq<char>, usize)>
    decreases queue.len(),
{
    if queue.len() > 0 && queue[0].1 > max_depth {
        within(queue.drop_first(), max_depth)
    } else {
        queue
    }
}

impl View for GraphTraversal {
    type V = TraversalView;

    closed spec fn view(&self) -> TraversalView {
        TraversalView {
            max_depth: self.max_depth,
            queue: entries(self.queue@),
            visited: text::texts(self.visited@),
            hits: self.hits@,
        }
    }
}

/// The relations whose memories are followed further.
pub open spec fn leads_on(relation: RelationType) -> bool {
    relation is RelatedTo || relation is PartOf
}

/// A walk after a memory was looked up that an association leads to.
pub open spec fn after_load(
    t: TraversalView,
    a: Association,
    id: Seq<char>,
    depth: usize,
    memory: Option<Memory>,
) -> TraversalView {
    match memory {
        Some(m) => if m.forgotten {
            t
        } else {
            TraversalView {
                hits: t.hits.push(
                    GraphHit { memory: m, weight: a.weight, relation_type: a.relation_type },
                ),
                queue: if leads_on(a.relation_type) {
                    t.queue.push((id, (depth + 1) as usize))
                } else {
                    t.queue
                },
                ..t
            }
        },
        None => t,
    }
}

/// A walk after a memory was met.
pub open spec fn after_meeting(t: TraversalView, id: Seq<char>) -> TraversalView {
    if t.visited.contains(id) {
        t
    } else {
        TraversalView { visited: t.visited.push(id), ..t }
    }
}

impl GraphTraversal {
    /// Starts a walk from a memory.
    pub fn start(start_id: &str, max_depth: usize) -> (r: Self)
        ensures
            r@.max_depth == max_depth,
            r@.queue == seq![(start_id@, 0usize)],
            r@.visited == seq![start_id@],
            r@.hits == Seq::<GraphHit>::empty(),
    {
        let mut queue: Vec<(String, usize)> = Vec::new();
        queue.push((start_id.to_owned(), 0));
        let mut visited: Vec<String> = Vec::new();
        visited.push(start_id.to_owned());
        let r = GraphTraversal { max_depth, queue, visited, hits: Vec::new() };
        assert(r@.queue =~= seq![(start_id@, 0usize)]);
        assert(r@.visited =~= seq![start_id@]);
        r
    }

    /// The next memory whose associations are to be followed, with its depth.
    pub fn next_node(&mut self) -> (r: Option<(String, usize)>)
        ensures
            ({
                let q = within(old(self)@.queue, old(self)@.max_depth);
                match r {
                    Some((id, depth)) => q.len() > 0 && (id@, depth) == q[0] && final(self)@ == (
                    TraversalView { queue: q.drop_first(), ..old(self)@ }),
                    None => q.len() == 0 && final(self)@ == (TraversalView {
                        queue: Seq::empty(),
                        ..old(self)@
                    }),
                }
            }),
    {
        let ghost start = old(self)@;
        while self.queue.len() > 0
            invariant
                self.max_depth == old(self).max_depth,
                self.visited == old(self).visited,
                self.hits == old(self).hits,
                start == old(self)@,
                within(start.queue, start.max_depth) == within(
                    entries(self.queue@),
                    start.max_depth,
                ),
            decreases self.queue@.len(),
        {
            let ghost before = self.queue@;
            let (id, depth) = self.queue.remove(0);
            assert(entries(self.queue@) =~= entries(before).drop_first());
            assert(entries(before)[0] == (id@, depth));
            if depth <= self.max_depth {
                return Some((id, depth));
            }
        }
        assert(entries(self.queue@) =~= Seq::<(Seq<char>, usize)>::empty());
        None
    }

    /// The memory that an association of a memory leads to, where it was not met
    /// before. It counts as met from now on.
    pub fn related(&mut self, a: &Association, current: &str) -> (r: Option<String>)
        ensures
            ({
                let id = store::other_end(*a, current@);
                &&& text::opt_text(r) == (if old(self)@.visited.contains(id) {
                    None
                } else {
                    Some(id)
                })
                &&& final(self)@ == after_meeting(old(self)@, id)
            }),
    {
        let id = neighbour(a, current);
        if holds_text(&self.visited, id.as_str()) {
            None
        } else {
            self.visited.push(id.clone());
            assert(text::texts(self.visited@) =~= text::texts(old(self).visited@).push(id@));
            Some(id.clone())
        }
    }

    /// Takes in the memory that an association leads to, as it was looked up.
    pub fn loaded(&mut self, a: &Association, id: &str, depth: usize, memory: Option<Memory>)
        requires
            depth < usize::MAX,
        ensures
            final(self)@ == after_load(old(self)@, *a, id@, depth, memory),
    {
        if let Some(m) = memory {
            if !m.forgotten {
                self.hits.push(
                    GraphHit { memory: m, weight: a.weight, relation_type: a.relation_type },
                );
                let on = match a.relation_type {
                    RelationType::RelatedTo => true,
                    RelationType::PartOf => true,
                    _ => false,
                };
                if on {
                    self.queue.push((id.to_owned(), depth + 1));
                    assert(entries(self.queue@) =~= entries(old(self).queue@).push(
                        (id@, (depth + 1) as usize),
                    ));
                }
            }
        }
    }

    /// Ends a walk: the memories that it found, in the order in which it found
    /// them.
    pub fn finish(self) -> (r: Vec<GraphHit>)
        ensures
            r@ == self@.hits,
    {
        self.hits
    }
}

/// A memory is met at most once on a walk: no memory stands twice among those that
/// were met, and one that was met is met from then on.
pub proof fn law_met_once(t: TraversalView, id: Seq<char>, other: Seq<char>)
    requires
        t.visited.no_duplicates(),
    ensures
        after_meeting(t, id).visited.no_duplicates(),
        after_meeting(t, id).visited.contains(id),
        t.visited.contains(other) ==> after_meeting(t, id).visited.contains(other),
        after_meeting(after_meeting(t, id), id) == after_meeting(t, id),
{
    let v = t.visited;
    let w = v.push(id);
    assert(w.last() == id);
    if v.contains(other) {
        let k = choose|k: int| 0 <= k < v.len() && v[k] == other;
        assert(w[k] == other);
    }
    if !v.contains(id) {
        assert forall|i: int, j: int| 0 <= i < w.len() && 0 <= j < w.len() && i != j implies w[i]
            != w[j] by {
            if i == v.len() {
                assert(v.contains(v[j]));
            } else if j == v.len() {
                assert(v.contains(v[i]));
            }
        }
    }
}

/// The next memory of a walk is the first in the queue that lies within the depth of
/// the walk: those that are passed over all lie deeper.
pub proof fn law_walk_stays_within_its_depth(queue: Seq<(Seq<char>, usize)>, max_depth: usize)
    ensures
        exists|k: int|
            0 <= k <= queue.len() && within(queue, max_depth) == #[trigger] queue.skip(k) && (
            forall|i: int| 0 <= i < k ==> (#[trigger] queue[i]).1 > max_depth) && (k < queue.len()
                ==> queue[k].1 <= max_depth),
    decreases queue.len(),
{
    if queue.len() > 0 && queue[0].1 > max_depth {
        let rest = queue.drop_first();
        law_walk_stays_within_its_depth(rest, max_depth);
        let k = choose|k: int|
            0 <= k <= rest.len() && within(rest, max_depth) == #[trigger] rest.skip(k) && (forall|
                i: int,
            |
                0 <= i < k ==> (#[trigger] rest[i]).1 > max_depth) && (k < rest.len()
                ==> rest[k].1 <= max_depth);
        assert(queue.skip(k + 1) =~= rest.skip(k));
        assert forall|i: int| 0 <= i < k + 1 implies (#[trigger] queue[i]).1 > max_depth by {
            if i > 0 {
                assert(queue[i] == rest[i - 1]);
            }
        }
        if k < rest.len() {
            assert(queue[k + 1] == rest[k]);
        }
    } else {
        assert(queue.skip(0) =~= queue);
    }
}

/// A memory that an association leads to is found, with the weight and the kind of the
/// association, exactly where it is there and not forgotten. The walk goes on from it,
/// one step deeper, exactly where it is related to the memory before or is a part.
pub proof fn law_walk_finds_what_is_remembered(
    t: TraversalView,
    a: Association,
    id: Seq<char>,
    depth: usize,
    memory: Option<Memory>,
)
    requires
        depth < usize::MAX,
    ensures
        ({
            let r = after_load(t, a, id, depth, memory);
            let found = memory is Some && !memory->0.forgotten;
            let on = found && (a.relation_type is RelatedTo || a.relation_type is PartOf);
            &&& r.visited == t.visited
            &&& r.max_depth == t.max_depth
            &&& r.hits.len() == t.hits.len() + (if found { 1int } else { 0 })
            &&& r.hits.take(t.hits.len() as int) == t.hits
            &&& (found ==> r.hits.last().memory == memory->0 && r.hits.last().weight == a.weight
                && r.hits.last().relation_type == a.relation_type)
            &&& r.queue.len() == t.queue.len() + (if on { 1int } else { 0 })
            &&& r.queue.take(t.queue.len() as int) == t.queue
            &&& (on ==> r.queue.last().0 == id && r.queue.last().1 == depth + 1)
        }),
{
    let r = after_load(t, a, id, depth, memory);
    assert(r.hits.take(t.hits.len() as int) =~= t.hits);
    assert(r.queue.take(t.queue.len() as int) =~= t.queue);
}

/// A memory of several result lists, with the ranks that it has in them.
pub struct FusedMemory {
    pub memory: Memory,
    pub ranks: Vec<usize>,
}

/// What a [`FusedMemory`] says.
pub struct FusedView {
    pub memory: Memory,
    pub ranks: Seq<usize>,
}

impl View for FusedMemory {
    type V = FusedView;

    open spec fn view(&self) -> FusedView {
        FusedView { memory: self.memory, ranks: self.ranks@ }
    }
}

/// What a list of fused memories says.
pub open spec fn fused_view(v: Seq<FusedMemory>) -> Seq<FusedView> {
    Seq::new(v.len(), |i: int| v[i]@)
}

/// The position of the memory with an identifier, from a position on.
pub open spec fn position(v: Seq<FusedView>, id: Seq<char>, from: nat) -> nat
    decreases v.len() - from,
{
    if from >= v.len() {
        v.len()
    } else if v[from as int].memory.id@ == id {
        from
    } else {
        position(v, id, from + 1)
    }
}

/// Fused memories with one more rank of a memory.
pub open spec fn with_rank(v: Seq<FusedView>, memory: Memory, rank: usize) -> Seq<FusedView> {
    let i = position(v, memory.id@, 0) as int;
    if i < v.len() {
        v.update(i, FusedView { memory: v[i].memory, ranks: v[i].ranks.push(rank) })
    } else {
        v.push(FusedView { memory, ranks: seq![rank] })
    }
}

/// Fused memories with the ranks of another list.
pub open spec fn with_list(v: Seq<FusedView>, list: Seq<Memory>) -> Seq<FusedView>
    decreases list.len(),
{
    if list.len() == 0 {
        v
    } else {
        with_rank(with_list(v, list.drop_last()), list.last(), list.len() as usize)
    }
}

/// The memories of three result lists, each once, with its ranks in all of them.
pub open spec fn fused(
    vector: Seq<Memory>,
    full_text: Seq<Memory>,
    graph: Seq<Memory>,
) -> Seq<FusedView> {
    with_list(with_list(with_list(Seq::empty(), vector), full_text), graph)
}

/// The position of a memory lies within the list, or at its end.
proof fn lemma_position(v: Seq<FusedView>, id: Seq<char>, from: nat)
    requires
        from <= v.len(),
    ensures
        from <= position(v, id, from) <= v.len(),
        position(v, id, from) < v.len() ==> v[position(v, id, from) as int].memory.id@ == id,
        forall|j: int| from <= j < position(v, id, from) ==> (#[trigger] v[j]).memory.id@ != id,
    decreases v.len() - from,
{
    if from < v.len() && v[from as int].memory.id@ != id {
        lemma_position(v, id, from + 1);
    }
}

/// Adds a rank of a memory.
fn add_rank(v: &mut Vec<FusedMemory>, memory: &Memory, rank: usize)
    ensures
        fused_view(final(v)@) == with_rank(fused_view(old(v)@), *memory, rank),
{
    let ghost all = fused_view(v@);
    let n: usize = v.len();
    let mut i: usize = 0;
    while i < n && !str_eq(v[i].memory.id.as_str(), memory.id.as_str())
        invariant
            n == v@.len(),
            i <= n,
            v@ == old(v)@,
            all == fused_view(v@),
            position(all, memory.id@, 0) == position(all, memory.id@, i as nat),
        decreases n - i,
    {
        assert(all[i as int].memory.id@ == v@[i as int].memory.id@);
        i = i + 1;
    }
    if i < n {
        assert(all[i as int].memory.id@ == v@[i as int].memory.id@);
        v[i].ranks.push(rank);
        assert(fused_view(v@) =~= with_rank(all, *memory, rank));
    } else {
        let mut ranks: Vec<usize> = Vec::new();
        ranks.push(rank);
        v.push(FusedMemory { memory: memory.clone(), ranks });
        assert(ranks@ =~= seq![rank]);
        assert(fused_view(v@) =~= with_rank(all, *memory, rank));
    }
}

/// Adds the ranks of a list.
fn add_list(v: &mut Vec<FusedMemory>, list: &Vec<Memory>)
    ensures
        fused_view(final(v)@) == with_list(fused_view(old(v)@), list@),
{
    let ghost start = fused_view(v@);
    let n: usize = list.len();
    let mut i: usize = 0;
    while i < n
        invariant
            n == list@.len(),
            i <= n,
            fused_view(v@) == with_list(start, list@.take(i as int)),
        decreases n - i,
    {
        proof {
            assert(list@.take(i + 1).drop_last() =~= list@.take(i as int));
            assert(list@.take(i + 1).last() == list@[i as int]);
        }
        add_rank(v, &list[i], i + 1);
        i = i + 1;
    }
    assert(list@.take(n as int) =~= list@);
}

/// Fuses the results of several sources: every memory once, in the order in which
/// the lists first name them, with the ranks that it has in them. A rank counts
/// from 1. The score of a memory is the sum of 1 / (k + rank) over its ranks.
pub fn reciprocal_ranks(
    vector: &Vec<Memory>,
    full_text: &Vec<Memory>,
    graph: &Vec<Memory>,
) -> (r: Vec<FusedMemory>)
    ensures
        fused_view(r@) == fused(vector@, full_text@, graph@),
{
    let mut v: Vec<FusedMemory> = Vec::new();
    assert(fused_view(v@) =~= Seq::<FusedView>::empty());
    add_list(&mut v, vector);
    add_list(&mut v, full_text);
    add_list(&mut v, graph);
    v
}

/// No memory is named twice.
pub open spec fn named_once(v: Seq<FusedView>) -> bool {
    forall|i: int, j: int|
        0 <= i < j < v.len() ==> (#[trigger] v[i]).memory.id@ != (#[trigger] v[j]).memory.id@
}

/// A memory with an identifier is named.
pub open spec fn names_id(v: Seq<FusedView>, id: Seq<char>) -> bool {
    exists|i: int| 0 <= i < v.len() && (#[trigger] v[i]).memory.id@ == id
}

/// The number of ranks in all.
pub open spec fn rank_count(v: Seq<FusedView>) -> nat
    decreases v.len(),
{
    if v.len() == 0 {
        0
    } else {
        rank_count(v.drop_last()) + v.last().ranks.len()
    }
}

/// One more rank of one memory is one more rank in all.
proof fn lemma_rank_count_update(v: Seq<FusedView>, i: int, f: FusedView)
    requires
        0 <= i < v.len(),
        f.ranks.len() == v[i].ranks.len() + 1,
    ensures
        rank_count(v.update(i, f)) == rank_count(v) + 1,
    decreases v.len(),
{
    if i == v.len() - 1 {
        assert(v.update(i, f).drop_last() =~= v.drop_last());
    } else {
        assert(v.update(i, f).drop_last() =~= v.drop_last().update(i, f));
        lemma_rank_count_update(v.drop_last(), i, f);
    }
}

/// What one more rank does.
proof fn lemma_with_rank(v: Seq<FusedView>, memory: Memory, rank: usize)
    requires
        named_once(v),
    ensures
        named_once(with_rank(v, memory, rank)),
        names_id(with_rank(v, memory, rank), memory.id@),
        forall|id: Seq<char>| #[trigger]
            names_id(v, id) ==> names_id(with_rank(v, memory, rank), id),
        rank_count(with_rank(v, memory, rank)) == rank_count(v) + 1,
{
    let i = position(v, memory.id@, 0) as int;
    let after = with_rank(v, memory, rank);
    lemma_position(v, memory.id@, 0);
    if i < v.len() {
        let f = FusedView { memory: v[i].memory, ranks: v[i].ranks.push(rank) };
        lemma_rank_count_update(v, i, f);
        assert(after[i].memory.id@ == memory.id@);
        assert forall|id: Seq<char>| #[trigger] names_id(v, id) implies names_id(after, id) by {
            let k = choose|k: int| 0 <= k < v.len() && (#[trigger] v[k]).memory.id@ == id;
            assert(after[k].memory.id@ == id);
        }
    } else {
        assert(after.last().memory.id@ == memory.id@);
        assert(after.drop_last() =~= v);
        assert forall|id: Seq<char>| #[trigger] names_id(v, id) implies names_id(after, id) by {
            let k = choose|k: int| 0 <= k < v.len() && (#[trigger] v[k]).memory.id@ == id;
            assert(after[k].memory.id@ == id);
        }
    }
}

/// What the ranks of one more list do.
proof fn lemma_with_list(v: Seq<FusedView>, list: Seq<Memory>)
    requires
        named_once(v),
    ensures
        named_once(with_list(v, list)),
        forall|i: int| 0 <= i < list.len() ==> names_id(with_list(v, list), (#[trigger] list[i]).id@),
        forall|id: Seq<char>| #[trigger] names_id(v, id) ==> names_id(with_list(v, list), id),
        rank_count(with_list(v, list)) == rank_count(v) + list.len(),
    decreases list.len(),
{
    if list.len() > 0 {
        let rest = list.drop_last();
        lemma_with_list(v, rest);
        lemma_with_rank(with_list(v, rest), list.last(), list.len() as usize);
        assert forall|i: int| 0 <= i < list.len() implies names_id(
            with_list(v, list),
            (#[trigger] list[i]).id@,
        ) by {
            if i < list.len() - 1 {
                assert(list[i] == rest[i]);
                assert(names_id(with_list(v, rest), rest[i].id@));
            }
        }
    }
}

/// A memory that appears in several lists is fused into one result, every memory of
/// the lists is kept, and every appearance gives one rank.
pub proof fn law_fusion_deduplicates(
    vector: Seq<Memory>,
    full_text: Seq<Memory>,
    graph: Seq<Memory>,
)
    ensures
        named_once(fused(vector, full_text, graph)),
        forall|i: int|
            0 <= i < vector.len() ==> names_id(
                fused(vector, full_text, graph),
                (#[trigger] vector[i]).id@,
            ),
        forall|i: int|
            0 <= i < full_text.len() ==> names_id(
                fused(vector, full_text, graph),
                (#[trigger] full_text[i]).id@,
            ),
        forall|i: int|
            0 <= i < graph.len() ==> names_id(
                fused(vector, full_text, graph),
                (#[trigger] graph[i]).id@,
            ),
        rank_count(fused(vector, full_text, graph)) == vector.len() + full_text.len()
            + graph.len(),
{
    let a = with_list(Seq::empty(), vector);
    let b = with_list(a, full_text);
    lemma_with_list(Seq::empty(), vector);
    lemma_with_list(a, full_text);
    lemma_with_list(b, graph);
    assert forall|i: int| 0 <= i < vector.len() implies names_id(
        fused(vector, full_text, graph),
        (#[trigger] vector[i]).id@,
    ) by {
        assert(names_id(a, vector[i].id@));
        assert(names_id(b, vector[i].id@));
    }
    assert forall|i: int| 0 <= i < full_text.len() implies names_id(
        fused(vector, full_text, graph),
        (#[trigger] full_text[i]).id@,
    ) by {
        assert(names_id(b, full_text[i].id@));
    }
}

/// `ranks` are the places at which a list names a memory, in order. They count from
/// 1.
pub open spec fn ranks_in(list: Seq<Memory>, id: Seq<char>, ranks: Seq<int>) -> bool {
    &&& forall|i: int, j: int| 0 <= i < j < ranks.len() ==> #[trigger] ranks[i] < #[trigger] ranks[j]
    &&& forall|i: int|
        0 <= i < ranks.len() ==> 1 <= #[trigger] ranks[i] <= list.len() && list[ranks[i] - 1].id@
            == id
    &&& forall|p: int|
        0 <= p < list.len() && (#[trigger] list[p]).id@ == id ==> ranks.contains(p + 1)
}

/// Ranks as numbers.
pub open spec fn rank_numbers(ranks: Seq<usize>) -> Seq<int> {
    ranks.map_values(|r: usize| r as int)
}

/// The places at which a list names a memory.
spec fn places(list: Seq<Memory>, id: Seq<char>) -> Seq<int>
    decreases list.len(),
{
    if list.len() == 0 {
        Seq::empty()
    } else if list.last().id@ == id {
        places(list.drop_last(), id).push(list.len() as int)
    } else {
        places(list.drop_last(), id)
    }
}

proof fn lemma_places(list: Seq<Memory>, id: Seq<char>)
    ensures
        ranks_in(list, id, places(list, id)),
    decreases list.len(),
{
    if list.len() > 0 {
        let rest = list.drop_last();
        let before = places(rest, id);
        let after = places(list, id);
        lemma_places(rest, id);
        assert forall|i: int| 0 <= i < after.len() implies 1 <= #[trigger] after[i] <= list.len()
            && list[after[i] - 1].id@ == id by {
            if i < before.len() {
                assert(after[i] == before[i]);
                assert(rest[before[i] - 1] == list[after[i] - 1]);
            }
        }
        assert forall|i: int, j: int| 0 <= i < j < after.len() implies #[trigger] after[i]
            < #[trigger] after[j] by {
            assert(after[i] == before[i]);
            if j < before.len() {
                assert(after[j] == before[j]);
            }
        }
        assert forall|p: int| 0 <= p < list.len() && (#[trigger] list[p]).id@ == id implies after.contains(
            p + 1,
        ) by {
            if p < rest.len() {
                assert(rest[p] == list[p]);
                let i = choose|i: int| 0 <= i < before.len() && before[i] == p + 1;
                assert(after[i] == p + 1);
            } else {
                assert(after[after.len() - 1] == p + 1);
            }
        }
    }
}

/// The ranks of the memory at a place of the fused ones, before a list is added.
spec fn ranks_before(v: Seq<FusedView>, k: int) -> Seq<int> {
    if k < v.len() {
        rank_numbers(v[k].ranks)
    } else {
        Seq::empty()
    }
}

/// A list adds its places to the ranks of every memory.
proof fn lemma_list_adds_places(v: Seq<FusedView>, list: Seq<Memory>, k: int)
    requires
        named_once(v),
        list.len() <= usize::MAX,
        0 <= k < with_list(v, list).len(),
    ensures
        v.len() <= with_list(v, list).len(),
        k < v.len() ==> with_list(v, list)[k].memory == v[k].memory,
        rank_numbers(with_list(v, list)[k].ranks) == ranks_before(v, k) + places(
            list,
            with_list(v, list)[k].memory.id@,
        ),
    decreases list.len(),
{
    if list.len() == 0 {
        assert(ranks_before(v, k) + places(list, v[k].memory.id@) =~= rank_numbers(v[k].ranks));
    } else {
        let rest = list.drop_last();
        let before = with_list(v, rest);
        let after = with_list(v, list);
        let m = list.last();
        let at = position(before, m.id@, 0) as int;
        lemma_with_list(v, rest);
        lemma_position(before, m.id@, 0);
        lemma_list_length(v, rest);
        if k < before.len() {
            lemma_list_adds_places(v, rest, k);
            if k == at {
                assert(rank_numbers(after[k].ranks) =~= rank_numbers(before[k].ranks).push(
                    list.len() as int,
                ));
                assert(rank_numbers(after[k].ranks) =~= ranks_before(v, k) + places(list, m.id@));
            } else {
                if at < before.len() {
                    assert(before[k].memory.id@ != before[at].memory.id@);
                } else {
                    assert(before[k].memory.id@ != m.id@);
                }
                assert(after[k] == before[k]);
            }
        } else {
            assert(at == before.len());
            lemma_unnamed_has_no_places(v, rest, m.id@);
            assert(rank_numbers(after[k].ranks) =~= seq![list.len() as int]);
            assert(ranks_before(v, k) + places(list, m.id@) =~= seq![list.len() as int]);
        }
    }
}

/// Fused memories do not become fewer.
proof fn lemma_list_length(v: Seq<FusedView>, list: Seq<Memory>)
    ensures
        v.len() <= with_list(v, list).len(),
    decreases list.len(),
{
    if list.len() > 0 {
        lemma_list_length(v, list.drop_last());
        lemma_position(with_list(v, list.drop_last()), list.last().id@, 0);
    }
}

/// A list has no place for a memory that is not among the fused ones.
proof fn lemma_unnamed_has_no_places(v: Seq<FusedView>, list: Seq<Memory>, id: Seq<char>)
    requires
        named_once(v),
        forall|j: int| 0 <= j < with_list(v, list).len() ==> (#[trigger] with_list(v, list)[j]).memory.id@ != id,
    ensures
        places(list, id) =~= Seq::<int>::empty(),
{
    lemma_with_list(v, list);
    lemma_places(list, id);
    if places(list, id).len() > 0 {
        let p = places(list, id)[0] - 1;
        assert(list[p].id@ == id);
        assert(names_id(with_list(v, list), list[p].id@));
    }
}

/// The ranks of a fused memory are its places in the three lists, those in the first
/// list before those in the second, and those before the ones in the third.
pub proof fn law_ranks_are_places(
    vector: Seq<Memory>,
    full_text: Seq<Memory>,
    graph: Seq<Memory>,
    k: int,
)
    requires
        vector.len() <= usize::MAX,
        full_text.len() <= usize::MAX,
        graph.len() <= usize::MAX,
        0 <= k < fused(vector, full_text, graph).len(),
    ensures
        ({
            let f = fused(vector, full_text, graph)[k];
            exists|a: Seq<int>, b: Seq<int>, c: Seq<int>|
                #![trigger ranks_in(vector, f.memory.id@, a), ranks_in(full_text, f.memory.id@, b), ranks_in(graph, f.memory.id@, c)]
                ranks_in(vector, f.memory.id@, a) && ranks_in(full_text, f.memory.id@, b)
                    && ranks_in(graph, f.memory.id@, c) && rank_numbers(f.ranks) == a + b + c
        }),
{
    let none = Seq::<FusedView>::empty();
    let x = with_list(none, vector);
    let y = with_list(x, full_text);
    let z = with_list(y, graph);
    let id = z[k].memory.id@;
    lemma_with_list(none, vector);
    lemma_with_list(x, full_text);
    lemma_list_length(x, full_text);
    lemma_list_length(y, graph);
    lemma_list_adds_places(y, graph, k);
    let a = places(vector, id);
    let b = places(full_text, id);
    let c = places(graph, id);
    lemma_places(vector, id);
    lemma_places(full_text, id);
    lemma_places(graph, id);
    if k < y.len() {
        lemma_list_adds_places(x, full_text, k);
        if k < x.len() {
            lemma_list_adds_places(none, vector, k);
        } else {
            assert forall|j: int| 0 <= j < x.len() implies (#[trigger] x[j]).memory.id@ != id by {
                lemma_list_adds_places(x, full_text, j);
                assert(y[j].memory.id@ != y[k].memory.id@);
            }
            lemma_unnamed_has_no_places(none, vector, id);
        }
    } else {
        lemma_with_list(y, graph);
        assert forall|j: int| 0 <= j < y.len() implies (#[trigger] y[j]).memory.id@ != id by {
            lemma_list_adds_places(y, graph, j);
            assert(z[j].memory.id@ != z[k].memory.id@);
        }
        lemma_unnamed_has_no_places(x, full_text, id);
        assert forall|j: int| 0 <= j < x.len() implies (#[trigger] x[j]).memory.id@ != id by {
            lemma_list_adds_places(x, full_text, j);
            assert(y[j].memory.id@ != id);
        }
        lemma_unnamed_has_no_places(none, vector, id);
    }
    assert(rank_numbers(z[k].ranks) =~= a + b + c);
}

/// A list names no memory twice.
pub open spec fn distinct(list: Seq<Memory>) -> bool {
    forall|i: int, j: int|
        0 <= i < j < list.len() ==> (#[trigger] list[i]).id@ != (#[trigger] list[j]).id@
}

/// The ranks of a list that names no memory twice count up from 1, whichever source
/// it comes from: within one source an earlier memory has a smaller rank than a
/// later one.
pub proof fn law_one_list_is_ranked_in_order(list: Seq<Memory>, i: int)
    requires
        list.len() <= usize::MAX,
        distinct(list),
        0 <= i < list.len(),
    ensures
        fused(list, Seq::empty(), Seq::empty()).len() == list.len(),
        fused(list, Seq::empty(), Seq::empty())[i].memory == list[i],
        rank_numbers(fused(list, Seq::empty(), Seq::empty())[i].ranks) == seq![i + 1],
        fused(Seq::empty(), list, Seq::empty()) == fused(list, Seq::empty(), Seq::empty()),
        fused(Seq::empty(), Seq::empty(), list) == fused(list, Seq::empty(), Seq::empty()),
{
    lemma_distinct_list(list, i);
}

proof fn lemma_distinct_list(list: Seq<Memory>, i: int)
    requires
        list.len() <= usize::MAX,
        distinct(list),
        0 <= i < list.len(),
    ensures
        with_list(Seq::empty(), list).len() == list.len(),
        with_list(Seq::empty(), list)[i].memory == list[i],
        rank_numbers(with_list(Seq::empty(), list)[i].ranks) =~= seq![i + 1],
    decreases list.len(),
{
    let rest = list.drop_last();
    let before = with_list(Seq::empty(), rest);
    assert forall|p: int, q: int| 0 <= p < q < rest.len() implies (#[trigger] rest[p]).id@ != (
    #[trigger] rest[q]).id@ by {
        assert(list[p].id@ != list[q].id@);
    }
    if rest.len() > 0 {
        lemma_distinct_list(rest, if i < rest.len() { i } else { 0 });
    }
    lemma_position(before, list.last().id@, 0);
    assert forall|j: int| 0 <= j < before.len() implies (#[trigger] before[j]).memory.id@
        != list.last().id@ by {
        lemma_distinct_list(rest, j);
        assert(list[j].id@ != list[list.len() - 1].id@);
    }
}

/// Every memory of a list that names it once holds its place in that list among its
/// ranks.
pub proof fn law_every_place_is_a_rank(
    vector: Seq<Memory>,
    full_text: Seq<Memory>,
    graph: Seq<Memory>,
    source: int,
    i: int,
)
    requires
        vector.len() <= usize::MAX,
        full_text.len() <= usize::MAX,
        graph.len() <= usize::MAX,
        0 <= source < 3,
        0 <= i < seq![vector, full_text, graph][source].len(),
    ensures
        exists|k: int|
            0 <= k < fused(vector, full_text, graph).len() && (#[trigger] fused(
                vector,
                full_text,
                graph,
            )[k]).memory.id@ == seq![vector, full_text, graph][source][i].id@ && rank_numbers(
                fused(vector, full_text, graph)[k].ranks,
            ).contains(i + 1),
{
    let list = seq![vector, full_text, graph][source];
    let v = fused(vector, full_text, graph);
    law_fusion_deduplicates(vector, full_text, graph);
    assert(names_id(v, list[i].id@));
    let k = choose|k: int| 0 <= k < v.len() && (#[trigger] v[k]).memory.id@ == list[i].id@;
    let id = v[k].memory.id@;
    law_ranks_are_places(vector, full_text, graph, k);
    let (a, b, c) = choose|a: Seq<int>, b: Seq<int>, c: Seq<int>|
        #![trigger ranks_in(vector, id, a), ranks_in(full_text, id, b), ranks_in(graph, id, c)]
        ranks_in(vector, id, a) && ranks_in(full_text, id, b) && ranks_in(graph, id, c)
            && rank_numbers(v[k].ranks) == a + b + c;
    let own = seq![a, b, c][source];
    assert(list[i].id@ == id);
    assert(own.contains(i + 1));
    let p = choose|p: int| 0 <= p < own.len() && own[p] == i + 1;
    let q = if source == 0 {
        p
    } else if source == 1 {
        a.len() + p
    } else {
        a.len() + b.len() + p
    };
    assert((a + b + c)[q] == i + 1);
    assert(rank_numbers(v[k].ranks)[q] == i + 1);
}

/// `v` holds the memories of a list, each as it stands at its first place. `at` tells
/// these places, which are in order.
pub open spec fn first_named(all: Seq<Memory>, v: Seq<FusedView>, at: Seq<int>) -> bool {
    &&& at.len() == v.len()
    &&& forall|k: int|
        0 <= k < at.len() ==> 0 <= #[trigger] at[k] < all.len() && v[k].memory == all[at[k]]
    &&& forall|k: int, l: int| 0 <= k < l < at.len() ==> #[trigger] at[k] < #[trigger] at[l]
    &&& forall|k: int, i: int|
        0 <= k < at.len() && 0 <= i < #[trigger] at[k] ==> (#[trigger] all[i]).id@
            != v[k].memory.id@
    &&& forall|i: int| 0 <= i < all.len() ==> names_id(v, (#[trigger] all[i]).id@)
}

proof fn lemma_first_named_list(
    all: Seq<Memory>,
    v: Seq<FusedView>,
    at: Seq<int>,
    list: Seq<Memory>,
) -> (r: Seq<int>)
    requires
        first_named(all, v, at),
    ensures
        first_named(all + list, with_list(v, list), r),
    decreases list.len(),
{
    if list.len() == 0 {
        assert(all + list =~= all);
        at
    } else {
        let rest = list.drop_last();
        let m = list.last();
        let s = all + rest;
        let before = with_list(v, rest);
        let after = with_list(v, list);
        let b = lemma_first_named_list(all, v, at, rest);
        let whole = all + list;
        assert(whole =~= s.push(m));
        lemma_position(before, m.id@, 0);
        let p = position(before, m.id@, 0) as int;
        let r = if p < before.len() {
            b
        } else {
            b.push(s.len() as int)
        };
        assert forall|k: int| 0 <= k < r.len() implies 0 <= #[trigger] r[k] < whole.len()
            && after[k].memory == whole[r[k]] by {
            if k < b.len() {
                assert(r[k] == b[k]);
                assert(after[k].memory == before[k].memory);
            }
        }
        assert forall|k: int, l: int| 0 <= k < l < r.len() implies #[trigger] r[k] < #[trigger] r[l] by {
            assert(r[k] == b[k]);
            if l < b.len() {
                assert(r[l] == b[l]);
            }
        }
        assert forall|k: int, i: int| 0 <= k < r.len() && 0 <= i < #[trigger] r[k] implies (
        #[trigger] whole[i]).id@ != after[k].memory.id@ by {
            assert(whole[i] == s[i]);
            if k < b.len() {
                assert(r[k] == b[k]);
            } else {
                assert(names_id(before, s[i].id@));
            }
        }
        assert forall|i: int| 0 <= i < whole.len() implies names_id(after, (#[trigger] whole[i]).id@) by {
            if i < s.len() {
                assert(whole[i] == s[i]);
                assert(names_id(before, s[i].id@));
                let j = choose|j: int|
                    0 <= j < before.len() && (#[trigger] before[j]).memory.id@ == s[i].id@;
                assert(after[j].memory.id@ == whole[i].id@);
            } else if p < before.len() {
                assert(after[p].memory.id@ == m.id@);
            } else {
                assert(after[before.len() as int].memory.id@ == m.id@);
            }
        }
        r
    }
}

/// The fused memories are those of the three lists, one list after the other, each
/// as it stands where it is first named, and in the order of these places.
pub proof fn law_fused_memories_stand_where_first_named(
    vector: Seq<Memory>,
    full_text: Seq<Memory>,
    graph: Seq<Memory>,
)
    ensures
        exists|at: Seq<int>| #[trigger]
            first_named(vector + full_text + graph, fused(vector, full_text, graph), at),
{
    let none = Seq::<Memory>::empty();
    let x = with_list(Seq::empty(), vector);
    let a = lemma_first_named_list(none, Seq::empty(), Seq::empty(), vector);
    assert(none + vector =~= vector);
    let b = lemma_first_named_list(vector, x, a, full_text);
    let c = lemma_first_named_list(vector + full_text, with_list(x, full_text), b, graph);
    assert(first_named(vector + full_text + graph, fused(vector, full_text, graph), c));
}

/// No memory of a list is forgotten.
pub open spec fn none_forgotten(list: Seq<Memory>) -> bool {
    forall|i: int| 0 <= i < list.len() ==> !(#[trigger] list[i]).forgotten
}

/// No fused memory is forgotten.
pub open spec fn fused_remembered(v: Seq<FusedView>) -> bool {
    forall|i: int| 0 <= i < v.len() ==> !(#[trigger] v[i]).memory.forgotten
}

/// The matches of a source, as they were loaded: none where the source could not be
/// searched.
pub open spec fn matches_of(found: Option<Vec<Option<Memory>>>) -> Seq<Memory> {
    match found {
        Some(loaded) => store::remembered(loaded@),
        None => Seq::empty(),
    }
}

/// Keeps the matches of a source that are there and not forgotten.
fn take_matches(found: Option<Vec<Option<Memory>>>) -> (r: Vec<Memory>)
    ensures
        r@ == matches_of(found),
{
    match found {
        Some(loaded) => keep_remembered(loaded),
        None => Vec::new(),
    }
}

/// Fuses the sources of a hybrid search. The matches of the vector and of the
/// full-text search come as they were loaded by their identifiers: those that are
/// gone or forgotten are left out, and a source that could not be searched has none.
/// Of each source at most as many memories are taken as the configuration allows.
pub fn fuse_sources(
    vector: Option<Vec<Option<Memory>>>,
    full_text: Option<Vec<Option<Memory>>>,
    graph: Vec<Memory>,
    config: &SearchConfig,
) -> (r: Vec<FusedMemory>)
    ensures
        fused_view(r@) == fused(
            first(matches_of(vector), config.max_results_per_source as nat),
            first(matches_of(full_text), config.max_results_per_source as nat),
            first(graph@, config.max_results_per_source as nat),
        ),
{
    let vector = source_results(take_matches(vector), config);
    let full_text = source_results(take_matches(full_text), config);
    let graph = source_results(graph, config);
    reciprocal_ranks(&vector, &full_text, &graph)
}

/// What was loaded and kept is not forgotten.
proof fn lemma_remembered(loaded: Seq<Option<Memory>>)
    ensures
        none_forgotten(store::remembered(loaded)),
    decreases loaded.len(),
{
    if loaded.len() > 0 {
        lemma_remembered(loaded.drop_last());
    }
}

/// One more list without forgotten memories brings none into the fused ones.
proof fn lemma_list_remembered(v: Seq<FusedView>, list: Seq<Memory>)
    requires
        fused_remembered(v),
        none_forgotten(list),
    ensures
        fused_remembered(with_list(v, list)),
    decreases list.len(),
{
    if list.len() > 0 {
        assert(!list[list.len() - 1].forgotten);
        assert(none_forgotten(list.drop_last())) by {
            assert forall|i: int| 0 <= i < list.drop_last().len() implies !(
            #[trigger] list.drop_last()[i]).forgotten by {
                assert(!list[i].forgotten);
            }
        }
        lemma_list_remembered(v, list.drop_last());
        let before = with_list(v, list.drop_last());
        let after = with_list(v, list);
        lemma_position(before, list.last().id@, 0);
        assert forall|i: int| 0 <= i < after.len() implies !(#[trigger] after[i]).memory.forgotten by {
            if i < before.len() {
                assert(after[i].memory == before[i].memory);
            }
        }
    }
}

/// Where no list holds a forgotten memory, the fused list holds none.
pub proof fn law_fusion_brings_nothing_forgotten(
    vector: Seq<Memory>,
    full_text: Seq<Memory>,
    graph: Seq<Memory>,
)
    requires
        none_forgotten(vector),
        none_forgotten(full_text),
        none_forgotten(graph),
    ensures
        fused_remembered(fused(vector, full_text, graph)),
{
    let a = with_list(Seq::empty(), vector);
    lemma_list_remembered(Seq::empty(), vector);
    lemma_list_remembered(a, full_text);
    lemma_list_remembered(with_list(a, full_text), graph);
}

/// A fused memory with its score, and whether the score reaches the threshold.
pub struct ScoredMemory {
    pub memory: Memory,
    pub score: F32,
    pub passes: bool,
}

/// A memory passes a filter by type.
pub open spec fn has_type(m: ScoredMemory, memory_type: Option<MemoryType>) -> bool {
    match memory_type {
        Some(t) => m.memory.memory_type == t,
        None => true,
    }
}

/// The number of memories that pass a filter by type.
pub open spec fn typed_count(v: Seq<ScoredMemory>, memory_type: Option<MemoryType>) -> nat
    decreases v.len(),
{
    if v.len() == 0 {
        0
    } else {
        typed_count(v.drop_last(), memory_type) + if has_type(v.last(), memory_type) {
            1nat
        } else {
            0nat
        }
    }
}

/// The results among scored memories: those of the type that is asked for, ranked
/// from 1 in their order, without the ones whose score is too low.
pub open spec fn ranked(v: Seq<ScoredMemory>, memory_type: Option<MemoryType>) -> Seq<
    MemorySearchResult,
>
    decreases v.len(),
{
    if v.len() == 0 {
        Seq::empty()
    } else {
        let rest = ranked(v.drop_last(), memory_type);
        if has_type(v.last(), memory_type) && v.last().passes {
            rest.push(
                MemorySearchResult {
                    memory: v.last().memory,
                    score: v.last().score,
                    rank: typed_count(v, memory_type) as usize,
                },
            )
        } else {
            rest
        }
    }
}

/// The first results of a list.
pub open spec fn first<A>(v: Seq<A>, n: nat) -> Seq<A> {
    if n < v.len() {
        v.take(n as int)
    } else {
        v
    }
}

/// What a hybrid search takes from one of its sources: at most as many memories as
/// the configuration allows for each.
pub fn source_results(found: Vec<Memory>, config: &SearchConfig) -> (r: Vec<Memory>)
    ensures
        r@ == first(found@, config.max_results_per_source as nat),
        r@.len() <= config.max_results_per_source,
{
    let mut out = found;
    if out.len() > config.max_results_per_source {
        out.truncate(config.max_results_per_source);
    }
    assert(out@ =~= first(found@, config.max_results_per_source as nat));
    out
}

/// The results of a hybrid search, from the fused memories in the order of their
/// scores: at most as many as the configuration allows to return.
pub fn hybrid_results(scored: Vec<ScoredMemory>, config: &SearchConfig) -> (r: Vec<
    MemorySearchResult,
>)
    ensures
        r@ == first(ranked(scored@, config.memory_type), config.max_results as nat),
        r@.len() <= config.max_results,
{
    let memory_type = config.memory_type;
    let max_results: usize = config.max_results;
    let mut out: Vec<MemorySearchResult> = Vec::new();
    let mut rank: usize = 0;
    let n: usize = scored.len();
    for m in it: scored
        invariant
            it.seq() == scored@,
            n == scored@.len(),
            rank <= it.index(),
            rank == typed_count(scored@.take(it.index() as int), memory_type),
            out@ == first(
                ranked(scored@.take(it.index() as int), memory_type),
                max_results as nat,
            ),
    {
        proof {
            let i = it.index() as int;
            assert(scored@.take(i + 1).drop_last() =~= scored@.take(i));
            assert(scored@.take(i + 1).last() == scored@[i]);
        }
        let typed = match memory_type {
            Some(t) => m.memory.memory_type == t,
            None => true,
        };
        if typed {
            rank = rank + 1;
            if m.passes && out.len() < max_results {
                out.push(MemorySearchResult { memory: m.memory, score: m.score, rank });
            }
        }
    }
    assert(scored@.take(scored@.len() as int) =~= scored@);
    out
}

/// Curate search results to return only the most relevant.
pub fn curate_results<'a>(results: &'a [MemorySearchResult], max_results: usize) -> (r: Vec<
    &'a MemorySearchResult,
>)
    ensures
        r@.len() == first(results@, max_results as nat).len(),
        forall|i: int|
            0 <= i < r@.len() ==> *(#[trigger] r@[i]) == first(results@, max_results as nat)[i],
{
    let mut out: Vec<&'a MemorySearchResult> = Vec::new();
    let n: usize = if max_results < results.len() {
        max_results
    } else {
        results.len()
    };
    let mut i: usize = 0;
    while i < n
        invariant
            i <= n,
            n <= results@.len(),
            n == first(results@, max_results as nat).len(),
            out@.len() == i,
            forall|j: int| 0 <= j < i ==> *(#[trigger] out@[j]) == results@[j],
        decreases n - i,
    {
        out.push(&results[i]);
        i = i + 1;
    }
    out
}

/// Every result is one of the scored memories.
proof fn lemma_ranked_is_scored(v: Seq<ScoredMemory>, memory_type: Option<MemoryType>)
    ensures
        forall|i: int|
            0 <= i < ranked(v, memory_type).len() ==> exists|j: int|
                0 <= j < v.len() && #[trigger] v[j].memory == (#[trigger] ranked(
                    v,
                    memory_type,
                )[i]).memory,
    decreases v.len(),
{
    if v.len() > 0 {
        let rest = ranked(v.drop_last(), memory_type);
        let all = ranked(v, memory_type);
        lemma_ranked_is_scored(v.drop_last(), memory_type);
        assert forall|i: int| 0 <= i < all.len() implies exists|j: int|
            0 <= j < v.len() && #[trigger] v[j].memory == (#[trigger] all[i]).memory by {
            if i < rest.len() {
                assert(all[i] == rest[i]);
                let j = choose|j: int|
                    0 <= j < v.drop_last().len() && #[trigger] v.drop_last()[j].memory
                        == rest[i].memory;
                assert(v[j].memory == all[i].memory);
            } else {
                assert(v[v.len() - 1].memory == all[i].memory);
            }
        }
    }
}

/// Positions in order, which are those of a list that meet a condition.
pub open spec fn picks(at: Seq<int>, n: nat, wanted: spec_fn(int) -> bool) -> bool {
    &&& forall|i: int, j: int| 0 <= i < j < at.len() ==> #[trigger] at[i] < #[trigger] at[j]
    &&& forall|i: int| 0 <= i < at.len() ==> 0 <= #[trigger] at[i] < n && wanted(at[i])
    &&& forall|p: int| 0 <= p < n && #[trigger] wanted(p) ==> at.contains(p)
}

/// Positions of a list remain picked when the list grows by one.
proof fn lemma_picks_push(at: Seq<int>, n: nat, wanted: spec_fn(int) -> bool)
    requires
        picks(at, n, wanted),
    ensures
        picks(
            if wanted(n as int) {
                at.push(n as int)
            } else {
                at
            },
            n + 1,
            wanted,
        ),
{
    if wanted(n as int) {
        let after = at.push(n as int);
        assert forall|p: int| 0 <= p < n + 1 && #[trigger] wanted(p) implies after.contains(p) by {
            if p < n {
                let i = choose|i: int| 0 <= i < at.len() && at[i] == p;
                assert(after[i] == p);
            } else {
                assert(after[at.len() as int] == p);
            }
        }
    }
}

/// The results are the memories of the type that is asked for whose score reaches the
/// threshold, in the order of the scored ones. A result has the rank that its memory
/// has among all of its type, from 1 on.
pub open spec fn results_among(
    v: Seq<ScoredMemory>,
    memory_type: Option<MemoryType>,
    r: Seq<MemorySearchResult>,
    typed: Seq<int>,
    at: Seq<int>,
) -> bool {
    &&& picks(
        typed,
        v.len(),
        |j: int| memory_type is None || v[j].memory.memory_type == memory_type->0,
    )
    &&& picks(at, typed.len(), |p: int| v[typed[p]].passes)
    &&& r.len() == at.len()
    &&& forall|i: int|
        0 <= i < r.len() ==> {
            &&& (#[trigger] r[i]).memory == v[typed[at[i]]].memory
            &&& r[i].score == v[typed[at[i]]].score
            &&& r[i].rank == at[i] + 1
        }
}

proof fn lemma_results(v: Seq<ScoredMemory>, memory_type: Option<MemoryType>) -> (r: (
    Seq<int>,
    Seq<int>,
))
    requires
        v.len() <= usize::MAX,
    ensures
        results_among(v, memory_type, ranked(v, memory_type), r.0, r.1),
        r.0.len() == typed_count(v, memory_type),
        r.0.len() <= v.len(),
    decreases v.len(),
{
    let of_type = |j: int| memory_type is None || v[j].memory.memory_type == memory_type->0;
    if v.len() == 0 {
        assert(picks(Seq::<int>::empty(), 0, |p: int| v[Seq::<int>::empty()[p]].passes));
        (Seq::empty(), Seq::empty())
    } else {
        let rest = v.drop_last();
        let n = rest.len();
        let (typed, at) = lemma_results(rest, memory_type);
        let before = |j: int| memory_type is None || rest[j].memory.memory_type == memory_type->0;
        assert(picks(typed, n, of_type)) by {
            assert forall|i: int| 0 <= i < typed.len() implies 0 <= #[trigger] typed[i] < n && of_type(
                typed[i],
            ) by {
                assert(before(typed[i]));
            }
            assert forall|p: int| 0 <= p < n && #[trigger] of_type(p) implies typed.contains(p) by {
                assert(before(p));
            }
        }
        lemma_picks_push(typed, n, of_type);
        if of_type(n as int) {
            let t2 = typed.push(n as int);
            let passing = |p: int| v[t2[p]].passes;
            let passed = |p: int| rest[typed[p]].passes;
            assert(picks(at, typed.len(), passing)) by {
                assert forall|i: int| 0 <= i < at.len() implies 0 <= #[trigger] at[i] < typed.len()
                    && passing(at[i]) by {
                    assert(passed(at[i]));
                }
                assert forall|p: int| 0 <= p < typed.len() && #[trigger] passing(p) implies at.contains(
                    p,
                ) by {
                    assert(passed(p));
                }
            }
            lemma_picks_push(at, typed.len(), passing);
            let a2 = if passing(typed.len() as int) {
                at.push(typed.len() as int)
            } else {
                at
            };
            assert forall|i: int| 0 <= i < ranked(v, memory_type).len() implies {
                &&& (#[trigger] ranked(v, memory_type)[i]).memory == v[t2[a2[i]]].memory
                &&& ranked(v, memory_type)[i].score == v[t2[a2[i]]].score
                &&& ranked(v, memory_type)[i].rank == a2[i] + 1
            } by {
                if i < at.len() {
                    assert(ranked(v, memory_type)[i] == ranked(rest, memory_type)[i]);
                    assert(a2[i] == at[i]);
                }
            }
            (t2, a2)
        } else {
            let passing = |p: int| v[typed[p]].passes;
            let passed = |p: int| rest[typed[p]].passes;
            assert(picks(at, typed.len(), passing)) by {
                assert forall|i: int| 0 <= i < at.len() implies 0 <= #[trigger] at[i] < typed.len()
                    && passing(at[i]) by {
                    assert(passed(at[i]));
                }
                assert forall|p: int| 0 <= p < typed.len() && #[trigger] passing(p) implies at.contains(
                    p,
                ) by {
                    assert(passed(p));
                }
            }
            (typed, at)
        }
    }
}

/// A hybrid search returns the memories of the type that is asked for whose score
/// reaches the threshold, all of them and no others, in the order of their scores, and
/// the first of these where there are more than may be returned.
pub proof fn law_results_are_ranked(
    v: Seq<ScoredMemory>,
    memory_type: Option<MemoryType>,
    max_results: nat,
)
    requires
        v.len() <= usize::MAX,
    ensures
        exists|r: Seq<MemorySearchResult>, typed: Seq<int>, at: Seq<int>| #[trigger]
            results_among(v, memory_type, r, typed, at) && first(
                ranked(v, memory_type),
                max_results,
            ) == (if r.len() <= max_results {
                r
            } else {
                r.take(max_results as int)
            }),
{
    let (typed, at) = lemma_results(v, memory_type);
    assert(results_among(v, memory_type, ranked(v, memory_type), typed, at));
    assert(ranked(v, memory_type).len() == max_results ==> ranked(v, memory_type).take(
        max_results as int,
    ) =~= ranked(v, memory_type));
}

/// A source gives its first memories: as many as are allowed, or all where there are
/// no more.
pub proof fn law_first_are_taken<A>(v: Seq<A>, n: nat)
    ensures
        first(v, n).len() == (if v.len() <= n {
            v.len()
        } else {
            n
        }),
        first(v, n).is_prefix_of(v),
{
    assert(first(v, n) =~= v.subrange(0, first(v, n).len() as int));
}

/// The scored memories are fused ones.
pub open spec fn scores(scored: Seq<ScoredMemory>, v: Seq<FusedView>) -> bool {
    forall|i: int|
        0 <= i < scored.len() ==> exists|j: int|
            0 <= j < v.len() && (#[trigger] v[j]).memory == (#[trigger] scored[i]).memory
}

/// A forgotten memory is excluded from the results of a hybrid search: whatever the
/// matches of the vector and of the full-text search are, where the graph holds no
/// forgotten memory, neither do the fused memories, nor the results that are taken
/// from them with scores.
pub proof fn law_forgotten_is_not_found(
    vector: Option<Vec<Option<Memory>>>,
    full_text: Option<Vec<Option<Memory>>>,
    graph: Seq<Memory>,
    config: SearchConfig,
    scored: Seq<ScoredMemory>,
)
    requires
        none_forgotten(graph),
        ({
            let n = config.max_results_per_source as nat;
            scores(
                scored,
                fused(first(matches_of(vector), n), first(matches_of(full_text), n), first(graph, n)),
            )
        }),
    ensures
        ({
            let n = config.max_results_per_source as nat;
            fused_remembered(
                fused(first(matches_of(vector), n), first(matches_of(full_text), n), first(graph, n)),
            )
        }),
        ({
            let r = first(ranked(scored, config.memory_type), config.max_results as nat);
            forall|i: int| 0 <= i < r.len() ==> !(#[trigger] r[i]).memory.forgotten
        }),
{
    let n = config.max_results_per_source as nat;
    let a = matches_of(vector);
    let b = matches_of(full_text);
    if let Some(loaded) = vector {
        lemma_remembered(loaded@);
    }
    if let Some(loaded) = full_text {
        lemma_remembered(loaded@);
    }
    assert(none_forgotten(first(a, n)));
    assert(none_forgotten(first(b, n)));
    assert(none_forgotten(first(graph, n)));
    law_fusion_brings_nothing_forgotten(first(a, n), first(b, n), first(graph, n));
    let v = fused(first(a, n), first(b, n), first(graph, n));
    lemma_ranked_is_scored(scored, config.memory_type);
    let all = ranked(scored, config.memory_type);
    let r = first(all, config.max_results as nat);
    assert forall|i: int| 0 <= i < r.len() implies !(#[trigger] r[i]).memory.forgotten by {
        assert(r[i] == all[i]);
        let j = choose|j: int|
            0 <= j < scored.len() && #[trigger] scored[j].memory == all[i].memory;
        let k = choose|k: int| 0 <= k < v.len() && (#[trigger] v[k]).memory == scored[j].memory;
        assert(!v[k].memory.forgotten);
    }
}

/// A memory speaks of a query where one of the words of the query stands in it, in
/// whatever case it is written. A query without words is spoken of by none.
pub proof fn law_any_word_is_enough(
    content: Seq<char>,
    query: Seq<char>,
    a: Seq<char>,
    w: Seq<char>,
    b: Seq<char>,
)
    ensures
        text::words(text::lower(query)).contains(w) && text::lower(content) == a + w + b
            ==> speaks_of(content, query),
        text::words(text::lower(query)).len() == 0 ==> !speaks_of(content, query),
        speaks_of(content, query) ==> exists|v: Seq<char>| #[trigger]
            text::words(text::lower(query)).contains(v) && text::has_text(text::lower(content), v),
{
    let words = text::words(text::lower(query));
    let c = text::lower(content);
    if words.contains(w) && c == a + w + b {
        let i = choose|i: int| 0 <= i < words.len() && words[i] == w;
        assert(c.subrange(a.len() as int, a.len() as int + w.len()) == w);
        assert(text::matches_at(c, w, a.len() as int));
        assert(text::has_text(c, words[i]));
    }
    if speaks_of(content, query) {
        let i = choose|i: int|
            0 <= i < words.len() && text::has_text(text::lower(content), #[trigger] words[i]);
        assert(words.contains(words[i]));
    }
}

/// A search gives ten results of all types unless it is told otherwise, from fifty of each
/// source, and follows associations for two rounds.
pub proof fn law_searches_by_default()
    ensures
        default_search().max_results == 10 && default_search().max_results_per_source == 50,
        default_search().max_graph_depth == 2 && default_search().min_score.bits == 0,
        default_search().mode is Hybrid && default_search().memory_type is None,
        default_search().sort_by is Recent && default_search().rrf_k.bits
            == 0x404e_0000_0000_0000,
{
}

/// A walk goes on over memories that are related and over parts, and over nothing else.
pub proof fn law_relations_that_lead_on(r: RelationType)
    ensures
        leads_on(r) <==> !(r is Updates) && !(r is Contradicts) && !(r is CausedBy) && !(
        r is ResultOf),
{
}

/// A memory has the wanted type, or any where none is wanted.
pub proof fn law_wanted_types(m: ScoredMemory, t: MemoryType)
    ensures
        has_type(m, None),
        has_type(m, Some(t)) <==> m.memory.memory_type == t,
{
}

/// What was found counts where it was loaded and is not forgotten, in order; a search that
/// failed found nothing.
pub proof fn law_loaded_matches_count(v: Vec<Option<Memory>>, w: Vec<Option<Memory>>, m: Memory)
    ensures
        matches_of(None).len() == 0,
        v@ == w@.push(Some(m)) && !m.forgotten ==> matches_of(Some(v)) == matches_of(Some(w)).push(
            m,
        ),
        v@ == w@.push(Some(m)) && m.forgotten ==> matches_of(Some(v)) == matches_of(Some(w)),
        v@ == w@.push(None) ==> matches_of(Some(v)) == matches_of(Some(w)),
{
    assert(w@.push(Some(m)).drop_last() == w@);
    assert(w@.push(None).drop_last() == w@);
}

} // verus!
