//! Requests for memories: how they are read, and the pages that they ask for.
use crate::memory::search;
use crate::memory::search::{SearchConfig, SearchMode, SearchSort};
use crate::memory::types::{Memory, MemoryType};
use crate::text;
use crate::text::{split_text, str_eq};
use vstd::prelude::*;

verus! {

/// Memories of a page where a request names no number.
pub const DEFAULT_MEMORIES_LIMIT: i64 = 50;

/// Memories of a page at most.
pub const MAX_MEMORIES_LIMIT: i64 = 200;

/// Results of a search where a request names no number.
pub const DEFAULT_SEARCH_LIMIT: usize = 20;

/// Results of a search at most.
pub const MAX_SEARCH_LIMIT: usize = 100;

/// Nodes of a graph where a request names no number.
pub const DEFAULT_GRAPH_LIMIT: i64 = 200;

/// Nodes of a graph at most.
pub const MAX_GRAPH_LIMIT: i64 = 500;

/// Rounds of a walk to neighbours where a request names no number.
pub const DEFAULT_NEIGHBOR_DEPTH: u32 = 1;

/// Rounds of a walk to neighbours at most.
pub const MAX_NEIGHBOR_DEPTH: u32 = 3;

/// The order that a request names: the most recent first where it is not known.
pub open spec fn named_sort(s: Seq<char>) -> SearchSort {
    if s == "importance"@ {
        SearchSort::Importance
    } else if s == "most_accessed"@ {
        SearchSort::MostAccessed
    } else {
        SearchSort::Recent
    }
}

/// Reads the order that a request names.
pub fn parse_sort(sort: &str) -> (r: SearchSort)
    ensures
        r == named_sort(sort@),
{
    if str_eq(sort, "importance") {
        SearchSort::Importance
    } else if str_eq(sort, "most_accessed") {
        SearchSort::MostAccessed
    } else {
        SearchSort::Recent
    }
}

/// Reads the type that a request names. An unknown type filters nothing.
pub fn parse_memory_type(name: &Option<String>) -> (r: Option<MemoryType>)
    ensures
        r == (match name {
            Some(s) => MemoryType::named(s@),
            None => None,
        }),
{
    match name {
        Some(s) => MemoryType::from_name(s.as_str()),
        None => None,
    }
}

/// A number, but at most a limit.
pub open spec fn capped(n: i64, max: i64) -> i64 {
    if n < max {
        n
    } else {
        max
    }
}

/// The number of memories to fetch for a page: those before it, and its own.
pub fn memories_to_fetch(limit: i64, max: i64, offset: usize) -> (r: i64)
    requires
        offset <= i64::MAX,
        capped(limit, max) + offset <= i64::MAX,
    ensures
        r == capped(limit, max) + offset,
{
    let l: i64 = if limit < max {
        limit
    } else {
        max
    };
    l + offset as i64
}

/// A page of memories.
pub struct MemoriesPage {
    pub memories: Vec<Memory>,
    /// The number of memories that were fetched.
    pub total: usize,
}

/// The page that fetched memories make: without the first ones.
pub fn memories_page(fetched: Vec<Memory>, offset: usize) -> (r: MemoriesPage)
    ensures
        r.total == fetched@.len(),
        r.memories@ == (if offset < fetched@.len() {
            fetched@.skip(offset as int)
        } else {
            Seq::empty()
        }),
{
    let total: usize = fetched.len();
    let mut all = fetched;
    let memories = if offset < total {
        all.split_off(offset)
    } else {
        Vec::new()
    };
    assert(offset < fetched@.len() ==> memories@ =~= fetched@.skip(offset as int));
    MemoriesPage { memories, total }
}

/// A page holds at most as many memories as it may, if no more are fetched than
/// are wanted.
pub proof fn law_page_is_bounded(
    limit: i64,
    max: i64,
    offset: usize,
    fetched: Seq<Memory>,
    page: Seq<Memory>,
)
    requires
        0 <= limit,
        0 <= max,
        fetched.len() <= capped(limit, max) + offset,
        page == (if offset < fetched.len() {
            fetched.skip(offset as int)
        } else {
            Seq::empty()
        }),
    ensures
        page.len() <= capped(limit, max),
        page.len() <= max,
{
}

/// The configuration of a search that a request asks for.
pub fn search_config(limit: usize, memory_type: &Option<String>) -> (r: SearchConfig)
    ensures
        r == (SearchConfig {
            mode: SearchMode::Hybrid,
            memory_type: match memory_type {
                Some(s) => MemoryType::named(s@),
                None => None,
            },
            max_results: if limit < 100 {
                limit
            } else {
                100
            },
            ..search::default_search()
        }),
{
    let mut config = SearchConfig::default();
    config.mode = SearchMode::Hybrid;
    config.memory_type = parse_memory_type(memory_type);
    config.max_results = if limit < MAX_SEARCH_LIMIT {
        limit
    } else {
        MAX_SEARCH_LIMIT
    };
    config
}

/// The rounds of a walk to neighbours.
pub fn neighbor_depth(depth: u32) -> (r: u32)
    ensures
        r == (if depth < 3 {
            depth
        } else {
            3
        }),
{
    if depth < MAX_NEIGHBOR_DEPTH {
        depth
    } else {
        MAX_NEIGHBOR_DEPTH
    }
}

/// Is not empty.
pub open spec fn nonempty() -> spec_fn(Seq<char>) -> bool {
    |s: Seq<char>| s.len() > 0
}

/// The memories that a client has already: what stands between the commas.
pub open spec fn listed(exclude: Option<Seq<char>>) -> Seq<Seq<char>> {
    match exclude {
        Some(s) => text::split(s, ',').filter(nonempty()),
        None => Seq::empty(),
    }
}

/// Reads the list of memories that a client has already.
pub fn exclude_ids(exclude: &Option<String>) -> (r: Vec<String>)
    ensures
        text::texts(r@) == listed(text::opt_text(*exclude)),
{
    let mut out: Vec<String> = Vec::new();
    match exclude {
        None => {
            assert(text::texts(out@) =~= Seq::<Seq<char>>::empty());
            out
        },
        Some(s) => {
            let parts = split_text(s.as_str(), ',');
            let ghost all = text::texts(parts@);
            let n: usize = parts.len();
            let mut i: usize = 0;
            proof {
                reveal_with_fuel(Seq::filter, 1);
                assert(text::texts(out@) =~= all.take(0).filter(nonempty()));
            }
            while i < n
                invariant
                    n == parts@.len(),
                    i <= n,
                    all == text::texts(parts@),
                    text::texts(out@) == all.take(i as int).filter(nonempty()),
                decreases n - i,
            {
                proof {
                    assert(all.take(i + 1).drop_last() =~= all.take(i as int));
                    assert(all.take(i + 1).last() == parts@[i as int]@);
                    reveal_with_fuel(Seq::filter, 2);
                }
                if !parts[i].as_str().is_empty() {
                    let ghost before = out@;
                    out.push(parts[i].clone());
                    assert(text::texts(out@) =~= text::texts(before).push(parts@[i as int]@));
                }
                i = i + 1;
            }
            assert(all.take(n as int) =~= all);
            out
        },
    }
}

/// A request orders memories by their importance or by how often they were used where it
/// says so, and else by their time.
pub proof fn law_named_orders(s: Seq<char>)
    ensures
        named_sort(s) is Importance <==> s == "importance"@,
        named_sort(s) is MostAccessed <==> s == "most_accessed"@,
        named_sort(s) is Recent <==> s != "importance"@ && s != "most_accessed"@,
{
    reveal_strlit("importance");
    reveal_strlit("most_accessed");
    assert("importance"@.len() != "most_accessed"@.len());
}

/// A number up to the limit stays, and a larger one becomes the limit.
pub proof fn law_numbers_are_capped(n: i64, max: i64)
    ensures
        n <= max ==> capped(n, max) == n,
        n > max ==> capped(n, max) == max,
{
}

/// Identifiers are listed with commas between them: one more behind a comma is the last
/// one, and what is empty is none.
pub proof fn law_listed_identifiers_are_read(list: Seq<char>, id: Seq<char>)
    requires
        !id.contains(','),
    ensures
        id.len() > 0 ==> listed(Some(list + ","@ + id)) == listed(Some(list)).push(id) && listed(
            Some(id),
        ) == seq![id],
        id.len() == 0 ==> listed(Some(list + ","@ + id)) == listed(Some(list)),
        listed(None).len() == 0 && listed(Some(Seq::empty())).len() == 0,
{
    reveal_strlit(",");
    assert(","@ == seq![',']);
    text::law_piece_behind_a_separator(list, ',', id);
    let none = Seq::<char>::empty();
    text::law_piece_behind_a_separator(list, ',', none);
    text::split(list, ',').lemma_filter_push(id, nonempty());
    let empty = Seq::<Seq<char>>::empty();
    empty.lemma_filter_len(nonempty());
    assert(empty.filter(nonempty()) == empty);
    assert(seq![id] == empty.push(id));
    assert(seq![none] == empty.push(none));
    empty.lemma_filter_push(id, nonempty());
    empty.lemma_filter_push(none, nonempty());
}

} // verus!
