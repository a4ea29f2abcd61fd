//! How memories and associations are stored, and how the graph that they make is
//! walked.
use crate::config::F32;
use crate::conversation::channels;
use crate::conversation::channels::text_or_empty;
use crate::memory::search::SearchSort;
use crate::memory::types::{Association, Memory, MemoryType, RelationType};
use crate::message::Timestamp;
use crate::text;
use crate::text::{cat3, holds_text, join_texts, str_eq};
use vstd::prelude::*;

verus! {

/// One half, as a single-precision number.
pub open spec fn half() -> F32 {
    F32 { bits: 0x3f000000 }
}

/// One half, as a single-precision number.
fn one_half() -> (r: F32)
    ensures
        r == half(),
{
    F32 { bits: 0x3f000000 }
}

/// A memory as it is stored. A column that cannot be read is none.
pub struct MemoryRow {
    pub id: Option<String>,
    pub content: Option<String>,
    pub memory_type: Option<String>,
    pub importance: Option<F32>,
    pub created_at: Option<Timestamp>,
    pub updated_at: Option<Timestamp>,
    pub last_accessed_at: Option<Timestamp>,
    pub access_count: Option<i64>,
    pub source: Option<String>,
    pub channel_id: Option<String>,
    pub forgotten: Option<bool>,
}

/// The type that a stored name stands for: a fact where it is not known.
pub open spec fn stored_type(s: Seq<char>) -> MemoryType {
    match MemoryType::named(s) {
        Some(t) => t,
        None => MemoryType::Fact,
    }
}

/// Parse memory type from string.
pub fn parse_memory_type(s: &str) -> (r: MemoryType)
    ensures
        r == stored_type(s@),
{
    match MemoryType::from_name(s) {
        Some(t) => t,
        None => MemoryType::Fact,
    }
}

/// `r` is the memory of a row, read at a point in time.
pub open spec fn memory_from(row: MemoryRow, now: Timestamp, r: Memory) -> bool {
    &&& r.id@ == channels::or_empty(row.id)
    &&& r.content@ == channels::or_empty(row.content)
    &&& r.memory_type == stored_type(channels::or_empty(row.memory_type))
    &&& r.importance == row.importance.unwrap_or(half())
    &&& r.created_at == row.created_at.unwrap_or(now)
    &&& r.updated_at == row.updated_at.unwrap_or(now)
    &&& r.last_accessed_at == row.last_accessed_at.unwrap_or(now)
    &&& r.access_count == row.access_count.unwrap_or(0)
    &&& r.source == row.source
    &&& r.channel_id == row.channel_id
    &&& r.forgotten == row.forgotten.unwrap_or(false)
}

/// Convert a database row to a memory. What cannot be read has a default: half an
/// importance, the point in time of the reading.
pub fn row_to_memory(row: MemoryRow, now: Timestamp) -> (r: Memory)
    ensures
        memory_from(row, now, r),
{
    let name = text_or_empty(row.memory_type);
    Memory {
        id: text_or_empty(row.id),
        content: text_or_empty(row.content),
        memory_type: parse_memory_type(name.as_str()),
        importance: row.importance.unwrap_or(one_half()),
        created_at: row.created_at.unwrap_or(now),
        updated_at: row.updated_at.unwrap_or(now),
        last_accessed_at: row.last_accessed_at.unwrap_or(now),
        access_count: row.access_count.unwrap_or(0),
        source: row.source,
        channel_id: row.channel_id,
        forgotten: row.forgotten.unwrap_or(false),
    }
}

/// What a lookup of a memory gives, from the row that was found.
pub open spec fn loads(row: Option<MemoryRow>, now: Timestamp, r: Option<Memory>) -> bool {
    match row {
        Some(row) => r is Some && memory_from(row, now, r->0),
        None => r is None,
    }
}

/// What a lookup of a memory gives, from the row that was found.
pub fn loaded_memory(row: Option<MemoryRow>, now: Timestamp) -> (r: Option<Memory>)
    ensures
        loads(row, now, r),
{
    match row {
        Some(row) => Some(row_to_memory(row, now)),
        None => None,
    }
}

/// The columns are those that a memory is stored in.
pub open spec fn is_stored(m: Memory, r: MemoryRow) -> bool {
    &&& r.id == Some(m.id)
    &&& r.content == Some(m.content)
    &&& r.memory_type is Some
    &&& r.memory_type->0@ == m.memory_type.name()
    &&& r.importance == Some(m.importance)
    &&& r.created_at == Some(m.created_at)
    &&& r.updated_at == Some(m.updated_at)
    &&& r.last_accessed_at == Some(m.last_accessed_at)
    &&& r.access_count == Some(m.access_count)
    &&& r.source == m.source
    &&& r.channel_id == m.channel_id
    &&& r.forgotten == Some(m.forgotten)
}

/// The columns that a memory is stored in.
pub fn memory_to_row(m: &Memory) -> (r: MemoryRow)
    ensures
        is_stored(*m, r),
{
    MemoryRow {
        id: Some(m.id.clone()),
        content: Some(m.content.clone()),
        memory_type: Some(m.memory_type.to_string()),
        importance: Some(m.importance),
        created_at: Some(m.created_at),
        updated_at: Some(m.updated_at),
        last_accessed_at: Some(m.last_accessed_at),
        access_count: Some(m.access_count),
        source: crate::config::clone_opt(&m.source),
        channel_id: crate::config::clone_opt(&m.channel_id),
        forgotten: Some(m.forgotten),
    }
}

/// Two memories hold the same.
pub open spec fn same_memory(a: Memory, b: Memory) -> bool {
    &&& a.id@ == b.id@
    &&& a.content@ == b.content@
    &&& a.memory_type == b.memory_type
    &&& a.importance == b.importance
    &&& a.created_at == b.created_at
    &&& a.updated_at == b.updated_at
    &&& a.last_accessed_at == b.last_accessed_at
    &&& a.access_count == b.access_count
    &&& a.source == b.source
    &&& a.channel_id == b.channel_id
    &&& a.forgotten == b.forgotten
}

/// What is stored of a memory is read back as it was.
pub proof fn law_memory_round_trip(m: Memory, row: MemoryRow, now: Timestamp, r: Memory)
    requires
        is_stored(m, row),
        memory_from(row, now, r),
    ensures
        same_memory(r, m),
{
    crate::memory::types::law_memory_type_round_trip(m.memory_type);
}

/// The row that a table of memories holds under an id.
pub open spec fn row_under(table: Map<Seq<char>, MemoryRow>, id: Seq<char>) -> Option<MemoryRow> {
    if table.contains_key(id) {
        Some(table[id])
    } else {
        None
    }
}

/// In a table that keeps one row under each id, a memory that was saved is loaded as
/// it was. What other ids load stays as it was, and an id that was never saved loads
/// nothing.
pub proof fn law_saved_memory_is_loaded(
    table: Map<Seq<char>, MemoryRow>,
    m: Memory,
    row: MemoryRow,
    id: Seq<char>,
    now: Timestamp,
    r: Option<Memory>,
)
    requires
        is_stored(m, row),
        loads(row_under(table.insert(m.id@, row), id), now, r),
    ensures
        id == m.id@ ==> r is Some && same_memory(r->0, m),
        id != m.id@ ==> loads(row_under(table, id), now, r),
        id != m.id@ && !table.contains_key(id) ==> r is None,
{
    if id == m.id@ {
        law_memory_round_trip(m, row, now, r->0);
    }
}

/// An association as it is stored. A column that cannot be read is none.
pub struct AssociationRow {
    pub id: Option<String>,
    pub source_id: Option<String>,
    pub target_id: Option<String>,
    pub relation_type: Option<String>,
    pub weight: Option<F32>,
    pub created_at: Option<Timestamp>,
}

/// The relation that a stored name stands for: the plain one where it is not
/// known.
pub open spec fn stored_relation(s: Seq<char>) -> RelationType {
    if s == "updates"@ {
        RelationType::Updates
    } else if s == "contradicts"@ {
        RelationType::Contradicts
    } else if s == "caused_by"@ {
        RelationType::CausedBy
    } else if s == "result_of"@ {
        RelationType::ResultOf
    } else if s == "part_of"@ {
        RelationType::PartOf
    } else {
        RelationType::RelatedTo
    }
}

/// Parse relation type from string.
pub fn parse_relation_type(s: &str) -> (r: RelationType)
    ensures
        r == stored_relation(s@),
{
    if str_eq(s, "updates") {
        RelationType::Updates
    } else if str_eq(s, "contradicts") {
        RelationType::Contradicts
    } else if str_eq(s, "caused_by") {
        RelationType::CausedBy
    } else if str_eq(s, "result_of") {
        RelationType::ResultOf
    } else if str_eq(s, "part_of") {
        RelationType::PartOf
    } else {
        RelationType::RelatedTo
    }
}

/// `r` is the association of a row, read at a point in time.
pub open spec fn association_from(row: AssociationRow, now: Timestamp, r: Association) -> bool {
    &&& r.id@ == channels::or_empty(row.id)
    &&& r.source_id@ == channels::or_empty(row.source_id)
    &&& r.target_id@ == channels::or_empty(row.target_id)
    &&& r.relation_type == stored_relation(channels::or_empty(row.relation_type))
    &&& r.weight == row.weight.unwrap_or(half())
    &&& r.created_at == row.created_at.unwrap_or(now)
}

/// Convert a database row to an association.
pub fn row_to_association(row: AssociationRow, now: Timestamp) -> (r: Association)
    ensures
        association_from(row, now, r),
{
    let name = text_or_empty(row.relation_type);
    Association {
        id: text_or_empty(row.id),
        source_id: text_or_empty(row.source_id),
        target_id: text_or_empty(row.target_id),
        relation_type: parse_relation_type(name.as_str()),
        weight: row.weight.unwrap_or(one_half()),
        created_at: row.created_at.unwrap_or(now),
    }
}

/// Every relation is read back from its name.
pub proof fn law_relation_round_trip(t: RelationType)
    ensures
        stored_relation(t.name()) == t,
{
    reveal_strlit("related_to");
    reveal_strlit("updates");
    reveal_strlit("contradicts");
    reveal_strlit("caused_by");
    reveal_strlit("result_of");
    reveal_strlit("part_of");
    assert("related_to"@.len() == 10 && "updates"@.len() == 7 && "part_of"@.len() == 7);
    assert("updates"@[0] == 'u' && "part_of"@[0] == 'p');
    assert("contradicts"@.len() == 11);
    assert("caused_by"@.len() == 9 && "result_of"@.len() == 9);
    assert("caused_by"@[0] == 'c' && "result_of"@[0] == 'r');
}

/// How memories are ordered.
pub open spec fn order_clause(sort: SearchSort) -> Seq<char> {
    match sort {
        SearchSort::Recent => "ORDER BY created_at DESC"@,
        SearchSort::Importance => "ORDER BY importance DESC, created_at DESC"@,
        SearchSort::MostAccessed => "ORDER BY access_count DESC, created_at DESC"@,
    }
}

/// The query for memories that are not forgotten, in an order, of one type where
/// one is given.
pub open spec fn sorted_query_text(sort: SearchSort, typed: bool) -> Seq<char> {
    let select = if typed {
        "SELECT id, content, memory_type, importance, created_at, updated_at, last_accessed_at, access_count, source, channel_id, forgotten FROM memories WHERE memory_type = ? AND forgotten = 0 "@
    } else {
        "SELECT id, content, memory_type, importance, created_at, updated_at, last_accessed_at, access_count, source, channel_id, forgotten FROM memories WHERE forgotten = 0 "@
    };
    select + order_clause(sort) + " LIMIT ?"@
}

/// The query for sorted memories, with the name of the type to bind first, where
/// one is given.
pub fn sorted_query(sort: SearchSort, memory_type: Option<MemoryType>) -> (r: (
    String,
    Option<String>,
))
    ensures
        r.0@ == sorted_query_text(sort, memory_type is Some),
        text::opt_text(r.1) == (match memory_type {
            Some(t) => Some(t.name()),
            None => None,
        }),
{
    let order = match sort {
        SearchSort::Recent => "ORDER BY created_at DESC",
        SearchSort::Importance => "ORDER BY importance DESC, created_at DESC",
        SearchSort::MostAccessed => "ORDER BY access_count DESC, created_at DESC",
    };
    match memory_type {
        Some(t) => (
            cat3(
                "SELECT id, content, memory_type, importance, created_at, updated_at, last_accessed_at, access_count, source, channel_id, forgotten FROM memories WHERE memory_type = ? AND forgotten = 0 ",
                order,
                " LIMIT ?",
            ),
            Some(t.to_string()),
        ),
        None => (
            cat3(
                "SELECT id, content, memory_type, importance, created_at, updated_at, last_accessed_at, access_count, source, channel_id, forgotten FROM memories WHERE forgotten = 0 ",
                order,
                " LIMIT ?",
            ),
            None,
        ),
    }
}

/// A question mark per value, separated by commas.
pub open spec fn placeholders(n: nat) -> Seq<char> {
    text::join(Seq::new(n, |i: int| "?"@), ","@)
}

/// The query for the associations between a number of memories: none where there
/// are no memories. Every identifier is bound twice, first all of them as sources,
/// then all of them as targets.
pub fn between_query(n: usize) -> (r: Option<String>)
    ensures
        match r {
            Some(q) => n > 0 && q@
                == "SELECT id, source_id, target_id, relation_type, weight, created_at FROM associations WHERE source_id IN ("@
                + placeholders(n as nat) + ") AND target_id IN ("@ + placeholders(n as nat) + ")"@,
            None => n == 0,
        },
{
    if n == 0 {
        return None;
    }
    let mut marks: Vec<String> = Vec::new();
    let mut i: usize = 0;
    while i < n
        invariant
            i <= n,
            marks@.len() == i,
            forall|j: int| 0 <= j < i ==> (#[trigger] marks@[j])@ == "?"@,
        decreases n - i,
    {
        marks.push("?".to_owned());
        i = i + 1;
    }
    assert(text::texts(marks@) =~= Seq::new(n as nat, |i: int| "?"@));
    let list = join_texts(&marks, ",");
    let mut q = cat3(
        "SELECT id, source_id, target_id, relation_type, weight, created_at FROM associations WHERE source_id IN (",
        list.as_str(),
        ") AND target_id IN (",
    );
    q.append(list.as_str());
    q.append(")");
    Some(q)
}

/// The memory at the other end of an association of a memory.
pub open spec fn other_end(a: Association, id: Seq<char>) -> Seq<char> {
    if a.source_id@ == id {
        a.target_id@
    } else {
        a.source_id@
    }
}

/// The memory at the other end of an association of a memory.
pub fn neighbour<'a>(a: &'a Association, id: &str) -> (r: &'a String)
    ensures
        r@ == other_end(*a, id@),
{
    if str_eq(a.source_id.as_str(), id) {
        &a.target_id
    } else {
        &a.source_id
    }
}

/// A walk over the graph from a memory, in rounds: each round asks for the
/// associations of the memories that the round before reached.
pub struct NeighborWalk {
    seed: String,
    excluded: Vec<String>,
    /// What was reached, with the excluded memories and the seed.
    visited: Vec<String>,
    /// The memories of this round.
    frontier: Vec<String>,
    /// How many of them were asked for.
    asked: usize,
    /// The memories of the next round.
    next: Vec<String>,
    rounds_left: u32,
    associations: Vec<Association>,
}

/// What a [`NeighborWalk`] stands for.
pub struct WalkView {
    pub seed: Seq<char>,
    pub excluded: Seq<Seq<char>>,
    pub visited: Seq<Seq<char>>,
    pub frontier: Seq<Seq<char>>,
    pub asked: nat,
    pub next: Seq<Seq<char>>,
    pub rounds_left: u32,
    pub associations: Seq<Association>,
}

impl View for NeighborWalk {
    type V = WalkView;

    closed spec fn view(&self) -> WalkView {
        WalkView {
            seed: self.seed@,
            excluded: text::texts(self.excluded@),
            visited: text::texts(self.visited@),
            frontier: text::texts(self.frontier@),
            asked: self.asked as nat,
            next: text::texts(self.next@),
            rounds_left: self.rounds_left,
            associations: self.associations@,
        }
    }
}

/// What was reached and the next round, after a memory was met.
pub open spec fn met(
    visited: Seq<Seq<char>>,
    next: Seq<Seq<char>>,
    id: Seq<char>,
) -> (Seq<Seq<char>>, Seq<Seq<char>>) {
    if visited.contains(id) {
        (visited, next)
    } else {
        (visited.push(id), next.push(id))
    }
}

/// What was reached and the next round, after the associations of a memory were
/// followed.
pub open spec fn met_all(
    visited: Seq<Seq<char>>,
    next: Seq<Seq<char>>,
    node: Seq<char>,
    associations: Seq<Association>,
) -> (Seq<Seq<char>>, Seq<Seq<char>>)
    decreases associations.len(),
{
    if associations.len() == 0 {
        (visited, next)
    } else {
        let (v, n) = met_all(visited, next, node, associations.drop_last());
        met(v, n, other_end(associations.last(), node))
    }
}

/// The start of a walk.
pub open spec fn started(
    seed: Seq<char>,
    depth: u32,
    excluded: Seq<Seq<char>>,
) -> WalkView {
    WalkView {
        seed,
        excluded,
        visited: excluded.push(seed),
        frontier: seq![seed],
        asked: 0,
        next: Seq::empty(),
        rounds_left: depth,
        associations: Seq::empty(),
    }
}

/// A walk whose round is done takes up the next one.
pub open spec fn turned(w: WalkView) -> WalkView {
    if w.rounds_left > 0 && w.asked >= w.frontier.len() {
        WalkView {
            frontier: w.next,
            asked: 0,
            next: Seq::empty(),
            rounds_left: (w.rounds_left - 1) as u32,
            ..w
        }
    } else {
        w
    }
}

/// The memory whose associations a walk asks for.
pub open spec fn wanted(w: WalkView) -> Option<Seq<char>> {
    if w.rounds_left > 0 && w.asked < w.frontier.len() {
        Some(w.frontier[w.asked as int])
    } else {
        None
    }
}

/// A walk after the associations of the memory that it asked for came.
pub open spec fn followed(w: WalkView, associations: Seq<Association>) -> WalkView {
    let (visited, next) = met_all(w.visited, w.next, wanted(w)->0, associations);
    WalkView {
        visited,
        next,
        asked: w.asked + 1,
        associations: w.associations + associations,
        ..w
    }
}

/// The associations whose identifiers do not come earlier.
pub open spec fn distinct(associations: Seq<Association>) -> Seq<Association>
    decreases associations.len(),
{
    if associations.len() == 0 {
        Seq::empty()
    } else {
        let rest = distinct(associations.drop_last());
        if has_id(rest, associations.last().id@) {
            rest
        } else {
            rest.push(associations.last())
        }
    }
}

/// An association with an identifier is among some.
pub open spec fn has_id(associations: Seq<Association>, id: Seq<char>) -> bool {
    exists|i: int| 0 <= i < associations.len() && (#[trigger] associations[i]).id@ == id
}

/// The memories that a walk reached: neither the seed nor excluded.
pub open spec fn reached(w: WalkView) -> Seq<Seq<char>> {
    w.visited.filter(|id: Seq<char>| id != w.seed && !w.excluded.contains(id))
}

/// Pushes a text onto a list of texts.
proof fn lemma_push_text(v: Seq<String>, s: String)
    ensures
        text::texts(v.push(s)) == text::texts(v).push(s@),
{
    assert(text::texts(v.push(s)) =~= text::texts(v).push(s@));
}

impl NeighborWalk {
    /// Starts a walk of some rounds from a memory. Excluded memories are not
    /// reached.
    pub fn start(memory_id: &str, depth: u32, excluded: Vec<String>) -> (r: Self)
        ensures
            r@ == started(memory_id@, depth, text::texts(excluded@)),
    {
        let mut visited = text::clone_texts(&excluded);
        visited.push(memory_id.to_owned());
        let mut frontier: Vec<String> = Vec::new();
        frontier.push(memory_id.to_owned());
        let r = NeighborWalk {
            seed: memory_id.to_owned(),
            excluded,
            visited,
            frontier,
            asked: 0,
            next: Vec::new(),
            rounds_left: depth,
            associations: Vec::new(),
        };
        proof {
            assert(r@.visited =~= text::texts(excluded@).push(memory_id@));
            assert(r@.frontier =~= seq![memory_id@]);
            assert(r@.next =~= Seq::<Seq<char>>::empty());
        }
        r
    }

    /// The next memory whose associations are wanted. There is none when the rounds
    /// are over, or when a round reached nothing new.
    pub fn next_node(&mut self) -> (r: Option<String>)
        ensures
            final(self)@ == turned(old(self)@),
            text::opt_text(r) == wanted(final(self)@),
    {
        if self.rounds_left > 0 && self.asked >= self.frontier.len() {
            let mut next: Vec<String> = Vec::new();
            std::mem::swap(&mut self.next, &mut next);
            self.frontier = next;
            self.asked = 0;
            self.rounds_left = self.rounds_left - 1;
            assert(text::texts(self.next@) =~= Seq::<Seq<char>>::empty());
        }
        if self.rounds_left > 0 && self.asked < self.frontier.len() {
            Some(self.frontier[self.asked].clone())
        } else {
            None
        }
    }

    /// Follows the associations of the memory that was asked for.
    pub fn follow(&mut self, associations: Vec<Association>)
        requires
            wanted(old(self)@) is Some,
        ensures
            final(self)@ == followed(old(self)@, associations@),
    {
        let m: usize = self.frontier.len();
        let node = self.frontier[self.asked].clone();
        let ghost v0 = text::texts(self.visited@);
        let ghost n0 = text::texts(self.next@);
        let n: usize = associations.len();
        let mut i: usize = 0;
        while i < n
            invariant
                n == associations@.len(),
                i <= n,
                (text::texts(self.visited@), text::texts(self.next@)) == met_all(
                    v0,
                    n0,
                    node@,
                    associations@.take(i as int),
                ),
                self.seed == old(self).seed,
                self.excluded == old(self).excluded,
                self.frontier == old(self).frontier,
                self.asked == old(self).asked,
                self.rounds_left == old(self).rounds_left,
                self.associations == old(self).associations,
            decreases n - i,
        {
            proof {
                assert(associations@.take(i + 1).drop_last() =~= associations@.take(i as int));
                assert(associations@.take(i + 1).last() == associations@[i as int]);
            }
            let id = neighbour(&associations[i], node.as_str());
            if !holds_text(&self.visited, id.as_str()) {
                proof {
                    lemma_push_text(self.visited@, *id);
                    lemma_push_text(self.next@, *id);
                }
                self.visited.push(id.clone());
                self.next.push(id.clone());
            }
            i = i + 1;
        }
        assert(associations@.take(n as int) =~= associations@);
        let mut more = associations;
        self.associations.append(&mut more);
        assert(self.asked < m);
        self.asked = self.asked + 1;
    }

    /// Ends a walk: the memories that it reached, and the associations that it
    /// followed, each once.
    pub fn finish(self) -> (r: (Vec<String>, Vec<Association>))
        ensures
            text::texts(r.0@) == reached(self@),
            r.1@ == distinct(self@.associations),
    {
        let ghost w = self@;
        let ghost keep = |id: Seq<char>| id != w.seed && !w.excluded.contains(id);
        let mut ids: Vec<String> = Vec::new();
        let n: usize = self.visited.len();
        let mut i: usize = 0;
        assert(text::texts(ids@) =~= w.visited.take(0).filter(keep)) by {
            reveal_with_fuel(Seq::filter, 1);
        }
        while i < n
            invariant
                n == self.visited@.len(),
                i <= n,
                w == self@,
                keep == (|id: Seq<char>| id != w.seed && !w.excluded.contains(id)),
                text::texts(ids@) == w.visited.take(i as int).filter(keep),
            decreases n - i,
        {
            proof {
                assert(w.visited.take(i + 1).drop_last() =~= w.visited.take(i as int));
                assert(w.visited.take(i + 1).last() == self.visited@[i as int]@);
                reveal_with_fuel(Seq::filter, 2);
            }
            if !str_eq(self.visited[i].as_str(), self.seed.as_str()) && !holds_text(
                &self.excluded,
                self.visited[i].as_str(),
            ) {
                proof {
                    lemma_push_text(ids@, self.visited@[i as int]);
                }
                ids.push(self.visited[i].clone());
            }
            i = i + 1;
        }
        assert(w.visited.take(n as int) =~= w.visited);
        (ids, distinct_associations(self.associations))
    }
}

/// Whether an association with an identifier is among some.
fn holds_id(associations: &Vec<Association>, id: &str) -> (r: bool)
    ensures
        r == has_id(associations@, id@),
{
    let n: usize = associations.len();
    let mut i: usize = 0;
    while i < n
        invariant
            n == associations@.len(),
            i <= n,
            forall|j: int| 0 <= j < i ==> (#[trigger] associations@[j]).id@ != id@,
        decreases n - i,
    {
        if str_eq(associations[i].id.as_str(), id) {
            return true;
        }
        i = i + 1;
    }
    false
}

/// Keeps the first association with each identifier.
pub fn distinct_associations(associations: Vec<Association>) -> (r: Vec<Association>)
    ensures
        r@ == distinct(associations@),
{
    let mut out: Vec<Association> = Vec::new();
    for a in it: associations
        invariant
            it.seq() == associations@,
            out@ == distinct(associations@.take(it.index() as int)),
    {
        proof {
            let i = it.index() as int;
            assert(associations@.take(i + 1).drop_last() =~= associations@.take(i));
            assert(associations@.take(i + 1).last() == associations@[i]);
        }
        if !holds_id(&out, a.id.as_str()) {
            out.push(a);
        }
    }
    assert(associations@.take(associations@.len() as int) =~= associations@);
    out
}

/// The memories among loaded ones that are there and not forgotten.
pub open spec fn remembered(loaded: Seq<Option<Memory>>) -> Seq<Memory>
    decreases loaded.len(),
{
    if loaded.len() == 0 {
        Seq::empty()
    } else {
        let rest = remembered(loaded.drop_last());
        match loaded.last() {
            Some(m) => if m.forgotten {
                rest
            } else {
                rest.push(m)
            },
            None => rest,
        }
    }
}

/// Keeps the memories that are there and not forgotten.
pub fn keep_remembered(loaded: Vec<Option<Memory>>) -> (r: Vec<Memory>)
    ensures
        r@ == remembered(loaded@),
{
    let mut out: Vec<Memory> = Vec::new();
    for m in it: loaded
        invariant
            it.seq() == loaded@,
            out@ == remembered(loaded@.take(it.index() as int)),
    {
        proof {
            let i = it.index() as int;
            assert(loaded@.take(i + 1).drop_last() =~= loaded@.take(i));
            assert(loaded@.take(i + 1).last() == loaded@[i]);
        }
        if let Some(x) = m {
            if !x.forgotten {
                out.push(x);
            }
        }
    }
    assert(loaded@.take(loaded@.len() as int) =~= loaded@);
    out
}

/// A walk reaches neither the memory that it starts from nor an excluded one.
pub proof fn law_walk_excludes(w: WalkView, id: Seq<char>)
    requires
        reached(w).contains(id),
    ensures
        id != w.seed,
        !w.excluded.contains(id),
{
    let k = choose|k: int| 0 <= k < reached(w).len() && reached(w)[k] == id;
    w.visited.lemma_filter_pred(|id: Seq<char>| id != w.seed && !w.excluded.contains(id), k);
}

/// Every association of the memory that was asked for leads to a memory that the
/// walk has reached, and nothing that was reached is lost.
pub proof fn law_walk_reaches_neighbours(w: WalkView, associations: Seq<Association>, i: int)
    requires
        wanted(w) is Some,
        0 <= i < associations.len(),
    ensures
        followed(w, associations).visited.contains(other_end(associations[i], wanted(w)->0)),
        w.visited.is_prefix_of(followed(w, associations).visited),
    decreases associations.len(),
{
    let node = wanted(w)->0;
    lemma_met_all(w.visited, w.next, node, associations);
    if i < associations.len() - 1 {
        law_walk_reaches_neighbours(w, associations.drop_last(), i);
        lemma_met_all(w.visited, w.next, node, associations.drop_last());
        let v = met_all(w.visited, w.next, node, associations.drop_last()).0;
        let id = other_end(associations[i], node);
        let k = choose|k: int| 0 <= k < v.len() && v[k] == id;
        let after = met_all(w.visited, w.next, node, associations).0;
        assert(after[k] == v[k]);
    } else {
        let v = met_all(w.visited, w.next, node, associations.drop_last()).0;
        let id = other_end(associations.last(), node);
        let after = met_all(w.visited, w.next, node, associations).0;
        if !v.contains(id) {
            assert(after[v.len() as int] == id);
        }
    }
}

/// Following associations only adds to what was reached.
proof fn lemma_met_all(
    visited: Seq<Seq<char>>,
    next: Seq<Seq<char>>,
    node: Seq<char>,
    associations: Seq<Association>,
)
    ensures
        visited.is_prefix_of(met_all(visited, next, node, associations).0),
    decreases associations.len(),
{
    if associations.len() > 0 {
        lemma_met_all(visited, next, node, associations.drop_last());
    }
}

/// Of what was loaded, what is there and not forgotten is kept, in its order, and
/// nothing else.
pub proof fn law_remembered_are_kept(loaded: Seq<Option<Memory>>, m: Option<Memory>)
    ensures
        remembered(Seq::empty()).len() == 0,
        ({
            let before = remembered(loaded);
            let after = remembered(loaded.push(m));
            if m is Some && !m->0.forgotten {
                after.len() == before.len() + 1 && after.drop_last() == before && after.last()
                    == m->0
            } else {
                after == before
            }
        }),
{
    assert(loaded.push(m).drop_last() =~= loaded);
    assert(remembered(loaded.push(m)).len() > remembered(loaded).len() ==> remembered(
        loaded.push(m),
    ).drop_last() =~= remembered(loaded));
}

/// The kept associations are named as all are.
proof fn lemma_distinct_names(a: Seq<Association>, id: Seq<char>)
    ensures
        has_id(distinct(a), id) <==> has_id(a, id),
    decreases a.len(),
{
    if a.len() > 0 {
        let rest = a.drop_last();
        let before = distinct(rest);
        let after = distinct(a);
        lemma_distinct_names(rest, id);
        if has_id(rest, id) {
            let i = choose|i: int| 0 <= i < rest.len() && (#[trigger] rest[i]).id@ == id;
            assert(a[i].id@ == id);
        }
        if has_id(before, id) {
            let i = choose|i: int| 0 <= i < before.len() && (#[trigger] before[i]).id@ == id;
            assert(after[i].id@ == id);
        }
        if has_id(a, id) {
            let i = choose|i: int| 0 <= i < a.len() && (#[trigger] a[i]).id@ == id;
            if i < rest.len() {
                assert(rest[i].id@ == id);
            } else if !has_id(before, id) {
                assert(after[before.len() as int].id@ == id);
            }
        }
        if has_id(after, id) && !has_id(before, id) {
            let i = choose|i: int| 0 <= i < after.len() && (#[trigger] after[i]).id@ == id;
            if i < before.len() {
                assert(before[i].id@ == id);
            }
            assert(a[a.len() - 1].id@ == id);
        }
    }
}

/// An association is kept where none before it has its id: each id comes once, as it
/// first came, and in the order in which the ids came.
pub proof fn law_first_of_each_id_is_kept(a: Seq<Association>, x: Association)
    ensures
        distinct(Seq::empty()).len() == 0,
        ({
            let before = distinct(a);
            let after = distinct(a.push(x));
            if exists|i: int| 0 <= i < a.len() && (#[trigger] a[i]).id@ == x.id@ {
                after == before
            } else {
                after.len() == before.len() + 1 && after.drop_last() == before && after.last() == x
            }
        }),
{
    lemma_distinct_names(a, x.id@);
    assert(has_id(a, x.id@) <==> exists|i: int| 0 <= i < a.len() && (#[trigger] a[i]).id@ == x.id@);
    assert(a.push(x).drop_last() =~= a);
    assert(distinct(a.push(x)).len() > distinct(a).len() ==> distinct(a.push(x)).drop_last()
        =~= distinct(a));
}

/// An association leads from one of its ends to the other, whichever way it points.
pub proof fn law_association_leads_both_ways(a: Association)
    ensures
        other_end(a, a.source_id@) == a.target_id@,
        other_end(a, a.target_id@) == a.source_id@,
{
}

/// What following associations adds to what was reached it adds to the next round: the
/// memories that they lead to and that were not reached before, each once.
proof fn lemma_met_new(
    visited: Seq<Seq<char>>,
    next: Seq<Seq<char>>,
    node: Seq<char>,
    associations: Seq<Association>,
) -> (new: Seq<Seq<char>>)
    ensures
        met_all(visited, next, node, associations) == (visited + new, next + new),
        forall|k: int|
            0 <= k < new.len() ==> !visited.contains(#[trigger] new[k]) && exists|i: int|
                0 <= i < associations.len() && other_end(#[trigger] associations[i], node)
                    == new[k],
        forall|k: int, l: int| 0 <= k < l < new.len() ==> #[trigger] new[k] != #[trigger] new[l],
    decreases associations.len(),
{
    if associations.len() == 0 {
        assert(visited + Seq::empty() =~= visited);
        assert(next + Seq::empty() =~= next);
        Seq::empty()
    } else {
        let rest = associations.drop_last();
        let before = lemma_met_new(visited, next, node, rest);
        let id = other_end(associations.last(), node);
        let v = visited + before;
        let new = if v.contains(id) {
            before
        } else {
            before.push(id)
        };
        assert forall|k: int| 0 <= k < new.len() implies !visited.contains(#[trigger] new[k])
            && exists|i: int|
            0 <= i < associations.len() && other_end(#[trigger] associations[i], node) == new[k] by {
            if k < before.len() {
                assert(new[k] == before[k]);
                let i = choose|i: int|
                    0 <= i < rest.len() && other_end(#[trigger] rest[i], node) == before[k];
                assert(other_end(associations[i], node) == new[k]);
            } else {
                if visited.contains(id) {
                    let j = choose|j: int| 0 <= j < visited.len() && visited[j] == id;
                    assert(v[j] == id);
                }
                assert(other_end(associations[associations.len() - 1], node) == new[k]);
            }
        }
        assert forall|k: int, l: int| 0 <= k < l < new.len() implies #[trigger] new[k]
            != #[trigger] new[l] by {
            assert(new[k] == before[k]);
            if l < before.len() {
                assert(new[l] == before[l]);
            } else {
                assert(v[visited.len() + k] == before[k]);
            }
        }
        if !v.contains(id) {
            assert(visited + new =~= v.push(id));
            assert(next + new =~= (next + before).push(id));
        }
        new
    }
}

/// A step of a walk: the memories that associations lead to and that were not reached
/// before are reached, each once, and are those that the next round asks for. The
/// associations are kept, and one more memory of the round was asked for.
pub proof fn law_walk_goes_on_from_what_is_new(w: WalkView, associations: Seq<Association>)
    requires
        wanted(w) is Some,
    ensures
        ({
            let r = followed(w, associations);
            &&& r.associations == w.associations + associations
            &&& r.asked == w.asked + 1
            &&& r.frontier == w.frontier
            &&& r.rounds_left == w.rounds_left
            &&& r.seed == w.seed
            &&& r.excluded == w.excluded
            &&& exists|new: Seq<Seq<char>>|
                #![trigger w.visited + new]
                {
                    &&& r.visited == w.visited + new
                    &&& r.next == w.next + new
                    &&& forall|k: int|
                        0 <= k < new.len() ==> !w.visited.contains(#[trigger] new[k]) && exists|
                            i: int,
                        |
                            0 <= i < associations.len() && other_end(
                                #[trigger] associations[i],
                                wanted(w)->0,
                            ) == new[k]
                    &&& forall|k: int, l: int|
                        0 <= k < l < new.len() ==> #[trigger] new[k] != #[trigger] new[l]
                }
        }),
{
    let new = lemma_met_new(w.visited, w.next, wanted(w)->0, associations);
    assert(followed(w, associations).visited == w.visited + new);
}

/// A walk asks for the memories of a round one after the other; when all were asked for,
/// it takes up what the round reached, and it does so as often as it is deep. It starts
/// with the memory that it is given.
pub proof fn law_walk_goes_in_rounds(
    seed: Seq<char>,
    depth: u32,
    excluded: Seq<Seq<char>>,
    w: WalkView,
)
    ensures
        depth == 0 ==> wanted(turned(started(seed, depth, excluded))) is None,
        depth > 0 ==> wanted(turned(started(seed, depth, excluded))) == Some(seed),
        reached(started(seed, depth, excluded)).len() == 0,
        w.asked < w.frontier.len() ==> turned(w) == w,
        w.rounds_left > 0 && w.asked < w.frontier.len() ==> wanted(turned(w)) == Some(
            w.frontier[w.asked as int],
        ),
        w.rounds_left > 1 && w.asked >= w.frontier.len() && w.next.len() > 0 ==> wanted(turned(w))
            == Some(w.next[0]) && turned(w).frontier == w.next && turned(w).next.len() == 0
            && turned(w).rounds_left == w.rounds_left - 1,
        w.rounds_left <= 1 && w.asked >= w.frontier.len() ==> wanted(turned(w)) is None,
        w.asked >= w.frontier.len() && w.next.len() == 0 ==> wanted(turned(w)) is None,
        turned(w).visited == w.visited,
        turned(w).associations == w.associations,
{
    let s = started(seed, depth, excluded);
    if reached(s).len() > 0 {
        law_walk_brings_what_it_met(s, reached(s)[0]);
        let id = reached(s)[0];
        assert(reached(s).contains(id));
        let k = choose|k: int| 0 <= k < s.visited.len() && s.visited[k] == id;
        if k < excluded.len() {
            assert(excluded.contains(excluded[k]));
        }
    }
}

/// The memories that a walk reached are all that it met but the one that it starts from
/// and the excluded ones.
pub proof fn law_walk_brings_what_it_met(w: WalkView, id: Seq<char>)
    ensures
        reached(w).contains(id) <==> w.visited.contains(id) && id != w.seed && !w.excluded.contains(
            id,
        ),
{
    let keep = |id: Seq<char>| id != w.seed && !w.excluded.contains(id);
    assert(reached(w) == w.visited.filter(keep));
    if reached(w).contains(id) {
        law_walk_excludes(w, id);
        w.visited.lemma_filter_contains_rev(keep, id);
    }
    if w.visited.contains(id) && keep(id) {
        let i = choose|i: int| 0 <= i < w.visited.len() && w.visited[i] == id;
        w.visited.lemma_filter_contains(keep, i);
    }
}

/// A column that cannot be read has a default: half an importance, the point in time of
/// the reading, no access, not forgotten, and a fact where the type is not known.
pub proof fn law_unreadable_columns_have_defaults(row: MemoryRow, now: Timestamp, r: Memory)
    requires
        memory_from(row, now, r),
    ensures
        row.importance is None ==> r.importance.bits == 0x3f000000,
        row.created_at is None ==> r.created_at == now,
        row.updated_at is None ==> r.updated_at == now,
        row.last_accessed_at is None ==> r.last_accessed_at == now,
        row.access_count is None ==> r.access_count == 0,
        row.forgotten is None ==> !r.forgotten,
        row.forgotten matches Some(f) ==> r.forgotten == f,
        row.memory_type matches Some(s) ==> (MemoryType::named(s@) is None ==> r.memory_type
            == MemoryType::Fact),
{
}

/// A query for memories leaves out those that are forgotten, takes those of one type where
/// one is wanted, and puts first what its order asks for.
pub proof fn law_queries_say_what_is_wanted(sort: SearchSort)
    ensures
        text::has_text(sorted_query_text(sort, true), "memory_type = ? AND forgotten = 0"@),
        text::has_text(sorted_query_text(sort, false), "WHERE forgotten = 0"@),
        text::has_text(sorted_query_text(sort, true), order_clause(sort) + " LIMIT ?"@),
        text::has_text(sorted_query_text(sort, false), order_clause(sort) + " LIMIT ?"@),
        sort is Recent ==> order_clause(sort) == "ORDER BY created_at DESC"@,
        sort is Importance ==> order_clause(sort) == "ORDER BY importance DESC, created_at DESC"@,
        sort is MostAccessed ==> order_clause(sort)
            == "ORDER BY access_count DESC, created_at DESC"@,
{
    let a = "SELECT id, content, memory_type, importance, created_at, updated_at, last_accessed_at, access_count, source, channel_id, forgotten FROM memories WHERE memory_type = ? AND forgotten = 0 "@;
    let b = "SELECT id, content, memory_type, importance, created_at, updated_at, last_accessed_at, access_count, source, channel_id, forgotten FROM memories WHERE forgotten = 0 "@;
    let p = "SELECT id, content, memory_type, importance, created_at, updated_at, last_accessed_at, access_count, source, channel_id, forgotten FROM memories WHERE "@;
    let q = "SELECT id, content, memory_type, importance, created_at, updated_at, last_accessed_at, access_count, source, channel_id, forgotten FROM memories "@;
    reveal_strlit(
        "SELECT id, content, memory_type, importance, created_at, updated_at, last_accessed_at, access_count, source, channel_id, forgotten FROM memories WHERE memory_type = ? AND forgotten = 0 ",
    );
    reveal_strlit(
        "SELECT id, content, memory_type, importance, created_at, updated_at, last_accessed_at, access_count, source, channel_id, forgotten FROM memories WHERE forgotten = 0 ",
    );
    reveal_strlit(
        "SELECT id, content, memory_type, importance, created_at, updated_at, last_accessed_at, access_count, source, channel_id, forgotten FROM memories WHERE ",
    );
    reveal_strlit(
        "SELECT id, content, memory_type, importance, created_at, updated_at, last_accessed_at, access_count, source, channel_id, forgotten FROM memories ",
    );
    reveal_strlit("memory_type = ? AND forgotten = 0");
    reveal_strlit("WHERE forgotten = 0");
    reveal_strlit(" ");
    assert(a == p + "memory_type = ? AND forgotten = 0"@ + " "@);
    assert(b == q + "WHERE forgotten = 0"@ + " "@);
    let o = order_clause(sort) + " LIMIT ?"@;
    let none = Seq::<char>::empty();
    lemma_stands_in(p, "memory_type = ? AND forgotten = 0"@, " "@ + o, sorted_query_text(sort, true));
    lemma_stands_in(q, "WHERE forgotten = 0"@, " "@ + o, sorted_query_text(sort, false));
    lemma_stands_in(a, o, none, sorted_query_text(sort, true));
    lemma_stands_in(b, o, none, sorted_query_text(sort, false));
}

proof fn lemma_stands_in(a: Seq<char>, s: Seq<char>, b: Seq<char>, all: Seq<char>)
    requires
        all =~= a + s + b,
    ensures
        text::has_text(all, s),
{
    assert(all.subrange(a.len() as int, a.len() as int + s.len()) == s);
    assert(text::matches_at(all, s, a.len() as int));
}

/// As many question marks as there are values stand in a query, with commas between them.
pub proof fn law_placeholders_are_counted(n: nat)
    ensures
        placeholders(0).len() == 0,
        placeholders(1) == "?"@,
        n > 0 ==> placeholders(n + 1) == placeholders(n) + ","@ + "?"@,
{
    let marks = Seq::new(n, |i: int| "?"@);
    assert(Seq::new(n + 1, |i: int| "?"@) == marks.push("?"@));
    assert(Seq::new(1, |i: int| "?"@) == seq!["?"@]);
    assert(Seq::new(0, |i: int| "?"@) == Seq::<Seq<char>>::empty());
    text::law_texts_are_joined_in_order(marks, "?"@, ","@);
}

/// A stored relation is read by its name, and any other name is taken for a relation of
/// unknown kind. An association that cannot be read in full has half its weight and the
/// time of the reading.
pub proof fn law_associations_are_read(row: AssociationRow, now: Timestamp, r: Association)
    requires
        association_from(row, now, r),
    ensures
        row.source_id matches Some(x) ==> r.source_id@ == x@,
        row.target_id matches Some(x) ==> r.target_id@ == x@,
        row.id matches Some(x) ==> r.id@ == x@,
        row.weight matches Some(w) ==> r.weight == w,
        row.weight is None ==> r.weight.bits == 0x3f000000,
        row.created_at matches Some(t) ==> r.created_at == t,
        row.created_at is None ==> r.created_at == now,
        row.relation_type is None ==> r.relation_type is RelatedTo,
        row.relation_type matches Some(s) ==> {
            &&& (s@ == "updates"@ ==> r.relation_type is Updates)
            &&& (s@ == "contradicts"@ ==> r.relation_type is Contradicts)
            &&& (s@ == "caused_by"@ ==> r.relation_type is CausedBy)
            &&& (s@ == "result_of"@ ==> r.relation_type is ResultOf)
            &&& (s@ == "part_of"@ ==> r.relation_type is PartOf)
            &&& (s@ == "related_to"@ ==> r.relation_type is RelatedTo)
        },
{
    reveal_strlit("updates");
    reveal_strlit("contradicts");
    reveal_strlit("caused_by");
    reveal_strlit("result_of");
    reveal_strlit("part_of");
    reveal_strlit("related_to");
    assert("updates"@[0] == 'u' && "contradicts"@[0] == 'c' && "caused_by"@[0] == 'c');
    assert("result_of"@[0] == 'r' && "part_of"@[0] == 'p' && "related_to"@[0] == 'r');
    assert("updates"@.len() == 7 && "part_of"@.len() == 7);
    assert("contradicts"@.len() == 11 && "caused_by"@.len() == 9 && "result_of"@.len() == 9
        && "related_to"@.len() == 10);
}

/// A memory keeps the type that is stored, and is a fact where none is known.
pub proof fn law_stored_types_are_read(t: MemoryType, s: Seq<char>)
    ensures
        stored_type(t.name()) == t,
        MemoryType::named(s) is None ==> stored_type(s) is Fact,
{
    crate::memory::types::law_memory_type_round_trip(t);
}

} // verus!
