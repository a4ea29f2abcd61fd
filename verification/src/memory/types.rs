//! Memories and the associations between them.
use crate::config::F32;
use crate::message::Timestamp;
use crate::text::str_eq;
use vstd::prelude::*;

verus! {

/// What a memory is about.
#[derive(Clone, Copy, Debug, PartialEq, Eq, Structural)]
pub enum MemoryType {
    Fact,
    Preference,
    Decision,
    Identity,
    Event,
    Observation,
    Goal,
    Todo,
}

impl MemoryType {
    /// The name of a type.
    pub open spec fn name(self) -> Seq<char> {
        match self {
            MemoryType::Fact => "fact"@,
            MemoryType::Preference => "preference"@,
            MemoryType::Decision => "decision"@,
            MemoryType::Identity => "identity"@,
            MemoryType::Event => "event"@,
            MemoryType::Observation => "observation"@,
            MemoryType::Goal => "goal"@,
            MemoryType::Todo => "todo"@,
        }
    }

    /// The type with a name.
    pub open spec fn named(s: Seq<char>) -> Option<MemoryType> {
        if s == "fact"@ {
            Some(MemoryType::Fact)
        } else if s == "preference"@ {
            Some(MemoryType::Preference)
        } else if s == "decision"@ {
            Some(MemoryType::Decision)
        } else if s == "identity"@ {
            Some(MemoryType::Identity)
        } else if s == "event"@ {
            Some(MemoryType::Event)
        } else if s == "observation"@ {
            Some(MemoryType::Observation)
        } else if s == "goal"@ {
            Some(MemoryType::Goal)
        } else if s == "todo"@ {
            Some(MemoryType::Todo)
        } else {
            None
        }
    }

    /// Writes the name of a type.
    pub fn to_string(&self) -> (r: String)
        ensures
            r@ == self.name(),
    {
        match self {
            MemoryType::Fact => "fact".to_owned(),
            MemoryType::Preference => "preference".to_owned(),
            MemoryType::Decision => "decision".to_owned(),
            MemoryType::Identity => "identity".to_owned(),
            MemoryType::Event => "event".to_owned(),
            MemoryType::Observation => "observation".to_owned(),
            MemoryType::Goal => "goal".to_owned(),
            MemoryType::Todo => "todo".to_owned(),
        }
    }

    /// Reads the name of a type.
    pub fn from_name(s: &str) -> (r: Option<MemoryType>)
        ensures
            r == MemoryType::named(s@),
    {
        if str_eq(s, "fact") {
            Some(MemoryType::Fact)
        } else if str_eq(s, "preference") {
            Some(MemoryType::Preference)
        } else if str_eq(s, "decision") {
            Some(MemoryType::Decision)
        } else if str_eq(s, "identity") {
            Some(MemoryType::Identity)
        } else if str_eq(s, "event") {
            Some(MemoryType::Event)
        } else if str_eq(s, "observation") {
            Some(MemoryType::Observation)
        } else if str_eq(s, "goal") {
            Some(MemoryType::Goal)
        } else if str_eq(s, "todo") {
            Some(MemoryType::Todo)
        } else {
            None
        }
    }
}

/// How two memories are related.
#[derive(Clone, Copy, Debug, PartialEq, Eq, Structural)]
pub enum RelationType {
    RelatedTo,
    Updates,
    Contradicts,
    CausedBy,
    ResultOf,
    PartOf,
}

impl RelationType {
    /// The name of a relation.
    pub open spec fn name(self) -> Seq<char> {
        match self {
            RelationType::RelatedTo => "related_to"@,
            RelationType::Updates => "updates"@,
            RelationType::Contradicts => "contradicts"@,
            RelationType::CausedBy => "caused_by"@,
            RelationType::ResultOf => "result_of"@,
            RelationType::PartOf => "part_of"@,
        }
    }

    /// Writes the name of a relation.
    pub fn to_string(&self) -> (r: String)
        ensures
            r@ == self.name(),
    {
        match self {
            RelationType::RelatedTo => "related_to".to_owned(),
            RelationType::Updates => "updates".to_owned(),
            RelationType::Contradicts => "contradicts".to_owned(),
            RelationType::CausedBy => "caused_by".to_owned(),
            RelationType::ResultOf => "result_of".to_owned(),
            RelationType::PartOf => "part_of".to_owned(),
        }
    }
}

/// A memory.
pub struct Memory {
    pub id: String,
    pub content: String,
    pub memory_type: MemoryType,
    pub importance: F32,
    pub created_at: Timestamp,
    pub updated_at: Timestamp,
    pub last_accessed_at: Timestamp,
    pub access_count: i64,
    pub source: Option<String>,
    pub channel_id: Option<String>,
    pub forgotten: bool,
}

impl Clone for Memory {
    fn clone(&self) -> (r: Self)
        ensures
            r == *self,
    {
        Memory {
            id: self.id.clone(),
            content: self.content.clone(),
            memory_type: self.memory_type,
            importance: self.importance,
            created_at: self.created_at,
            updated_at: self.updated_at,
            last_accessed_at: self.last_accessed_at,
            access_count: self.access_count,
            source: crate::config::clone_opt(&self.source),
            channel_id: crate::config::clone_opt(&self.channel_id),
            forgotten: self.forgotten,
        }
    }
}

/// An association between two memories.
pub struct Association {
    pub id: String,
    pub source_id: String,
    pub target_id: String,
    pub relation_type: RelationType,
    pub weight: F32,
    pub created_at: Timestamp,
}

/// A memory that a search found.
pub struct MemorySearchResult {
    pub memory: Memory,
    pub score: F32,
    pub rank: usize,
}

/// Every type is read back from its name.
pub proof fn law_memory_type_round_trip(t: MemoryType)
    ensures
        MemoryType::named(t.name()) == Some(t),
{
    reveal_strlit("fact");
    reveal_strlit("preference");
    reveal_strlit("decision");
    reveal_strlit("identity");
    reveal_strlit("event");
    reveal_strlit("observation");
    reveal_strlit("goal");
    reveal_strlit("todo");
    assert("fact"@.len() == 4 && "goal"@.len() == 4 && "todo"@.len() == 4);
    assert("fact"@[0] == 'f' && "goal"@[0] == 'g' && "todo"@[0] == 't');
    assert("preference"@.len() == 10 && "observation"@.len() == 11 && "event"@.len() == 5);
    assert("decision"@.len() == 8 && "identity"@.len() == 8);
    assert("decision"@[0] == 'd' && "identity"@[0] == 'i');
}

/// The names of the relations differ.
proof fn lemma_relation_names()
    ensures
        "related_to"@ != "updates"@,
        "related_to"@ != "contradicts"@,
        "related_to"@ != "caused_by"@,
        "related_to"@ != "result_of"@,
        "related_to"@ != "part_of"@,
        "updates"@ != "contradicts"@,
        "updates"@ != "caused_by"@,
        "updates"@ != "result_of"@,
        "updates"@ != "part_of"@,
        "contradicts"@ != "caused_by"@,
        "contradicts"@ != "result_of"@,
        "contradicts"@ != "part_of"@,
        "caused_by"@ != "result_of"@,
        "caused_by"@ != "part_of"@,
        "result_of"@ != "part_of"@,
{
    reveal_strlit("related_to");
    reveal_strlit("updates");
    reveal_strlit("contradicts");
    reveal_strlit("caused_by");
    reveal_strlit("result_of");
    reveal_strlit("part_of");
    assert("updates"@[0] != "part_of"@[0]);
    assert("caused_by"@[0] != "result_of"@[0]);
    assert("related_to"@.len() == 10);
    assert("updates"@.len() == 7);
    assert("contradicts"@.len() == 11);
    assert("caused_by"@.len() == 9);
    assert("result_of"@.len() == 9);
    assert("part_of"@.len() == 7);
}

/// A text names a type of memory if and only if it is the name of one.
pub proof fn law_only_names_are_types(s: Seq<char>)
    ensures
        MemoryType::named(s) matches Some(t) ==> t.name() == s,
        MemoryType::named(s) is None <==> s != "fact"@ && s != "preference"@ && s != "decision"@ && s != "identity"@ && s != "event"@ && s != "observation"@ && s != "goal"@ && s != "todo"@,
        MemoryType::Fact.name() == "fact"@ && MemoryType::Goal.name() == "goal"@
            && MemoryType::Todo.name() == "todo"@ && MemoryType::Event.name() == "event"@,
        MemoryType::Preference.name() == "preference"@ && MemoryType::Decision.name()
            == "decision"@ && MemoryType::Identity.name() == "identity"@
            && MemoryType::Observation.name() == "observation"@,
{
}

/// A relation is told by its name.
pub proof fn law_relations_are_named(r: RelationType)
    ensures
        r is RelatedTo <==> r.name() == "related_to"@,
        r is Updates <==> r.name() == "updates"@,
        r is Contradicts <==> r.name() == "contradicts"@,
        r is CausedBy <==> r.name() == "caused_by"@,
        r is ResultOf <==> r.name() == "result_of"@,
        r is PartOf <==> r.name() == "part_of"@,
{
    lemma_relation_names();
}

} // verus!
