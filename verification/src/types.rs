use vstd::prelude::*;
use crate::text::strings::{ascii_lower, owned, str_eq, to_ascii_lowercase, trim_str, trim_view};

verus! {

/// The kind of a stored memory.
#[derive(Debug, Clone, Copy, PartialEq, Eq, Structural)]
pub enum MemoryKind {
    Observation,
    Summary,
    Prompt,
    Manual,
}

/// The name under which a kind is stored.
pub open spec fn kind_name(k: MemoryKind) -> Seq<char> {
    match k {
        MemoryKind::Observation => "observation"@,
        MemoryKind::Summary => "summary"@,
        MemoryKind::Prompt => "prompt"@,
        MemoryKind::Manual => "manual"@,
    }
}

/// The kind named by a text: its trimmed, ASCII-lowercased form is compared
/// with the kind names; anything unknown is an observation.
pub open spec fn parse_kind(value: Seq<char>) -> MemoryKind {
    let v = ascii_lower(trim_view(value));
    if v == "summary"@ {
        MemoryKind::Summary
    } else if v == "prompt"@ {
        MemoryKind::Prompt
    } else if v == "manual"@ {
        MemoryKind::Manual
    } else {
        MemoryKind::Observation
    }
}

impl MemoryKind {
    /// The name under which this kind is stored.
    pub fn as_str(&self) -> (r: &'static str)
        ensures
            r@ == kind_name(*self),
    {
        match self {
            MemoryKind::Observation => "observation",
            MemoryKind::Summary => "summary",
            MemoryKind::Prompt => "prompt",
            MemoryKind::Manual => "manual",
        }
    }

    /// Reads a kind from its name (case and surrounding white space ignored);
    /// unknown names give `Observation`.
    pub fn parse(value: &str) -> (r: Self)
        ensures
            r == parse_kind(value@),
    {
        let lowered = to_ascii_lowercase(trim_str(value));
        let v = lowered.as_str();
        if str_eq(v, "summary") {
            MemoryKind::Summary
        } else if str_eq(v, "prompt") {
            MemoryKind::Prompt
        } else if str_eq(v, "manual") {
            MemoryKind::Manual
        } else {
            MemoryKind::Observation
        }
    }
}

/// Parsing the name of a kind gives the kind back.
pub proof fn lemma_kind_name_round_trip(k: MemoryKind)
    ensures
        parse_kind(kind_name(k)) == k,
{
    reveal_strlit("observation");
    reveal_strlit("summary");
    reveal_strlit("prompt");
    reveal_strlit("manual");
    let n = kind_name(k);
    assert(trim_view(n) == n);
    assert(ascii_lower(n) =~= n);
}

/// A stored memory.
#[derive(Debug, Clone)]
pub struct Memory {
    pub id: i64,
    pub kind: String,
    pub observation_type: String,
    pub session_id: Option<String>,
    pub source: String,
    pub project: String,
    pub title: String,
    pub content: String,
    pub tags: String,
    pub facts: String,
    pub concepts: String,
    pub files_read: String,
    pub files_modified: String,
    pub narrative: Option<String>,
    pub created_at_epoch: i64,
    pub updated_at_epoch: i64,
}

impl Memory {
    /// Whether the memory is an observation.
    pub fn is_observation(&self) -> (r: bool)
        ensures
            r == (self.kind@ == "observation"@),
    {
        str_eq(self.kind.as_str(), "observation")
    }

    /// Whether the memory is a summary.
    pub fn is_summary(&self) -> (r: bool)
        ensures
            r == (self.kind@ == "summary"@),
    {
        str_eq(self.kind.as_str(), "summary")
    }

    /// Whether the memory is a user prompt.
    pub fn is_prompt(&self) -> (r: bool)
        ensures
            r == (self.kind@ == "prompt"@),
    {
        str_eq(self.kind.as_str(), "prompt")
    }

    /// Whether the memory was added by hand.
    pub fn is_manual(&self) -> (r: bool)
        ensures
            r == (self.kind@ == "manual"@),
    {
        str_eq(self.kind.as_str(), "manual")
    }
}

/// Where a stored vector comes from.
#[derive(Debug, Clone)]
pub struct VectorMeta {
    pub memory_id: i64,
    pub created_at: String,
}

/// A recorded session.
#[derive(Debug, Clone)]
pub struct Session {
    pub id: String,
    pub project: String,
    pub source: String,
    pub title: String,
    pub status: String,
    pub created_at_epoch: i64,
    pub updated_at_epoch: i64,
}

/// A type that an observation can be classified as.
#[derive(Debug, Clone)]
pub struct ObservationType {
    pub id: String,
    pub label: String,
    pub description: String,
}

/// A concept that an observation can be tagged with.
#[derive(Debug, Clone)]
pub struct ObservationConcept {
    pub id: String,
    pub label: String,
    pub description: String,
}

/// A classification mode: its observation types and concepts.
#[derive(Debug, Clone)]
pub struct ModeConfig {
    pub name: String,
    pub description: String,
    pub version: String,
    pub observation_types: Vec<ObservationType>,
    pub observation_concepts: Vec<ObservationConcept>,
}

} // verus!
