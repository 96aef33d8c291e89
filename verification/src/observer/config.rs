use vstd::prelude::*;
use crate::text::strings::{owned, str_eq, trim_str, trim_view};
use crate::types::{ModeConfig, ObservationConcept, ObservationType};

verus! {

/// Prompt text: system identity.
pub const SYSTEM_IDENTITY: &'static str = "You are a memory observer. Your job is to analyze tool executions and
classify them into structured observations.

You do NOT have access to any tools. You only output XML.
Do NOT write explanations outside the XML tags.
Do NOT suggest code or actions.
Only classify what you observe.";

/// Prompt text: observer role.
pub const OBSERVER_ROLE: &'static str = "Classify the observation below into one of these types:
- bugfix: something was broken, now fixed
- feature: new capability added
- refactor: code restructured, behavior unchanged
- change: generic modification (docs, config, misc)
- discovery: learning about existing system
- decision: architectural/design choice with rationale
- security_alert: security issue needing attention
- security_note: security-relevant observation, not urgent

Tag with concepts:
- how-it-works: explanation of mechanism
- why-it-exists: reason for existence
- what-changed: summary of changes
- problem-solution: problem and resolution
- gotcha: tricky or unexpected behavior
- pattern: reusable pattern
- trade-off: design trade-off

Output ONLY the <observation> XML block.";

/// Prompt text: recording focus.
pub const RECORDING_FOCUS: &'static str = "Focus on:
1. Decisions the user made and WHY
2. Problems encountered and HOW they were solved
3. New information discovered about the codebase
4. Patterns and conventions learned
5. Security issues identified

Skip or classify as \"change\":
- Routine file reads without analysis
- Trivial linting/formatting
- Simple variable renames
- Boilerplate additions
- Standard import statements";

/// Prompt text: skip guidance.
pub const SKIP_GUIDANCE: &'static str = "When in doubt, classify as \"change\".
Only use \"bugfix\" when something was clearly broken and now fixed.
Only use \"feature\" when new capability was added.
Only use \"discovery\" when genuinely new information was learned.
Only use \"security_alert\" when an active security issue is found.";

/// Prompt text: footer.
pub const FOOTER: &'static str = "Output only valid XML. No markdown, no explanations outside the tags.";

/// The observation types of the code mode: id, label and description.
pub open spec fn code_mode_types() -> Seq<(Seq<char>, Seq<char>, Seq<char>)> {
    seq![
        ("bugfix"@, "Bug Fix"@, "Something was broken, now fixed"@),
        ("feature"@, "Feature"@, "New capability or functionality added"@),
        ("refactor"@, "Refactor"@, "Code restructured, behavior unchanged"@),
        ("change"@, "Change"@, "Generic modification (docs, config, misc)"@),
        ("discovery"@, "Discovery"@, "Learning about existing system"@),
        ("decision"@, "Decision"@, "Architectural/design choice with rationale"@),
        ("security_alert"@, "Security Alert"@, "A security issue that needs attention"@),
        ("security_note"@, "Security Note"@, "A security-relevant observation, not urgent"@),
    ]
}

/// The observation concepts of the code mode: id, label and description.
pub open spec fn code_mode_concepts() -> Seq<(Seq<char>, Seq<char>, Seq<char>)> {
    seq![
        ("how-it-works"@, "How It Works"@, "Explanation of mechanism"@),
        ("why-it-exists"@, "Why It Exists"@, "Reason for existence"@),
        ("what-changed"@, "What Changed"@, "Summary of changes made"@),
        ("problem-solution"@, "Problem → Solution"@, "Problem and its resolution"@),
        ("gotcha"@, "Gotcha"@, "Tricky or unexpected behavior"@),
        ("pattern"@, "Pattern"@, "Reusable pattern or idiom"@),
        ("trade-off"@, "Trade-off"@, "Design trade-off"@),
    ]
}

/// The fields of an observation type, as text.
pub open spec fn type_fields(t: ObservationType) -> (Seq<char>, Seq<char>, Seq<char>) {
    (t.id@, t.label@, t.description@)
}

/// The fields of an observation concept, as text.
pub open spec fn concept_fields(c: ObservationConcept) -> (Seq<char>, Seq<char>, Seq<char>) {
    (c.id@, c.label@, c.description@)
}

/// The default classification mode, for software development.
pub fn get_code_mode() -> (r: ModeConfig)
    ensures
        r.name@ == "Code Development"@,
        r.description@ == "Default mode for software development memories"@,
        r.version@ == "1.0.0"@,
        r.observation_types@.map_values(|t: ObservationType| type_fields(t)) == code_mode_types(),
        r.observation_concepts@.map_values(|c: ObservationConcept| concept_fields(c))
            == code_mode_concepts(),
{
    let observation_types = vec![
            ObservationType { id: owned("bugfix"), label: owned("Bug Fix"), description: owned("Something was broken, now fixed") },
            ObservationType { id: owned("feature"), label: owned("Feature"), description: owned("New capability or functionality added") },
            ObservationType { id: owned("refactor"), label: owned("Refactor"), description: owned("Code restructured, behavior unchanged") },
            ObservationType { id: owned("change"), label: owned("Change"), description: owned("Generic modification (docs, config, misc)") },
            ObservationType { id: owned("discovery"), label: owned("Discovery"), description: owned("Learning about existing system") },
            ObservationType { id: owned("decision"), label: owned("Decision"), description: owned("Architectural/design choice with rationale") },
            ObservationType { id: owned("security_alert"), label: owned("Security Alert"), description: owned("A security issue that needs attention") },
            ObservationType { id: owned("security_note"), label: owned("Security Note"), description: owned("A security-relevant observation, not urgent") },
        ];
    let observation_concepts = vec![
            ObservationConcept { id: owned("how-it-works"), label: owned("How It Works"), description: owned("Explanation of mechanism") },
            ObservationConcept { id: owned("why-it-exists"), label: owned("Why It Exists"), description: owned("Reason for existence") },
            ObservationConcept { id: owned("what-changed"), label: owned("What Changed"), description: owned("Summary of changes made") },
            ObservationConcept { id: owned("problem-solution"), label: owned("Problem → Solution"), description: owned("Problem and its resolution") },
            ObservationConcept { id: owned("gotcha"), label: owned("Gotcha"), description: owned("Tricky or unexpected behavior") },
            ObservationConcept { id: owned("pattern"), label: owned("Pattern"), description: owned("Reusable pattern or idiom") },
            ObservationConcept { id: owned("trade-off"), label: owned("Trade-off"), description: owned("Design trade-off") },
        ];
    assert(observation_types@.map_values(|t: ObservationType| type_fields(t)) =~= code_mode_types());
    assert(observation_concepts@.map_values(|c: ObservationConcept| concept_fields(c))
        =~= code_mode_concepts());
    ModeConfig {
        name: owned("Code Development"),
        description: owned("Default mode for software development memories"),
        version: owned("1.0.0"),
        observation_types,
        observation_concepts,
    }
}

/// The observation type ids that classification accepts.
pub open spec fn valid_type_ids() -> Seq<Seq<char>> {
    seq!["bugfix"@, "feature"@, "refactor"@, "change"@, "discovery"@, "decision"@, "security_alert"@, "security_note"@]
}

/// The concept ids that classification accepts.
pub open spec fn valid_concept_ids() -> Seq<Seq<char>> {
    seq!["how-it-works"@, "why-it-exists"@, "what-changed"@, "problem-solution"@, "gotcha"@, "pattern"@, "trade-off"@]
}

/// The accepted type for a proposed one: the trimmed proposal when it is a
/// valid type id, else `change`.
pub open spec fn validate_type_spec(t: Seq<char>) -> Seq<char> {
    if valid_type_ids().contains(trim_view(t)) {
        trim_view(t)
    } else {
        "change"@
    }
}

/// The accepted concept for a proposed one: the trimmed proposal when it is a
/// valid concept id, else nothing.
pub open spec fn validate_concept_spec(c: Seq<char>) -> Option<Seq<char>> {
    if valid_concept_ids().contains(trim_view(c)) {
        Some(trim_view(c))
    } else {
        None
    }
}

/// Whether a text is one of the listed ids.
fn is_listed(s: &str, ids: &Vec<&str>) -> (r: bool)
    ensures
        r == ids@.map_values(|x: &str| x@).contains(s@),
{
    let ghost views = ids@.map_values(|x: &str| x@);
    let mut i: usize = 0;
    while i < ids.len()
        invariant
            i <= ids@.len(),
            views == ids@.map_values(|x: &str| x@),
            forall|j: int| 0 <= j < i ==> views[j] != s@,
        decreases ids@.len() - i,
    {
        if str_eq(s, ids[i]) {
            assert(views[i as int] == s@);
            return true;
        }
        i = i + 1;
    }
    false
}

fn type_id_list() -> (v: Vec<&'static str>)
    ensures
        v@.map_values(|x: &str| x@) == valid_type_ids(),
{
    let v = vec!["bugfix", "feature", "refactor", "change", "discovery", "decision", "security_alert", "security_note"];
    assert(v@.map_values(|x: &str| x@) =~= valid_type_ids());
    v
}

fn concept_id_list() -> (v: Vec<&'static str>)
    ensures
        v@.map_values(|x: &str| x@) == valid_concept_ids(),
{
    let v = vec!["how-it-works", "why-it-exists", "what-changed", "problem-solution", "gotcha", "pattern", "trade-off"];
    assert(v@.map_values(|x: &str| x@) =~= valid_concept_ids());
    v
}

/// Accepts a proposed observation type: the trimmed proposal when it is one of
/// the valid ids, `change` otherwise.
pub fn validate_type(t: &str) -> (r: &str)
    ensures
        r@ == validate_type_spec(t@),
{
    let t = trim_str(t);
    if is_listed(t, &type_id_list()) {
        t
    } else {
        "change"
    }
}

/// Accepts a proposed concept: the trimmed proposal when it is one of the
/// valid ids, nothing otherwise.
pub fn validate_concept(c: &str) -> (r: Option<&str>)
    ensures
        r matches Some(s) ==> validate_concept_spec(c@) == Some(s@),
        r is None ==> validate_concept_spec(c@) is None,
{
    let c = trim_str(c);
    if is_listed(c, &concept_id_list()) {
        Some(c)
    } else {
        None
    }
}

/// Whatever is proposed, the accepted type is a valid type id.
pub proof fn lemma_validated_type_is_valid(t: Seq<char>)
    ensures
        valid_type_ids().contains(validate_type_spec(t)),
{
    if !valid_type_ids().contains(trim_view(t)) {
        assert(valid_type_ids()[3] == "change"@);
    }
}

/// The valid type ids are exactly the ids of the code mode's observation types.
pub proof fn lemma_valid_types_are_code_mode_ids()
    ensures
        valid_type_ids() == code_mode_types().map_values(|t: (Seq<char>, Seq<char>, Seq<char>)| t.0),
        valid_concept_ids() == code_mode_concepts().map_values(
            |c: (Seq<char>, Seq<char>, Seq<char>)| c.0,
        ),
{
    assert(valid_type_ids() =~= code_mode_types().map_values(
        |t: (Seq<char>, Seq<char>, Seq<char>)| t.0,
    ));
    assert(valid_concept_ids() =~= code_mode_concepts().map_values(
        |c: (Seq<char>, Seq<char>, Seq<char>)| c.0,
    ));
}

/// The structured result of classifying one tool execution.
#[derive(Debug, Clone)]
pub struct ObservationOutput {
    pub observation_type: String,
    pub title: String,
    pub subtitle: String,
    pub facts: Vec<String>,
    pub narrative: String,
    pub concepts: Vec<String>,
    pub files_read: Vec<String>,
    pub files_modified: Vec<String>,
}

impl Default for ObservationOutput {
    fn default() -> (r: Self)
        ensures
            r.observation_type@ == "change"@,
            r.title@ == "Observation"@,
            r.subtitle@ == Seq::<char>::empty(),
            r.facts@.len() == 0,
            r.narrative@ == Seq::<char>::empty(),
            r.concepts@.len() == 0,
            r.files_read@.len() == 0,
            r.files_modified@.len() == 0,
    {
        ObservationOutput {
            observation_type: owned("change"),
            title: owned("Observation"),
            subtitle: String::new(),
            facts: Vec::new(),
            narrative: String::new(),
            concepts: Vec::new(),
            files_read: Vec::new(),
            files_modified: Vec::new(),
        }
    }
}

} // verus!
