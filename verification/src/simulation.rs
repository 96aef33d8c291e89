use vstd::prelude::*;
use rand::Rng;
use crate::observer::prompt::{decimal, decimal_string};
use crate::observer::record::NewMemory;
use crate::text::strings::{owned, push_str};

verus! {

/// The titles of the sample memories.
pub open spec fn sample_titles() -> Seq<Seq<char>> {
    seq![
        "Rust async programming guide"@,
        "SQLite optimization tips"@,
        "Machine learning pipeline design"@,
        "WebAssembly deep dive"@,
        "Distributed systems patterns"@,
        "TypeScript migration strategy"@,
        "Kubernetes deployment checklist"@,
        "PostgreSQL indexing guide"@,
        "React performance optimization"@,
        "Docker multi-stage builds"@,
    ]
}

/// The contents of the sample memories.
pub open spec fn sample_contents() -> Seq<Seq<char>> {
    seq![
        "Tokio provides async runtime for Rust. Use async/await for non-blocking I/O operations."@,
        "SQLite with WAL mode provides better concurrent read performance."@,
        "A typical ML pipeline includes data ingestion, preprocessing, feature engineering, model training."@,
        "WebAssembly enables running code at near-native speed in browsers."@,
        "CAP theorem states you can only have two of Consistency, Availability, and Partition Tolerance."@,
        "Converting large TypeScript codebases requires incremental migration."@,
        "Kubernetes deployments need pod resource limits, health checks, rolling updates."@,
        "B-tree indexes are the default in PostgreSQL. Consider BRIN indexes for large sequential data."@,
        "React.memo prevents unnecessary re-renders. useMemo caches expensive computations."@,
        "Multi-stage builds separate build and runtime environments."@,
    ]
}

/// The tags of the sample memories.
pub open spec fn sample_tags() -> Seq<Seq<char>> {
    seq![
        "rust,async,programming"@,
        "sqlite,database,optimization"@,
        "machine-learning,pipeline,mleops"@,
        "wasm,rust,frontend"@,
        "distributed-systems,architecture"@,
        "typescript,migration,javascript"@,
        "kubernetes,devops,deployment"@,
        "postgresql,database,performance"@,
        "react,performance,javascript"@,
        "docker,containers,devops"@,
    ]
}

fn title_list() -> (v: Vec<&'static str>)
    ensures
        v@.map_values(|x: &str| x@) == sample_titles(),
        v.len() == 10,
{
    let v = vec![
        "Rust async programming guide",
        "SQLite optimization tips",
        "Machine learning pipeline design",
        "WebAssembly deep dive",
        "Distributed systems patterns",
        "TypeScript migration strategy",
        "Kubernetes deployment checklist",
        "PostgreSQL indexing guide",
        "React performance optimization",
        "Docker multi-stage builds",
    ];
    assert(v@.map_values(|x: &str| x@) =~= sample_titles());
    v
}

fn content_list() -> (v: Vec<&'static str>)
    ensures
        v@.map_values(|x: &str| x@) == sample_contents(),
        v.len() == 10,
{
    let v = vec![
        "Tokio provides async runtime for Rust. Use async/await for non-blocking I/O operations.",
        "SQLite with WAL mode provides better concurrent read performance.",
        "A typical ML pipeline includes data ingestion, preprocessing, feature engineering, model training.",
        "WebAssembly enables running code at near-native speed in browsers.",
        "CAP theorem states you can only have two of Consistency, Availability, and Partition Tolerance.",
        "Converting large TypeScript codebases requires incremental migration.",
        "Kubernetes deployments need pod resource limits, health checks, rolling updates.",
        "B-tree indexes are the default in PostgreSQL. Consider BRIN indexes for large sequential data.",
        "React.memo prevents unnecessary re-renders. useMemo caches expensive computations.",
        "Multi-stage builds separate build and runtime environments.",
    ];
    assert(v@.map_values(|x: &str| x@) =~= sample_contents());
    v
}

fn tag_list() -> (v: Vec<&'static str>)
    ensures
        v@.map_values(|x: &str| x@) == sample_tags(),
        v.len() == 10,
{
    let v = vec![
        "rust,async,programming",
        "sqlite,database,optimization",
        "machine-learning,pipeline,mleops",
        "wasm,rust,frontend",
        "distributed-systems,architecture",
        "typescript,migration,javascript",
        "kubernetes,devops,deployment",
        "postgresql,database,performance",
        "react,performance,javascript",
        "docker,containers,devops",
    ];
    assert(v@.map_values(|x: &str| x@) =~= sample_tags());
    v
}

/// The `number`-th sample memory made of the given title, content and tags:
/// a manual `change` from source `simulation`, its title numbered.
pub open spec fn sample_ok(m: NewMemory, number: nat, title: int, content: int, tags: int) -> bool {
    &&& m.kind@ == "manual"@
    &&& m.observation_type@ == "change"@
    &&& m.session_id is None
    &&& m.source@ == "simulation"@
    &&& m.project@ == Seq::<char>::empty()
    &&& m.title@ == sample_titles()[title] + " #"@ + decimal(number)
    &&& m.content@ == sample_contents()[content]
    &&& m.tags@ == sample_tags()[tags]
    &&& m.facts@ == "[]"@
    &&& m.concepts@ == "[]"@
    &&& m.files_read@ == "[]"@
    &&& m.files_modified@ == "[]"@
    &&& m.narrative is None
}

/// The sample memory made of the given title, content and tags, numbered `number`.
pub fn sample_memory(number: usize, title: usize, content: usize, tags: usize) -> (r: NewMemory)
    requires
        title < 10,
        content < 10,
        tags < 10,
    ensures
        sample_ok(r, number as nat, title as int, content as int, tags as int),
{
    let titles = title_list();
    let contents = content_list();
    let tag_values = tag_list();
    let mut t = owned(titles[title]);
    push_str(&mut t, " #");
    push_str(&mut t, decimal_string(number as u64).as_str());
    NewMemory {
        kind: owned("manual"),
        observation_type: owned("change"),
        session_id: None,
        source: owned("simulation"),
        project: String::new(),
        title: t,
        content: owned(contents[content]),
        tags: owned(tag_values[tags]),
        facts: owned("[]"),
        concepts: owned("[]"),
        files_read: owned("[]"),
        files_modified: owned("[]"),
        narrative: None,
    }
}

/// The `i`-th memory (from 0) of the fixed sample set: the samples in turn, numbered from 1.
pub fn sequential_sample(i: usize) -> (r: NewMemory)
    requires
        i < usize::MAX,
    ensures
        sample_ok(r, (i + 1) as nat, (i % 10) as int, (i % 10) as int, (i % 10) as int),
{
    let idx = i % 10;
    sample_memory(i + 1, idx, idx, idx)
}

/// Wrapper of `rand::Rng::gen_range(0..n)` on the thread's generator: some
/// number below `n`.
#[verifier::external_body]
fn random_below(n: usize) -> (r: usize)
    requires
        n > 0,
    ensures
        r < n,
{
    rand::thread_rng().gen_range(0..n)
}

/// The `i`-th memory (from 0) of a random sample set: title, content and tags
/// each drawn at random, numbered from 1.
pub fn random_sample(i: usize) -> (r: NewMemory)
    requires
        i < usize::MAX,
    ensures
        exists|t: int, c: int, g: int|
            0 <= t < 10 && 0 <= c < 10 && 0 <= g < 10 && #[trigger] sample_ok(r, (i + 1) as nat, t, c, g),
{
    let t = random_below(10);
    let c = random_below(10);
    let g = random_below(10);
    let r = sample_memory(i + 1, t, c, g);
    assert(sample_ok(r, (i + 1) as nat, t as int, c as int, g as int));
    r
}

} // verus!
