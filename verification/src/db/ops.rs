use vstd::prelude::*;

verus! {

/// How many memories, vectors and sessions a database holds.
#[derive(Debug, Clone, Copy, PartialEq, Eq, Structural)]
pub struct DbStats {
    pub memory_count: usize,
    pub vector_count: usize,
    pub session_count: usize,
}

} // verus!
