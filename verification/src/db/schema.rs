use vstd::prelude::*;

verus! {

/// The schema version that the migrations bring a database to.
pub const LATEST_SCHEMA_VERSION: i32 = 2;

/// The migrations (by the version each brings the schema to) that a
/// database at `version` still needs, in the order they run.
pub open spec fn pending_migrations_spec(version: i32) -> Seq<i32> {
    if version < 1 {
        seq![1i32, 2i32]
    } else if version < 2 {
        seq![2i32]
    } else {
        Seq::empty()
    }
}

/// Decides which migrations a database at `version` still needs.
pub fn pending_migrations(version: i32) -> (r: Vec<i32>)
    ensures
        r@ == pending_migrations_spec(version),
        forall|i: int| 0 <= i < r@.len() ==> version < #[trigger] r@[i] <= LATEST_SCHEMA_VERSION,
{
    let mut r: Vec<i32> = Vec::new();
    if version < 1 {
        r.push(1);
    }
    if version < 2 {
        r.push(2);
    }
    proof {
        if version < 1 {
            assert(r@ =~= seq![1i32, 2i32]);
        } else if version < 2 {
            assert(r@ =~= seq![2i32]);
        } else {
            assert(r@ =~= Seq::<i32>::empty());
        }
    }
    r
}

} // verus!
