//! What analysis keeps once it knows it.

use vstd::prelude::*;
use crate::semantic_analyzer::typing::Tables;

verus! {

/// What analysis keeps once it knows it: a type found for a node stays
/// found, and the array types stay where they are in their list, in which
/// none comes to stand twice. What it opens it closes: as many scopes are
/// open after as before.
pub open spec fn grows(before: Tables, after: Tables) -> bool {
    &&& before.scopes.len() == after.scopes.len()
    &&& forall|id: usize|
        before.inferred.dom().contains(id) ==> #[trigger] after.inferred.dom().contains(id)
    &&& before.arrays.len() <= after.arrays.len()
    &&& forall|i: int|
        0 <= i < before.arrays.len() ==> #[trigger] after.arrays[i] == before.arrays[i]
    &&& before.arrays.no_duplicates() ==> after.arrays.no_duplicates()
}

} // verus!
