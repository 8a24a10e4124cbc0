//! The concurrent map of `dashmap` that holds the server's shared tables.
use vstd::prelude::*;

use dashmap::DashMap;

verus! {

/// `dashmap::DashMap`, declared so that the tables can hold one; what a
/// table holds is named where the table is defined.
#[verifier::external_type_specification]
#[verifier::external_body]
#[verifier::reject_recursive_types(K)]
#[verifier::reject_recursive_types(V)]
#[verifier::reject_recursive_types(S)]
pub struct ExDashMap<K, V, S>(DashMap<K, V, S>);

} // verus!
