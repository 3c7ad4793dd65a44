//! `dashmap::DashMap`, the concurrent map that the per-agent and per-provider stores keep
//! their entries in. Each store declares a name for what its map holds and wraps the few
//! map methods it calls.

use vstd::prelude::*;

verus! {

/// `dashmap::DashMap`, carried through opaque: what a map holds is known only through the
/// names and wrappers of the stores that use it.
#[verifier::external_type_specification]
#[verifier::external_body]
#[verifier::reject_recursive_types(K)]
#[verifier::reject_recursive_types(V)]
#[verifier::reject_recursive_types(S)]
pub struct ExDashMap<K, V, S>(dashmap::DashMap<K, V, S>);

} // verus!
