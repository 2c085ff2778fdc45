//! The concurrent map of the `dashmap` crate, in which the gateway keeps its
//! per-provider and per-session state. Each kind of content has its own name for
//! what the map holds, and its own wrappers around the map's methods.
use vstd::prelude::*;

verus! {

/// `dashmap::DashMap`, a concurrent hash map. Opaque to Verus: what a map holds
/// is given by the names declared beside each use.
#[verifier::external_type_specification]
#[verifier::external_body]
#[verifier::reject_recursive_types(K)]
#[verifier::reject_recursive_types(V)]
#[verifier::reject_recursive_types(S)]
pub struct ExDashMap<K, V, S>(dashmap::DashMap<K, V, S>);

} // verus!
