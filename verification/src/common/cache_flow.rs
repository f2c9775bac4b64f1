//! The decisions of a read-through response cache: answer a hit from the
//! cache; on a miss fetch, store what was fetched, and pass errors on
//! without storing anything.

use vstd::prelude::*;

verus! {

/// What to do after looking a key up.
pub enum Lookup<V> {
    /// Answer with the cached value; nothing is fetched.
    Answer(V),
    /// Fetch the value.
    Fetch,
}

/// The step after a cache lookup.
pub fn after_lookup<V>(cached: Option<V>) -> (r: Lookup<V>)
    ensures
        match cached {
            Some(v) => r == Lookup::Answer(v),
            None => r is Fetch,
        },
{
    match cached {
        Some(v) => Lookup::Answer(v),
        None => Lookup::Fetch,
    }
}

/// The step after a fetch: the value to store (a fetched value), and the
/// answer (the fetch result itself).
pub fn after_fetch<V, E>(fetched: Result<V, E>) -> (r: (bool, Result<V, E>))
    ensures
        r.0 == fetched is Ok,
        r.1 == fetched,
{
    let store = fetched.is_ok();
    (store, fetched)
}

} // verus!
