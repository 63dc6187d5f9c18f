//! Static resolution and the running program agree: the depth that the
//! resolver records for a reference leads, at run time, to the scope of
//! the declaration.

use vstd::prelude::*;
use crate::environment::{ScopeView, ancestor, get_at_spec};
use crate::resolution::{Scope, depth_of, innermost};

verus! {

/// Whether the scopes of a running program mirror those of the
/// resolver: going outward from the scope `env`, every scope that the
/// resolver has open is there, and binds the names that the resolver's
/// scope declares.
pub open spec fn mirrors(scopes: Seq<Scope>, envs: Seq<ScopeView>, env: int) -> bool {
    forall|k: int|
        0 <= k < scopes.len() ==> match #[trigger] ancestor(envs, env, k as nat) {
            Some(s) => {
                &&& 0 <= s < envs.len()
                &&& forall|name: Seq<char>|
                    scopes[scopes.len() - 1 - k].contains_key(name) ==> envs[s].values.contains_key(
                        name,
                    )
            },
            None => false,
        }
}

/// The innermost scope that declares a name does declare it, and no
/// scope further in does.
pub proof fn lemma_innermost_declares(scopes: Seq<Scope>, name: Seq<char>)
    ensures
        match innermost(scopes, name) {
            Some(i) => {
                &&& 0 <= i < scopes.len()
                &&& scopes[i].contains_key(name)
                &&& forall|j: int| i < j < scopes.len() ==> !(#[trigger] scopes[j]).contains_key(name)
            },
            None => forall|j: int| 0 <= j < scopes.len() ==> !(#[trigger] scopes[j]).contains_key(
                name,
            ),
        },
    decreases scopes.len(),
{
    if scopes.len() > 0 && !scopes.last().contains_key(name) {
        lemma_innermost_declares(scopes.drop_last(), name);
        let rest = scopes.drop_last();
        assert forall|j: int| 0 <= j < rest.len() implies rest[j] == scopes[j] by {}
    }
}

/// A reference inside `k` scopes from the declaration of its name is
/// recorded with depth `k`, and reading at depth `k` from the scope of
/// the reference gives the value that the name has in the scope of the
/// declaration.
pub proof fn lemma_recorded_depth_reads_declaration(
    scopes: Seq<Scope>,
    envs: Seq<ScopeView>,
    env: int,
    name: Seq<char>,
)
    requires
        mirrors(scopes, envs, env),
        depth_of(scopes, name) is Some,
    ensures
        ({
            let k = depth_of(scopes, name)->0;
            &&& 0 <= k < scopes.len()
            &&& scopes[scopes.len() - 1 - k].contains_key(name)
            &&& forall|j: int|
                scopes.len() - 1 - k < j < scopes.len() ==> !(#[trigger] scopes[j]).contains_key(
                    name,
                )
            &&& ancestor(envs, env, k as nat) matches Some(s) && get_at_spec(
                envs,
                env,
                name,
                k as nat,
            ) == Some(envs[s].values[name])
        }),
{
    lemma_innermost_declares(scopes, name);
    let k = depth_of(scopes, name)->0;
    assert(ancestor(envs, env, k as nat) is Some);
}

} // verus!
