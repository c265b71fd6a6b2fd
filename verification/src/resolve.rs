//! What an imported symbol is bound to: a hook, or a stub of the host.

use crate::names::has_prefix;
use vstd::prelude::*;

verus! {

/// The addresses of the host functions that stand in for what a library
/// imports and no hook provides.
#[derive(Clone, Copy, Debug, PartialEq, Eq, Structural)]
pub struct StubTable {
    /// Stands in for every function of the pthread family; returns zero.
    pub pthread: usize,
    pub dlopen: usize,
    pub dlsym: usize,
    pub dlclose: usize,
    /// Stands in for every other symbol; calling it aborts.
    pub undefined: usize,
}

/// The stub that stands in for `name`.
pub open spec fn libc_symbol(name: Seq<char>, stubs: StubTable) -> usize {
    if has_prefix(name, "pthread_"@) {
        stubs.pthread
    } else if name == "dlopen"@ {
        stubs.dlopen
    } else if name == "dlsym"@ {
        stubs.dlsym
    } else if name == "dlclose"@ {
        stubs.dlclose
    } else {
        stubs.undefined
    }
}

/// The address that loaded code sees for `name`: its hook if it has one,
/// else its stub.
pub open spec fn resolved(
    name: Seq<char>,
    hooks: Map<Seq<char>, usize>,
    stubs: StubTable,
) -> usize {
    if hooks.contains_key(name) {
        hooks[name]
    } else {
        libc_symbol(name, stubs)
    }
}

/// A hook takes precedence: a name that has a hook resolves to the hook,
/// whatever the name is, that of a pthread function or of `dlopen` included.
pub proof fn lemma_hook_precedence(name: Seq<char>, hooks: Map<Seq<char>, usize>, stubs: StubTable)
    requires
        hooks.contains_key(name),
    ensures
        resolved(name, hooks, stubs) == hooks[name],
{
}

/// A name of the pthread family that has no hook resolves to the pthread
/// stub.
pub proof fn lemma_pthread_default(name: Seq<char>, hooks: Map<Seq<char>, usize>, stubs: StubTable)
    requires
        has_prefix(name, "pthread_"@),
        !hooks.contains_key(name),
    ensures
        resolved(name, hooks, stubs) == stubs.pthread,
{
}

} // verus!
