//! Host functions that stand in for symbols a library imports.

use vstd::hash_map::StringHashMap;
use vstd::prelude::*;

verus! {

/// A set of hooks: host addresses by symbol name.
pub struct HookSet {
    addresses: StringHashMap<usize>,
}

impl View for HookSet {
    type V = Map<Seq<char>, usize>;

    closed spec fn view(&self) -> Map<Seq<char>, usize> {
        self.addresses@
    }
}

impl HookSet {
    /// A set without hooks.
    pub fn new() -> (hooks: HookSet)
        ensures
            hooks@ == Map::<Seq<char>, usize>::empty(),
    {
        HookSet { addresses: StringHashMap::new() }
    }

    /// Binds `name` to `address`, in place of an earlier binding of `name`.
    pub fn insert(&mut self, name: String, address: usize)
        ensures
            final(self)@ == old(self)@.insert(name@, address),
    {
        self.addresses.insert(name, address);
    }

    /// The address that `name` is bound to, if it is bound.
    pub fn get(&self, name: &str) -> (address: Option<usize>)
        ensures
            address == (if self@.contains_key(name@) {
                Some(self@[name@])
            } else {
                None
            }),
    {
        match self.addresses.get(name) {
            Some(address) => Some(*address),
            None => None,
        }
    }
}

} // verus!
