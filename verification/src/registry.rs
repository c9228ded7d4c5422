//! The session registry: the one shared mapping from session identifier to
//! display name. The surrounding program guards a `Registry` value with a
//! lock; the operations themselves are sequential and fully specified here.

use vstd::prelude::*;
use vstd::hash_map::HashMapWithView;

verus! {

/// The error a lookup returns when the identifier has no entry.
#[derive(PartialEq, Eq, Structural, Debug, Clone, Copy)]
pub enum RegistryError {
    NotFound,
}

/// Mapping from session identifier to display name. Every live session has
/// exactly one entry; an entry is inserted before the session's handler
/// starts and removed when it exits.
pub struct Registry {
    names: HashMapWithView<u64, String>,
}

impl View for Registry {
    type V = Map<u64, Seq<char>>;

    closed spec fn view(&self) -> Map<u64, Seq<char>> {
        self.names@.map_values(|n: String| n@)
    }
}

impl Registry {
    /// An empty registry: no session is known.
    pub fn new() -> (r: Registry)
        ensures
            r@ == Map::<u64, Seq<char>>::empty(),
    {
        broadcast use vstd::std_specs::hash::axiom_u64_obeys_hash_table_key_model;

        let names = HashMapWithView::<u64, String>::new();
        let r = Registry { names };
        proof {
            assert(r@ =~= Map::<u64, Seq<char>>::empty());
        }
        r
    }

    /// Unconditional upsert: the identifier now maps to `name`, whatever it
    /// mapped to before.
    pub fn insert(&mut self, id: u64, name: String)
        ensures
            final(self)@ == old(self)@.insert(id, name@),
    {
        self.names.insert(id, name);
        proof {
            assert(self@ =~= old(self)@.insert(id, name@));
        }
    }

    /// Looks the identifier up; fails with `NotFound` exactly when no entry
    /// exists for it.
    pub fn get(&self, id: u64) -> (r: Result<&String, RegistryError>)
        ensures
            match r {
                Ok(name) => self@.contains_key(id) && name@ == self@[id],
                Err(e) => !self@.contains_key(id) && e == RegistryError::NotFound,
            },
    {
        match self.names.get(&id) {
            Some(name) => Ok(name),
            None => Err(RegistryError::NotFound),
        }
    }

    /// Whether the identifier has an entry.
    pub fn contains(&self, id: u64) -> (r: bool)
        ensures
            r == self@.contains_key(id),
    {
        self.names.contains_key(&id)
    }

    /// Unconditional removal: a no-op when the identifier has no entry.
    pub fn remove(&mut self, id: u64)
        ensures
            final(self)@ == old(self)@.remove(id),
    {
        self.names.remove(&id);
        proof {
            assert(self@ =~= old(self)@.remove(id));
        }
    }
}

} // verus!
