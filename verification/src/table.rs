//! The process table: a hash map from identifiers to processes.

use crate::ident::ProcessId;
use crate::process::Process;
use vstd::prelude::*;

verus! {

/// What a process table holds, as a mathematical map.
pub type Entries = Map<ProcessId, Process>;

/// A `hashbrown::HashMap` from process identifiers to processes. Verus does
/// not look inside it: what is known of it is what the functions below say
/// of `entries`.
#[verifier::external_body]
pub struct ProcessTable {
    map: hashbrown::HashMap<ProcessId, Process>,
}

/// The processes that a table holds, each under its key.
pub uninterp spec fn entries(table: ProcessTable) -> Map<ProcessId, Process>;

impl ProcessTable {
    /// `HashMap::new` of hashbrown: a map that holds nothing.
    #[verifier::external_body]
    pub(crate) fn new() -> (r: ProcessTable)
        ensures
            entries(r) == Entries::empty(),
    {
        ProcessTable { map: hashbrown::HashMap::new() }
    }

    /// `HashMap::insert` of hashbrown: the map holds `process` under `id`
    /// afterwards and is otherwise as before; what it held under `id`
    /// before, if anything, is returned.
    #[verifier::external_body]
    pub(crate) fn insert(&mut self, id: ProcessId, process: Process) -> (r: Option<Process>)
        ensures
            entries(*final(self)) == entries(*old(self)).insert(id, process),
            r == (if entries(*old(self)).contains_key(id) {
                Some(entries(*old(self))[id])
            } else {
                None
            }),
    {
        self.map.insert(id, process)
    }

    /// `HashMap::remove` of hashbrown: the map holds nothing under `id`
    /// afterwards and is otherwise as before; what it held under `id`
    /// before, if anything, is returned.
    #[verifier::external_body]
    pub(crate) fn remove(&mut self, id: ProcessId) -> (r: Option<Process>)
        ensures
            entries(*final(self)) == entries(*old(self)).remove(id),
            r == (if entries(*old(self)).contains_key(id) {
                Some(entries(*old(self))[id])
            } else {
                None
            }),
    {
        self.map.remove(&id)
    }

    /// `HashMap::get` of hashbrown: what the map holds under `id`, if
    /// anything.
    #[verifier::external_body]
    pub(crate) fn get(&self, id: ProcessId) -> (r: Option<&Process>)
        ensures
            r == (if entries(*self).contains_key(id) {
                Some(&entries(*self)[id])
            } else {
                None
            }),
    {
        self.map.get(&id)
    }

    /// `HashMap::get_mut` of hashbrown: what the map holds under `id`, if
    /// anything, to change it in place. The map holds under `id` afterwards
    /// what the caller leaves there, and is otherwise as before.
    #[verifier::external_body]
    pub(crate) fn get_mut(&mut self, id: ProcessId) -> (r: Option<&mut Process>)
        ensures
            match r {
                Some(process) => {
                    &&& entries(*old(self)).contains_key(id)
                    &&& *process == entries(*old(self))[id]
                    &&& entries(*final(self)) == entries(*old(self)).insert(id, *final(process))
                },
                None => !entries(*old(self)).contains_key(id) && entries(*final(self)) == entries(
                    *old(self),
                ),
            },
    {
        self.map.get_mut(&id)
    }

    /// `HashMap::keys` of hashbrown, gathered in a vector: every key of the
    /// map once, in an order that nothing is said about.
    #[verifier::external_body]
    pub(crate) fn keys(&self) -> (r: Vec<ProcessId>)
        ensures
            r@.no_duplicates(),
            r@.to_set() == entries(*self).dom(),
    {
        self.map.keys().copied().collect()
    }
}

} // verus!
