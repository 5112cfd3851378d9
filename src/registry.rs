use vstd::prelude::*;

use std::sync::{Arc, RwLock};

verus! {

/// Identity of a hook whose taps may be supplied by a bridged runtime.
#[derive(Debug, Clone, Copy, PartialEq, Eq, Structural)]
pub enum RegisterJsTapKind {
    BeforeRun,
    BeforeRunSync,
}

/// Whether `kinds` lists `kind`.
pub fn kinds_contain(kinds: &Vec<RegisterJsTapKind>, kind: RegisterJsTapKind) -> (r: bool)
    ensures
        r == kinds@.contains(kind),
{
    let mut i: usize = 0;
    while i < kinds.len()
        invariant
            i <= kinds.len(),
            forall|j: int| 0 <= j < i ==> kinds@[j] != kind,
        decreases kinds.len() - i,
    {
        if kinds[i] == kind {
            return true;
        }
        i += 1;
    }
    false
}

/// Declares `std::sync::RwLock`, carried opaque: it guards the registry.
#[verifier::external_type_specification]
#[verifier::external_body]
#[verifier::reject_recursive_types(T)]
pub struct ExRwLock<T: ?Sized>(RwLock<T>);

/// Relies on `RwLock::new`: a lock that holds `kinds`.
#[verifier::external_body]
fn new_kinds_lock(kinds: Vec<RegisterJsTapKind>) -> RwLock<Vec<RegisterJsTapKind>> {
    RwLock::new(kinds)
}

/// Relies on `RwLock::write`: the held list becomes `kinds`, under the
/// exclusive lock. A lock left poisoned by a panicking writer is taken over.
#[verifier::external_body]
fn replace_kinds(lock: &RwLock<Vec<RegisterJsTapKind>>, kinds: Vec<RegisterJsTapKind>) {
    let mut guard = lock.write().unwrap_or_else(|e| e.into_inner());
    *guard = kinds;
}

/// Relies on `RwLock::read`: a copy of the held list, taken under a shared
/// lock. What it holds depends on the writers that came before.
#[verifier::external_body]
fn read_kinds(lock: &RwLock<Vec<RegisterJsTapKind>>) -> Vec<RegisterJsTapKind> {
    lock.read().unwrap_or_else(|e| e.into_inner()).clone()
}

/// The kinds whose interceptors must always consult the host, even when no
/// static tap shows interest. Clones share one set.
#[derive(Clone, Debug)]
pub struct NonSkippableRegisters(Arc<RwLock<Vec<RegisterJsTapKind>>>);

impl NonSkippableRegisters {
    /// A registry whose set is empty.
    pub fn new() -> Self {
        NonSkippableRegisters(Arc::new(new_kinds_lock(Vec::new())))
    }

    /// Replaces the whole set by `kinds`.
    pub fn set_non_skippable_registers(&self, kinds: Vec<RegisterJsTapKind>) {
        replace_kinds(&self.0, kinds);
    }

    /// Whether `kind` is in the set as it stands now.
    pub fn is_non_skippable(&self, kind: &RegisterJsTapKind) -> bool {
        let kinds = read_kinds(&self.0);
        kinds_contain(&kinds, *kind)
    }
}

} // verus!
