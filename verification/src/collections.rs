//! The hash tables that hold the debugger's breakpoints, watchpoints and
//! syscall filter.
//!
//! Both tables come from the `hashbrown` crate. Their contents are given by
//! [`addresses_of`] and [`watchpoints_of`]; every method here is one call into
//! that crate, and its contract is taken on trust.

use vstd::prelude::*;

use crate::watch::WatchKind;

verus! {

/// A set of 32-bit words: code addresses or syscall numbers.
#[verifier::external_body]
#[derive(Debug)]
pub struct AddressSet {
    inner: hashbrown::HashSet<u32>,
}

/// The members of an [`AddressSet`].
pub uninterp spec fn addresses_of(set: AddressSet) -> Set<u32>;

impl View for AddressSet {
    type V = Set<u32>;

    open spec fn view(&self) -> Set<u32> {
        addresses_of(*self)
    }
}

impl AddressSet {
    /// Trusted: `hashbrown::HashSet::new` makes a set without members.
    #[verifier::external_body]
    pub(crate) fn new() -> (r: AddressSet)
        ensures
            addresses_of(r) == Set::<u32>::empty(),
    {
        AddressSet { inner: hashbrown::HashSet::new() }
    }

    /// Trusted: `hashbrown::HashSet::insert` adds `value` and keeps the other
    /// members; it returns whether `value` was missing before.
    #[verifier::external_body]
    pub(crate) fn insert(&mut self, value: u32) -> (fresh: bool)
        ensures
            addresses_of(*final(self)) == addresses_of(*old(self)).insert(value),
            fresh == !addresses_of(*old(self)).contains(value),
    {
        self.inner.insert(value)
    }

    /// Trusted: `hashbrown::HashSet::remove` takes `value` out and keeps the
    /// other members; it returns whether `value` was present before.
    #[verifier::external_body]
    pub(crate) fn remove(&mut self, value: u32) -> (present: bool)
        ensures
            addresses_of(*final(self)) == addresses_of(*old(self)).remove(value),
            present == addresses_of(*old(self)).contains(value),
    {
        self.inner.remove(&value)
    }

    /// Trusted: `hashbrown::HashSet::clear` takes every member out.
    #[verifier::external_body]
    pub(crate) fn clear(&mut self)
        ensures
            addresses_of(*final(self)) == Set::<u32>::empty(),
    {
        self.inner.clear()
    }

    /// Trusted: `hashbrown::HashSet::contains` tells whether `value` is a
    /// member.
    #[verifier::external_body]
    pub(crate) fn contains(&self, value: u32) -> (r: bool)
        ensures
            r == addresses_of(*self).contains(value),
    {
        self.inner.contains(&value)
    }

    /// Trusted: `hashbrown::HashSet::is_empty` tells whether there is no
    /// member.
    #[verifier::external_body]
    pub(crate) fn is_empty(&self) -> (r: bool)
        ensures
            r == (addresses_of(*self) == Set::<u32>::empty()),
    {
        self.inner.is_empty()
    }
}

/// A table from watched addresses to the kind of their watchpoint.
#[verifier::external_body]
#[derive(Debug)]
pub struct WatchpointTable {
    inner: hashbrown::HashMap<u32, WatchKind>,
}

/// The entries of a [`WatchpointTable`].
pub uninterp spec fn watchpoints_of(table: WatchpointTable) -> Map<u32, WatchKind>;

impl View for WatchpointTable {
    type V = Map<u32, WatchKind>;

    open spec fn view(&self) -> Map<u32, WatchKind> {
        watchpoints_of(*self)
    }
}

impl WatchpointTable {
    /// Trusted: `hashbrown::HashMap::new` makes a table without entries.
    #[verifier::external_body]
    pub(crate) fn new() -> (r: WatchpointTable)
        ensures
            watchpoints_of(r) == (Map::<u32, WatchKind>::empty()),
    {
        WatchpointTable { inner: hashbrown::HashMap::new() }
    }

    /// Trusted: `hashbrown::HashMap::insert` maps `addr` to `kind`, keeps the
    /// other entries, and returns what `addr` was mapped to before.
    #[verifier::external_body]
    pub(crate) fn insert(&mut self, addr: u32, kind: WatchKind) -> (previous: Option<WatchKind>)
        ensures
            watchpoints_of(*final(self)) == watchpoints_of(*old(self)).insert(addr, kind),
            previous == watchpoints_of(*old(self)).get(addr),
    {
        self.inner.insert(addr, kind)
    }

    /// Trusted: `hashbrown::HashMap::remove` drops the entry of `addr`, keeps
    /// the other entries, and returns what `addr` was mapped to before.
    #[verifier::external_body]
    pub(crate) fn remove(&mut self, addr: u32) -> (previous: Option<WatchKind>)
        ensures
            watchpoints_of(*final(self)) == watchpoints_of(*old(self)).remove(addr),
            previous == watchpoints_of(*old(self)).get(addr),
    {
        self.inner.remove(&addr)
    }

    /// Trusted: `hashbrown::HashMap::get` gives what `addr` is mapped to, if
    /// anything.
    #[verifier::external_body]
    pub(crate) fn get(&self, addr: u32) -> (r: Option<WatchKind>)
        ensures
            r == watchpoints_of(*self).get(addr),
    {
        self.inner.get(&addr).copied()
    }
}

} // verus!
