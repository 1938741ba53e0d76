//! A task's user address space, as the set of mapped virtual pages with the
//! permission of each.
use vstd::prelude::*;
use std::collections::BTreeMap;
use crate::config::PAGE_SIZE;

verus! {

broadcast use vstd::std_specs::btree::group_btree_axioms;

/// Access permissions of a mapped page.
#[derive(Clone, Copy, Debug, PartialEq, Eq, Structural)]
pub struct MapPermission {
    /// Readable.
    pub r: bool,
    /// Writable.
    pub w: bool,
    /// Executable.
    pub x: bool,
    /// Accessible from user mode.
    pub u: bool,
}

/// The virtual page number of the page that holds address `va`.
pub open spec fn floor_vpn(va: int) -> int {
    va / (PAGE_SIZE as int)
}

/// The number of the first page that starts at or above address `va`.
pub open spec fn ceil_vpn(va: int) -> int {
    (va + PAGE_SIZE - 1) / (PAGE_SIZE as int)
}

/// The pages `from <= vpn < to`, each with permission `perm`.
pub open spec fn area(from: int, to: int, perm: MapPermission) -> Map<usize, MapPermission> {
    Map::new(|v: usize| from <= v < to, |v: usize| perm)
}

/// A user address space: the mapped virtual page numbers and their
/// permissions.
pub struct MemorySet {
    pages: BTreeMap<usize, MapPermission>,
}

impl View for MemorySet {
    type V = Map<usize, MapPermission>;

    closed spec fn view(&self) -> Map<usize, MapPermission> {
        self.pages@
    }
}

impl MemorySet {
    /// An address space with no page mapped.
    pub fn new_bare() -> (ms: Self)
        ensures
            ms@ == Map::<usize, MapPermission>::empty(),
    {
        MemorySet { pages: BTreeMap::new() }
    }

    /// A copy of `user_space`, with every page mapped with the same
    /// permission (the address space a forked child starts with).
    pub fn from_existed_user(user_space: &MemorySet) -> (ms: Self)
        ensures
            ms@ == user_space@,
    {
        MemorySet { pages: user_space.pages.clone() }
    }

    /// Whether page `vpn` is mapped.
    pub fn find_vpn(&self, vpn: usize) -> (mapped: bool)
        ensures
            mapped == self@.contains_key(vpn),
    {
        self.pages.contains_key(&vpn)
    }

    /// Maps page `vpn` with permission `perm`.
    pub fn map_page(&mut self, vpn: usize, perm: MapPermission)
        requires
            !old(self)@.contains_key(vpn),
        ensures
            final(self)@ == old(self)@.insert(vpn, perm),
    {
        self.pages.insert(vpn, perm);
    }

    /// Unmaps page `vpn`, which must be mapped.
    pub fn unmap(&mut self, vpn: usize)
        requires
            old(self)@.contains_key(vpn),
        ensures
            final(self)@ == old(self)@.remove(vpn),
    {
        self.pages.remove(&vpn);
    }

    /// Maps, with permission `perm`, every page that the address range
    /// `[start_va, end_va)` touches: from the page holding `start_va` up to
    /// the first page at or above `end_va`. None of them may be mapped yet.
    pub fn insert_framed_area(&mut self, start_va: usize, end_va: usize, perm: MapPermission)
        requires
            start_va <= end_va,
            end_va + PAGE_SIZE - 1 <= usize::MAX,
            forall|v: usize|
                floor_vpn(start_va as int) <= v < ceil_vpn(end_va as int)
                    ==> !old(self)@.contains_key(v),
        ensures
            final(self)@ == old(self)@.union_prefer_right(
                area(floor_vpn(start_va as int), ceil_vpn(end_va as int), perm),
            ),
    {
        let from = start_va / PAGE_SIZE;
        let to = (end_va + (PAGE_SIZE - 1)) / PAGE_SIZE;
        assert(from <= to) by (nonlinear_arith)
            requires
                start_va <= end_va,
                from == start_va / 4096,
                to == (end_va + 4095) / 4096,
        ;
        let mut vpn = from;
        while vpn < to
            invariant
                from == floor_vpn(start_va as int),
                to == ceil_vpn(end_va as int),
                from <= vpn <= to,
                self@ == old(self)@.union_prefer_right(area(from as int, vpn as int, perm)),
            decreases to - vpn,
        {
            self.pages.insert(vpn, perm);
            assert(self@ == old(self)@.union_prefer_right(area(from as int, vpn + 1, perm)));
            vpn = vpn + 1;
        }
        assert(area(from as int, vpn as int, perm) == area(from as int, to as int, perm));
    }

    /// Unmaps every page: what the address space keeps after its task
    /// exited.
    pub fn recycle_data_pages(&mut self)
        ensures
            final(self)@ == Map::<usize, MapPermission>::empty(),
    {
        self.pages.clear();
    }
}

} // verus!
