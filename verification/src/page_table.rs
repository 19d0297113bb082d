//! Page-table entries and a page table held as a table of translations.
//!
//! The table records, for each mapped virtual page, the physical page and the
//! flags of its leaf entry.  The same type serves the hypervisor's own stage
//! and the guest stage; the guest stage needs a root aligned to four pages.

use crate::address::{PhysPageNum, VirtPageNum};
use std::collections::BTreeMap;
use vstd::prelude::*;

verus! {

broadcast use vstd::std_specs::btree::group_btree_axioms;

/// Entry is valid.
pub const PTE_V: u8 = 0x01;

/// Page may be read.
pub const PTE_R: u8 = 0x02;

/// Page may be written.
pub const PTE_W: u8 = 0x04;

/// Page may be executed.
pub const PTE_X: u8 = 0x08;

/// Page may be used from the less privileged mode.
pub const PTE_U: u8 = 0x10;

/// Mapping is global.
pub const PTE_G: u8 = 0x20;

/// Page was accessed.
pub const PTE_A: u8 = 0x40;

/// Page was written.
pub const PTE_D: u8 = 0x80;

/// Translation mode field of a root token: three-level paging with 39-bit
/// addresses.
pub const MODE_SV39: u64 = 0x8000_0000_0000_0000;

/// A leaf entry: where a virtual page lives and what may be done with it.
#[derive(Copy, Clone, Debug, PartialEq, Eq, Structural)]
pub struct PageTableEntry {
    pub ppn: PhysPageNum,
    pub flags: u8,
}

impl PageTableEntry {
    pub fn new(ppn: PhysPageNum, flags: u8) -> (pte: Self)
        ensures
            pte.ppn == ppn,
            pte.flags == flags,
    {
        PageTableEntry { ppn, flags }
    }

    pub fn ppn(&self) -> (ppn: PhysPageNum)
        ensures
            ppn == self.ppn,
    {
        self.ppn
    }

    pub fn flags(&self) -> (flags: u8)
        ensures
            flags == self.flags,
    {
        self.flags
    }

    pub fn is_valid(&self) -> (b: bool)
        ensures
            b == (self.flags & PTE_V != 0),
    {
        self.flags & PTE_V != 0
    }

    pub fn readable(&self) -> (b: bool)
        ensures
            b == (self.flags & PTE_R != 0),
    {
        self.flags & PTE_R != 0
    }

    pub fn writable(&self) -> (b: bool)
        ensures
            b == (self.flags & PTE_W != 0),
    {
        self.flags & PTE_W != 0
    }

    pub fn executable(&self) -> (b: bool)
        ensures
            b == (self.flags & PTE_X != 0),
    {
        self.flags & PTE_X != 0
    }
}

/// A page table: its root page and the translations it holds.
pub struct PageTable {
    root_ppn: PhysPageNum,
    entries: BTreeMap<u64, PageTableEntry>,
}

impl View for PageTable {
    type V = Map<u64, PageTableEntry>;

    /// The translations, keyed by virtual page number.
    closed spec fn view(&self) -> Map<u64, PageTableEntry> {
        self.entries@
    }
}

/// The root token of a table rooted at page `root`: the mode in the top four
/// bits, the root page number below.
pub open spec fn spec_token(root: u64) -> u64 {
    MODE_SV39 | root
}

impl PageTable {
    /// The page that holds the root of the table.
    pub closed spec fn root(&self) -> PhysPageNum {
        self.root_ppn
    }

    /// An empty table rooted at `root`.
    pub fn new(root: PhysPageNum) -> (table: Self)
        ensures
            table@ == Map::<u64, PageTableEntry>::empty(),
            table.root() == root,
    {
        PageTable { root_ppn: root, entries: BTreeMap::new() }
    }

    /// An empty guest-stage table.  Its root spans four pages and starts at a
    /// multiple of four pages.
    pub fn new_guest(root: PhysPageNum) -> (table: Self)
        requires
            root.0 % 4 == 0,
        ensures
            table@ == Map::<u64, PageTableEntry>::empty(),
            table.root() == root,
    {
        PageTable { root_ppn: root, entries: BTreeMap::new() }
    }

    /// Installs a translation for `vpn` unless the page is mapped already, and
    /// says whether it did.  An existing translation is never replaced.
    pub fn map(&mut self, vpn: VirtPageNum, ppn: PhysPageNum, flags: u8) -> (installed: bool)
        ensures
            installed == !old(self)@.contains_key(vpn.0),
            installed ==> final(self)@ == old(self)@.insert(
                vpn.0,
                (PageTableEntry { ppn, flags: flags | PTE_V }),
            ),
            !installed ==> final(self)@ == old(self)@,
            final(self).root() == old(self).root(),
    {
        if self.entries.contains_key(&vpn.0) {
            false
        } else {
            self.entries.insert(vpn.0, PageTableEntry::new(ppn, flags | PTE_V));
            true
        }
    }

    /// Removes the translation of `vpn`, if there is one.
    pub fn unmap(&mut self, vpn: VirtPageNum)
        ensures
            final(self)@ == old(self)@.remove(vpn.0),
            final(self).root() == old(self).root(),
    {
        self.entries.remove(&vpn.0);
    }

    /// The entry that translates `vpn`.
    pub fn translate(&self, vpn: VirtPageNum) -> (pte: Option<PageTableEntry>)
        ensures
            pte == if self@.contains_key(vpn.0) {
                Some(self@[vpn.0])
            } else {
                None::<PageTableEntry>
            },
    {
        match self.entries.get(&vpn.0) {
            Some(e) => Some(*e),
            None => None,
        }
    }

    /// The value to load into the address-translation register to activate
    /// this table.
    pub fn token(&self) -> (t: u64)
        ensures
            t == spec_token(self.root().0),
    {
        MODE_SV39 | self.root_ppn.0
    }

    /// Number of mapped pages.
    pub fn len(&self) -> (n: usize)
        ensures
            n == self@.len(),
    {
        self.entries.len()
    }
}

} // verus!
