//! Page mappings of one address space.
//!
//! A [`PageTable`] records which pages are mapped, whether user code may
//! touch them, and what each mapped page holds. Mapping takes frames from a
//! [`FrameAllocator`], unmapping gives them back.

use super::address::page_number;
use super::address::page_of;
use super::address::is_canonical;
use super::address::PAGE_COUNT;
use super::address::PAGE_SIZE;
use super::frames::FrameAllocator;
use std::collections::BTreeMap;
use vstd::prelude::*;

verus! {

/// What one mapped page looks like: its protection and its bytes.
pub struct PageView {
    pub user_accessible: bool,
    pub bytes: Seq<u8>,
}

/// The mapped pages of an address space, by page number.
pub type Mappings = Map<u64, PageView>;

/// A page of zero bytes.
pub open spec fn zero_bytes() -> Seq<u8> {
    Seq::new(4096, |i: int| 0u8)
}

/// A freshly mapped page: zero-filled.
pub open spec fn fresh_page(user_accessible: bool) -> PageView {
    PageView { user_accessible, bytes: zero_bytes() }
}

/// True when `page` lies in the run of `count` pages that starts at `start`.
pub open spec fn in_range(start: u64, count: nat, page: u64) -> bool {
    start <= page < start + count
}

/// True when none of the `count` pages from `start` on is mapped.
pub open spec fn range_free(m: Mappings, start: u64, count: nat) -> bool {
    forall|p: u64| in_range(start, count, p) ==> !m.contains_key(p)
}

/// True when each of the `count` pages from `start` on is mapped.
pub open spec fn range_mapped(m: Mappings, start: u64, count: nat) -> bool {
    forall|p: u64| in_range(start, count, p) ==> m.contains_key(p)
}

/// The mappings after `count` fresh pages were mapped from `start` on.
pub open spec fn with_range(
    m: Mappings,
    start: u64,
    count: nat,
    user_accessible: bool,
) -> Mappings {
    Map::new(
        |p: u64| m.contains_key(p) || in_range(start, count, p),
        |p: u64|
            if in_range(start, count, p) {
                fresh_page(user_accessible)
            } else {
                m[p]
            },
    )
}

/// The mappings after the `count` pages from `start` on were unmapped.
pub open spec fn without_range(m: Mappings, start: u64, count: nat) -> Mappings {
    Map::new(|p: u64| m.contains_key(p) && !in_range(start, count, p), |p: u64| m[p])
}

/// The mappings after the `count` pages from `dst` on took the bytes of the
/// `count` pages from `src` on, page by page.
pub open spec fn with_copy(m: Mappings, src: u64, dst: u64, count: nat) -> Mappings {
    Map::new(
        |p: u64| m.contains_key(p),
        |p: u64|
            if in_range(dst, count, p) {
                PageView {
                    user_accessible: m[p].user_accessible,
                    bytes: m[(p - dst + src) as u64].bytes,
                }
            } else {
                m[p]
            },
    )
}

/// A run of pages can be mapped when it stays within one half of the
/// address space: every address in it is canonical.
pub open spec fn range_valid(start: u64, count: nat) -> bool {
    ||| (start < 0x8_0000_0000 && start + count <= 0x8_0000_0000)
    ||| (0xF_FFF8_0000_0000 <= start < 0x10_0000_0000_0000 && start + count
        <= 0x10_0000_0000_0000)
}

/// True when the two runs of `count` pages from `a` and from `b` on share
/// no page.
pub open spec fn ranges_disjoint(a: u64, b: u64, count: nat) -> bool {
    a + count <= b || b + count <= a
}

/// A run of pages: `start` is the first page number, `end` the one after
/// the last.
#[derive(Clone, Copy, Debug, PartialEq, Eq, Structural)]
pub struct PageRange {
    pub start: u64,
    pub end: u64,
}

impl PageRange {
    /// The number of pages in the run; zero when `end` is not above `start`.
    pub open spec fn count(self) -> nat {
        if self.start < self.end {
            (self.end - self.start) as nat
        } else {
            0
        }
    }

    /// The number of pages in the run.
    pub fn len(&self) -> (n: u64)
        ensures
            n == self.count(),
    {
        if self.start < self.end {
            self.end - self.start
        } else {
            0
        }
    }
}

/// Why a run of pages could not be mapped.
#[derive(Clone, Copy, Debug, PartialEq, Eq, Structural)]
pub enum MapError {
    /// The run leaves the canonical part of the address space.
    InvalidRange,
    /// A page of the run is mapped already.
    PageAlreadyMapped,
    /// Fewer frames are available than the run has pages.
    FrameAllocationFailed,
}

/// Why a run of pages could not be unmapped.
#[derive(Clone, Copy, Debug, PartialEq, Eq, Structural)]
pub enum UnmapError {
    /// The run leaves the canonical part of the address space.
    InvalidRange,
    /// A page of the run is not mapped.
    PageNotMapped,
}

/// One mapped page. Bytes are stored once somebody writes to the page;
/// until then the page is all zeros.
struct PageEntry {
    user_accessible: bool,
    data: Option<Vec<u8>>,
}

impl Clone for PageEntry {
    fn clone(&self) -> (copy: PageEntry) {
        let data: Option<Vec<u8>> = match &self.data {
            Some(bytes) => Some(bytes.clone()),
            None => None,
        };
        PageEntry { user_accessible: self.user_accessible, data }
    }
}

impl PageEntry {
    spec fn wf(self) -> bool {
        self.data matches Some(v) ==> v@.len() == 4096
    }

    spec fn view(self) -> PageView {
        PageView {
            user_accessible: self.user_accessible,
            bytes: match self.data {
                Some(v) => v@,
                None => zero_bytes(),
            },
        }
    }
}

/// The page mappings of one address space.
pub struct PageTable {
    entries: BTreeMap<u64, PageEntry>,
}

impl View for PageTable {
    type V = Mappings;

    closed spec fn view(&self) -> Mappings {
        Map::new(|p: u64| self.entries@.contains_key(p), |p: u64| self.entries@[p].view())
    }
}

impl PageTable {
    /// Every mapped page has a number below `PAGE_COUNT` and holds exactly
    /// one page of bytes.
    pub closed spec fn wf(&self) -> bool {
        forall|p: u64| #[trigger]
            self.entries@.contains_key(p) ==> p < PAGE_COUNT && self.entries@[p].wf()
    }

    /// A table without mappings.
    pub fn new() -> (table: PageTable)
        ensures
            table.wf(),
            table@ == Map::<u64, PageView>::empty(),
    {
        let table = PageTable { entries: BTreeMap::new() };
        assert(table@ =~= Map::<u64, PageView>::empty());
        table
    }

    /// A table with the same mappings as this one: every page that is
    /// mapped here is mapped there, with the same protection and bytes.
    pub fn clone_level_4(&self) -> (table: PageTable)
        requires
            self.wf(),
        ensures
            table.wf(),
            table@ == self@,
    {
        let table = PageTable { entries: self.entries.clone() };
        assert(table@ =~= self@);
        table
    }

    /// True when `page` is mapped.
    pub fn is_mapped(&self, page: u64) -> (mapped: bool)
        ensures
            mapped == self@.contains_key(page),
    {
        self.entries.contains_key(&page)
    }

    /// True when `page` is mapped and user code may touch it.
    pub fn is_user_accessible(&self, page: u64) -> (user: bool)
        ensures
            user == (self@.contains_key(page) && self@[page].user_accessible),
    {
        match self.entries.get(&page) {
            Some(entry) => entry.user_accessible,
            None => false,
        }
    }

    /// The number of mapped pages.
    pub fn mapped_pages(&self) -> (n: usize)
        ensures
            n == self@.dom().len(),
    {
        assert(self@.dom() =~= self.entries@.dom());
        self.entries.len()
    }

    /// True when none of the `count` pages from `start` on is mapped.
    pub fn is_range_free(&self, start: u64, count: u64) -> (free: bool)
        requires
            start + count <= PAGE_COUNT,
        ensures
            free == range_free(self@, start, count as nat),
    {
        let mut i: u64 = 0;
        while i < count
            invariant
                i <= count,
                start + count <= PAGE_COUNT,
                range_free(self@, start, i as nat),
            decreases count - i,
        {
            if self.entries.contains_key(&(start + i)) {
                assert(in_range(start, count as nat, (start + i) as u64));
                return false;
            }
            i = i + 1;
        }
        true
    }

    /// True when each of the `count` pages from `start` on is mapped.
    pub fn is_range_mapped(&self, start: u64, count: u64) -> (mapped: bool)
        requires
            start + count <= PAGE_COUNT,
        ensures
            mapped == range_mapped(self@, start, count as nat),
    {
        let mut i: u64 = 0;
        while i < count
            invariant
                i <= count,
                start + count <= PAGE_COUNT,
                range_mapped(self@, start, i as nat),
            decreases count - i,
        {
            if !self.entries.contains_key(&(start + i)) {
                assert(in_range(start, count as nat, (start + i) as u64));
                return false;
            }
            i = i + 1;
        }
        true
    }

    /// The byte at `addr`; `None` when the address is not canonical or its
    /// page is not mapped.
    pub fn read_byte(&self, addr: u64) -> (byte: Option<u8>)
        requires
            self.wf(),
        ensures
            byte == (if is_canonical(addr) && self@.contains_key(page_of(addr)) {
                Some(self@[page_of(addr)].bytes[(addr % 4096) as int])
            } else {
                None
            }),
    {
        match page_number(addr) {
            Some(page) => match self.entries.get(&page) {
                Some(entry) => {
                    let offset: usize = (addr % PAGE_SIZE) as usize;
                    match &entry.data {
                        Some(bytes) => Some(bytes[offset]),
                        None => Some(0u8),
                    }
                },
                None => None,
            },
            None => None,
        }
    }

    /// Stores `value` at `addr`. Returns false, and changes nothing, when
    /// the address is not canonical or its page is not mapped. Otherwise
    /// that one byte changes and nothing else does.
    pub fn write_byte(&mut self, addr: u64, value: u8) -> (done: bool)
        requires
            old(self).wf(),
        ensures
            final(self).wf(),
            done == (is_canonical(addr) && old(self)@.contains_key(page_of(addr))),
            done ==> final(self)@ == old(self)@.insert(
                page_of(addr),
                PageView {
                    user_accessible: old(self)@[page_of(addr)].user_accessible,
                    bytes: old(self)@[page_of(addr)].bytes.update((addr % 4096) as int, value),
                },
            ),
            !done ==> final(self)@ == old(self)@,
    {
        let page: u64 = match page_number(addr) {
            Some(page) => page,
            None => {
                return false;
            },
        };
        let entry: PageEntry = match self.entries.remove(&page) {
            Some(entry) => entry,
            None => {
                assert(self@ =~= old(self)@);
                return false;
            },
        };
        let offset: usize = (addr % PAGE_SIZE) as usize;
        let user_accessible: bool = entry.user_accessible;
        let mut bytes: Vec<u8> = match entry.data {
            Some(bytes) => bytes,
            None => zeroed_page(),
        };
        bytes.set(offset, value);
        self.entries.insert(page, PageEntry { user_accessible, data: Some(bytes) });
        assert(self@ =~= old(self)@.insert(
            page_of(addr),
            PageView {
                user_accessible: old(self)@[page_of(addr)].user_accessible,
                bytes: old(self)@[page_of(addr)].bytes.update((addr % 4096) as int, value),
            },
        ));
        true
    }
}

/// Maps `count` fresh, zero-filled pages starting with the page that holds
/// `addr`, and takes one frame for each.
///
/// The run is mapped as a whole or not at all:
/// - `InvalidRange` when the run is not within one canonical half,
/// - else `PageAlreadyMapped` when one of its pages is mapped,
/// - else `FrameAllocationFailed` when fewer than `count` frames are left.
/// On an error neither the table nor the allocator changes.
pub fn map_range(
    addr: u64,
    count: u64,
    table: &mut PageTable,
    alloc: &mut FrameAllocator,
    user_access: bool,
) -> (result: Result<PageRange, MapError>)
    requires
        old(table).wf(),
        old(alloc).wf(),
    ensures
        final(table).wf(),
        final(alloc).wf(),
        final(alloc).total() == old(alloc).total(),
        result is Ok <==> range_valid(page_of(addr), count as nat) && range_free(
            old(table)@,
            page_of(addr),
            count as nat,
        ) && count <= old(alloc).available(),
        result matches Ok(range) ==> {
            &&& range.start == page_of(addr)
            &&& range.end == page_of(addr) + count
            &&& final(table)@ == with_range(old(table)@, page_of(addr), count as nat, user_access)
            &&& final(alloc).in_use() == old(alloc).in_use() + count
        },
        result matches Err(e) ==> {
            &&& final(table)@ == old(table)@
            &&& *final(alloc) == *old(alloc)
            &&& e == (if !range_valid(page_of(addr), count as nat) {
                MapError::InvalidRange
            } else if !range_free(old(table)@, page_of(addr), count as nat) {
                MapError::PageAlreadyMapped
            } else {
                MapError::FrameAllocationFailed
            })
        },
{
    let start: u64 = match page_number(addr) {
        Some(page) => page,
        None => {
            return Err(MapError::InvalidRange);
        },
    };
    let low: bool = start < 0x8_0000_0000 && count <= 0x8_0000_0000 - start;
    let high: bool = start >= 0xF_FFF8_0000_0000 && count <= PAGE_COUNT - start;
    if !low && !high {
        return Err(MapError::InvalidRange);
    }
    if !table.is_range_free(start, count) {
        return Err(MapError::PageAlreadyMapped);
    }
    if !alloc.allocate(count) {
        return Err(MapError::FrameAllocationFailed);
    }
    let mut i: u64 = 0;
    while i < count
        invariant
            i <= count,
            start + count <= PAGE_COUNT,
            table.wf(),
            table@ == with_range(old(table)@, start, i as nat, user_access),
        decreases count - i,
    {
        let ghost before = table@;
        let ghost goal = with_range(old(table)@, start, (i + 1) as nat, user_access);
        table.entries.insert(start + i, PageEntry { user_accessible: user_access, data: None });
        proof {
            assert forall|p: u64| table@.contains_key(p) <==> goal.contains_key(p) by {
                assert(before.contains_key(p) <==> (old(table)@.contains_key(p) || in_range(
                    start,
                    i as nat,
                    p,
                )));
            }
            assert forall|p: u64| table@.contains_key(p) implies table@[p] == goal[p] by {
                if p != start + i {
                    assert(before.contains_key(p));
                    assert(table@[p] == before[p]);
                }
            }
        }
        i = i + 1;
        assert(table@ =~= goal);
    }
    Ok(PageRange { start, end: start + count })
}

/// Unmaps the pages of `range`, and gives their frames back when `dealloc`
/// is set.
///
/// The run is unmapped as a whole or not at all: `PageNotMapped` comes
/// exactly when one of its pages is not mapped, and then nothing changes.
pub fn unmap_range(
    range: PageRange,
    table: &mut PageTable,
    alloc: &mut FrameAllocator,
    dealloc: bool,
) -> (result: Result<(), UnmapError>)
    requires
        old(table).wf(),
        old(alloc).wf(),
    ensures
        final(table).wf(),
        final(alloc).wf(),
        final(alloc).total() == old(alloc).total(),
        result is Ok <==> range_mapped(old(table)@, range.start, range.count()),
        result is Ok ==> {
            &&& final(table)@ == without_range(old(table)@, range.start, range.count())
            &&& final(alloc).used() == old(alloc).used()
            &&& final(alloc).in_use() == if !dealloc {
                old(alloc).in_use()
            } else if range.count() <= old(alloc).in_use() {
                old(alloc).in_use() - range.count()
            } else {
                0
            }
        },
        result matches Err(e) ==> {
            &&& e == UnmapError::PageNotMapped
            &&& final(table)@ == old(table)@
            &&& *final(alloc) == *old(alloc)
        },
{
    let count: u64 = range.len();
    let start: u64 = range.start;
    if count > 0 && range.end > PAGE_COUNT {
        proof {
            let last: u64 = (range.end - 1) as u64;
            assert(in_range(start, count as nat, last));
            assert(!table.entries@.contains_key(last));
        }
        return Err(UnmapError::PageNotMapped);
    }
    if count == 0 {
        assert(table@ =~= without_range(old(table)@, start, 0));
        if dealloc {
            alloc.deallocate(0);
        }
        return Ok(());
    }
    if !table.is_range_mapped(start, count) {
        return Err(UnmapError::PageNotMapped);
    }
    let mut i: u64 = 0;
    while i < count
        invariant
            i <= count,
            start + count <= PAGE_COUNT,
            table.wf(),
            table@ == without_range(old(table)@, start, i as nat),
        decreases count - i,
    {
        let ghost before = table@;
        let ghost goal = without_range(old(table)@, start, (i + 1) as nat);
        table.entries.remove(&(start + i));
        proof {
            assert forall|p: u64| table@.contains_key(p) <==> goal.contains_key(p) by {
                assert(before.contains_key(p) <==> (old(table)@.contains_key(p) && !in_range(
                    start,
                    i as nat,
                    p,
                )));
            }
            assert forall|p: u64| table@.contains_key(p) implies table@[p] == goal[p] by {
                assert(before.contains_key(p));
                assert(table@[p] == before[p]);
            }
        }
        i = i + 1;
        assert(table@ =~= goal);
    }
    if dealloc {
        alloc.deallocate(count);
    }
    Ok(())
}

/// Copies `count` pages of bytes from the run at page `src` to the run at
/// page `dst`.
///
/// Both runs must be mapped in full and must not share a page; otherwise
/// the result is false and nothing changes. Protection bits stay as they
/// are.
pub fn copy_range(table: &mut PageTable, src: u64, dst: u64, count: u64) -> (done: bool)
    requires
        old(table).wf(),
    ensures
        final(table).wf(),
        done == (range_mapped(old(table)@, src, count as nat) && range_mapped(
            old(table)@,
            dst,
            count as nat,
        ) && ranges_disjoint(src, dst, count as nat)),
        done ==> final(table)@ == with_copy(old(table)@, src, dst, count as nat),
        !done ==> final(table)@ == old(table)@,
{
    if count == 0 {
        assert(table@ =~= with_copy(old(table)@, src, dst, 0));
        return true;
    }
    if count > PAGE_COUNT || src > PAGE_COUNT - count {
        proof {
            let beyond: u64 = if src >= PAGE_COUNT {
                src
            } else {
                PAGE_COUNT
            };
            assert(in_range(src, count as nat, beyond));
            assert(!table.entries@.contains_key(beyond));
        }
        return false;
    }
    if dst > PAGE_COUNT - count {
        proof {
            let beyond: u64 = if dst >= PAGE_COUNT {
                dst
            } else {
                PAGE_COUNT
            };
            assert(in_range(dst, count as nat, beyond));
            assert(!table.entries@.contains_key(beyond));
        }
        return false;
    }
    let disjoint: bool = src + count <= dst || dst + count <= src;
    if !disjoint || !table.is_range_mapped(src, count) || !table.is_range_mapped(dst, count) {
        return false;
    }
    let mut i: u64 = 0;
    while i < count
        invariant
            i <= count,
            src + count <= PAGE_COUNT,
            dst + count <= PAGE_COUNT,
            ranges_disjoint(src, dst, count as nat),
            range_mapped(old(table)@, src, count as nat),
            range_mapped(old(table)@, dst, count as nat),
            old(table).wf(),
            table.wf(),
            table@ == with_copy(old(table)@, src, dst, i as nat),
        decreases count - i,
    {
        assert(in_range(src, count as nat, (src + i) as u64));
        assert(in_range(dst, count as nat, (dst + i) as u64));
        let ghost before = table@;
        let data: Option<Vec<u8>> = match table.entries.get(&(src + i)) {
            Some(entry) => match &entry.data {
                Some(bytes) => {
                    let copy = bytes.clone();
                    assert(copy@ =~= bytes@);
                    Some(copy)
                },
                None => None,
            },
            None => None,
        };
        let user_accessible: bool = match table.entries.remove(&(dst + i)) {
            Some(entry) => entry.user_accessible,
            None => false,
        };
        let ghost goal = with_copy(old(table)@, src, dst, (i + 1) as nat);
        table.entries.insert(dst + i, PageEntry { user_accessible, data });
        proof {
            assert forall|p: u64| table@.contains_key(p) <==> goal.contains_key(p) by {
                assert(before.contains_key(p) <==> old(table)@.contains_key(p));
            }
            assert forall|p: u64| table@.contains_key(p) implies table@[p] == goal[p] by {
                if p != dst + i {
                    assert(before.contains_key(p));
                    assert(table@[p] == before[p]);
                } else {
                    assert(before.contains_key((src + i) as u64));
                    assert(before[(src + i) as u64] == old(table)@[(src + i) as u64]);
                    assert(before.contains_key(p));
                    assert(before[p].user_accessible == old(table)@[p].user_accessible);
                }
            }
        }
        i = i + 1;
        assert(table@ =~= goal);
    }
    true
}

/// A page's worth of zero bytes.
fn zeroed_page() -> (bytes: Vec<u8>)
    ensures
        bytes@ == zero_bytes(),
{
    let mut bytes: Vec<u8> = Vec::new();
    let mut i: usize = 0;
    while i < 4096
        invariant
            i <= 4096,
            bytes@.len() == i,
            forall|j: int| 0 <= j < i ==> bytes@[j] == 0u8,
        decreases 4096 - i,
    {
        bytes.push(0u8);
        i = i + 1;
    }
    assert(bytes@ =~= zero_bytes());
    bytes
}

} // verus!
