//! Virtual addresses and 4 KiB pages, as plain numbers.
//!
//! Addresses are `u64` values. A page is named by its number, the address
//! of its first byte divided by the page size.

use vstd::prelude::*;
use x86_64::structures::idt::PageFaultErrorCode;
use x86_64::structures::paging::Page;
use x86_64::structures::paging::Size4KiB;
use x86_64::VirtAddr;

verus! {

/// Bytes in a page.
pub const PAGE_SIZE: u64 = 4096;

/// One past the largest page number of a 64-bit address space.
pub const PAGE_COUNT: u64 = 0x10_0000_0000_0000;

/// An address is canonical when bits 48 to 63 repeat bit 47: it lies in the
/// lower or in the upper half of the address space.
pub open spec fn is_canonical(addr: u64) -> bool {
    addr < 0x8000_0000_0000 || addr >= 0xffff_8000_0000_0000
}

/// The first address of the page that holds `addr`.
pub open spec fn page_floor(addr: u64) -> u64 {
    (addr - addr % 4096) as u64
}

/// The number of the page that holds `addr`.
pub open spec fn page_of(addr: u64) -> u64 {
    addr / 4096
}

/// The first address of page number `page`.
pub open spec fn page_start(page: u64) -> int {
    page * 4096
}

/// Calls `VirtAddr::try_new` of the x86_64 crate and reports whether it
/// accepted the address. It accepts exactly the addresses that equal their
/// own sign extension from bit 47, which are the canonical ones.
#[verifier::external_body]
pub(crate) fn try_canonical(addr: u64) -> (ok: bool)
    ensures
        ok == is_canonical(addr),
{
    VirtAddr::try_new(addr).is_ok()
}

/// Calls `Page::containing_address` of the x86_64 crate on a canonical
/// address and returns the page's start address, which is the address with
/// its low twelve bits cleared. `VirtAddr::new` panics on other addresses.
#[verifier::external_body]
pub(crate) fn containing_page_start(addr: u64) -> (start: u64)
    requires
        is_canonical(addr),
    ensures
        start == page_floor(addr),
{
    Page::<Size4KiB>::containing_address(VirtAddr::new(addr)).start_address().as_u64()
}

/// Reads the x86_64 crate's `PageFaultErrorCode::PROTECTION_VIOLATION` flag
/// out of a raw error code. The flag is bit 0; `from_bits_truncate` drops
/// unknown bits and keeps that one.
#[verifier::external_body]
pub(crate) fn has_protection_violation(err_code: u64) -> (set: bool)
    ensures
        set == (err_code % 2 == 1),
{
    PageFaultErrorCode::from_bits_truncate(err_code).contains(
        PageFaultErrorCode::PROTECTION_VIOLATION,
    )
}

/// True when `addr` is canonical.
pub fn canonical(addr: u64) -> (ok: bool)
    ensures
        ok == is_canonical(addr),
{
    try_canonical(addr)
}

/// The first address of the page that holds `addr`; `None` for an address
/// that is not canonical.
pub fn page_base(addr: u64) -> (start: Option<u64>)
    ensures
        start == (if is_canonical(addr) {
            Some(page_floor(addr))
        } else {
            None
        }),
{
    if try_canonical(addr) {
        Some(containing_page_start(addr))
    } else {
        None
    }
}

/// The number of the page that holds `addr`; `None` for an address that is
/// not canonical.
pub fn page_number(addr: u64) -> (page: Option<u64>)
    ensures
        page == (if is_canonical(addr) {
            Some(page_of(addr))
        } else {
            None
        }),
        page matches Some(p) ==> p < PAGE_COUNT && page_start(p) == page_floor(addr),
{
    match page_base(addr) {
        Some(start) => Some(start / PAGE_SIZE),
        None => None,
    }
}

/// True when a raw page-fault error code reports a protection violation,
/// that is an access that a present mapping forbids.
pub fn is_protection_violation(err_code: u64) -> (set: bool)
    ensures
        set == (err_code % 2 == 1),
{
    has_protection_violation(err_code)
}

} // verus!
