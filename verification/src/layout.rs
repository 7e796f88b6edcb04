//! Hypercall numbers and guest memory layout.
//!
//! These numbers are agreed on by the host, the bare-metal guest, the init
//! process of the Linux guest and the JS runners.

use vstd::prelude::*;

verus! {

// Hypercall IDs
pub const HC_CONSOLE: u64 = 0x01;

pub const HC_TIME: u64 = 0x02;

pub const HC_RANDOM: u64 = 0x03;

pub const HC_DB_READ: u64 = 0x10;

pub const HC_DB_WRITE: u64 = 0x11;

pub const HC_ALLOC: u64 = 0x20;

/// Debug hypercall of the bare-metal guest's exception vectors.
pub const HC_EXCEPTION: u64 = 0xDE;

pub const HC_READY: u64 = 0xFE;

pub const HC_EXIT: u64 = 0xFF;

// Bare-metal guest
pub const GUEST_BASE: u64 = 0x4000_0000;

/// 64 MiB total.
pub const GUEST_MEM_SIZE: usize = 0x400_0000;

/// Mailbox: 64 KiB at offset 1 MiB from GUEST_BASE. The host writes a request
/// here before resuming a forked VM.
pub const MAILBOX_OFFSET: u64 = 0x10_0000;

pub const MAILBOX_GPA: u64 = 0x4010_0000;

pub const MAILBOX_SIZE: usize = 0x1_0000;

/// Heap: starts at 2 MiB offset, extends to end minus stack.
pub const HEAP_OFFSET: u64 = 0x20_0000;

pub const HEAP_GPA: u64 = 0x4020_0000;

/// 60 MiB for heap.
pub const HEAP_SIZE: usize = 0x3C0_0000;

/// Stack: top 2 MiB of guest memory (grows downward).
pub const STACK_SIZE: usize = 0x20_0000;

// Linux guest
pub const GUEST_RAM_BASE: u64 = 0x4000_0000;

/// 512 MiB.
pub const GUEST_RAM_SIZE: usize = 0x2000_0000;

/// Kernel is loaded at RAM_BASE + 0x80000 (standard ARM64 Image offset).
pub const KERNEL_OFFSET: usize = 0x8_0000;

/// DTB is placed near the top of RAM (last 2 MiB).
pub const DTB_MAX_SIZE: usize = 0x20_0000;

// Shared region at a fixed GPA outside the RAM region
pub const LINUX_INBOX_GPA: u64 = 0x3F00_0000;

/// 8 MiB.
pub const LINUX_INBOX_SIZE: usize = 0x80_0000;

pub const LINUX_OUTBOX_GPA: u64 = 0x3F80_0000;

/// 8 MiB.
pub const LINUX_OUTBOX_SIZE: usize = 0x80_0000;

pub const LINUX_SHARED_GPA: u64 = 0x3F00_0000;

/// Inbox + outbox.
pub const LINUX_SHARED_SIZE: usize = 0x100_0000;

/// Mailbox that the V8 runner maps.
pub const RUNNER_MAILBOX_GPA: u64 = 0x3FFF_0000;

pub const RUNNER_MAILBOX_SIZE: usize = 0x1_0000;

/// Host page size (Apple Silicon uses 16 KiB pages).
pub const PAGE_SIZE: usize = 0x4000;

/// The least multiple of the page size that is no less than `size`.
pub open spec fn page_ceil(size: int) -> int {
    (size + 0x3FFF) / 0x4000 * 0x4000
}

/// Rounds `size` up to whole pages.
pub fn page_align(size: usize) -> (r: usize)
    requires
        size + PAGE_SIZE - 1 <= usize::MAX,
    ensures
        r == page_ceil(size as int),
{
    (size + (PAGE_SIZE - 1)) / PAGE_SIZE * PAGE_SIZE
}

// Laws

/// `page_ceil` is the least multiple of the page size from `size` upwards.
pub proof fn law_page_ceil_is_least(size: int, other: int)
    requires
        size <= other,
        other % 0x4000 == 0,
    ensures
        size <= page_ceil(size) <= other,
        page_ceil(size) < size + PAGE_SIZE,
        page_ceil(size) % 0x4000 == 0,
{
}

/// The regions of the bare-metal guest follow each other without overlap and
/// fill guest memory up to the stack.
pub proof fn law_guest_layout()
    ensures
        MAILBOX_GPA == GUEST_BASE + MAILBOX_OFFSET,
        HEAP_GPA == GUEST_BASE + HEAP_OFFSET,
        MAILBOX_OFFSET + MAILBOX_SIZE <= HEAP_OFFSET,
        HEAP_OFFSET + HEAP_SIZE + STACK_SIZE <= GUEST_MEM_SIZE,
{
}

/// The inbox and the outbox halve the shared region, which ends where guest
/// RAM begins or before.
pub proof fn law_shared_region_layout()
    ensures
        LINUX_INBOX_GPA == LINUX_SHARED_GPA,
        LINUX_OUTBOX_GPA == LINUX_INBOX_GPA + LINUX_INBOX_SIZE,
        LINUX_SHARED_SIZE == LINUX_INBOX_SIZE + LINUX_OUTBOX_SIZE,
        LINUX_SHARED_GPA + LINUX_SHARED_SIZE <= GUEST_RAM_BASE,
{
}

} // verus!
