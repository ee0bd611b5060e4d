//! Constants of PostgreSQL's on-disk formats.
use vstd::prelude::*;

verus! {

/// Size of a page, in bytes.
pub const BLCKSZ: u32 = 8192;

// clog.h
pub const CLOG_XACTS_PER_BYTE: u32 = 4;
pub const CLOG_XACTS_PER_PAGE: u32 = BLCKSZ * CLOG_XACTS_PER_BYTE;
pub const CLOG_BITS_PER_XACT: u8 = 2;
pub const CLOG_XACT_BITMASK: u8 = 3;

pub const TRANSACTION_STATUS_IN_PROGRESS: u8 = 0x00;
pub const TRANSACTION_STATUS_COMMITTED: u8 = 0x01;
pub const TRANSACTION_STATUS_ABORTED: u8 = 0x02;
pub const TRANSACTION_STATUS_SUB_COMMITTED: u8 = 0x03;

// csn_log.h
pub const CSN_SIZE: u32 = 8;
pub const CSN_LOG_XACTS_PER_PAGE: u32 = BLCKSZ / CSN_SIZE;

// visibilitymap.h
pub const SIZE_OF_PAGE_HEADER: u32 = 24;
pub const BITS_PER_BYTE: u32 = 8;
pub const BITS_PER_HEAPBLOCK: u32 = 2;
pub const HEAPBLOCKS_PER_PAGE: u32 = (BLCKSZ - SIZE_OF_PAGE_HEADER) * 8 / BITS_PER_HEAPBLOCK;
pub const HEAPBLOCKS_PER_BYTE: u32 = BITS_PER_BYTE / BITS_PER_HEAPBLOCK;

// slru.h
pub const SLRU_PAGES_PER_SEGMENT: u32 = 32;

// multixact.h
pub const MXACT_MEMBER_BITS_PER_XACT: u32 = 8;
pub const MXACT_MEMBER_FLAGS_PER_BYTE: u32 = 1;
pub const MULTIXACT_FLAGBYTES_PER_GROUP: u32 = 4;
/// Members per group: one flag byte each.
pub const MULTIXACT_MEMBERS_PER_MEMBERGROUP: u32 = 4;
/// Size in bytes of a complete member group: the flag bytes, then one
/// 4-byte transaction id per member.
pub const MULTIXACT_MEMBERGROUP_SIZE: u32 = 20;
/// Whole groups in a page; the bytes left over at its end stay unused.
pub const MULTIXACT_MEMBERGROUPS_PER_PAGE: u32 = 409;
pub const MULTIXACT_MEMBERS_PER_PAGE: u32 = 1636;

/// The multixact member layout constants follow from the page size and
/// the sizes of flags and members.
pub proof fn lemma_multixact_layout()
    ensures
        MULTIXACT_MEMBERS_PER_MEMBERGROUP == MULTIXACT_FLAGBYTES_PER_GROUP
            * MXACT_MEMBER_FLAGS_PER_BYTE,
        MULTIXACT_MEMBERGROUP_SIZE == 4 * MULTIXACT_MEMBERS_PER_MEMBERGROUP
            + MULTIXACT_FLAGBYTES_PER_GROUP,
        MULTIXACT_MEMBERGROUPS_PER_PAGE == BLCKSZ / MULTIXACT_MEMBERGROUP_SIZE,
        MULTIXACT_MEMBERS_PER_PAGE == MULTIXACT_MEMBERGROUPS_PER_PAGE
            * MULTIXACT_MEMBERS_PER_MEMBERGROUP,
{
}

/// Number of parallel regions that multixact member pages are spread over.
pub const MAX_REGIONS: u32 = 64;

// transam.h
pub const INVALID_TRANSACTION_ID: u32 = 0;
pub const FIRST_NORMAL_TRANSACTION_ID: u32 = 3;

} // verus!
