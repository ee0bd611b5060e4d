//! Reading and writing the per-transaction entries of PostgreSQL's
//! non-relation files, and the page arithmetic around them.
use crate::page::{
    le_bytes, le_u64, page_byte, page_contents, page_set_byte, page_write_u64_le, read_u64_le,
};
use crate::pg_constants::{
    BITS_PER_HEAPBLOCK, BLCKSZ, CLOG_BITS_PER_XACT, CLOG_XACTS_PER_BYTE, CLOG_XACTS_PER_PAGE,
    CLOG_XACT_BITMASK, CSN_LOG_XACTS_PER_PAGE, CSN_SIZE, FIRST_NORMAL_TRANSACTION_ID,
    HEAPBLOCKS_PER_BYTE, HEAPBLOCKS_PER_PAGE, MAX_REGIONS, MULTIXACT_FLAGBYTES_PER_GROUP,
    MULTIXACT_MEMBERGROUPS_PER_PAGE, MULTIXACT_MEMBERGROUP_SIZE, MULTIXACT_MEMBERS_PER_MEMBERGROUP,
    MULTIXACT_MEMBERS_PER_PAGE, MXACT_MEMBER_BITS_PER_XACT, SLRU_PAGES_PER_SEGMENT,
};
use crate::transam::{transaction_id_precedes, xid_precedes};
use bytes::BytesMut;
use vstd::prelude::*;

verus! {

// ---------------------------------------------------------------------------
// CLOG: two status bits per transaction, four transactions to a byte.

/// Index of `xid`'s entry within its CLOG page.
pub open spec fn clog_entry_index(xid: u32) -> int {
    (xid % CLOG_XACTS_PER_PAGE) as int
}

/// Byte of a CLOG page that holds `xid`'s status.
pub open spec fn clog_byte_index(xid: u32) -> int {
    clog_entry_index(xid) / CLOG_XACTS_PER_BYTE as int
}

/// Position of the lowest bit of `xid`'s status within that byte.
pub open spec fn clog_bit_shift(xid: u32) -> u8 {
    ((xid % CLOG_XACTS_PER_BYTE) * CLOG_BITS_PER_XACT as u32) as u8
}

/// The 2-bit field at bit `shift` of `b`.
pub open spec fn status_field(b: u8, shift: u8) -> u8 {
    (b >> shift) & CLOG_XACT_BITMASK
}

/// `b` with its 2-bit field at bit `shift` replaced by `status`.
pub open spec fn with_status_field(b: u8, shift: u8, status: u8) -> u8 {
    (b & !(CLOG_XACT_BITMASK << shift)) | (status << shift)
}

/// The statuses a CLOG page holds: entry `i` is the field at bit
/// `2 * (i % 4)` of byte `i / 4`.
pub open spec fn clog_statuses(page: Seq<u8>) -> Seq<u8> {
    Seq::new(
        page.len() * CLOG_XACTS_PER_BYTE as nat,
        |i: int| status_field(page[i / 4], (2 * (i % 4)) as u8),
    )
}

/// The status that `page` records for `xid`.
pub open spec fn clog_status(page: Seq<u8>, xid: u32) -> u8 {
    clog_statuses(page)[clog_entry_index(xid)]
}

/// `page` with the status of `xid` set to `status`.
pub open spec fn clog_page_with_status(page: Seq<u8>, xid: u32, status: u8) -> Seq<u8> {
    page.update(
        clog_byte_index(xid),
        with_status_field(page[clog_byte_index(xid)], clog_bit_shift(xid), status),
    )
}

proof fn lemma_status_field_of_update(b: u8, k: u8, j: u8, status: u8)
    requires
        k < 4,
        j < 4,
        status <= 3,
    ensures
        status_field(with_status_field(b, (2 * k) as u8, status), (2 * j) as u8) == if j == k {
            status
        } else {
            status_field(b, (2 * j) as u8)
        },
{
    assert((((b & !(3u8 << (2 * k) as u8)) | (status << (2 * k) as u8)) >> (2 * j) as u8) & 3u8
        == if j == k {
        status
    } else {
        (b >> (2 * j) as u8) & 3u8
    }) by (bit_vector)
        requires
            k < 4,
            j < 4,
            status <= 3,
    ;
}

fn clog_byteno(xid: u32) -> (r: usize)
    ensures
        r == clog_byte_index(xid),
{
    ((xid % CLOG_XACTS_PER_PAGE) / CLOG_XACTS_PER_BYTE) as usize
}

fn clog_bshift(xid: u32) -> (r: u8)
    ensures
        r == clog_bit_shift(xid),
        r <= 6,
{
    let slot: u32 = xid % CLOG_XACTS_PER_BYTE;
    proof {
        assert(clog_bit_shift(xid) == (slot * 2) as u8 && slot * 2 <= 6) by (bit_vector)
            requires
                slot == xid % 4,
        ;
    }
    slot as u8 * CLOG_BITS_PER_XACT
}

/// Setting a transaction's status and reading it back gives that status;
/// every other entry of the page keeps the status it had.
pub proof fn lemma_clog_round_trip(page: Seq<u8>, xid: u32, status: u8)
    requires
        status <= CLOG_XACT_BITMASK,
        clog_byte_index(xid) < page.len(),
    ensures
        clog_statuses(clog_page_with_status(page, xid, status)) == clog_statuses(page).update(
            clog_entry_index(xid),
            status,
        ),
        clog_status(clog_page_with_status(page, xid, status), xid) == status,
        forall|other: u32|
            clog_byte_index(other) < page.len() && clog_entry_index(other) != clog_entry_index(xid)
                ==> #[trigger] clog_status(clog_page_with_status(page, xid, status), other)
                == clog_status(page, other),
{
    let new = clog_page_with_status(page, xid, status);
    let e = clog_entry_index(xid);
    let k = (e % 4) as u8;
    assert(clog_bit_shift(xid) == 2 * k) by (bit_vector)
        requires
            k == ((xid % 32768) % 4) as u8,
    ;
    assert forall|i: int| 0 <= i < new.len() * 4 implies #[trigger] clog_statuses(new)[i]
        == clog_statuses(page).update(e, status)[i] by {
        if i / 4 == e / 4 {
            lemma_status_field_of_update(page[e / 4], k, (i % 4) as u8, status);
        }
    }
    assert(clog_statuses(new) =~= clog_statuses(page).update(e, status));
}

/// Records `status` as the status of `xid` in a CLOG page.
pub fn transaction_id_set_status(xid: u32, status: u8, page: &mut BytesMut)
    requires
        status <= CLOG_XACT_BITMASK,
        clog_byte_index(xid) < page_contents(*old(page)).len(),
    ensures
        page_contents(*final(page)) == clog_page_with_status(
            page_contents(*old(page)),
            xid,
            status,
        ),
        clog_statuses(page_contents(*final(page))) == clog_statuses(
            page_contents(*old(page)),
        ).update(clog_entry_index(xid), status),
{
    let byteno: usize = clog_byteno(xid);
    let bshift: u8 = clog_bshift(xid);
    let byte = page_byte(page, byteno);
    page_set_byte(page, byteno, (byte & !(CLOG_XACT_BITMASK << bshift)) | (status << bshift));
    proof {
        lemma_clog_round_trip(page_contents(*old(page)), xid, status);
    }
}

/// Reads the status of `xid` from a CLOG page.
pub fn transaction_id_get_status(xid: u32, page: &[u8]) -> (r: u8)
    requires
        clog_byte_index(xid) < page@.len(),
    ensures
        r == clog_status(page@, xid),
        r <= CLOG_XACT_BITMASK,
{
    let byteno: usize = clog_byteno(xid);
    let bshift: u8 = clog_bshift(xid);
    let b = page[byteno];
    proof {
        assert(clog_entry_index(xid) % 4 * 2 == bshift) by (bit_vector)
            requires
                bshift == clog_bit_shift(xid),
        ;
        assert((b >> bshift) & 3u8 <= 3) by (bit_vector);
    }
    (b >> bshift) & CLOG_XACT_BITMASK
}

// ---------------------------------------------------------------------------
// CSN log: one little-endian 64-bit value per transaction.

/// Offset within its CSN log page of the eight bytes that hold `xid`'s value.
pub open spec fn csn_byte_offset(xid: u32) -> int {
    (xid % CSN_LOG_XACTS_PER_PAGE) * CSN_SIZE
}

/// The commit sequence number that `page` records for `xid`.
pub open spec fn csn_value(page: Seq<u8>, xid: u32) -> u64 {
    le_u64(page.subrange(csn_byte_offset(xid), csn_byte_offset(xid) + 8))
}

/// `page` with the value of `xid` set to `csn`.
pub open spec fn csn_page_with_value(page: Seq<u8>, xid: u32, csn: u64) -> Seq<u8> {
    page.subrange(0, csn_byte_offset(xid)) + le_bytes(csn) + page.subrange(
        csn_byte_offset(xid) + 8,
        page.len() as int,
    )
}

/// Setting a transaction's commit sequence number and reading it back gives
/// that number; the page keeps its length, and every other entry keeps the
/// value it had.
pub proof fn lemma_csn_round_trip(page: Seq<u8>, xid: u32, csn: u64)
    requires
        csn_byte_offset(xid) + 8 <= page.len(),
    ensures
        csn_page_with_value(page, xid, csn).len() == page.len(),
        csn_value(csn_page_with_value(page, xid, csn), xid) == csn,
        forall|other: u32|
            csn_byte_offset(other) + 8 <= page.len() && csn_byte_offset(other) != csn_byte_offset(
                xid,
            ) ==> #[trigger] csn_value(csn_page_with_value(page, xid, csn), other) == csn_value(
                page,
                other,
            ),
{
    let off = csn_byte_offset(xid);
    let new = csn_page_with_value(page, xid, csn);
    assert(new.subrange(off, off + 8) =~= le_bytes(csn));
    crate::page::lemma_le_u64_of_le_bytes(csn);
    assert forall|other: u32|
        csn_byte_offset(other) + 8 <= page.len() && csn_byte_offset(other) != off implies
        #[trigger] csn_value(new, other) == csn_value(page, other) by {
        let o = csn_byte_offset(other);
        assert(o % 8 == 0 && off % 8 == 0) by (nonlinear_arith)
            requires
                o == (other % 1024) * 8,
                off == (xid % 1024) * 8,
        ;
        assert(new.subrange(o, o + 8) =~= page.subrange(o, o + 8));
    }
}

/// Records `csn` as the commit sequence number of `xid` in a CSN log page.
pub fn transaction_id_set_csn(xid: u32, csn: u64, page: &mut BytesMut)
    requires
        csn_byte_offset(xid) + 8 <= page_contents(*old(page)).len(),
    ensures
        page_contents(*final(page)) == csn_page_with_value(page_contents(*old(page)), xid, csn),
{
    let entryno: usize = xid as usize % CSN_LOG_XACTS_PER_PAGE as usize;
    let bytebegin: usize = entryno * CSN_SIZE as usize;
    page_write_u64_le(page, bytebegin, csn);
}

/// Reads the commit sequence number of `xid` from a CSN log page.
pub fn transaction_id_get_csn(xid: u32, page: &[u8]) -> (r: u64)
    requires
        csn_byte_offset(xid) + 8 <= page@.len(),
    ensures
        r == csn_value(page@, xid),
{
    let entryno: usize = xid as usize % CSN_LOG_XACTS_PER_PAGE as usize;
    let bytebegin: usize = entryno * CSN_SIZE as usize;
    read_u64_le(page, bytebegin)
}

// ---------------------------------------------------------------------------
// Page ordering and segment retention.

/// `a + b` under 32-bit wraparound.
pub open spec fn wrapped_add(a: u32, b: u32) -> u32 {
    ((a + b) % 0x1_0000_0000int) as u32
}

proof fn lemma_wrapping_add(a: u32, b: u32)
    ensures
        a.wrapping_add(b) == wrapped_add(a, b),
{
    assert(a + b >= 0x1_0000_0000int ==> (a + b) % 0x1_0000_0000int == a + b - 0x1_0000_0000int)
        by {
        if a + b >= 0x1_0000_0000int {
            vstd::arithmetic::div_mod::lemma_mod_sub_multiples_vanish(
                a + b - 0x1_0000_0000int,
                0x1_0000_0000int,
            );
            vstd::arithmetic::div_mod::lemma_small_mod(
                (a + b - 0x1_0000_0000int) as nat,
                0x1_0000_0000nat,
            );
        }
    }
    assert(a + b < 0x1_0000_0000int ==> (a + b) % 0x1_0000_0000int == a + b) by {
        if a + b < 0x1_0000_0000int {
            vstd::arithmetic::div_mod::lemma_small_mod((a + b) as nat, 0x1_0000_0000nat);
        }
    }
}

/// `a * b + c` under 32-bit wraparound.
pub open spec fn wrapped_mul_add(a: u32, b: u32, c: u32) -> u32 {
    ((a * b + c) % 0x1_0000_0000int) as u32
}

proof fn lemma_wrapping_mul_add(a: u32, b: u32, c: u32)
    ensures
        a.wrapping_mul(b).wrapping_add(c) == wrapped_mul_add(a, b, c),
{
    let m = a.wrapping_mul(b);
    assert(m == (a * b) % 0x1_0000_0000int);
    lemma_wrapping_add(m, c);
    vstd::arithmetic::div_mod::lemma_add_mod_noop(a * b, c as int, 0x1_0000_0000int);
    vstd::arithmetic::div_mod::lemma_small_mod(c as nat, 0x1_0000_0000nat);
}

/// The transaction id whose status opens CLOG page `page`, shifted past
/// the special ids.
pub open spec fn clog_page_first_xid(page: u32) -> u32 {
    wrapped_mul_add(page, CLOG_XACTS_PER_PAGE, (FIRST_NORMAL_TRANSACTION_ID + 1) as u32)
}

/// CLOG page `page1` is older than `page2`: its first transaction precedes
/// both the first and the last transaction of `page2`.
pub open spec fn clog_page_precedes(page1: u32, page2: u32) -> bool {
    xid_precedes(clog_page_first_xid(page1), clog_page_first_xid(page2)) && xid_precedes(
        clog_page_first_xid(page1),
        wrapped_add(clog_page_first_xid(page2), (CLOG_XACTS_PER_PAGE - 1) as u32),
    )
}

/// CLOG page numbers live on a ring of 2^17 pages, one per 32768
/// transactions of the 32-bit range: `page1` precedes `page2` exactly when
/// `page2` lies between 1 and 2^16 - 1 pages ahead of `page1` on that ring.
pub proof fn lemma_clog_page_precedes_ring(page1: u32, page2: u32)
    ensures
        clog_page_precedes(page1, page2) <==> 1 <= (page2 - page1) % 0x2_0000int <= 0xffff,
{
    assert(clog_page_precedes(page1, page2) <==> 1 <= (page2 - page1) % 0x2_0000int <= 0xffff)
        by (bit_vector);
}

/// Whether CLOG page `page1` holds only transactions older than those of
/// `page2`.
pub fn clogpage_precedes(page1: u32, page2: u32) -> (r: bool)
    ensures
        r == clog_page_precedes(page1, page2),
{
    let xid1 = page1.wrapping_mul(CLOG_XACTS_PER_PAGE).wrapping_add(
        FIRST_NORMAL_TRANSACTION_ID + 1,
    );
    let xid2 = page2.wrapping_mul(CLOG_XACTS_PER_PAGE).wrapping_add(
        FIRST_NORMAL_TRANSACTION_ID + 1,
    );
    let xid2_last = xid2.wrapping_add(CLOG_XACTS_PER_PAGE - 1);
    proof {
        lemma_wrapping_mul_add(page1, CLOG_XACTS_PER_PAGE, (FIRST_NORMAL_TRANSACTION_ID + 1) as u32);
        lemma_wrapping_mul_add(page2, CLOG_XACTS_PER_PAGE, (FIRST_NORMAL_TRANSACTION_ID + 1) as u32);
        lemma_wrapping_add(xid2, (CLOG_XACTS_PER_PAGE - 1) as u32);
    }
    transaction_id_precedes(xid1, xid2) && transaction_id_precedes(xid1, xid2_last)
}

/// Last page of the SLRU segment that starts at page `segpage`.
pub open spec fn segment_last_page(segpage: u32) -> u32 {
    (segpage + SLRU_PAGES_PER_SEGMENT - 1) as u32
}

/// Every page of the segment that starts at `segpage` is older than
/// `cutoff_page`: its first and its last page both precede the cutoff.
pub open spec fn segment_may_be_deleted(segpage: u32, cutoff_page: u32) -> bool {
    clog_page_precedes(segpage, cutoff_page) && clog_page_precedes(
        segment_last_page(segpage),
        cutoff_page,
    )
}

/// Whether the SLRU segment that starts at page `segpage` holds only pages
/// older than `cutoff_page`, so that it can be removed.
pub fn slru_may_delete_segment(segpage: u32, cutoff_page: u32) -> (r: bool)
    requires
        segpage % SLRU_PAGES_PER_SEGMENT == 0,
    ensures
        r == segment_may_be_deleted(segpage, cutoff_page),
{
    proof {
        assert(segpage + 31 <= u32::MAX) by (bit_vector)
            requires
                segpage % 32 == 0,
        ;
    }
    let seg_last_page = segpage + (SLRU_PAGES_PER_SEGMENT - 1);
    clogpage_precedes(segpage, cutoff_page) && clogpage_precedes(seg_last_page, cutoff_page)
}

/// A segment that may be removed at some cutoff may still be removed at a
/// later cutoff, as long as its first page still precedes the later one
/// (the ring of pages is only ordered across half its length).
pub proof fn lemma_segment_deletion_monotonic(segpage: u32, cutoff_page: u32, later_cutoff: u32)
    requires
        segpage % SLRU_PAGES_PER_SEGMENT == 0,
        segment_may_be_deleted(segpage, cutoff_page),
        clog_page_precedes(cutoff_page, later_cutoff),
        clog_page_precedes(segpage, later_cutoff),
    ensures
        segment_may_be_deleted(segpage, later_cutoff),
{
    let last = segment_last_page(segpage);
    assert(segpage + 31 <= u32::MAX) by (bit_vector)
        requires
            segpage % 32 == 0,
    ;
    lemma_clog_page_precedes_ring(segpage, cutoff_page);
    lemma_clog_page_precedes_ring(last, cutoff_page);
    lemma_clog_page_precedes_ring(cutoff_page, later_cutoff);
    lemma_clog_page_precedes_ring(segpage, later_cutoff);
    lemma_clog_page_precedes_ring(last, later_cutoff);
    assert(1 <= (later_cutoff - last) % 0x2_0000int <= 0xffff) by (bit_vector)
        requires
            last == segpage + 31,
            1 <= (cutoff_page - segpage) % 0x2_0000int <= 0xffff,
            1 <= (cutoff_page - last) % 0x2_0000int <= 0xffff,
            1 <= (later_cutoff - cutoff_page) % 0x2_0000int <= 0xffff,
            1 <= (later_cutoff - segpage) % 0x2_0000int <= 0xffff,
    ;
}

/// The transaction id whose value opens CSN log page `page`, shifted past
/// the special ids; pages are spread round-robin over the regions.
pub open spec fn csn_page_first_xid(page: u32) -> u32 {
    wrapped_mul_add(
        page / MAX_REGIONS,
        CSN_LOG_XACTS_PER_PAGE,
        (FIRST_NORMAL_TRANSACTION_ID + 1) as u32,
    )
}

/// CSN log page `page1` is older than `page2`: both belong to the same
/// region, and the first transaction of `page1` precedes that of `page2`.
pub open spec fn csn_page_precedes(page1: u32, page2: u32) -> bool {
    page1 % MAX_REGIONS == page2 % MAX_REGIONS && xid_precedes(
        csn_page_first_xid(page1),
        csn_page_first_xid(page2),
    )
}

/// Whether CSN log page `page1` is older than `page2`; pages of different
/// regions are never ordered.
pub fn csnlogpage_precedes(page1: u32, page2: u32) -> (r: bool)
    ensures
        r == csn_page_precedes(page1, page2),
{
    if page1 % MAX_REGIONS != page2 % MAX_REGIONS {
        return false;
    }
    let xid1 = (page1 / MAX_REGIONS).wrapping_mul(CSN_LOG_XACTS_PER_PAGE).wrapping_add(
        FIRST_NORMAL_TRANSACTION_ID + 1,
    );
    let xid2 = (page2 / MAX_REGIONS).wrapping_mul(CSN_LOG_XACTS_PER_PAGE).wrapping_add(
        FIRST_NORMAL_TRANSACTION_ID + 1,
    );
    proof {
        lemma_wrapping_mul_add(
            page1 / MAX_REGIONS,
            CSN_LOG_XACTS_PER_PAGE,
            (FIRST_NORMAL_TRANSACTION_ID + 1) as u32,
        );
        lemma_wrapping_mul_add(
            page2 / MAX_REGIONS,
            CSN_LOG_XACTS_PER_PAGE,
            (FIRST_NORMAL_TRANSACTION_ID + 1) as u32,
        );
    }
    transaction_id_precedes(xid1, xid2)
}

// ---------------------------------------------------------------------------
// Multixact members: groups of four members, each group four flag bytes
// followed by the members' 4-byte transaction ids.

/// Offset within its page of the group that holds member `xid`; the group
/// opens with the members' flag bytes.
pub open spec fn mx_flags_offset(xid: u32) -> int {
    ((xid / MULTIXACT_MEMBERS_PER_MEMBERGROUP) % MULTIXACT_MEMBERGROUPS_PER_PAGE) as int
        * MULTIXACT_MEMBERGROUP_SIZE
}

/// Position of member `xid`'s flag bits within its group's flag bytes.
pub open spec fn mx_flags_bitshift(xid: u32) -> int {
    (xid % MULTIXACT_MEMBERS_PER_MEMBERGROUP) * MXACT_MEMBER_BITS_PER_XACT
}

/// Offset within its page of member `xid`'s transaction id.
pub open spec fn mx_member_offset(xid: u32) -> int {
    mx_flags_offset(xid) + MULTIXACT_FLAGBYTES_PER_GROUP + (xid
        % MULTIXACT_MEMBERS_PER_MEMBERGROUP) * 4
}

/// Page that holds member `xid` in region `region`: the regions' pages are
/// interleaved, so that they never share one.
pub open spec fn mx_member_page(xid: u32, region: u32) -> int {
    (xid / MULTIXACT_MEMBERS_PER_PAGE) * MAX_REGIONS + region
}

/// Segment that holds member `xid` in region `region`.
pub open spec fn mx_member_segment(xid: u32, region: u32) -> int {
    mx_member_page(xid, region) / SLRU_PAGES_PER_SEGMENT as int
}

/// Byte offset, within its page, of the flag bytes of member `xid`'s group.
pub fn mx_offset_to_flags_offset(xid: u32) -> (r: usize)
    ensures
        r == mx_flags_offset(xid),
        r + MULTIXACT_MEMBERGROUP_SIZE <= BLCKSZ,
{
    let group: u32 = xid / MULTIXACT_MEMBERS_PER_MEMBERGROUP % MULTIXACT_MEMBERGROUPS_PER_PAGE;
    proof {
        assert(group < 409);
        assert(group * 20 + 20 <= 8192) by (nonlinear_arith)
            requires
                group < 409,
        ;
    }
    (group * MULTIXACT_MEMBERGROUP_SIZE) as usize
}

/// Bit position of member `xid`'s flags within its group's flag bytes.
pub fn mx_offset_to_flags_bitshift(xid: u32) -> (r: u16)
    ensures
        r == mx_flags_bitshift(xid),
{
    let slot: u32 = xid % MULTIXACT_MEMBERS_PER_MEMBERGROUP;
    (slot * MXACT_MEMBER_BITS_PER_XACT) as u16
}

/// Byte offset, within its page, of member `xid`'s transaction id.
pub fn mx_offset_to_member_offset(xid: u32) -> (r: usize)
    ensures
        r == mx_member_offset(xid),
        r + 4 <= BLCKSZ,
{
    let slot: u32 = xid % MULTIXACT_MEMBERS_PER_MEMBERGROUP;
    mx_offset_to_flags_offset(xid) + (MULTIXACT_FLAGBYTES_PER_GROUP + slot * 4) as usize
}

/// Page that holds member `xid` in region `region`.
pub fn mx_offset_to_member_page(xid: u32, region: u32) -> (r: u32)
    requires
        mx_member_page(xid, region) <= u32::MAX,
    ensures
        r == mx_member_page(xid, region),
{
    (xid / MULTIXACT_MEMBERS_PER_PAGE) * MAX_REGIONS + region
}

/// Segment that holds member `xid` in region `region`.
pub fn mx_offset_to_member_segment(xid: u32, region: u32) -> (r: i32)
    requires
        mx_member_page(xid, region) <= u32::MAX,
    ensures
        r == mx_member_segment(xid, region),
{
    (mx_offset_to_member_page(xid, region) / SLRU_PAGES_PER_SEGMENT) as i32
}

// ---------------------------------------------------------------------------
// Visibility map: two bits per heap block.

/// Visibility map page that holds heap block `x`.
pub fn HEAPBLK_TO_MAPBLOCK(x: u32) -> (r: u32)
    ensures
        r == x / HEAPBLOCKS_PER_PAGE,
{
    x / HEAPBLOCKS_PER_PAGE
}

/// Byte, within its visibility map page, that holds heap block `x`.
pub fn HEAPBLK_TO_MAPBYTE(x: u32) -> (r: u32)
    ensures
        r == (x % HEAPBLOCKS_PER_PAGE) / HEAPBLOCKS_PER_BYTE,
{
    (x % HEAPBLOCKS_PER_PAGE) / HEAPBLOCKS_PER_BYTE
}

/// Bit position, within that byte, of heap block `x`'s bits.
pub fn HEAPBLK_TO_OFFSET(x: u32) -> (r: u32)
    ensures
        r == (x % HEAPBLOCKS_PER_BYTE) * BITS_PER_HEAPBLOCK,
{
    (x % HEAPBLOCKS_PER_BYTE) * BITS_PER_HEAPBLOCK
}

} // verus!
