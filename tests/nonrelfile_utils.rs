use bytes::BytesMut;
use postgres_ffi::nonrelfile_utils::{
    clogpage_precedes, csnlogpage_precedes, mx_offset_to_flags_bitshift,
    mx_offset_to_flags_offset, mx_offset_to_member_offset, mx_offset_to_member_page,
    mx_offset_to_member_segment, slru_may_delete_segment, transaction_id_get_csn,
    transaction_id_get_status, transaction_id_set_csn, transaction_id_set_status,
    HEAPBLK_TO_MAPBLOCK, HEAPBLK_TO_MAPBYTE, HEAPBLK_TO_OFFSET,
};
use postgres_ffi::pg_constants::{
    BLCKSZ, TRANSACTION_STATUS_ABORTED, TRANSACTION_STATUS_COMMITTED,
    TRANSACTION_STATUS_IN_PROGRESS, TRANSACTION_STATUS_SUB_COMMITTED,
};
use postgres_ffi::transam::transaction_id_precedes;

fn page_filled_with(byte: u8) -> BytesMut {
    let mut page = BytesMut::zeroed(BLCKSZ as usize);
    for b in page.iter_mut() {
        *b = byte;
    }
    page
}

#[test]
fn test_multixid_calc() {
    assert_eq!(mx_offset_to_member_segment(0, 0), 0);
    assert_eq!(mx_offset_to_member_page(0, 0), 0);
    assert_eq!(mx_offset_to_flags_offset(0), 0);
    assert_eq!(mx_offset_to_flags_bitshift(0), 0);
    assert_eq!(mx_offset_to_member_offset(0), 4);
    assert_eq!(mx_offset_to_member_segment(1, 0), 0);
    assert_eq!(mx_offset_to_member_page(1, 0), 0);
    assert_eq!(mx_offset_to_flags_offset(1), 0);
    assert_eq!(mx_offset_to_flags_bitshift(1), 8);
    assert_eq!(mx_offset_to_member_offset(1), 8);
    assert_eq!(mx_offset_to_member_segment(123456789, 0), 150924);
    assert_eq!(mx_offset_to_member_page(123456789, 0), 4829568);
    assert_eq!(mx_offset_to_flags_offset(123456789), 4780);
    assert_eq!(mx_offset_to_flags_bitshift(123456789), 8);
    assert_eq!(mx_offset_to_member_offset(123456789), 4788);
    assert_eq!(mx_offset_to_member_segment(u32::MAX - 1, 0), 5250570);
    assert_eq!(mx_offset_to_member_page(u32::MAX - 1, 0), 168018240);
    assert_eq!(mx_offset_to_flags_offset(u32::MAX - 1), 5160);
    assert_eq!(mx_offset_to_flags_bitshift(u32::MAX - 1), 16);
    assert_eq!(mx_offset_to_member_offset(u32::MAX - 1), 5172);
    assert_eq!(mx_offset_to_member_segment(u32::MAX, 0), 5250570);
    assert_eq!(mx_offset_to_member_page(u32::MAX, 0), 168018240);
    assert_eq!(mx_offset_to_flags_offset(u32::MAX), 5160);
    assert_eq!(mx_offset_to_flags_bitshift(u32::MAX), 24);
    assert_eq!(mx_offset_to_member_offset(u32::MAX), 5176);
}

#[test]
fn member_page_interleaves_regions() {
    assert_eq!(mx_offset_to_member_page(0, 5), 5);
    assert_eq!(mx_offset_to_member_page(1636, 0), 64);
    assert_eq!(mx_offset_to_member_page(1636, 63), 127);
    assert_eq!(mx_offset_to_member_segment(1636, 63), 3);
    assert_eq!(mx_offset_to_member_segment(1636 * 32, 0), 64);
    assert_eq!(mx_offset_to_member_segment(u32::MAX, 63), 5250571);
}

#[test]
fn clog_status_round_trip_on_zeroed_page() {
    let mut page = BytesMut::zeroed(BLCKSZ as usize);
    transaction_id_set_status(5, TRANSACTION_STATUS_COMMITTED, &mut page);
    assert_eq!(page[1], 0b0000_0100);
    assert_eq!(transaction_id_get_status(5, &page), TRANSACTION_STATUS_COMMITTED);
    transaction_id_set_status(6, TRANSACTION_STATUS_ABORTED, &mut page);
    transaction_id_set_status(7, TRANSACTION_STATUS_SUB_COMMITTED, &mut page);
    assert_eq!(page[1], 0b1110_0100);
    assert_eq!(transaction_id_get_status(4, &page), TRANSACTION_STATUS_IN_PROGRESS);
    assert_eq!(transaction_id_get_status(5, &page), TRANSACTION_STATUS_COMMITTED);
    assert_eq!(transaction_id_get_status(6, &page), TRANSACTION_STATUS_ABORTED);
    assert_eq!(transaction_id_get_status(7, &page), TRANSACTION_STATUS_SUB_COMMITTED);
    assert!(page.iter().enumerate().all(|(i, b)| i == 1 || *b == 0));
}

#[test]
fn clog_status_round_trip_keeps_neighbours() {
    let mut page = page_filled_with(0b1001_0011);
    for status in 0..4u8 {
        transaction_id_set_status(2, status, &mut page);
        assert_eq!(transaction_id_get_status(2, &page), status);
        assert_eq!(transaction_id_get_status(0, &page), 3);
        assert_eq!(transaction_id_get_status(1, &page), 0);
        assert_eq!(transaction_id_get_status(3, &page), 2);
        assert_eq!(transaction_id_get_status(6, &page), 1);
    }
    transaction_id_set_status(2, 0, &mut page);
    assert_eq!(page[0], 0b1000_0011);
}

#[test]
fn clog_status_wraps_to_page_position() {
    let mut page = BytesMut::zeroed(BLCKSZ as usize);
    transaction_id_set_status(u32::MAX, TRANSACTION_STATUS_ABORTED, &mut page);
    assert_eq!(page[8191], 0b1000_0000);
    assert_eq!(transaction_id_get_status(u32::MAX, &page), TRANSACTION_STATUS_ABORTED);
    assert_eq!(transaction_id_get_status(32767, &page), TRANSACTION_STATUS_ABORTED);
    transaction_id_set_status(32768 + 1, TRANSACTION_STATUS_COMMITTED, &mut page);
    assert_eq!(page[0], 0b0000_0100);
    assert_eq!(transaction_id_get_status(0, &page), TRANSACTION_STATUS_IN_PROGRESS);
}

#[test]
fn csn_is_written_little_endian() {
    let mut page = BytesMut::zeroed(BLCKSZ as usize);
    transaction_id_set_csn(3, 0x0102_0304_0506_0708, &mut page);
    assert_eq!(&page[24..32], &[8, 7, 6, 5, 4, 3, 2, 1]);
    assert!(page[..24].iter().all(|b| *b == 0));
    assert!(page[32..].iter().all(|b| *b == 0));
    assert_eq!(transaction_id_get_csn(3, &page), 0x0102_0304_0506_0708);
}

#[test]
fn csn_round_trip_keeps_neighbours() {
    let mut page = page_filled_with(0xab);
    for csn in [0u64, 1, 0x8000_0000_0000_0000, u64::MAX, 0xdead_beef_0bad_f00d] {
        transaction_id_set_csn(1024 + 10, csn, &mut page);
        assert_eq!(transaction_id_get_csn(10, &page), csn);
        assert_eq!(transaction_id_get_csn(9, &page), 0xabab_abab_abab_abab);
        assert_eq!(transaction_id_get_csn(11, &page), 0xabab_abab_abab_abab);
    }
    transaction_id_set_csn(u32::MAX, 42, &mut page);
    assert_eq!(transaction_id_get_csn(1023, &page), 42);
    assert_eq!(page[8184], 42);
}

#[test]
fn precedes_orders_nearby_ids() {
    assert!(transaction_id_precedes(3, 4));
    assert!(!transaction_id_precedes(4, 3));
    assert!(!transaction_id_precedes(5, 5));
    assert!(transaction_id_precedes(0, 1));
    assert!(transaction_id_precedes(u32::MAX, 3));
    assert!(!transaction_id_precedes(3, u32::MAX));
    assert!(transaction_id_precedes(10, 10 + 0x7fff_ffff));
    assert!(!transaction_id_precedes(10 + 0x7fff_ffff, 10));
}

#[test]
fn precedes_is_not_total_at_half_the_range() {
    assert!(transaction_id_precedes(0, 0x8000_0000));
    assert!(transaction_id_precedes(0x8000_0000, 0));
    assert!(!transaction_id_precedes(0, 0x8000_0001));
    assert!(transaction_id_precedes(0x8000_0001, 0));
}

#[test]
fn clog_pages_order_within_half_the_ring() {
    assert!(clogpage_precedes(0, 1));
    assert!(!clogpage_precedes(1, 0));
    assert!(!clogpage_precedes(7, 7));
    assert!(clogpage_precedes(0, 65535));
    assert!(!clogpage_precedes(0, 65536));
    assert!(clogpage_precedes(131071, 0));
    assert!(!clogpage_precedes(0, 131071));
    assert!(clogpage_precedes(u32::MAX, 0));
}

#[test]
fn csn_pages_order_only_within_a_region() {
    assert!(csnlogpage_precedes(0, 64));
    assert!(!csnlogpage_precedes(64, 0));
    assert!(!csnlogpage_precedes(0, 1));
    assert!(!csnlogpage_precedes(0, 65));
    assert!(csnlogpage_precedes(5, 69));
    assert!(!csnlogpage_precedes(5, 5));
    assert!(csnlogpage_precedes(u32::MAX, 63));
}

#[test]
fn segment_deletion_needs_every_page_older() {
    assert!(!slru_may_delete_segment(0, 0));
    assert!(!slru_may_delete_segment(0, 31));
    assert!(slru_may_delete_segment(0, 32));
    assert!(slru_may_delete_segment(0, 65535));
    assert!(!slru_may_delete_segment(0, 65536));
    assert!(slru_may_delete_segment(64, 96));
    assert!(!slru_may_delete_segment(64, 95));
    assert!(slru_may_delete_segment(u32::MAX - 31, 0));
    assert!(!slru_may_delete_segment(u32::MAX - 31, u32::MAX));
}

#[test]
fn segment_deletion_holds_for_later_cutoffs() {
    let seg = 32 * 10;
    assert!(slru_may_delete_segment(seg, 400));
    for later in [401u32, 1000, 20000, 65535 + 320] {
        assert!(clogpage_precedes(400, later));
        assert!(slru_may_delete_segment(seg, later));
    }
    assert!(!slru_may_delete_segment(seg, 65536 + 320));
}

#[test]
fn visibility_map_addressing() {
    assert_eq!(HEAPBLK_TO_MAPBLOCK(0), 0);
    assert_eq!(HEAPBLK_TO_MAPBLOCK(32671), 0);
    assert_eq!(HEAPBLK_TO_MAPBLOCK(32672), 1);
    assert_eq!(HEAPBLK_TO_MAPBYTE(9), 2);
    assert_eq!(HEAPBLK_TO_MAPBYTE(32673), 0);
    assert_eq!(HEAPBLK_TO_OFFSET(7), 6);
    assert_eq!(HEAPBLK_TO_OFFSET(8), 0);
    assert_eq!(HEAPBLK_TO_MAPBLOCK(u32::MAX), 131457);
    assert_eq!(HEAPBLK_TO_MAPBYTE(u32::MAX), 1047);
    assert_eq!(HEAPBLK_TO_OFFSET(u32::MAX), 6);
}
