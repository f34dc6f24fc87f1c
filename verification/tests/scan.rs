//! Tests of the pure scan: judging a table of entries against the byte
//! windows read for its candidates.

use rune_boot::inspection_window;
use rune_boot::parse_partition_table;
use rune_boot::select_boot_index;
use rune_boot::scan_table;
use rune_boot::LocateError;
use rune_boot::PartitionEntry;
use rune_boot::TypePolicy;

fn entry(type_code: u8, start_sector: u32, sector_count: u32) -> PartitionEntry {
    PartitionEntry { type_code, start_sector, sector_count }
}

fn boot_sector_with_label(label: &[u8]) -> Vec<u8> {
    let mut v = vec![0u8; 512];
    v[510] = 0x55;
    v[511] = 0xaa;
    for (i, b) in label.iter().enumerate() {
        v[43 + i] = *b;
    }
    v
}

fn bad_boot_sector() -> Vec<u8> {
    vec![0u8; 512]
}

#[test]
fn no_accepted_type_yields_no_match() {
    let policy = TypePolicy::fat_default();
    let entries = vec![entry(0, 0, 0), entry(0x83, 2048, 4096), entry(0, 0, 0), entry(7, 8192, 64)];
    // Even a perfectly valid boot volume does not match under a foreign type.
    let windows = vec![
        None,
        Some(boot_sector_with_label(b"HAIKU      ")),
        None,
        Some(boot_sector_with_label(b"HAIKU      ")),
    ];
    assert_eq!(select_boot_index(&entries, &windows, &policy), None);
    assert_eq!(scan_table(&entries, &windows, &policy), None);
}

#[test]
fn unique_match_returned_unmodified() {
    let policy = TypePolicy::fat_default();
    let entries =
        vec![entry(0x83, 0, 100), entry(12, 2048, 131072), entry(0, 0, 0), entry(0, 0, 0)];
    let windows =
        vec![None, Some(boot_sector_with_label(b"HAIKU      ")), None, None];
    assert_eq!(select_boot_index(&entries, &windows, &policy), Some(1));
    let bp = scan_table(&entries, &windows, &policy).expect("boot partition");
    assert_eq!(bp.entry.type_code, 12);
    assert_eq!(bp.entry.start_sector, 2048);
    assert_eq!(bp.entry.sector_count, 131072);
    assert_eq!(bp.label, b"HAIKU".to_vec());
}

#[test]
fn first_match_in_table_order_wins() {
    let policy = TypePolicy::fat_default();
    let entries =
        vec![entry(12, 100, 200), entry(12, 300, 400), entry(12, 500, 600), entry(0, 0, 0)];
    let windows = vec![
        Some(boot_sector_with_label(b"HAIKU A    ")),
        Some(boot_sector_with_label(b"HAIKU B    ")),
        Some(boot_sector_with_label(b"HAIKU C    ")),
        None,
    ];
    let bp = scan_table(&entries, &windows, &policy).expect("boot partition");
    assert_eq!(bp.entry.start_sector, 100);
    assert_eq!(bp.label, b"HAIKU A".to_vec());
}

#[test]
fn swapping_non_matching_entries_keeps_result() {
    let policy = TypePolicy::fat_default();
    let entries =
        vec![entry(0x83, 1, 2), entry(7, 3, 4), entry(12, 2048, 131072), entry(0, 0, 0)];
    let windows = vec![None, None, Some(boot_sector_with_label(b"HAIKU      ")), None];
    let before = scan_table(&entries, &windows, &policy);
    // Swap the two non-matching entries in front of the match.
    let entries_swapped =
        vec![entry(7, 3, 4), entry(0x83, 1, 2), entry(12, 2048, 131072), entry(0, 0, 0)];
    let windows_swapped = vec![None, None, Some(boot_sector_with_label(b"HAIKU      ")), None];
    let after = scan_table(&entries_swapped, &windows_swapped, &policy);
    assert_eq!(before, after);
    assert!(before.is_some());
}

#[test]
fn repeated_scan_returns_identical_result() {
    let policy = TypePolicy::fat_default();
    let entries =
        vec![entry(12, 2048, 131072), entry(0, 0, 0), entry(0, 0, 0), entry(0, 0, 0)];
    let windows = vec![Some(boot_sector_with_label(b"HAIKU      ")), None, None, None];
    let first = scan_table(&entries, &windows, &policy);
    let second = scan_table(&entries, &windows, &policy);
    assert_eq!(first, second);
    assert!(first.is_some());
}

#[test]
fn bad_header_is_skipped_scan_continues() {
    let policy = TypePolicy::fat_default();
    let entries =
        vec![entry(12, 100, 200), entry(12, 2048, 131072), entry(0, 0, 0), entry(0, 0, 0)];
    let windows = vec![
        Some(bad_boot_sector()),
        Some(boot_sector_with_label(b"HAIKU BOOT ")),
        None,
        None,
    ];
    assert_eq!(select_boot_index(&entries, &windows, &policy), Some(1));
    let bp = scan_table(&entries, &windows, &policy).expect("boot partition");
    assert_eq!(bp.entry.start_sector, 2048);
    assert_eq!(bp.label, b"HAIKU BOOT".to_vec());
}

#[test]
fn unreadable_window_is_skipped() {
    let policy = TypePolicy::fat_default();
    let entries =
        vec![entry(12, 100, 200), entry(12, 2048, 131072), entry(0, 0, 0), entry(0, 0, 0)];
    let windows = vec![None, Some(boot_sector_with_label(b"HAIKU      ")), None, None];
    assert_eq!(select_boot_index(&entries, &windows, &policy), Some(1));
}

#[test]
fn label_without_marker_is_no_match() {
    let policy = TypePolicy::fat_default();
    let entries =
        vec![entry(12, 100, 200), entry(0, 0, 0), entry(0, 0, 0), entry(0, 0, 0)];
    let windows = vec![Some(boot_sector_with_label(b"NO NAME    ")), None, None, None];
    assert_eq!(select_boot_index(&entries, &windows, &policy), None);
}

#[test]
fn parse_partition_table_decodes_slots_exactly() {
    let mut sector = vec![0u8; 512];
    sector[510] = 0x55;
    sector[511] = 0xaa;
    sector[446 + 4] = 12;
    sector[446 + 8..446 + 12].copy_from_slice(&[0x01, 0x02, 0x03, 0x04]);
    sector[446 + 12..446 + 16].copy_from_slice(&[0x05, 0x06, 0x07, 0x08]);
    let base = 446 + 32;
    sector[base + 4] = 0x83;
    sector[base + 8..base + 12].copy_from_slice(&2048u32.to_le_bytes());
    sector[base + 12..base + 16].copy_from_slice(&131072u32.to_le_bytes());
    let entries = parse_partition_table(&sector).expect("table");
    assert_eq!(entries.len(), 4);
    assert_eq!(
        (entries[0].type_code, entries[0].start_sector, entries[0].sector_count),
        (12, 0x04030201, 0x08070605)
    );
    assert_eq!(
        (entries[1].type_code, entries[1].start_sector, entries[1].sector_count),
        (0, 0, 0)
    );
    assert_eq!(
        (entries[2].type_code, entries[2].start_sector, entries[2].sector_count),
        (0x83, 2048, 131072)
    );
}

#[test]
fn parse_partition_table_rejects_missing_signature() {
    let unsigned_sector = vec![0u8; 512];
    assert_eq!(parse_partition_table(&unsigned_sector), Err(LocateError::Format));
    let short = vec![0u8; 300];
    assert_eq!(parse_partition_table(&short), Err(LocateError::Format));
}

#[test]
fn inspection_window_is_first_sector_of_entry() {
    let e = entry(12, 2048, 131072);
    assert_eq!(inspection_window(&e), (1048576, 512));
}

#[test]
fn byte_offset_is_start_sector_times_sector_size() {
    let policy = TypePolicy::fat_default();
    let entries =
        vec![entry(12, 2048, 131072), entry(0, 0, 0), entry(0, 0, 0), entry(0, 0, 0)];
    let windows = vec![Some(boot_sector_with_label(b"HAIKU      ")), None, None, None];
    let bp = scan_table(&entries, &windows, &policy).expect("boot partition");
    assert_eq!(bp.byte_offset(), 1048576);
}

#[test]
fn policy_accepts_configured_codes() {
    let policy = TypePolicy::new(vec![0x0b, 0x0c]);
    let entries =
        vec![entry(0x0b, 64, 128), entry(0, 0, 0), entry(0, 0, 0), entry(0, 0, 0)];
    let windows = vec![Some(boot_sector_with_label(b"HAIKU      ")), None, None, None];
    assert_eq!(select_boot_index(&entries, &windows, &policy), Some(0));
    let strict = TypePolicy::new(vec![0x0c]);
    assert_eq!(select_boot_index(&entries, &windows, &strict), None);
}
