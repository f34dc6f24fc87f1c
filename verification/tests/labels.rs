//! Tests of volume-label decoding and marker matching.

use rune_boot::volume::contains_bytes;
use rune_boot::volume::label_is_boot_marker;
use rune_boot::volume::os_marker_bytes;
use rune_boot::volume::to_upper;
use rune_boot::volume_label;
use rune_boot::LocateError;

fn boot_sector_with_label(label: &[u8]) -> Vec<u8> {
    let mut v = vec![0u8; 512];
    v[510] = 0x55;
    v[511] = 0xaa;
    for (i, b) in label.iter().enumerate() {
        v[43 + i] = *b;
    }
    v
}

#[test]
fn marker_is_haiku() {
    assert_eq!(os_marker_bytes(), b"HAIKU".to_vec());
}

#[test]
fn upper_cases_ascii_letters_only() {
    assert_eq!(to_upper(&b"hAiKu-07 x".to_vec()), b"HAIKU-07 X".to_vec());
}

#[test]
fn contains_finds_substring() {
    assert!(contains_bytes(&b"XXHAIKUYY".to_vec(), &b"HAIKU".to_vec()));
    assert!(!contains_bytes(&b"XXHAIKYY".to_vec(), &b"HAIKU".to_vec()));
    assert!(contains_bytes(&b"abc".to_vec(), &b"".to_vec()));
    assert!(!contains_bytes(&b"ab".to_vec(), &b"abc".to_vec()));
}

#[test]
fn mixed_case_exact_label_matches() {
    assert!(label_is_boot_marker(&b"hAiKu".to_vec()));
}

#[test]
fn marker_inside_other_text_matches() {
    assert!(label_is_boot_marker(&b"my haiku vol".to_vec()));
    assert!(!label_is_boot_marker(&b"HELIUM".to_vec()));
}

#[test]
fn label_is_trimmed_of_trailing_padding() {
    let w = boot_sector_with_label(b"HAIKU      ");
    assert_eq!(volume_label(&w).unwrap(), b"HAIKU".to_vec());
    let nul_padded = boot_sector_with_label(b"HAIKU\0\0\0\0\0\0");
    assert_eq!(volume_label(&nul_padded).unwrap(), b"HAIKU".to_vec());
    let interior = boot_sector_with_label(b"HAIKU BOOT ");
    assert_eq!(volume_label(&interior).unwrap(), b"HAIKU BOOT".to_vec());
}

#[test]
fn missing_signature_is_volume_format_error() {
    let w = vec![0u8; 512];
    assert_eq!(volume_label(&w), Err(LocateError::VolumeFormat));
}

#[test]
fn short_window_is_volume_format_error() {
    let w = vec![0u8; 100];
    assert_eq!(volume_label(&w), Err(LocateError::VolumeFormat));
}

#[test]
fn error_messages_carry_the_reason() {
    assert_eq!(LocateError::NotFound.message(), "no compatible boot partition");
    assert_eq!(LocateError::Format.message(), "partition table is missing or malformed");
    assert_eq!(LocateError::VolumeFormat.message(), "volume is not a valid FAT filesystem");
    assert_eq!(LocateError::Io("bad disk".to_string()).message(), "bad disk");
}
