//! Filesystem volume inspection: parsing a FAT boot sector out of a byte
//! window and matching its volume label against the OS identity marker.
//!
//! The on-disk layout interpreted here is the classic FAT boot sector: the
//! sector is 512 bytes, its last two bytes hold the boot signature
//! `0x55 0xAA`, and the extended BIOS parameter block stores the volume
//! label as an 11-byte text field at byte offset 43, right-padded with
//! spaces. A window whose signature bytes are absent or wrong does not parse,
//! which callers treat as a recoverable, per-candidate failure.

use vstd::prelude::*;

use crate::error::LocateError;

verus! {

/// Bytes in one sector of the partition table's addressing scheme.
pub const SECTOR_SIZE: u64 = 512;

/// Byte offset of the volume-label field within the boot sector.
pub const LABEL_OFFSET: usize = 43;

/// Width of the fixed-size volume-label field.
pub const LABEL_LEN: usize = 11;

/// Whether `w` holds a structurally valid FAT boot sector: at least one full
/// sector of data, ending a 512-byte sector with the boot signature.
pub open spec fn window_parses(w: Seq<u8>) -> bool {
    w.len() >= 512 && w[510] == 0x55 && w[511] == 0xaa
}

/// The raw, fixed-width volume-label field of the boot sector in `w`.
pub open spec fn raw_label(w: Seq<u8>) -> Seq<u8> {
    w.subrange(LABEL_OFFSET as int, LABEL_OFFSET + LABEL_LEN)
}

/// Whether `b` is a padding byte of the label field (space padding, or a
/// stray NUL left by some formatters).
pub open spec fn is_padding(b: u8) -> bool {
    b == 0x20 || b == 0x00
}

/// `s` with its trailing padding bytes removed.
pub open spec fn trim_padding(s: Seq<u8>) -> Seq<u8>
    decreases s.len(),
{
    if s.len() > 0 && is_padding(s[s.len() - 1]) {
        trim_padding(s.drop_last())
    } else {
        s
    }
}

/// The decoded volume label of the boot sector in `w`: the fixed-width field
/// trimmed of its trailing padding.
pub open spec fn volume_label_of(w: Seq<u8>) -> Seq<u8> {
    trim_padding(raw_label(w))
}

/// `b` mapped to upper case, for the ASCII letters.
pub open spec fn upper_byte(b: u8) -> u8 {
    if 0x61 <= b <= 0x7a {
        (b - 0x20) as u8
    } else {
        b
    }
}

/// `s` mapped byte-wise to upper case.
pub open spec fn upper(s: Seq<u8>) -> Seq<u8> {
    s.map_values(|b: u8| upper_byte(b))
}

/// Whether `needle` occurs in `hay` starting at index `i`.
pub open spec fn matches_at(hay: Seq<u8>, needle: Seq<u8>, i: int) -> bool {
    &&& 0 <= i
    &&& i + needle.len() <= hay.len()
    &&& forall|j: int| 0 <= j < needle.len() ==> hay[i + j] == needle[j]
}

/// Whether `needle` occurs anywhere in `hay`.
pub open spec fn contains_seq(hay: Seq<u8>, needle: Seq<u8>) -> bool {
    exists|i: int| matches_at(hay, needle, i)
}

/// The OS identity marker looked for in volume labels, as upper-case bytes.
pub open spec fn os_marker() -> Seq<u8> {
    seq![0x48u8, 0x41u8, 0x49u8, 0x4bu8, 0x55u8]
}

/// Whether `label`, normalized to upper case, contains the OS identity
/// marker.
pub open spec fn label_matches(label: Seq<u8>) -> bool {
    contains_seq(upper(label), os_marker())
}

/// A label whose upper-case form is exactly the marker — whatever mixture
/// of cases it was written in — is a match.
pub proof fn lemma_exact_marker_matches(l: Seq<u8>)
    requires
        upper(l) == os_marker(),
    ensures
        label_matches(l),
{
    assert(matches_at(upper(l), os_marker(), 0));
}

/// A label that merely contains the marker somewhere within other text is a
/// match as well.
pub proof fn lemma_embedded_marker_matches(l: Seq<u8>, before: Seq<u8>, after: Seq<u8>)
    requires
        upper(l) == before + os_marker() + after,
    ensures
        label_matches(l),
{
    assert forall|j: int| 0 <= j < os_marker().len() implies (before + os_marker() + after)[
        before.len() + j
    ] == os_marker()[j] by {
        assert((before + os_marker())[before.len() + j] == os_marker()[j]);
    }
    assert(matches_at(upper(l), os_marker(), before.len() as int));
}

/// The OS identity marker as a byte vector (the letters `HAIKU`).
pub fn os_marker_bytes() -> (v: Vec<u8>)
    ensures
        v@ == os_marker(),
{
    let mut v: Vec<u8> = Vec::new();
    v.push(0x48);
    v.push(0x41);
    v.push(0x49);
    v.push(0x4b);
    v.push(0x55);
    proof {
        assert(v@ =~= os_marker());
    }
    v
}

/// `v` with every ASCII lower-case letter replaced by its upper-case form.
pub fn to_upper(v: &Vec<u8>) -> (r: Vec<u8>)
    ensures
        r@ == upper(v@),
{
    let mut r: Vec<u8> = Vec::new();
    let mut i: usize = 0;
    while i < v.len()
        invariant
            i <= v.len(),
            r@.len() == i,
            forall|j: int| 0 <= j < i ==> r@[j] == upper_byte(v@[j]),
        decreases v.len() - i,
    {
        let b = v[i];
        if 0x61 <= b && b <= 0x7a {
            r.push(b - 0x20);
        } else {
            r.push(b);
        }
        i += 1;
    }
    proof {
        assert(r@ =~= upper(v@));
    }
    r
}

/// Whether `needle` occurs in `hay` at the one index `i`.
fn match_at_index(hay: &Vec<u8>, needle: &Vec<u8>, i: usize) -> (r: bool)
    requires
        i + needle@.len() <= hay@.len(),
    ensures
        r == matches_at(hay@, needle@, i as int),
{
    let hlen: usize = hay.len();
    let mut j: usize = 0;
    while j < needle.len()
        invariant
            hlen == hay@.len(),
            i + needle@.len() <= hay@.len(),
            j <= needle@.len(),
            forall|m: int| 0 <= m < j ==> hay@[i + m] == needle@[m],
        decreases needle.len() - j,
    {
        proof {
            assert(i + j < hlen);
        }
        if hay[i + j] != needle[j] {
            proof {
                assert(hay@[i + j as int] != needle@[j as int]);
                assert(!matches_at(hay@, needle@, i as int));
            }
            return false;
        }
        proof {
            assert(hay@[i + j as int] == needle@[j as int]);
        }
        j += 1;
    }
    proof {
        assert(matches_at(hay@, needle@, i as int));
    }
    true
}

/// Whether the bytes of `needle` occur contiguously in `hay`.
pub fn contains_bytes(hay: &Vec<u8>, needle: &Vec<u8>) -> (r: bool)
    ensures
        r == contains_seq(hay@, needle@),
{
    if needle.len() > hay.len() {
        proof {
            assert forall|i: int| !matches_at(hay@, needle@, i) by {}
        }
        return false;
    }
    if needle.len() == 0 {
        proof {
            assert(matches_at(hay@, needle@, 0));
        }
        return true;
    }
    let last: usize = hay.len() - needle.len();
    let mut i: usize = 0;
    while i <= last
        invariant
            1 <= needle@.len() <= hay@.len(),
            hay@.len() <= usize::MAX,
            last == hay@.len() - needle@.len(),
            i <= last + 1,
            forall|k: int| 0 <= k < i ==> !matches_at(hay@, needle@, k),
        decreases last + 1 - i,
    {
        if match_at_index(hay, needle, i) {
            return true;
        }
        i += 1;
    }
    proof {
        assert forall|k: int| !matches_at(hay@, needle@, k) by {
            if 0 <= k <= last as int {
                assert(!matches_at(hay@, needle@, k));
            } else {
                assert(k < 0 || k + needle@.len() > hay@.len());
            }
        }
    }
    false
}

/// Whether `label` identifies an OS boot volume: its upper-case form
/// contains the identity marker.
pub fn label_is_boot_marker(label: &Vec<u8>) -> (r: bool)
    ensures
        r == label_matches(label@),
{
    let hay = to_upper(label);
    let needle = os_marker_bytes();
    contains_bytes(&hay, &needle)
}

/// The decoded volume label of the boot sector held in `window`.
///
/// Returns the fixed-width label field trimmed of trailing padding when the
/// window parses as a FAT boot sector, and `VolumeFormat` when it does not.
/// The failure is recoverable: a scan over several candidates treats it as
/// "not a match" and goes on.
pub fn volume_label(window: &Vec<u8>) -> (r: Result<Vec<u8>, LocateError>)
    ensures
        r is Ok <==> window_parses(window@),
        r is Ok ==> r.unwrap()@ == volume_label_of(window@),
        r is Err ==> r.unwrap_err() == LocateError::VolumeFormat,
{
    if window.len() < 512 {
        return Err(LocateError::VolumeFormat);
    }
    if *window.get(510).unwrap() != 0x55 || *window.get(511).unwrap() != 0xaa {
        return Err(LocateError::VolumeFormat);
    }
    Ok(decode_volume_label(window))
}

/// The trimmed volume-label field of a window already known to hold a valid
/// FAT boot sector.
pub fn decode_volume_label(window: &Vec<u8>) -> (r: Vec<u8>)
    requires
        window_parses(window@),
    ensures
        r@ == volume_label_of(window@),
{
    let mut raw: Vec<u8> = Vec::new();
    let mut i: usize = 0;
    while i < LABEL_LEN
        invariant
            i <= LABEL_LEN,
            window@.len() >= 512,
            raw@.len() == i,
            forall|j: int| 0 <= j < i ==> raw@[j] == window@[LABEL_OFFSET + j],
        decreases LABEL_LEN - i,
    {
        raw.push(*window.get(LABEL_OFFSET + i).unwrap());
        i += 1;
    }
    proof {
        assert(raw@ =~= raw_label(window@));
        assert(raw@.subrange(0, raw@.len() as int) =~= raw@);
    }
    let mut end: usize = raw.len();
    while end > 0 && (raw[end - 1] == 0x20 || raw[end - 1] == 0x00)
        invariant
            end <= raw@.len(),
            trim_padding(raw@) == trim_padding(raw@.subrange(0, end as int)),
        decreases end,
    {
        proof {
            let prefix = raw@.subrange(0, end as int);
            assert(prefix[end - 1] == raw@[end - 1]);
            assert(is_padding(prefix[prefix.len() - 1]));
            assert(prefix.drop_last() =~= raw@.subrange(0, end - 1));
        }
        end -= 1;
    }
    let mut label: Vec<u8> = Vec::new();
    let mut k: usize = 0;
    while k < end
        invariant
            end <= raw@.len(),
            label@.len() == k,
            k <= end,
            forall|j: int| 0 <= j < k ==> label@[j] == raw@[j],
        decreases end - k,
    {
        label.push(raw[k]);
        k += 1;
    }
    proof {
        let prefix = raw@.subrange(0, end as int);
        assert(label@ =~= prefix);
        if end > 0 {
            assert(!is_padding(prefix[prefix.len() - 1]));
        }
        assert(trim_padding(prefix) == prefix);
        assert(label@ == volume_label_of(window@));
    }
    label
}

} // verus!
