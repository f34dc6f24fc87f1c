//! The boot-partition scan: which entry of a partition table, with the byte
//! windows read for its candidates, is the boot partition.
//!
//! The scan is short-circuiting: entries are judged in table order and the
//! first match wins. A candidate fails — and the scan goes on — when its
//! type code is not accepted, when its window could not be read, when the
//! window does not parse as a FAT boot sector, or when the decoded volume
//! label does not carry the OS identity marker. Only exhausting the table is
//! fatal.

use vstd::prelude::*;

use crate::error::LocateError;
use crate::table::PartitionEntry;
use crate::table::TypePolicy;
use crate::volume::label_matches;
use crate::volume::volume_label;
use crate::volume::volume_label_of;
use crate::volume::window_parses;

verus! {

/// A partition entry confirmed to host a valid OS boot volume, together
/// with the volume label that confirmed it.
#[derive(Debug, Clone, PartialEq, Eq)]
pub struct BootPartition {
    /// The table entry, unmodified in type, start and size.
    pub entry: PartitionEntry,
    /// The decoded volume label of the partition's filesystem.
    pub label: Vec<u8>,
}

impl BootPartition {
    /// The invariant of a confirmed boot partition: its type code is in the
    /// accepted set and its label carries the OS identity marker.
    pub open spec fn wf(self, policy: TypePolicy) -> bool {
        policy.spec_accepts(self.entry.type_code) && label_matches(self.label@)
    }

    /// The byte offset of the partition on the disk, for the step that
    /// places boot files into it.
    pub fn byte_offset(&self) -> (r: u64)
        ensures
            r == self.entry.start_sector * crate::volume::SECTOR_SIZE,
    {
        (self.entry.start_sector as u64) * crate::volume::SECTOR_SIZE
    }
}

/// The bytes of one candidate's window, if it could be read.
pub open spec fn window_view(w: Option<Vec<u8>>) -> Option<Seq<u8>> {
    match w {
        Option::Some(v) => Option::Some(v@),
        Option::None => Option::None,
    }
}

/// The windows of all candidates, as byte sequences.
pub open spec fn windows_view(ws: Seq<Option<Vec<u8>>>) -> Seq<Option<Seq<u8>>> {
    ws.map_values(|w: Option<Vec<u8>>| window_view(w))
}

/// Whether `entry`, whose filesystem window was read as `window`, is a
/// boot-partition match under `policy`.
pub open spec fn candidate_matches(
    policy: TypePolicy,
    entry: PartitionEntry,
    window: Option<Seq<u8>>,
) -> bool {
    &&& policy.spec_accepts(entry.type_code)
    &&& window is Some
    &&& window_parses(window.unwrap())
    &&& label_matches(volume_label_of(window.unwrap()))
}

/// The index of the first matching entry at or after `i`, in table order.
pub open spec fn spec_select_from(
    entries: Seq<PartitionEntry>,
    windows: Seq<Option<Seq<u8>>>,
    policy: TypePolicy,
    i: int,
) -> Option<int>
    decreases entries.len() - i,
{
    if i < 0 || i >= entries.len() {
        Option::None
    } else if candidate_matches(policy, entries[i], windows[i]) {
        Option::Some(i)
    } else {
        spec_select_from(entries, windows, policy, i + 1)
    }
}

/// The index of the first matching entry of the table, if any.
pub open spec fn spec_select(
    entries: Seq<PartitionEntry>,
    windows: Seq<Option<Seq<u8>>>,
    policy: TypePolicy,
) -> Option<int> {
    spec_select_from(entries, windows, policy, 0)
}

proof fn lemma_select_from_characterizes(
    entries: Seq<PartitionEntry>,
    windows: Seq<Option<Seq<u8>>>,
    policy: TypePolicy,
    k: int,
)
    requires
        0 <= k <= entries.len(),
    ensures
        match spec_select_from(entries, windows, policy, k) {
            Option::Some(i) => {
                &&& k <= i < entries.len()
                &&& candidate_matches(policy, entries[i], windows[i])
                &&& forall|j: int|
                    k <= j < i ==> !candidate_matches(policy, entries[j], windows[j])
            },
            Option::None => forall|j: int|
                k <= j < entries.len() ==> !candidate_matches(policy, entries[j], windows[j]),
        },
    decreases entries.len() - k,
{
    if k < entries.len() {
        if !candidate_matches(policy, entries[k], windows[k]) {
            lemma_select_from_characterizes(entries, windows, policy, k + 1);
        }
    }
}

/// The scan returns exactly the first match in table order: a selected index
/// is a match with no match before it, and no index is selected only when no
/// entry matches at all.
pub proof fn lemma_select_is_first_match(
    entries: Seq<PartitionEntry>,
    windows: Seq<Option<Seq<u8>>>,
    policy: TypePolicy,
)
    ensures
        match spec_select(entries, windows, policy) {
            Option::Some(i) => {
                &&& 0 <= i < entries.len()
                &&& candidate_matches(policy, entries[i], windows[i])
                &&& forall|j: int|
                    0 <= j < i ==> !candidate_matches(policy, entries[j], windows[j])
            },
            Option::None => forall|j: int|
                0 <= j < entries.len() ==> !candidate_matches(policy, entries[j], windows[j]),
        },
{
    lemma_select_from_characterizes(entries, windows, policy, 0);
}

/// A table with no entry of an accepted type has no boot partition.
pub proof fn lemma_no_accepted_type_no_match(
    entries: Seq<PartitionEntry>,
    windows: Seq<Option<Seq<u8>>>,
    policy: TypePolicy,
)
    requires
        forall|j: int| 0 <= j < entries.len() ==> !policy.spec_accepts(entries[j].type_code),
    ensures
        spec_select(entries, windows, policy) is None,
{
    lemma_select_is_first_match(entries, windows, policy);
    if spec_select(entries, windows, policy) is Some {
        let i = spec_select(entries, windows, policy).unwrap();
        assert(!policy.spec_accepts(entries[i].type_code));
    }
}

/// A table with exactly one matching candidate yields exactly that entry.
pub proof fn lemma_unique_match_is_selected(
    entries: Seq<PartitionEntry>,
    windows: Seq<Option<Seq<u8>>>,
    policy: TypePolicy,
    i: int,
)
    requires
        0 <= i < entries.len(),
        candidate_matches(policy, entries[i], windows[i]),
        forall|j: int|
            0 <= j < entries.len() && j != i ==> !candidate_matches(
                policy,
                entries[j],
                windows[j],
            ),
    ensures
        spec_select(entries, windows, policy) == Option::Some(i),
{
    lemma_select_is_first_match(entries, windows, policy);
    match spec_select(entries, windows, policy) {
        Option::Some(m) => {
            if m != i {
                assert(!candidate_matches(policy, entries[m], windows[m]));
            }
        },
        Option::None => {
            assert(!candidate_matches(policy, entries[i], windows[i]));
        },
    }
}

proof fn lemma_select_from_same_pattern(
    e1: Seq<PartitionEntry>,
    w1: Seq<Option<Seq<u8>>>,
    e2: Seq<PartitionEntry>,
    w2: Seq<Option<Seq<u8>>>,
    policy: TypePolicy,
    k: int,
)
    requires
        e1.len() == e2.len(),
        0 <= k <= e1.len(),
        forall|j: int|
            0 <= j < e1.len() ==> candidate_matches(policy, e1[j], w1[j]) == candidate_matches(
                policy,
                e2[j],
                w2[j],
            ),
    ensures
        spec_select_from(e1, w1, policy, k) == spec_select_from(e2, w2, policy, k),
    decreases e1.len() - k,
{
    if k < e1.len() {
        if !candidate_matches(policy, e1[k], w1[k]) {
            lemma_select_from_same_pattern(e1, w1, e2, w2, policy, k + 1);
        }
    }
}

/// The scan depends only on which entries match: two tables whose entries
/// match at exactly the same positions select the same index.
pub proof fn lemma_select_same_match_pattern(
    e1: Seq<PartitionEntry>,
    w1: Seq<Option<Seq<u8>>>,
    e2: Seq<PartitionEntry>,
    w2: Seq<Option<Seq<u8>>>,
    policy: TypePolicy,
)
    requires
        e1.len() == e2.len(),
        forall|j: int|
            0 <= j < e1.len() ==> candidate_matches(policy, e1[j], w1[j]) == candidate_matches(
                policy,
                e2[j],
                w2[j],
            ),
    ensures
        spec_select(e1, w1, policy) == spec_select(e2, w2, policy),
{
    lemma_select_from_same_pattern(e1, w1, e2, w2, policy, 0);
}

/// Swapping two non-matching entries of the table does not change which
/// index the scan selects.
pub proof fn lemma_swap_non_matching(
    entries: Seq<PartitionEntry>,
    windows: Seq<Option<Seq<u8>>>,
    policy: TypePolicy,
    a: int,
    b: int,
)
    requires
        windows.len() == entries.len(),
        0 <= a < entries.len(),
        0 <= b < entries.len(),
        !candidate_matches(policy, entries[a], windows[a]),
        !candidate_matches(policy, entries[b], windows[b]),
    ensures
        spec_select(
            entries.update(a, entries[b]).update(b, entries[a]),
            windows.update(a, windows[b]).update(b, windows[a]),
            policy,
        ) == spec_select(entries, windows, policy),
{
    let e2 = entries.update(a, entries[b]).update(b, entries[a]);
    let w2 = windows.update(a, windows[b]).update(b, windows[a]);
    assert forall|j: int|
        0 <= j < e2.len() implies candidate_matches(policy, e2[j], w2[j]) == candidate_matches(
        policy,
        entries[j],
        windows[j],
    ) by {
        if j == b {
            assert(e2[j] == entries[a] && w2[j] == windows[a]);
        } else if j == a {
            assert(e2[j] == entries[b] && w2[j] == windows[b]);
        } else {
            assert(e2[j] == entries[j] && w2[j] == windows[j]);
        }
    }
    lemma_select_from_same_pattern(e2, w2, entries, windows, policy, 0);
}

/// A candidate of an accepted type whose filesystem region could not be
/// read or does not parse is skipped without aborting the scan: a later
/// entry that is otherwise the first match is still selected.
pub proof fn lemma_failed_candidate_skipped(
    entries: Seq<PartitionEntry>,
    windows: Seq<Option<Seq<u8>>>,
    policy: TypePolicy,
    i: int,
    j: int,
)
    requires
        0 <= i < j < entries.len(),
        policy.spec_accepts(entries[i].type_code),
        windows[i] is None || !window_parses(windows[i].unwrap()),
        candidate_matches(policy, entries[j], windows[j]),
        forall|k: int|
            0 <= k < j && k != i ==> !candidate_matches(policy, entries[k], windows[k]),
    ensures
        spec_select(entries, windows, policy) == Option::Some(j),
{
    assert(!candidate_matches(policy, entries[i], windows[i]));
    lemma_select_is_first_match(entries, windows, policy);
    match spec_select(entries, windows, policy) {
        Option::Some(m) => {
            if m < j {
                assert(!candidate_matches(policy, entries[m], windows[m]));
            } else if m > j {
                assert(!candidate_matches(policy, entries[j], windows[j]));
            }
        },
        Option::None => {
            assert(!candidate_matches(policy, entries[j], windows[j]));
        },
    }
}

/// Whether `entry`, with the byte window read for it, is a boot-partition
/// match under `policy`.
pub fn candidate_is_match(
    policy: &TypePolicy,
    entry: &PartitionEntry,
    window: &Option<Vec<u8>>,
) -> (r: bool)
    ensures
        r == candidate_matches(*policy, *entry, window_view(*window)),
{
    if !policy.accepts(entry.type_code) {
        return false;
    }
    match window {
        Option::Some(w) => match volume_label(w) {
            Result::Ok(label) => crate::volume::label_is_boot_marker(&label),
            Result::Err(_) => false,
        },
        Option::None => false,
    }
}

/// The index of the first entry of `entries` that is a boot-partition match,
/// judging each entry against the byte window read for it.
pub fn select_boot_index(
    entries: &Vec<PartitionEntry>,
    windows: &Vec<Option<Vec<u8>>>,
    policy: &TypePolicy,
) -> (r: Option<usize>)
    requires
        windows@.len() == entries@.len(),
    ensures
        ({
            let s = spec_select(entries@, windows_view(windows@), *policy);
            match r {
                Option::Some(i) => i < entries@.len() && s == Option::Some(i as int),
                Option::None => s is None,
            }
        }),
{
    let mut i: usize = 0;
    while i < entries.len()
        invariant
            windows@.len() == entries@.len(),
            i <= entries@.len(),
            spec_select(entries@, windows_view(windows@), *policy) == spec_select_from(
                entries@,
                windows_view(windows@),
                *policy,
                i as int,
            ),
        decreases entries.len() - i,
    {
        proof {
            assert(windows_view(windows@)[i as int] == window_view(windows@[i as int]));
        }
        if candidate_is_match(policy, &entries[i], &windows[i]) {
            return Option::Some(i);
        }
        i += 1;
    }
    Option::None
}

/// Judge the table against the windows read for it, and wrap the first
/// matching entry — unmodified in type, start and size — together with its
/// decoded volume label.
pub fn scan_table(
    entries: &Vec<PartitionEntry>,
    windows: &Vec<Option<Vec<u8>>>,
    policy: &TypePolicy,
) -> (r: Option<BootPartition>)
    requires
        windows@.len() == entries@.len(),
    ensures
        ({
            let s = spec_select(entries@, windows_view(windows@), *policy);
            match r {
                Option::Some(bp) => {
                    &&& s is Some
                    &&& 0 <= s.unwrap() < entries@.len()
                    &&& bp.entry == entries@[s.unwrap()]
                    &&& bp.label@ == volume_label_of(window_view(windows@[s.unwrap()]).unwrap())
                    &&& bp.wf(*policy)
                },
                Option::None => s is None,
            }
        }),
{
    match select_boot_index(entries, windows, policy) {
        Option::Some(i) => {
            proof {
                lemma_select_is_first_match(entries@, windows_view(windows@), *policy);
                assert(windows_view(windows@)[i as int] == window_view(windows@[i as int]));
            }
            let w = windows[i].as_ref().unwrap();
            let label = crate::volume::decode_volume_label(w);
            Option::Some(BootPartition { entry: entries[i], label })
        },
        Option::None => Option::None,
    }
}

/// The partition table held by the already-opened image `file`.
fn read_table_from(file: &positioned_io::RandomAccessFile) -> (r: Result<
    Vec<PartitionEntry>,
    LocateError,
>)
    ensures
        r is Ok ==> r.unwrap()@.len() == 4,
        r is Err ==> (r.unwrap_err() is Io || r.unwrap_err() is Format),
{
    let sector = match crate::disk::read_window(file, 0, 512) {
        Result::Ok(s) => s,
        Result::Err(e) => return Result::Err(
            LocateError::Io(crate::disk::io_error_message(&e)),
        ),
    };
    crate::table::parse_partition_table(&sector)
}

/// The partition table of the disk image at `disk`, in on-disk order.
///
/// Sector 0 is read and parsed as the conventional MBR-style table: its
/// four slots are returned when the boot-record signature is present, `Io`
/// when the path cannot be opened or the sector cannot be read (an image
/// shorter than one sector surfaces here as a read failure), and `Format`
/// when the sector carries no valid signature.
pub fn read_partition_table(disk: &str) -> (r: Result<Vec<PartitionEntry>, LocateError>)
    ensures
        r is Ok ==> r.unwrap()@.len() == 4,
        r is Err ==> (r.unwrap_err() is Io || r.unwrap_err() is Format),
{
    let file = match crate::disk::open_disk(disk) {
        Result::Ok(f) => f,
        Result::Err(e) => return Result::Err(
            LocateError::Io(crate::disk::io_error_message(&e)),
        ),
    };
    read_table_from(&file)
}

/// The byte window the inspector receives for `e`: the first sector of the
/// entry's own region.
pub fn inspection_window(e: &PartitionEntry) -> (r: (u64, usize))
    ensures
        r.0 == e.start_sector * crate::volume::SECTOR_SIZE,
        r.1 == 512,
{
    ((e.start_sector as u64) * crate::volume::SECTOR_SIZE, 512)
}

/// Locate the boot partition of the disk image at `disk`.
///
/// The partition table is read from sector 0 and its entries are judged in
/// table order. For each entry whose type code `policy` accepts, the first
/// sector of that entry's own filesystem region is read and inspected — no
/// table index is privileged beyond its place in the order — and the first
/// entry whose FAT volume label, normalized to upper case, contains the OS
/// identity marker is returned. Every per-candidate failure (a type code
/// not accepted, an empty or unreadable region, a region that does not
/// parse as a FAT boot sector, a label without the marker) advances the
/// scan. An unreadable device (`Io`) or a table without a valid signature
/// (`Format`) is fatal; exhausting the table yields `NotFound`. The
/// per-candidate `VolumeFormat` failure never escapes.
pub fn locate_boot_partition(disk: &str, policy: &TypePolicy) -> (r: Result<
    BootPartition,
    LocateError,
>)
    ensures
        r is Ok ==> r.unwrap().wf(*policy),
        r is Ok ==> r.unwrap().entry.sector_count >= 1,
        r is Err ==> (r.unwrap_err() is Io || r.unwrap_err() is Format || r.unwrap_err()
            is NotFound),
{
    let file = match crate::disk::open_disk(disk) {
        Result::Ok(f) => f,
        Result::Err(e) => return Result::Err(
            LocateError::Io(crate::disk::io_error_message(&e)),
        ),
    };
    let entries = match read_table_from(&file) {
        Result::Ok(v) => v,
        Result::Err(e) => return Result::Err(e),
    };
    let mut windows: Vec<Option<Vec<u8>>> = Vec::new();
    let mut k: usize = 0;
    while k < entries.len()
        invariant
            windows@.len() == k,
            k <= entries@.len(),
            forall|m: int| 0 <= m < k ==> (windows@[m] is Some ==> entries@[m].sector_count >= 1),
        decreases entries@.len() - k,
    {
        let e = entries[k];
        if policy.accepts(e.type_code) && e.sector_count >= 1 {
            let (offset, len) = inspection_window(&e);
            match crate::disk::read_window(&file, offset, len) {
                Result::Ok(w) => windows.push(Option::Some(w)),
                Result::Err(_) => windows.push(Option::None),
            }
        } else {
            windows.push(Option::None);
        }
        k += 1;
    }
    match scan_table(&entries, &windows, policy) {
        Option::Some(bp) => {
            proof {
                lemma_select_is_first_match(entries@, windows_view(windows@), *policy);
                let i = spec_select(entries@, windows_view(windows@), *policy).unwrap();
                assert(windows_view(windows@)[i] == window_view(windows@[i]));
                assert(windows@[i] is Some);
            }
            Result::Ok(bp)
        },
        Option::None => Result::Err(LocateError::NotFound),
    }
}

} // verus!
