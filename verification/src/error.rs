//! The errors the locate operation can surface.

use vstd::prelude::*;

verus! {

/// Failure modes of boot-partition discovery.
///
/// `Io`, `Format` and `NotFound` are fatal for a locate operation and reach
/// its caller; `VolumeFormat` is a recoverable, per-candidate failure that a
/// scan swallows — it is surfaced only by the volume inspector itself, never
/// by the scan.
#[derive(Debug, Clone, PartialEq, Eq)]
pub enum LocateError {
    /// The backing storage could not be opened or read; carries the reason.
    Io(String),
    /// The partition table's boot-record signature is absent or the sector
    /// holding it is malformed.
    Format,
    /// A candidate's filesystem region does not parse as a FAT boot sector.
    VolumeFormat,
    /// The scan exhausted the table without finding a boot partition.
    NotFound,
}

impl LocateError {
    /// A short description of the error, for reporting by callers.
    pub fn message(&self) -> (r: String)
        ensures
            self is Io ==> r@ == self->Io_0@,
            self is Format ==> r@ == "partition table is missing or malformed"@,
            self is VolumeFormat ==> r@ == "volume is not a valid FAT filesystem"@,
            self is NotFound ==> r@ == "no compatible boot partition"@,
    {
        broadcast use vstd::string::to_string_from_display_ensures_for_str;

        match self {
            LocateError::Io(s) => s.clone(),
            LocateError::Format => "partition table is missing or malformed".to_string(),
            LocateError::VolumeFormat => "volume is not a valid FAT filesystem".to_string(),
            LocateError::NotFound => "no compatible boot partition".to_string(),
        }
    }
}

} // verus!
