//! The trusted boundary to the backing storage.
//!
//! Everything the library learns about a disk image comes through the items
//! here: opening the image and reading raw byte windows out of it, through
//! positioned-io. Verus believes the stated contracts; it does not read the
//! bodies.

use vstd::prelude::*;

use positioned_io::ReadAt;

verus! {

#[verifier::external_type_specification]
#[verifier::external_body]
pub struct ExIoError(std::io::Error);

#[verifier::external_type_specification]
#[verifier::external_body]
pub struct ExRandomAccessFile(positioned_io::RandomAccessFile);

/// Relies on positioned_io::RandomAccessFile::open: opens the file at the
/// given path read-only for random-access reads.
#[verifier::external_body]
pub(crate) fn open_disk(disk: &str) -> (r: Result<
    positioned_io::RandomAccessFile,
    std::io::Error,
>) {
    positioned_io::RandomAccessFile::open(disk)
}

/// Relies on positioned_io::ReadAt::read_exact_at: on success the returned
/// buffer holds exactly `len` bytes, read from the file starting at byte
/// `offset`; it errors rather than return a short read. What the bytes are
/// depends on the disk.
#[verifier::external_body]
pub(crate) fn read_window(file: &positioned_io::RandomAccessFile, offset: u64, len: usize) -> (r:
    Result<Vec<u8>, std::io::Error>)
    ensures
        r is Ok ==> r.unwrap()@.len() == len,
{
    let mut buf: Vec<u8> = vec![0u8; len];
    file.read_exact_at(offset, &mut buf)?;
    Ok(buf)
}

/// Relies on the std Display implementation of std::io::Error for the
/// human-readable reason text.
#[verifier::external_body]
pub(crate) fn io_error_message(e: &std::io::Error) -> String {
    format!("{}", e)
}

} // verus!
