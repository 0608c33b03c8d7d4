//! Recognising an archive by the first bytes of a file.
//!
//! Only the first four bytes are looked at. The check tells nothing of what
//! follows them.

use vstd::prelude::*;

verus! {

/// The container formats that are recognised.
#[derive(Debug, Clone, Copy, PartialEq, Eq, Structural)]
pub enum ArchiveFormat {
    Zip,
    Rar,
    SevenZip,
    Tar,
}

/// What the first bytes of a file say of it.
#[derive(Debug, Clone, Copy, PartialEq, Eq, Structural)]
pub enum ArchiveVerdict {
    Recognized(ArchiveFormat),
    Unrecognized,
}

/// How many bytes of a file are looked at.
pub const HEADER_LEN: usize = 4;

/// The verdict on a file that begins with `prefix`. A file shorter than four
/// bytes is not recognised. The signatures are tried in the order ZIP (`PK`),
/// RAR (`Rar!`), 7-Zip (`7z` `BC` `AF`) and TAR (`usta`, the start of `ustar`,
/// looked for at the start of the file and not where a TAR header holds it).
pub open spec fn verdict_of(prefix: Seq<u8>) -> ArchiveVerdict {
    if prefix.len() < 4 {
        ArchiveVerdict::Unrecognized
    } else if prefix[0] == 0x50 && prefix[1] == 0x4B {
        ArchiveVerdict::Recognized(ArchiveFormat::Zip)
    } else if prefix[0] == 0x52 && prefix[1] == 0x61 && prefix[2] == 0x72 && prefix[3] == 0x21 {
        ArchiveVerdict::Recognized(ArchiveFormat::Rar)
    } else if prefix[0] == 0x37 && prefix[1] == 0x7A && prefix[2] == 0xBC && prefix[3] == 0xAF {
        ArchiveVerdict::Recognized(ArchiveFormat::SevenZip)
    } else if prefix[0] == 0x75 && prefix[1] == 0x73 && prefix[2] == 0x74 && prefix[3] == 0x61 {
        ArchiveVerdict::Recognized(ArchiveFormat::Tar)
    } else {
        ArchiveVerdict::Unrecognized
    }
}

/// The verdict on a file, given the bytes it begins with. Bytes after the
/// fourth are not looked at.
pub fn sniff_archive(prefix: &[u8]) -> (verdict: ArchiveVerdict)
    ensures
        verdict == verdict_of(prefix@),
        prefix@.len() >= 4 ==> verdict == verdict_of(prefix@.take(4)),
{
    if prefix.len() < HEADER_LEN {
        return ArchiveVerdict::Unrecognized;
    }
    let b0: u8 = prefix[0];
    let b1: u8 = prefix[1];
    let b2: u8 = prefix[2];
    let b3: u8 = prefix[3];
    if b0 == 0x50 && b1 == 0x4B {
        ArchiveVerdict::Recognized(ArchiveFormat::Zip)
    } else if b0 == 0x52 && b1 == 0x61 && b2 == 0x72 && b3 == 0x21 {
        ArchiveVerdict::Recognized(ArchiveFormat::Rar)
    } else if b0 == 0x37 && b1 == 0x7A && b2 == 0xBC && b3 == 0xAF {
        ArchiveVerdict::Recognized(ArchiveFormat::SevenZip)
    } else if b0 == 0x75 && b1 == 0x73 && b2 == 0x74 && b3 == 0x61 {
        ArchiveVerdict::Recognized(ArchiveFormat::Tar)
    } else {
        ArchiveVerdict::Unrecognized
    }
}

/// Whether a file that begins with `prefix` is an archive of a known format.
pub fn is_valid_archive(prefix: &[u8]) -> (valid: bool)
    ensures
        valid == (verdict_of(prefix@) is Recognized),
{
    match sniff_archive(prefix) {
        ArchiveVerdict::Recognized(_) => true,
        ArchiveVerdict::Unrecognized => false,
    }
}

} // verus!
