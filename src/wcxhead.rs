//! The host's packer-plugin protocol: result codes, pack flags and capability
//! bits, and the library's error kinds with the code each one is reported as.

use vstd::prelude::*;

verus! {

/// No more files in the archive.
pub const E_END_ARCHIVE: i32 = 10;
/// Not enough memory.
pub const E_NO_MEMORY: i32 = 11;
/// Data is bad.
pub const E_BAD_DATA: i32 = 12;
/// Archive data is damaged.
pub const E_BAD_ARCHIVE: i32 = 13;
/// Archive format unknown.
pub const E_UNKNOWN_FORMAT: i32 = 14;
/// Cannot open an existing file.
pub const E_EOPEN: i32 = 15;
/// Cannot create a file.
pub const E_ECREATE: i32 = 16;
/// Error closing a file.
pub const E_ECLOSE: i32 = 17;
/// Error reading from a file.
pub const E_EREAD: i32 = 18;
/// Error writing to a file.
pub const E_EWRITE: i32 = 19;
/// Buffer too small.
pub const E_SMALL_BUF: i32 = 20;
/// Function aborted by the user.
pub const E_EABORTED: i32 = 21;
/// No files found.
pub const E_NO_FILES: i32 = 22;
/// Too many files to pack.
pub const E_TOO_MANY_FILES: i32 = 23;
/// Function not supported.
pub const E_NOT_SUPPORTED: i32 = 24;

/// Open an archive to list its contents.
pub const PK_OM_LIST: i32 = 0;
/// Open an archive to extract from it.
pub const PK_OM_EXTRACT: i32 = 1;

/// Skip the current file.
pub const PK_SKIP: i32 = 0;
/// Test the current file.
pub const PK_TEST: i32 = 1;
/// Extract the current file.
pub const PK_EXTRACT: i32 = 2;

/// Delete the originals after packing.
pub const PK_PACK_MOVE_FILES: i32 = 1;
/// Save path names of the files.
pub const PK_PACK_SAVE_PATHS: i32 = 2;
/// Encrypt the packed files.
pub const PK_PACK_ENCRYPT: i32 = 4;

/// Can create new archives.
pub const PK_CAPS_NEW: i32 = 1;
/// Can modify existing archives.
pub const PK_CAPS_MODIFY: i32 = 2;
/// An archive can hold several files.
pub const PK_CAPS_MULTIPLE: i32 = 4;
/// Can delete files.
pub const PK_CAPS_DELETE: i32 = 8;
/// Has an options dialog.
pub const PK_CAPS_OPTIONS: i32 = 16;
/// Supports packing in memory.
pub const PK_CAPS_MEMPACK: i32 = 32;
/// Detects the archive type by content.
pub const PK_CAPS_BY_CONTENT: i32 = 64;
/// Allows searching for text in archives.
pub const PK_CAPS_SEARCHTEXT: i32 = 128;
/// Hides the packer icon.
pub const PK_CAPS_HIDE: i32 = 256;
/// Supports encryption.
pub const PK_CAPS_ENCRYPT: i32 = 512;

/// Listing and extraction are thread-safe.
pub const BACKGROUND_UNPACK: i32 = 1;
/// Packing is thread-safe.
pub const BACKGROUND_PACK: i32 = 2;
/// Packing in memory is thread-safe.
pub const BACKGROUND_MEMPACK: i32 = 4;

/// Attribute of a directory entry.
pub const FILE_ATTRIBUTE_DIRECTORY: i32 = 0x10;

/// The ways an operation of this library fails.
#[derive(Clone, Copy, Debug, PartialEq, Eq, Structural)]
pub enum ArchiveError {
    /// A file could not be opened, or a source could not be deleted.
    OpenFailed,
    /// A file could not be read.
    ReadFailed,
    /// A file could not be created.
    CreateFailed,
    /// A file could not be written.
    WriteFailed,
    /// Content that must be text is not valid UTF-8.
    NotText,
    /// The text is not a well-formed archive.
    BadArchive,
    /// A name does not form a legal entry path.
    BadPath,
    /// The request needs a feature this library does not offer.
    Unsupported,
    /// No entry is current, or the entries are exhausted.
    EndOfArchive,
    /// An entry to delete is not in the archive.
    NotFound,
    /// The progress callback asked to stop.
    Aborted,
}

pub open spec fn error_code(e: ArchiveError) -> i32 {
    match e {
        ArchiveError::OpenFailed => E_EOPEN,
        ArchiveError::ReadFailed => E_EREAD,
        ArchiveError::CreateFailed => E_ECREATE,
        ArchiveError::WriteFailed => E_EWRITE,
        ArchiveError::NotText => E_BAD_DATA,
        ArchiveError::BadArchive => E_BAD_ARCHIVE,
        ArchiveError::BadPath => E_UNKNOWN_FORMAT,
        ArchiveError::Unsupported => E_NOT_SUPPORTED,
        ArchiveError::EndOfArchive => E_END_ARCHIVE,
        ArchiveError::NotFound => E_NO_FILES,
        ArchiveError::Aborted => E_EABORTED,
    }
}

impl ArchiveError {
    /// The host result code of this error; distinct kinds get distinct codes.
    pub fn code(&self) -> (r: i32)
        ensures
            r == error_code(*self),
    {
        match self {
            ArchiveError::OpenFailed => E_EOPEN,
            ArchiveError::ReadFailed => E_EREAD,
            ArchiveError::CreateFailed => E_ECREATE,
            ArchiveError::WriteFailed => E_EWRITE,
            ArchiveError::NotText => E_BAD_DATA,
            ArchiveError::BadArchive => E_BAD_ARCHIVE,
            ArchiveError::BadPath => E_UNKNOWN_FORMAT,
            ArchiveError::Unsupported => E_NOT_SUPPORTED,
            ArchiveError::EndOfArchive => E_END_ARCHIVE,
            ArchiveError::NotFound => E_NO_FILES,
            ArchiveError::Aborted => E_EABORTED,
        }
    }
}

/// Distinct error kinds are reported as distinct codes.
pub proof fn lemma_codes_distinct(a: ArchiveError, b: ArchiveError)
    ensures
        error_code(a) == error_code(b) <==> a == b,
{
}

/// The capabilities the host is told of: creating, modifying and deleting,
/// several files per archive, detection by content and text search.
pub fn packer_caps() -> (r: i32)
    ensures
        r == PK_CAPS_NEW | PK_CAPS_MODIFY | PK_CAPS_MULTIPLE | PK_CAPS_DELETE | PK_CAPS_BY_CONTENT
            | PK_CAPS_SEARCHTEXT,
        r == 1 + 2 + 4 + 8 + 64 + 128,
{
    let r = PK_CAPS_NEW | PK_CAPS_MODIFY | PK_CAPS_MULTIPLE | PK_CAPS_DELETE | PK_CAPS_BY_CONTENT
        | PK_CAPS_SEARCHTEXT;
    assert(r == 1 + 2 + 4 + 8 + 64 + 128) by (bit_vector)
        requires
            r == 1i32 | 2i32 | 4i32 | 8i32 | 64i32 | 128i32,
    ;
    r
}

/// Listing, extraction and packing may run in the background.
pub fn background_flags() -> (r: i32)
    ensures
        r == BACKGROUND_UNPACK | BACKGROUND_PACK,
        r == 3,
{
    let r = BACKGROUND_UNPACK | BACKGROUND_PACK;
    assert(r == 3) by (bit_vector)
        requires
            r == 1i32 | 2i32,
    ;
    r
}

} // verus!
