//! The data shown for one directory entry in the detailed format, and how it
//! is assembled from what the filesystem reads yielded. Per-entry failures
//! never abort the listing: a failed metadata read degrades the fields, and
//! only a name that cannot be represented as text rejects the entry.

use vstd::prelude::*;

verus! {

/// The classification of a filesystem entry.
#[derive(Clone, Copy, Debug, PartialEq, Eq, Structural)]
pub enum EntryKind {
    Directory,
    RegularFile,
    /// Anything else (a symbolic link, a socket, a device); treated like a
    /// regular file wherever only the directory bit matters.
    Other,
}

/// What can go wrong while listing.
#[derive(Clone, Copy, Debug, PartialEq, Eq, Structural)]
pub enum ScanError {
    /// The directory itself could not be read; the one fatal case.
    DirectoryUnreadable,
    /// One entry's metadata could not be read; the entry is still shown,
    /// with degraded fields.
    EntryMetadataUnavailable,
    /// One entry's name cannot be represented as text; the entry is
    /// skipped.
    InvalidEntryName,
}

/// The metadata read for one entry: its kind, byte size, permission bits,
/// and modification time as seconds since the Unix epoch (absent when that
/// one read failed).
#[derive(Clone, Copy, Debug, PartialEq, Eq)]
pub struct EntryMeta {
    pub kind: EntryKind,
    pub size: u64,
    pub mode: u32,
    pub modified: Option<i64>,
}

/// One entry of the detailed listing. `size` is meaningful only for
/// regular files; `permissions` holds the low nine permission bits;
/// `last_edited` is absent when the modification time could not be read.
#[derive(Clone, Debug, PartialEq, Eq)]
pub struct FileEntry {
    pub name: String,
    pub kind: EntryKind,
    pub size: u64,
    pub permissions: u32,
    pub last_edited: Option<i64>,
}

/// The kind recorded when the metadata read failed: the best-effort hint if
/// one was available, else a regular file.
pub open spec fn spec_kind_fallback(kind_hint: Option<EntryKind>) -> EntryKind {
    match kind_hint {
        Option::Some(k) => k,
        Option::None => EntryKind::RegularFile,
    }
}

/// Builds the detailed-listing entry from what the per-entry reads yielded:
/// the name as text (absent when it has none), a best-effort kind hint, and
/// the metadata (absent when that read failed).
///
/// A nameless entry is the one rejection; failed metadata degrades to a
/// zero size, no permission bits and no timestamp rather than rejecting the
/// entry. The permission bits are masked to their low nine bits.
pub fn get_file_entry(
    name: Option<String>,
    kind_hint: Option<EntryKind>,
    meta: Option<EntryMeta>,
) -> (r: Result<FileEntry, ScanError>)
    ensures
        name is None <==> r is Err,
        name is None ==> r == Err::<FileEntry, ScanError>(ScanError::InvalidEntryName),
        name matches Some(n) ==> r matches Ok(e) && e.name == n && (match meta {
            Option::Some(m) => e.kind == m.kind && e.size == m.size && e.permissions == (
            m.mode & 0o777u32) && e.last_edited == m.modified,
            Option::None => e.kind == spec_kind_fallback(kind_hint) && e.size == 0
                && e.permissions == 0 && e.last_edited is None,
        }),
{
    match name {
        Option::None => Err(ScanError::InvalidEntryName),
        Option::Some(n) => match meta {
            Option::Some(m) => Ok(
                FileEntry {
                    name: n,
                    kind: m.kind,
                    size: m.size,
                    permissions: m.mode & 0o777u32,
                    last_edited: m.modified,
                },
            ),
            Option::None => {
                let kind = match kind_hint {
                    Option::Some(k) => k,
                    Option::None => EntryKind::RegularFile,
                };
                Ok(
                    FileEntry {
                        name: n,
                        kind,
                        size: 0,
                        permissions: 0,
                        last_edited: None,
                    },
                )
            },
        },
    }
}

} // verus!
