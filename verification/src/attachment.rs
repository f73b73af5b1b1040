//! Immutable file admission into Coordinator-owned storage.
use vstd::prelude::*;

use crate::digest::{digest_bytes, digest_form};
use crate::identity::{uuid_form, uuid_text, AttachmentId};
use crate::paths::{below, components, join_path, same_path};
use crate::text::{decimal, decimal_text, join3, same_text};

verus! {

/// Default maximum admitted Attachment size: 64 MiB.
pub const DEFAULT_MAX_ATTACHMENT_BYTES: u64 = 64 * 1024 * 1024;

/// Immutable metadata for one file copied into Coordinator-owned storage.
#[derive(Debug)]
pub struct AttachmentMetadata {
    /// Generated durable Attachment identity.
    pub id: AttachmentId,
    /// Lowercase SHA-256 digest of the stored bytes.
    pub digest: String,
    /// Exact stored byte count.
    pub size_bytes: u64,
    /// Caller-declared media type.
    pub media_type: String,
    /// Caller-declared original file name.
    pub original_name: String,
    /// Path relative to the Coordinator state directory.
    pub storage_path: String,
}

/// What [`AttachmentMetadata`] says.
pub struct AttachmentRecord {
    pub id: AttachmentId,
    pub digest: Seq<char>,
    pub size_bytes: u64,
    pub media_type: Seq<char>,
    pub original_name: Seq<char>,
    pub storage_path: Seq<char>,
}

impl View for AttachmentMetadata {
    type V = AttachmentRecord;

    open spec fn view(&self) -> AttachmentRecord {
        AttachmentRecord {
            id: self.id,
            digest: self.digest@,
            size_bytes: self.size_bytes,
            media_type: self.media_type@,
            original_name: self.original_name@,
            storage_path: self.storage_path@,
        }
    }
}

/// Attachment admission or integrity failure.
#[derive(Debug)]
#[allow(inconsistent_fields)]
pub enum AttachmentError {
    /// The source is not an admissible readable regular file.
    InvalidSource { path: String, reason: String },
    /// The source exceeded the configured limit while being streamed.
    TooLarge { limit: u64 },
    /// Stored content is absent, malformed, or differs from its metadata.
    Corrupt { id: AttachmentId, reason: String },
    /// A filesystem operation failed.
    Io { operation: String, path: String, source: String },
}

/// What an [`AttachmentError`] says.
#[allow(inconsistent_fields)]
pub enum AttachmentFault {
    InvalidSource { path: Seq<char>, reason: Seq<char> },
    TooLarge { limit: u64 },
    Corrupt { id: AttachmentId, reason: Seq<char> },
    Io { operation: Seq<char>, path: Seq<char>, source: Seq<char> },
}

impl View for AttachmentError {
    type V = AttachmentFault;

    open spec fn view(&self) -> AttachmentFault {
        match self {
            AttachmentError::InvalidSource { path, reason } => AttachmentFault::InvalidSource {
                path: path@,
                reason: reason@,
            },
            AttachmentError::TooLarge { limit } => AttachmentFault::TooLarge { limit: *limit },
            AttachmentError::Corrupt { id, reason } => AttachmentFault::Corrupt {
                id: *id,
                reason: reason@,
            },
            AttachmentError::Io { operation, path, source } => AttachmentFault::Io {
                operation: operation@,
                path: path@,
                source: source@,
            },
        }
    }
}

/// The diagnostic text of a fault.
pub open spec fn attachment_text(f: AttachmentFault) -> Seq<char> {
    match f {
        AttachmentFault::InvalidSource { path, reason } => "invalid Attachment source `"@ + path
            + "`: "@ + reason,
        AttachmentFault::TooLarge { limit } => "Attachment exceeds the configured "@ + decimal(
            limit as nat,
        ) + "-byte limit"@,
        AttachmentFault::Corrupt { id, reason } => "Attachment "@ + uuid_form(id.0)
            + " is corrupt: "@ + reason,
        AttachmentFault::Io { operation, path, source } => "failed to "@ + operation + " `"@ + path
            + "`: "@ + source,
    }
}

impl AttachmentError {
    /// A failed filesystem operation.
    pub fn io(operation: &str, path: &str, source: &str) -> (r: AttachmentError)
        ensures
            r@ == (AttachmentFault::Io { operation: operation@, path: path@, source: source@ }),
    {
        AttachmentError::Io {
            operation: operation.to_owned(),
            path: path.to_owned(),
            source: source.to_owned(),
        }
    }

    fn corrupt(id: AttachmentId, reason: &str) -> (r: AttachmentError)
        ensures
            r@ == (AttachmentFault::Corrupt { id, reason: reason@ }),
    {
        AttachmentError::Corrupt { id, reason: reason.to_owned() }
    }

    /// The diagnostic text.
    pub fn text(&self) -> (r: String)
        ensures
            r@ == attachment_text(self@),
    {
        match self {
            AttachmentError::InvalidSource { path, reason } => {
                let mut r = join3("invalid Attachment source `", path.as_str(), "`: ");
                r.append(reason.as_str());
                r
            },
            AttachmentError::TooLarge { limit } => {
                let n = decimal_text(*limit);
                join3("Attachment exceeds the configured ", n.as_str(), "-byte limit")
            },
            AttachmentError::Corrupt { id, reason } => {
                let name = uuid_text(id.0);
                let mut r = join3("Attachment ", name.as_str(), " is corrupt: ");
                r.append(reason.as_str());
                r
            },
            AttachmentError::Io { operation, path, source } => {
                let mut r = join3("failed to ", operation.as_str(), " `");
                r.append(path.as_str());
                r.append("`: ");
                r.append(source.as_str());
                r
            },
        }
    }
}

// ---------------------------------------------------------------------------------------------
// Sources
// ---------------------------------------------------------------------------------------------

/// What the file system says of a file.
#[derive(Debug, Clone, Copy, PartialEq, Eq, Structural)]
pub struct FileStatus {
    /// The path itself is a symbolic link.
    pub symlink: bool,
    /// The path names a regular file.
    pub regular: bool,
    /// Permission bits.
    pub mode: u32,
    /// Size in bytes.
    pub size: u64,
    /// Device that holds the file.
    pub device: u64,
    /// Number of the file on its device.
    pub inode: u64,
}

fn invalid_source(path: &str, reason: &str) -> (r: AttachmentError)
    ensures
        r@ == (AttachmentFault::InvalidSource { path: path@, reason: reason@ }),
{
    AttachmentError::InvalidSource { path: path.to_owned(), reason: reason.to_owned() }
}

/// The bits that let anyone read a file.
pub open spec fn readable(mode: u32) -> bool {
    mode & 0o444 != 0
}

/// Why a source cannot be admitted.
pub open spec fn source_refusal(path: Seq<char>, found: FileStatus) -> Option<AttachmentFault> {
    if found.symlink {
        Some(AttachmentFault::InvalidSource { path, reason: "final path is a symlink"@ })
    } else if !found.regular {
        Some(AttachmentFault::InvalidSource { path, reason: "source is not a regular file"@ })
    } else if !readable(found.mode) {
        Some(
            AttachmentFault::InvalidSource {
                path,
                reason: "source has no readable permission bits"@,
            },
        )
    } else {
        None
    }
}

/// Requires a readable regular file.
pub fn validate_source_metadata(path: &str, found: FileStatus) -> (r: Result<(), AttachmentError>)
    ensures
        match source_refusal(path@, found) {
            None => r is Ok,
            Some(f) => r is Err && r->Err_0@ == f,
        },
{
    if found.symlink {
        return Err(invalid_source(path, "final path is a symlink"));
    }
    if !found.regular {
        return Err(invalid_source(path, "source is not a regular file"));
    }
    if found.mode & 0o444 == 0 {
        return Err(invalid_source(path, "source has no readable permission bits"));
    }
    Ok(())
}

/// Why an opened source is not the one that was inspected.
pub open spec fn opened_refusal(path: Seq<char>, before: FileStatus, opened: FileStatus) -> Option<
    AttachmentFault,
> {
    if !opened.regular {
        Some(
            AttachmentFault::InvalidSource { path, reason: "opened source is not a regular file"@ },
        )
    } else if before.device != opened.device || before.inode != opened.inode {
        Some(AttachmentFault::InvalidSource { path, reason: "source changed during admission"@ })
    } else {
        None
    }
}

/// Requires the file that was inspected.
pub fn validate_opened_source(path: &str, before: FileStatus, opened: FileStatus) -> (r: Result<
    (),
    AttachmentError,
>)
    ensures
        match opened_refusal(path@, before, opened) {
            None => r is Ok,
            Some(f) => r is Err && r->Err_0@ == f,
        },
{
    if !opened.regular {
        return Err(invalid_source(path, "opened source is not a regular file"));
    }
    if before.device != opened.device || before.inode != opened.inode {
        return Err(invalid_source(path, "source changed during admission"));
    }
    Ok(())
}

/// A source that could not be opened.
pub fn map_source_open_error(path: &str, denied: bool, error: &str) -> (r: AttachmentError)
    ensures
        r@ == if denied {
            AttachmentFault::InvalidSource { path: path@, reason: "source is not readable"@ }
        } else {
            AttachmentFault::Io {
                operation: "open source without following symlink"@,
                path: path@,
                source: error@,
            }
        },
{
    if denied {
        invalid_source(path, "source is not readable")
    } else {
        AttachmentError::io("open source without following symlink", path, error)
    }
}

// ---------------------------------------------------------------------------------------------
// Content
// ---------------------------------------------------------------------------------------------

/// Content that is read piece by piece, up to a limit.
#[derive(Debug)]
pub struct Content {
    bytes: Vec<u8>,
    limit: u64,
}

impl Content {
    /// What was read so far.
    pub closed spec fn read(self) -> Seq<u8> {
        self.bytes@
    }

    pub closed spec fn most(self) -> u64 {
        self.limit
    }

    /// No content yet.
    pub fn new(limit: u64) -> (r: Content)
        ensures
            r.read() == Seq::<u8>::empty(),
            r.most() == limit,
    {
        Content { bytes: Vec::new(), limit }
    }

    /// Takes one more piece; a piece that goes beyond the limit is refused. The greatest limit
    /// refuses nothing.
    pub fn take(&mut self, piece: &[u8]) -> (r: Result<(), AttachmentError>)
        ensures
            final(self).most() == old(self).most(),
            old(self).read().len() + piece@.len() > old(self).most() && old(self).most() < u64::MAX
                ==> r is Err && r->Err_0@ == (AttachmentFault::TooLarge { limit: old(self).most() })
                && final(self).read() == old(self).read(),
            old(self).read().len() + piece@.len() <= old(self).most() || old(self).most()
                == u64::MAX ==> r is Ok && final(self).read() == old(self).read() + piece@,
    {
        let before: u64 = self.bytes.len() as u64;
        let size: u64 = before.saturating_add(piece.len() as u64);
        if size > self.limit {
            return Err(AttachmentError::TooLarge { limit: self.limit });
        }
        self.bytes.extend_from_slice(piece);
        assert(self.bytes@ =~= old(self).bytes@ + piece@);
        Ok(())
    }

    /// The number of bytes that were read.
    pub fn size(&self) -> (r: u64)
        ensures
            r == self.read().len(),
    {
        self.bytes.len() as u64
    }

    /// The digest of what was read.
    pub fn digest(&self) -> (r: String)
        ensures
            r@ == digest_form(self.read()),
    {
        digest_bytes(self.bytes.as_slice())
    }
}

// ---------------------------------------------------------------------------------------------
// The store
// ---------------------------------------------------------------------------------------------

/// Immutable Attachment store below a state directory.
#[derive(Debug)]
pub struct AttachmentStore {
    state_dir: String,
    max_bytes: u64,
}

/// Where an Attachment stands, relative to the state directory.
pub open spec fn storage_path(id: AttachmentId) -> Seq<char> {
    below("attachments"@, uuid_form(id.0))
}

/// The record of admitted content.
pub open spec fn admitted(
    id: AttachmentId,
    content: Seq<u8>,
    media_type: Seq<char>,
    original_name: Seq<char>,
) -> AttachmentRecord {
    AttachmentRecord {
        id,
        digest: digest_form(content),
        size_bytes: content.len() as u64,
        media_type,
        original_name,
        storage_path: storage_path(id),
    }
}

/// What the file system holds where an Attachment is stored.
#[derive(Debug)]
#[allow(inconsistent_fields)]
pub enum StoredFile {
    /// The path could not be inspected, opened or read.
    Unreachable { error: String },
    /// The path is a symbolic link or no regular file.
    Irregular,
    /// The content of a regular file.
    Regular { content: Content },
}

/// Why a stored Attachment is corrupt.
pub open spec fn corruption(attachment: AttachmentRecord, stored: StoredFile) -> Option<Seq<char>> {
    if components(attachment.storage_path) != components(storage_path(attachment.id)) {
        Some("storage path does not match Attachment identity"@)
    } else {
        match stored {
            StoredFile::Unreachable { error } => Some(error@),
            StoredFile::Irregular => Some("stored path is not a regular file"@),
            StoredFile::Regular { content } => if content.read().len() != attachment.size_bytes {
                Some(
                    "size mismatch: expected "@ + decimal(attachment.size_bytes as nat)
                        + ", found "@ + decimal(content.read().len()),
                )
            } else if digest_form(content.read()) != attachment.digest {
                Some("SHA-256 digest mismatch"@)
            } else {
                None
            },
        }
    }
}

fn path_of(id: AttachmentId) -> (r: String)
    ensures
        r@ == storage_path(id),
{
    let name = uuid_text(id.0);
    join_path("attachments", name.as_str())
}

impl AttachmentStore {
    /// The directory below which Attachments are stored.
    pub closed spec fn base(self) -> Seq<char> {
        self.state_dir@
    }

    /// The most bytes that are admitted.
    pub closed spec fn limit(self) -> u64 {
        self.max_bytes
    }

    /// A store with the 64 MiB default admission limit.
    pub fn new(state_dir: String) -> (r: AttachmentStore)
        ensures
            r.base() == state_dir@,
            r.limit() == DEFAULT_MAX_ATTACHMENT_BYTES,
    {
        AttachmentStore::with_max_bytes(state_dir, DEFAULT_MAX_ATTACHMENT_BYTES)
    }

    /// A store with a caller-selected maximum admitted byte count.
    pub fn with_max_bytes(state_dir: String, max_bytes: u64) -> (r: AttachmentStore)
        ensures
            r.base() == state_dir@,
            r.limit() == max_bytes,
    {
        AttachmentStore { state_dir, max_bytes }
    }

    /// Where a new Attachment is published.
    pub fn published_path(&self, id: AttachmentId) -> (r: String)
        ensures
            r@ == below(self.base(), storage_path(id)),
    {
        let path = path_of(id);
        join_path(self.state_dir.as_str(), path.as_str())
    }

    /// Where a new Attachment is written before it is published.
    pub fn temporary_path(&self, id: AttachmentId) -> (r: String)
        ensures
            r@ == below(
                below(self.base(), "tmp"@),
                "attachment-"@ + uuid_form(id.0) + ".tmp"@,
            ),
    {
        let dir = join_path(self.state_dir.as_str(), "tmp");
        let id = uuid_text(id.0);
        let name = join3("attachment-", id.as_str(), ".tmp");
        join_path(dir.as_str(), name.as_str())
    }

    /// Requires a source that can be copied: a readable regular file within the limit.
    pub fn require_source(&self, path: &str, found: FileStatus) -> (r: Result<
        Content,
        AttachmentError,
    >)
        ensures
            match source_refusal(path@, found) {
                Some(f) => r is Err && r->Err_0@ == f,
                None => if found.size > self.limit() {
                    r is Err && r->Err_0@ == (AttachmentFault::TooLarge { limit: self.limit() })
                } else {
                    r is Ok && r->Ok_0.read() == Seq::<u8>::empty() && r->Ok_0.most()
                        == self.limit()
                },
            },
    {
        match validate_source_metadata(path, found) {
            Err(e) => Err(e),
            Ok(_) => if found.size > self.max_bytes {
                Err(AttachmentError::TooLarge { limit: self.max_bytes })
            } else {
                Ok(Content::new(self.max_bytes))
            },
        }
    }

    /// The metadata of content that was copied into the store.
    pub fn admit_content(
        &self,
        id: AttachmentId,
        content: &Content,
        media_type: &str,
        original_name: &str,
    ) -> (r: AttachmentMetadata)
        ensures
            r@ == admitted(id, content.read(), media_type@, original_name@),
    {
        let size_bytes: u64 = content.size();
        AttachmentMetadata {
            id,
            digest: content.digest(),
            size_bytes,
            media_type: media_type.to_owned(),
            original_name: original_name.to_owned(),
            storage_path: path_of(id),
        }
    }

    /// Compares stored content with durable metadata.
    pub fn verify(&self, attachment: &AttachmentMetadata, stored: &StoredFile) -> (r: Result<
        (),
        AttachmentError,
    >)
        ensures
            match corruption(attachment@, *stored) {
                None => r is Ok,
                Some(reason) => r is Err && r->Err_0@ == (AttachmentFault::Corrupt {
                    id: attachment.id,
                    reason,
                }),
            },
    {
        let expected = path_of(attachment.id);
        if !same_path(attachment.storage_path.as_str(), expected.as_str()) {
            return Err(
                AttachmentError::corrupt(
                    attachment.id,
                    "storage path does not match Attachment identity",
                ),
            );
        }
        match stored {
            StoredFile::Unreachable { error } => Err(
                AttachmentError::corrupt(attachment.id, error.as_str()),
            ),
            StoredFile::Irregular => Err(
                AttachmentError::corrupt(attachment.id, "stored path is not a regular file"),
            ),
            StoredFile::Regular { content } => {
                let size: u64 = content.size();
                if size != attachment.size_bytes {
                    let expected = decimal_text(attachment.size_bytes);
                    let found = decimal_text(size);
                    let mut reason = join3(
                        "size mismatch: expected ",
                        expected.as_str(),
                        ", found ",
                    );
                    reason.append(found.as_str());
                    return Err(AttachmentError::Corrupt { id: attachment.id, reason });
                }
                let digest = content.digest();
                if !same_text(digest.as_str(), attachment.digest.as_str()) {
                    return Err(
                        AttachmentError::corrupt(attachment.id, "SHA-256 digest mismatch"),
                    );
                }
                Ok(())
            },
        }
    }
}

// ---------------------------------------------------------------------------------------------
// Laws
// ---------------------------------------------------------------------------------------------

/// What was admitted is found intact as long as the stored content is the admitted one.
pub proof fn admitted_content_is_intact(
    id: AttachmentId,
    content: Content,
    media_type: Seq<char>,
    original_name: Seq<char>,
)
    requires
        content.read().len() <= u64::MAX,
    ensures
        corruption(
            admitted(id, content.read(), media_type, original_name),
            StoredFile::Regular { content },
        ) is None,
{
}

/// Stored content that passes has the size and the digest of what was admitted.
pub proof fn intact_content_has_the_admitted_digest(
    id: AttachmentId,
    content: Seq<u8>,
    stored: Content,
    media_type: Seq<char>,
    original_name: Seq<char>,
)
    requires
        content.len() <= u64::MAX,
        corruption(
            admitted(id, content, media_type, original_name),
            StoredFile::Regular { content: stored },
        ) is None,
    ensures
        stored.read().len() == content.len(),
        digest_form(stored.read()) == digest_form(content),
{
}

} // verus!
