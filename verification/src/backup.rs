//! Backups of deployment targets: what is recorded of a file before it is
//! overwritten, and how a recorded backup is put back.

use vstd::prelude::*;
use crate::text::{
    decimal, lemma_decimal_digits, lemma_decimal_parses, lemma_split_on_pair, parse_u32, parse_u32_spec, push_char,
    push_decimal, split_char, split_on, str_eq,
};

verus! {

/// What is known of a file on disk.
#[derive(Debug)]
pub struct FileMetadata {
    pub uid: Option<u32>,
    pub gid: Option<u32>,
    pub permissions: Option<u32>,
    pub is_symlink: bool,
    /// Where a link points.
    pub symlink_source: Option<String>,
    /// The checksum of a regular file's content.
    pub checksum: Option<String>,
}

/// The backup of a file as the store records it.
#[derive(Debug)]
pub struct StoreBackup {
    pub path: String,
    /// `link` or `regular`.
    pub file_type: String,
    pub content: Option<Vec<u8>>,
    pub link_source: Option<String>,
    /// `uid:gid`.
    pub owner: String,
    pub permissions: Option<u32>,
    pub checksum: Option<String>,
}

/// Why a backup cannot be made or put back.
#[derive(Debug, Clone, Copy, PartialEq, Eq, Structural)]
pub enum BackupError {
    /// The file's owner is unknown.
    NoOwner,
    /// The file's group is unknown.
    NoGroup,
    /// The file's permissions are unknown.
    NoPermissions,
    /// The file's checksum is unknown.
    NoChecksum,
    /// The recorded owner is not `uid:gid` with numbers.
    InvalidOwner,
}

/// The owner as recorded: user and group numbers joined by `:`.
pub open spec fn owner_text(uid: u32, gid: u32) -> Seq<char> {
    decimal(uid as nat) + ":"@ + decimal(gid as nat)
}

fn owner_string(uid: u32, gid: u32) -> (s: String)
    ensures
        s@ == owner_text(uid, gid),
{
    let mut s = String::new();
    push_decimal(&mut s, uid as u64);
    push_char(&mut s, ':');
    push_decimal(&mut s, gid as u64);
    proof {
        reveal_strlit(":");
        assert(s@ =~= owner_text(uid, gid));
    }
    s
}

/// `b` is the backup of the file at `path` with this metadata and content:
/// for a link its target and owner, for a regular file its content, owner,
/// permissions and checksum.
pub open spec fn backup_of(b: StoreBackup, path: Seq<char>, metadata: FileMetadata, content: Option<Vec<u8>>) -> bool {
    &&& b.path@ == path
    &&& b.owner@ == owner_text(metadata.uid->Some_0, metadata.gid->Some_0)
    &&& if metadata.is_symlink {
        b.file_type@ == "link"@ && b.content is None && b.link_source == metadata.symlink_source && b.permissions is None
            && b.checksum is None
    } else {
        b.file_type@ == "regular"@ && b.content == content && b.link_source is None && b.permissions == metadata.permissions
            && b.checksum == metadata.checksum
    }
}

/// A backup record that can be put back: a link with its target or a
/// regular file with its content and permissions, and an owner that names
/// user and group.
pub open spec fn restorable(b: StoreBackup) -> bool {
    &&& (b.file_type@ == "link"@ || b.file_type@ == "regular"@)
    &&& (b.file_type@ == "link"@ ==> b.link_source is Some)
    &&& (b.file_type@ == "regular"@ ==> b.content is Some && b.permissions is Some)
    &&& b.owner@.contains(':')
}

/// A link's backup records where it points; a regular file's records its
/// content; the content is read only for regular files.
pub fn needs_content(metadata: &FileMetadata) -> (b: bool)
    ensures
        b == !metadata.is_symlink,
{
    !metadata.is_symlink
}

/// The backup record of a file: for a link its target and owner, for a
/// regular file its content, owner, permissions and checksum. The owner,
/// then group, then (for a regular file) permissions and checksum must be
/// known, in that order.
pub fn backup_record(path: &String, metadata: &FileMetadata, content: Option<Vec<u8>>) -> (r: Result<StoreBackup, BackupError>)
    requires
        metadata.is_symlink ==> metadata.symlink_source is Some,
        !metadata.is_symlink ==> content is Some,
    ensures
        metadata.uid is None ==> r == Err::<StoreBackup, BackupError>(BackupError::NoOwner),
        metadata.uid is Some && metadata.gid is None ==> r == Err::<StoreBackup, BackupError>(BackupError::NoGroup),
        metadata.uid is Some && metadata.gid is Some && !metadata.is_symlink && metadata.permissions is None ==> r == Err::<
            StoreBackup,
            BackupError,
        >(BackupError::NoPermissions),
        metadata.uid is Some && metadata.gid is Some && !metadata.is_symlink && metadata.permissions is Some
            && metadata.checksum is None ==> r == Err::<StoreBackup, BackupError>(BackupError::NoChecksum),
        r matches Ok(b) ==> backup_of(b, path@, *metadata, content),
        (metadata.uid is Some && metadata.gid is Some && (metadata.is_symlink || (metadata.permissions is Some
            && metadata.checksum is Some))) ==> r is Ok,
{
    let uid = match metadata.uid {
        Some(u) => u,
        None => {
            return Err(BackupError::NoOwner);
        },
    };
    let gid = match metadata.gid {
        Some(g) => g,
        None => {
            return Err(BackupError::NoGroup);
        },
    };
    if metadata.is_symlink {
        let source = match &metadata.symlink_source {
            Some(s) => s.clone(),
            None => String::new(),
        };
        Ok(
            StoreBackup {
                path: path.clone(),
                file_type: "link".to_string(),
                content: None,
                link_source: Some(source),
                owner: owner_string(uid, gid),
                permissions: None,
                checksum: None,
            },
        )
    } else {
        let permissions = match metadata.permissions {
            Some(p) => p,
            None => {
                return Err(BackupError::NoPermissions);
            },
        };
        let checksum = match &metadata.checksum {
            Some(c) => c.clone(),
            None => {
                return Err(BackupError::NoChecksum);
            },
        };
        Ok(
            StoreBackup {
                path: path.clone(),
                file_type: "regular".to_string(),
                content,
                link_source: None,
                owner: owner_string(uid, gid),
                permissions: Some(permissions),
                checksum: Some(checksum),
            },
        )
    }
}

/// How a backup is put back.
#[derive(Debug)]
pub enum Restore {
    /// Recreate the link, owned as recorded.
    Link { source: String, uid: u32, gid: u32 },
    /// Write the content back, owned and with permissions as recorded.
    Regular { content: Vec<u8>, uid: u32, gid: u32, permissions: u32 },
}

/// The user and group numbers of a recorded owner: the first two pieces
/// between `:` read as numbers.
pub open spec fn owner_ids(owner: Seq<char>) -> Option<(u32, u32)> {
    let parts = split_on(owner, ':');
    match (parse_u32_spec(parts[0]), parse_u32_spec(parts[1])) {
        (Some(u), Some(g)) => Some((u, g)),
        _ => None,
    }
}

/// How to put a backup back: a link is recreated, a regular file written
/// back; both owned as recorded. The recorded owner must name its user and
/// group by number.
pub fn restore_plan(backup: StoreBackup) -> (r: Result<Restore, BackupError>)
    requires
        restorable(backup),
    ensures
        owner_ids(backup.owner@) is None ==> r == Err::<Restore, BackupError>(BackupError::InvalidOwner),
        owner_ids(backup.owner@) matches Some((u, g)) ==> if backup.file_type@ == "link"@ {
            r matches Ok(Restore::Link { source, uid, gid }) && Some(source) == backup.link_source && uid == u && gid == g
        } else {
            r matches Ok(Restore::Regular { content, uid, gid, permissions }) && Some(content) == backup.content && uid == u && gid
                == g && Some(permissions) == backup.permissions
        },
{
    let parts = split_char(backup.owner.as_str(), ':');
    proof {
        lemma_split_has_two(backup.owner@, ':');
    }
    let uid = parse_u32(parts[0].as_str());
    let gid = parse_u32(parts[1].as_str());
    let (uid, gid) = match (uid, gid) {
        (Some(u), Some(g)) => (u, g),
        _ => {
            return Err(BackupError::InvalidOwner);
        },
    };
    proof {
        reveal_strlit("link");
        reveal_strlit("regular");
        assert("link"@[0] != "regular"@[0]);
    }
    if str_eq(backup.file_type.as_str(), "link") {
        let source = match backup.link_source {
            Some(s) => s,
            None => String::new(),
        };
        Ok(Restore::Link { source, uid, gid })
    } else {
        let content = match backup.content {
            Some(c) => c,
            None => Vec::new(),
        };
        let permissions = match backup.permissions {
            Some(p) => p,
            None => 0,
        };
        Ok(Restore::Regular { content, uid, gid, permissions })
    }
}

/// The owner a backup records reads back as the same user and group.
proof fn lemma_owner_round_trip(uid: u32, gid: u32)
    ensures
        owner_text(uid, gid).contains(':'),
        owner_ids(owner_text(uid, gid)) == Some((uid, gid)),
{
    reveal_strlit(":");
    let a = decimal(uid as nat);
    let b = decimal(gid as nat);
    lemma_decimal_digits(uid as nat);
    lemma_decimal_digits(gid as nat);
    assert forall|i: int| 0 <= i < a.len() implies a[i] != ':' by {
        assert(crate::text::is_digit(a[i]));
    }
    assert forall|i: int| 0 <= i < b.len() implies b[i] != ':' by {
        assert(crate::text::is_digit(b[i]));
    }
    assert(owner_text(uid, gid) =~= a + seq![':'] + b);
    lemma_split_on_pair(a, b, ':');
    lemma_decimal_parses(uid);
    lemma_decimal_parses(gid);
    assert((a + seq![':'] + b)[a.len() as int] == ':');
}

/// Putting a backup back gives back what was backed up: a backed-up link
/// is recreated pointing where it pointed, a backed-up regular file gets
/// its content and permissions back, and either is owned by the user and
/// group it had.
pub proof fn lemma_restore_gives_back(b: StoreBackup, path: Seq<char>, metadata: FileMetadata, content: Option<Vec<u8>>)
    requires
        backup_of(b, path, metadata, content),
        metadata.uid is Some,
        metadata.gid is Some,
        metadata.is_symlink ==> metadata.symlink_source is Some,
        !metadata.is_symlink ==> content is Some && metadata.permissions is Some,
    ensures
        restorable(b),
        owner_ids(b.owner@) == Some((metadata.uid->Some_0, metadata.gid->Some_0)),
        metadata.is_symlink ==> b.file_type@ == "link"@ && b.link_source == metadata.symlink_source,
        !metadata.is_symlink ==> b.file_type@ == "regular"@ && b.content == content && b.permissions
            == metadata.permissions,
{
    lemma_owner_round_trip(metadata.uid->Some_0, metadata.gid->Some_0);
    reveal_strlit("link");
    reveal_strlit("regular");
    assert("link"@[0] != "regular"@[0]);
}

proof fn lemma_split_has_two(s: Seq<char>, c: char)
    requires
        s.contains(c),
    ensures
        split_on(s, c).len() >= 2,
    decreases s.len(),
{
    if s.last() == c {
        crate::text::lemma_split_on_nonempty(s.drop_last(), c);
    } else {
        let k = choose|k: int| 0 <= k < s.len() && s[k] == c;
        assert(s.drop_last()[k] == c);
        lemma_split_has_two(s.drop_last(), c);
    }
}

} // verus!
