//! Attributes of a remote entry, as the remote host reports them.

use vstd::prelude::*;

verus! {

/// What a remote stat tells of an entry. A host may leave any of them out.
#[derive(Clone, Copy, Debug)]
pub struct RemoteStat {
    /// Size in bytes.
    pub size: Option<u64>,
    /// Mode bits: the file type and the permissions.
    pub perm: Option<u32>,
    /// Time of the last modification, in seconds since the epoch.
    pub mtime: Option<u64>,
}

/// One entry of a remote directory: its path and its attributes.
#[derive(Debug)]
pub struct RemoteEntry {
    pub path: String,
    pub stat: RemoteStat,
}

/// A [`RemoteEntry`] with its path as a sequence of characters.
pub struct EntryModel {
    pub path: Seq<char>,
    pub stat: RemoteStat,
}

impl View for RemoteEntry {
    type V = EntryModel;

    open spec fn view(&self) -> EntryModel {
        EntryModel { path: self.path@, stat: self.stat }
    }
}

/// The entries of `v` as models.
pub open spec fn entry_models(v: Seq<RemoteEntry>) -> Seq<EntryModel> {
    v.map_values(|e: RemoteEntry| e@)
}

/// The file-type bits of a mode; a mode that was left out counts as 0.
pub open spec fn type_bits(perm: Option<u32>) -> u32 {
    match perm {
        Some(p) => p & 0o170000u32,
        None => 0u32,
    }
}

/// Whether the mode is that of a directory.
pub open spec fn is_directory(stat: RemoteStat) -> bool {
    type_bits(stat.perm) == 0o040000u32
}

/// Whether the mode is that of a regular file.
pub open spec fn is_regular_file(stat: RemoteStat) -> bool {
    type_bits(stat.perm) == 0o100000u32
}

/// `ssh2::FileStat::is_dir` masks the mode (0 where it is absent) with the
/// file-type bits and compares the result with the directory type.
#[verifier::external_body]
fn file_stat_is_dir(stat: &RemoteStat) -> (r: bool)
    ensures
        r == is_directory(*stat),
{
    let outside = ssh2::FileStat {
        size: stat.size,
        uid: None,
        gid: None,
        perm: stat.perm,
        atime: None,
        mtime: stat.mtime,
    };
    outside.is_dir()
}

/// `ssh2::FileStat::is_file` masks the mode (0 where it is absent) with the
/// file-type bits and compares the result with the regular-file type.
#[verifier::external_body]
fn file_stat_is_file(stat: &RemoteStat) -> (r: bool)
    ensures
        r == is_regular_file(*stat),
{
    let outside = ssh2::FileStat {
        size: stat.size,
        uid: None,
        gid: None,
        perm: stat.perm,
        atime: None,
        mtime: stat.mtime,
    };
    outside.is_file()
}

impl RemoteStat {
    /// Whether the entry is a directory.
    pub fn is_dir(&self) -> (r: bool)
        ensures
            r == is_directory(*self),
    {
        file_stat_is_dir(self)
    }

    /// Whether the entry is a regular file.
    pub fn is_file(&self) -> (r: bool)
        ensures
            r == is_regular_file(*self),
    {
        file_stat_is_file(self)
    }

    /// The size, 0 where the host left it out.
    pub fn size_or_zero(&self) -> (r: u64)
        ensures
            r == size_or_zero(*self),
    {
        match self.size {
            Some(n) => n,
            None => 0,
        }
    }

    /// The modification time, 0 where the host left it out.
    pub fn mtime_or_zero(&self) -> (r: u64)
        ensures
            r == mtime_or_zero(*self),
    {
        match self.mtime {
            Some(n) => n,
            None => 0,
        }
    }
}

/// The size that `stat` reports, 0 where it reports none.
pub open spec fn size_or_zero(stat: RemoteStat) -> u64 {
    match stat.size {
        Some(n) => n,
        None => 0,
    }
}

/// The modification time that `stat` reports, 0 where it reports none.
pub open spec fn mtime_or_zero(stat: RemoteStat) -> u64 {
    match stat.mtime {
        Some(n) => n,
        None => 0,
    }
}

} // verus!
