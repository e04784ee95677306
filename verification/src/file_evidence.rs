//! Metadata of filesystem objects as plain values, and the shapes asked of them.
use vstd::prelude::*;

verus! {

/// What a metadata query reports of one filesystem object.
#[derive(Debug, Clone, Copy, PartialEq, Eq, Structural)]
pub struct FileStat {
    pub device: u64,
    pub inode: u64,
    pub owner: u32,
    pub group: u32,
    pub mode: u32,
    pub links: u64,
    pub size: i64,
    pub modified_seconds: i64,
    pub modified_nanoseconds: i64,
    pub changed_seconds: i64,
    pub changed_nanoseconds: i64,
}

/// The permission bits with the set-id and sticky bits.
pub const PERMISSION_MASK: u32 = 0o7777;

/// Writable by the group or by others.
pub const FOREIGN_WRITE_MASK: u32 = 0o022;

pub const FILE_TYPE_MASK: u32 = 0o170000;

pub const DIRECTORY_TYPE: u32 = 0o040000;

pub const REGULAR_TYPE: u32 = 0o100000;

pub const SYMLINK_TYPE: u32 = 0o120000;

impl FileStat {
    pub open spec fn spec_is_directory(self) -> bool {
        self.mode & FILE_TYPE_MASK == DIRECTORY_TYPE
    }

    pub open spec fn spec_is_regular(self) -> bool {
        self.mode & FILE_TYPE_MASK == REGULAR_TYPE
    }

    pub open spec fn spec_is_symlink(self) -> bool {
        self.mode & FILE_TYPE_MASK == SYMLINK_TYPE
    }

    pub open spec fn spec_permissions(self) -> u32 {
        self.mode & PERMISSION_MASK
    }

    pub open spec fn spec_foreign_writable(self) -> bool {
        self.mode & FOREIGN_WRITE_MASK != 0
    }

    pub fn is_directory(&self) -> (r: bool)
        ensures
            r == self.spec_is_directory(),
    {
        self.mode & FILE_TYPE_MASK == DIRECTORY_TYPE
    }

    pub fn is_regular(&self) -> (r: bool)
        ensures
            r == self.spec_is_regular(),
    {
        self.mode & FILE_TYPE_MASK == REGULAR_TYPE
    }

    pub fn is_symlink(&self) -> (r: bool)
        ensures
            r == self.spec_is_symlink(),
    {
        self.mode & FILE_TYPE_MASK == SYMLINK_TYPE
    }

    pub fn permissions(&self) -> (r: u32)
        ensures
            r == self.spec_permissions(),
    {
        self.mode & PERMISSION_MASK
    }

    pub fn foreign_writable(&self) -> (r: bool)
        ensures
            r == self.spec_foreign_writable(),
    {
        self.mode & FOREIGN_WRITE_MASK != 0
    }
}

pub open spec fn is_same_object(left: FileStat, right: FileStat) -> bool {
    left.device == right.device && left.inode == right.inode
}

/// Whether two queries reached the same filesystem object.
pub fn same_object(left: &FileStat, right: &FileStat) -> (r: bool)
    ensures
        r == is_same_object(*left, *right),
{
    left.device == right.device && left.inode == right.inode
}

/// Whether two queries saw the same object in the same state.
pub fn same_file_snapshot(left: &FileStat, right: &FileStat) -> (r: bool)
    ensures
        r == (*left == *right),
{
    *left == *right
}

/// A directory of the expected owner: exactly mode `0700`, or merely not
/// writable by anyone else.
pub open spec fn is_owned_directory(
    stat: FileStat,
    expected_owner: Option<(u32, u32)>,
    exact_private: bool,
) -> bool {
    &&& stat.spec_is_directory()
    &&& exact_private ==> stat.spec_permissions() == 0o700
    &&& !exact_private ==> !stat.spec_foreign_writable()
    &&& expected_owner matches Some(owner) ==> owner == (stat.owner, stat.group)
}

pub fn owned_directory(
    stat: &FileStat,
    expected_owner: Option<(u32, u32)>,
    exact_private: bool,
) -> (r: bool)
    ensures
        r == is_owned_directory(*stat, expected_owner, exact_private),
{
    let owner_matches = match expected_owner {
        Some(owner) => owner.0 == stat.owner && owner.1 == stat.group,
        None => true,
    };
    stat.is_directory() && (if exact_private {
        stat.permissions() == 0o700
    } else {
        !stat.foreign_writable()
    }) && owner_matches
}

/// A single-link regular file of exactly this owner, mode and, if given, size.
pub open spec fn is_private_file(
    stat: FileStat,
    owner: (u32, u32),
    mode: u32,
    size: Option<u64>,
) -> bool {
    &&& stat.spec_is_regular()
    &&& stat.links == 1
    &&& stat.spec_permissions() == mode
    &&& owner == (stat.owner, stat.group)
    &&& size matches Some(bytes) ==> stat.size == bytes
}

pub fn private_file(stat: &FileStat, owner: (u32, u32), mode: u32, size: Option<u64>) -> (r: bool)
    ensures
        r == is_private_file(*stat, owner, mode, size),
{
    let size_matches = match size {
        Some(bytes) => stat.size >= 0 && stat.size as u64 == bytes,
        None => true,
    };
    stat.is_regular() && stat.links == 1 && stat.permissions() == mode && owner.0 == stat.owner
        && owner.1 == stat.group && size_matches
}

/// Why opening an object without following links was refused.
#[derive(Debug, Clone, Copy, PartialEq, Eq, Structural)]
pub enum OpenRefusal {
    Missing,
    SymbolicLink,
    NotADirectory,
    IsADirectory,
    Other,
}

/// What opening one entry of a path gave: its metadata, if that could be had,
/// or a refusal.
#[derive(Debug, Clone, Copy, PartialEq, Eq)]
pub enum OpenedEntry {
    Opened(Option<FileStat>),
    Refused(OpenRefusal),
}

/// The entries that were opened on the way to a directory, from the filesystem
/// root down to the directory or to the first one that ends the way, and the
/// metadata of the directory itself.
#[derive(Debug)]
pub struct DirectoryReadings {
    pub root_opened: bool,
    pub opened: Vec<OpenedEntry>,
    pub directory: Option<FileStat>,
}

/// The type bits, the permission bits and the write bits of a mode are those of
/// the operating system, and a mode has one type at most.
pub proof fn law_modes_are_read_as_the_system_writes_them(stat: FileStat)
    ensures
        stat.spec_is_directory() <==> stat.mode & 0o170000 == 0o040000,
        stat.spec_is_regular() <==> stat.mode & 0o170000 == 0o100000,
        stat.spec_is_symlink() <==> stat.mode & 0o170000 == 0o120000,
        stat.spec_permissions() == stat.mode & 0o7777,
        stat.spec_foreign_writable() <==> stat.mode & 0o020 != 0 || stat.mode & 0o002 != 0,
        stat.spec_is_directory() ==> !stat.spec_is_regular() && !stat.spec_is_symlink(),
        stat.spec_is_regular() ==> !stat.spec_is_symlink(),
{
    let mode = stat.mode;
    assert(mode & 0o022 != 0 <==> mode & 0o020 != 0 || mode & 0o002 != 0) by (bit_vector);
}

/// A directory that is private to its owner is one that nobody else can write
/// to, so that what asks for the former is content with less in the latter.
pub proof fn law_private_directories_are_owned_directories(
    stat: FileStat,
    expected_owner: Option<(u32, u32)>,
)
    ensures
        is_owned_directory(stat, expected_owner, true) ==> is_owned_directory(
            stat,
            expected_owner,
            false,
        ),
        is_owned_directory(stat, expected_owner, true) <==> {
            &&& stat.mode & 0o170000 == 0o040000
            &&& stat.mode & 0o7777 == 0o700
            &&& expected_owner matches Some(owner) ==> owner.0 == stat.owner && owner.1
                == stat.group
        },
        is_owned_directory(stat, expected_owner, false) <==> {
            &&& stat.mode & 0o170000 == 0o040000
            &&& stat.mode & 0o022 == 0
            &&& expected_owner matches Some(owner) ==> owner.0 == stat.owner && owner.1
                == stat.group
        },
{
    let mode = stat.mode;
    assert(mode & 0o7777 == 0o700 ==> mode & 0o022 == 0) by (bit_vector);
}

/// A private file is a regular file with one name, exactly the mode that is
/// asked for, the owner's user and group, and the size where one is asked for.
pub proof fn law_private_files_are_exact(
    stat: FileStat,
    owner: (u32, u32),
    mode: u32,
    size: Option<u64>,
)
    ensures
        is_private_file(stat, owner, mode, size) <==> {
            &&& stat.mode & 0o170000 == 0o100000
            &&& stat.mode & 0o7777 == mode
            &&& stat.links == 1
            &&& stat.owner == owner.0
            &&& stat.group == owner.1
            &&& size is Some ==> stat.size == size->0
        },
{
}

/// Two readings are of one object exactly when device and inode agree,
/// whatever else changed in between.
pub proof fn law_objects_keep_their_identity(left: FileStat, right: FileStat)
    ensures
        is_same_object(left, right) <==> left.device == right.device && left.inode == right.inode,
{
}

/// A directory of the owner that only the owner can enter.
pub open spec fn is_closed_directory(stat: FileStat, owner: (u32, u32)) -> bool {
    &&& stat.mode & 0o170000 == 0o040000
    &&& stat.mode & 0o7777 == 0o700
    &&& stat.owner == owner.0
    &&& stat.group == owner.1
}

/// A regular file of the owner with one name and exactly this mode.
pub open spec fn is_closed_file(stat: FileStat, owner: (u32, u32), mode: u32) -> bool {
    &&& stat.mode & 0o170000 == 0o100000
    &&& stat.mode & 0o7777 == mode
    &&& stat.links == 1
    &&& stat.owner == owner.0
    &&& stat.group == owner.1
}

} // verus!
