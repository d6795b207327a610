//! The bits of modes and flags, with the values that Linux gives them.

use vstd::prelude::*;

verus! {

/// The bits of a mode that tell what sort of file it is.
pub const S_IFMT: u32 = 0o170000;

/// A directory.
pub const S_IFDIR: u32 = 0o040000;

/// A regular file.
pub const S_IFREG: u32 = 0o100000;

/// A symbolic link.
pub const S_IFLNK: u32 = 0o120000;

/// The sort of a directory in a directory entry.
pub const DT_DIR: u32 = 4;

pub const O_RDONLY: u32 = 0;

pub const O_WRONLY: u32 = 1;

pub const O_EXCL: u32 = 0o200;

pub const O_TRUNC: u32 = 0o1000;

pub const O_APPEND: u32 = 0o2000;

pub const RENAME_NOREPLACE: u32 = 1;

pub const RENAME_EXCHANGE: u32 = 2;

pub const XATTR_CREATE: u32 = 1;

pub const XATTR_REPLACE: u32 = 2;

/// Which attributes a request to change them holds.
pub const SETATTR_MODE: u32 = 1;

pub const SETATTR_UID: u32 = 2;

pub const SETATTR_GID: u32 = 4;

pub const SETATTR_SIZE: u32 = 8;

pub const SETATTR_ATIME: u32 = 16;

pub const SETATTR_MTIME: u32 = 32;

pub const SETATTR_ATIME_NOW: u32 = 128;

pub const SETATTR_MTIME_NOW: u32 = 256;

pub const SETATTR_CTIME: u32 = 1024;

/// What the kernel may be asked to do.
pub const FUSE_ATOMIC_O_TRUNC: u64 = 0x8;

pub const FUSE_BIG_WRITES: u64 = 0x20;

pub const FUSE_AUTO_INVAL_DATA: u64 = 0x1000;

pub const FUSE_DO_READDIRPLUS: u64 = 0x2000;

pub const FUSE_READDIRPLUS_AUTO: u64 = 0x4000;

pub const FUSE_WRITEBACK_CACHE: u64 = 0x1_0000;

pub const FUSE_POSIX_ACL: u64 = 0x10_0000;

pub const FUSE_MAX_PAGES: u64 = 0x40_0000;

pub const FUSE_CACHE_SYMLINKS: u64 = 0x80_0000;

/// A mode without the permissions that a mask takes away.
pub open spec fn masked(mode: u32, umask: u32) -> u32 {
    mode & !umask
}

/// Whether a mode is that of a directory: of the bits that tell the kind of a
/// file, it has exactly those of one.
pub open spec fn is_dir(mode: u32) -> bool {
    mode & S_IFMT == S_IFDIR
}

/// Tells whether a mode is that of a directory.
pub fn is_directory(mode: u32) -> (r: bool)
    ensures
        r == is_dir(mode),
{
    mode & S_IFMT == S_IFDIR
}

} // verus!
