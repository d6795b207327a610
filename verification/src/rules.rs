//! What the operations allow and refuse, and the replies that they give,
//! decided on plain values.

use vstd::prelude::*;
use vstd::string::StringExecFns;
use crate::error::{Error, ErrorKind, ErrorView, ENODATA, ERANGE};
use crate::modes::{
    FUSE_ATOMIC_O_TRUNC, FUSE_AUTO_INVAL_DATA, FUSE_BIG_WRITES, FUSE_CACHE_SYMLINKS,
    FUSE_DO_READDIRPLUS, FUSE_MAX_PAGES, FUSE_POSIX_ACL, FUSE_READDIRPLUS_AUTO,
    FUSE_WRITEBACK_CACHE, O_EXCL, RENAME_EXCHANGE, RENAME_NOREPLACE, XATTR_CREATE,
    XATTR_REPLACE,
};
use crate::timestamp::Timestamp;

verus! {

/// The options that are wanted of the kernel.
pub open spec fn wanted_options() -> u64 {
    FUSE_MAX_PAGES | FUSE_BIG_WRITES | FUSE_WRITEBACK_CACHE | FUSE_AUTO_INVAL_DATA
        | FUSE_ATOMIC_O_TRUNC | FUSE_DO_READDIRPLUS | FUSE_READDIRPLUS_AUTO | FUSE_CACHE_SYMLINKS
        | FUSE_POSIX_ACL
}

/// The options to use out of those that the kernel is capable of.
pub fn negotiate(capable: u64) -> (r: u64)
    ensures
        r == capable & wanted_options(),
{
    let wanted: u64 = FUSE_MAX_PAGES | FUSE_BIG_WRITES | FUSE_WRITEBACK_CACHE
        | FUSE_AUTO_INVAL_DATA | FUSE_ATOMIC_O_TRUNC | FUSE_DO_READDIRPLUS | FUSE_READDIRPLUS_AUTO
        | FUSE_CACHE_SYMLINKS | FUSE_POSIX_ACL;
    capable & wanted
}

/// Refuses a parent that is no directory.
pub fn check_parent(mode: u32) -> (r: Result<(), Error>)
    ensures
        if crate::modes::is_dir(mode) {
            r is Ok
        } else {
            r matches Err(e) && e@ == crate::error::message(
                ErrorKind::NotADirectory,
                "Parent is not a directory",
            )
        },
{
    if !crate::modes::is_directory(mode) {
        Err(Error::new(ErrorKind::NotADirectory, "Parent is not a directory"))
    } else {
        Ok(())
    }
}

/// Refuses to list what is no directory.
pub fn check_directory(mode: u32) -> (r: Result<(), Error>)
    ensures
        if crate::modes::is_dir(mode) {
            r is Ok
        } else {
            r matches Err(e) && e@ == crate::error::message(
                ErrorKind::NotADirectory,
                "Not a directory",
            )
        },
{
    if !crate::modes::is_directory(mode) {
        Err(Error::new(ErrorKind::NotADirectory, "Not a directory"))
    } else {
        Ok(())
    }
}

/// Refuses to remove what does not exist.
pub fn check_removed_exists(child: u64, require_directory: bool) -> (r: Result<(), Error>)
    ensures
        if child != 0 {
            r is Ok
        } else if require_directory {
            r matches Err(e) && e@ == crate::error::message(
                ErrorKind::NotFound,
                "Directory not found",
            )
        } else {
            r matches Err(e) && e@ == crate::error::message(ErrorKind::NotFound, "File not found")
        },
{
    if child != 0 {
        Ok(())
    } else if require_directory {
        Err(Error::new(ErrorKind::NotFound, "Directory not found"))
    } else {
        Err(Error::new(ErrorKind::NotFound, "File not found"))
    }
}

/// Refuses to remove a directory as a file, or a file as a directory.
pub fn check_removed_kind(mode: u32, require_directory: bool) -> (r: Result<(), Error>)
    ensures
        if crate::modes::is_dir(mode) == require_directory {
            r is Ok
        } else if require_directory {
            r matches Err(e) && e@ == crate::error::message(
                ErrorKind::NotADirectory,
                "Not a directory",
            )
        } else {
            r matches Err(e) && e@ == crate::error::message(
                ErrorKind::IsADirectory,
                "Is a directory",
            )
        },
{
    let is_directory = crate::modes::is_directory(mode);
    if require_directory && !is_directory {
        Err(Error::new(ErrorKind::NotADirectory, "Not a directory"))
    } else if !require_directory && is_directory {
        Err(Error::new(ErrorKind::IsADirectory, "Is a directory"))
    } else {
        Ok(())
    }
}

/// Refuses to remove a directory in which children were found.
pub fn check_empty(found: usize) -> (r: Result<(), Error>)
    ensures
        if found == 0 {
            r is Ok
        } else {
            r matches Err(e) && e@ == crate::error::message(
                ErrorKind::DirectoryNotEmpty,
                "Directory not empty",
            )
        },
{
    if found == 0 {
        Ok(())
    } else {
        Err(Error::new(ErrorKind::DirectoryNotEmpty, "Directory not empty"))
    }
}

/// Refuses a name that is taken.
pub fn check_free(existing: u64) -> (r: Result<(), Error>)
    ensures
        if existing == 0 {
            r is Ok
        } else {
            r matches Err(e) && e@ == crate::error::message(
                ErrorKind::AlreadyExists,
                "File already exists",
            )
        },
{
    if existing == 0 {
        Ok(())
    } else {
        Err(Error::new(ErrorKind::AlreadyExists, "File already exists"))
    }
}

/// Refuses to create a file under a name that is taken, if it has to be new.
pub fn check_exclusive(existing: u64, flags: u32) -> (r: Result<(), Error>)
    ensures
        if existing == 0 || flags & O_EXCL == 0 {
            r is Ok
        } else {
            r matches Err(e) && e@ == crate::error::message(
                ErrorKind::AlreadyExists,
                "File already exists",
            )
        },
{
    if existing != 0 && flags & O_EXCL != 0 {
        Err(Error::new(ErrorKind::AlreadyExists, "File already exists"))
    } else {
        Ok(())
    }
}

/// Refuses a second name for a directory.
pub fn check_linkable(mode: u32) -> (r: Result<(), Error>)
    ensures
        if crate::modes::is_dir(mode) {
            r matches Err(e) && e@ == crate::error::message(
                ErrorKind::IsADirectory,
                "Cannot create hard link to directory",
            )
        } else {
            r is Ok
        },
{
    if crate::modes::is_directory(mode) {
        Err(Error::new(ErrorKind::IsADirectory, "Cannot create hard link to directory"))
    } else {
        Ok(())
    }
}

/// Whether the flags are ones that a rename knows.
pub open spec fn rename_flags_known(flags: u32) -> bool {
    flags == 0 || flags == RENAME_NOREPLACE || flags == RENAME_EXCHANGE
}

/// Refuses flags that a rename does not know.
pub fn check_rename_flags(flags: u32) -> (r: Result<(), Error>)
    ensures
        if rename_flags_known(flags) {
            r is Ok
        } else {
            r matches Err(e) && e@ == crate::error::invalid("Invalid flags")
        },
{
    if flags == 0 || flags == RENAME_NOREPLACE || flags == RENAME_EXCHANGE {
        Ok(())
    } else {
        Err(Error::new(ErrorKind::InvalidInput, "Invalid flags"))
    }
}

/// Refuses empty names.
pub fn check_rename_names(old_name: &str, new_name: &str) -> (r: Result<(), Error>)
    ensures
        if old_name@.len() > 0 && new_name@.len() > 0 {
            r is Ok
        } else {
            r matches Err(e) && e@ == crate::error::invalid("Empty name")
        },
{
    if old_name.is_empty() || new_name.is_empty() {
        Err(Error::new(ErrorKind::InvalidInput, "Empty name"))
    } else {
        Ok(())
    }
}

/// Refuses to rename what does not exist.
pub fn check_rename_source(source: u64) -> (r: Result<(), Error>)
    ensures
        if source != 0 {
            r is Ok
        } else {
            r matches Err(e) && e@ == crate::error::message(
                ErrorKind::NotFound,
                "Source does not exist",
            )
        },
{
    if source == 0 {
        Err(Error::new(ErrorKind::NotFound, "Source does not exist"))
    } else {
        Ok(())
    }
}

/// Refuses to replace a target that must not exist, or to exchange one that
/// does not.
pub fn check_rename_target(target: u64, flags: u32) -> (r: Result<(), Error>)
    ensures
        if target > 0 && flags == RENAME_NOREPLACE {
            r matches Err(e) && e@ == crate::error::message(
                ErrorKind::AlreadyExists,
                "File already exists",
            )
        } else if target == 0 && flags == RENAME_EXCHANGE {
            r matches Err(e) && e@ == crate::error::message(
                ErrorKind::NotFound,
                "Target does not exist",
            )
        } else {
            r is Ok
        },
{
    if target > 0 && flags == RENAME_NOREPLACE {
        Err(Error::new(ErrorKind::AlreadyExists, "File already exists"))
    } else if target == 0 && flags == RENAME_EXCHANGE {
        Err(Error::new(ErrorKind::NotFound, "Target does not exist"))
    } else {
        Ok(())
    }
}

/// Refuses an empty key and unknown flags.
pub fn check_xattr_arguments(name: &str, flags: u32) -> (r: Result<(), Error>)
    ensures
        if name@.len() == 0 {
            r matches Err(e) && e@ == crate::error::invalid("Empty xattr name")
        } else if flags != 0 && flags != XATTR_CREATE && flags != XATTR_REPLACE {
            r matches Err(e) && e@ == crate::error::invalid("Invalid flags")
        } else {
            r is Ok
        },
{
    if name.is_empty() {
        return Err(Error::new(ErrorKind::InvalidInput, "Empty xattr name"));
    }
    if flags != 0 && flags != XATTR_CREATE && flags != XATTR_REPLACE {
        return Err(Error::new(ErrorKind::InvalidInput, "Invalid flags"));
    }
    Ok(())
}

/// Decides, from what a look at the attribute gave, whether it may be set: one
/// that has to be new must not exist, one that is to be replaced must. An
/// error other than that it does not exist is passed on.
pub fn check_xattr_presence(flags: u32, present: Result<(), Error>) -> (r: Result<(), Error>)
    ensures
        match present {
            Ok(_) => if flags == XATTR_CREATE {
                r matches Err(e) && e@ == crate::error::message(
                    ErrorKind::AlreadyExists,
                    "Attribute already exists",
                )
            } else {
                r is Ok
            },
            Err(error) => if error@.kind() != ErrorKind::NotFound {
                r matches Err(e) && e == error
            } else if flags == XATTR_REPLACE {
                r matches Err(e) && e@ == crate::error::os(ENODATA)
            } else {
                r is Ok
            },
        },
{
    match present {
        Ok(_) => {
            if flags == XATTR_CREATE {
                Err(Error::new(ErrorKind::AlreadyExists, "Attribute already exists"))
            } else {
                Ok(())
            }
        },
        Err(error) => {
            if error.kind() != ErrorKind::NotFound {
                Err(error)
            } else if flags == XATTR_REPLACE {
                Err(Error::from_raw_os_error(ENODATA))
            } else {
                Ok(())
            }
        },
    }
}

/// The reply to a request for an extended attribute.
#[derive(Debug)]
pub enum GetxattrReply {
    Value(Vec<u8>),
    Count(u32),
}

/// Decides, from what the storage gave, what a request for an extended
/// attribute is answered: how long it is if no room is offered, the value if
/// it fits.
pub fn getxattr_reply(value: Result<Vec<u8>, Error>, size: u32) -> (r: Result<
    GetxattrReply,
    Error,
>)
    ensures
        match value {
            Ok(v) => if size == 0 {
                r matches Ok(GetxattrReply::Count(n)) && n == v@.len() as u32
            } else if size < v@.len() {
                r matches Err(e) && e@ == crate::error::os(ERANGE)
            } else {
                r matches Ok(GetxattrReply::Value(x)) && x@ == v@
            },
            Err(error) => if error@.kind() == ErrorKind::NotFound {
                r matches Err(e) && e@ == crate::error::os(ENODATA)
            } else {
                r matches Err(e) && e == error
            },
        },
{
    match value {
        Ok(v) => {
            let len: usize = v.len();
            if size == 0 {
                Ok(GetxattrReply::Count(len as u32))
            } else if (size as u64) < (len as u64) {
                Err(Error::from_raw_os_error(ERANGE))
            } else {
                Ok(GetxattrReply::Value(v))
            }
        },
        Err(error) => {
            if error.kind() == ErrorKind::NotFound {
                Err(Error::from_raw_os_error(ENODATA))
            } else {
                Err(error)
            }
        },
    }
}

/// The reply to a request for the keys of the extended attributes.
#[derive(Debug)]
pub enum ListxattrReply {
    Names(Vec<u8>),
    Count(u32),
}

/// The keys one after the other, each with a zero byte behind it.
pub open spec fn packed(names: Seq<Seq<char>>) -> Seq<u8>
    decreases names.len(),
{
    if names.len() == 0 {
        seq![]
    } else {
        packed(names.drop_last()) + vstd::utf8::encode_utf8(names.last()).push(0)
    }
}

/// Packs keys one after the other.
fn pack(names: &Vec<String>) -> (r: Vec<u8>)
    ensures
        r@ == packed(crate::winter::texts(names@)),
{
    let ghost all = crate::winter::texts(names@);
    let mut buffer: Vec<u8> = Vec::new();
    let mut i: usize = 0;
    while i < names.len()
        invariant
            i <= names.len(),
            all == crate::winter::texts(names@),
            buffer@ == packed(all.take(i as int)),
        decreases names.len() - i,
    {
        let bytes = names[i].as_str().as_bytes();
        let ghost before = buffer@;
        assert(all.take(i + 1).drop_last() =~= all.take(i as int));
        buffer.extend_from_slice(bytes);
        buffer.push(0);
        assert(all[i as int] == names[i as int]@);
        assert(buffer@ =~= before + vstd::utf8::encode_utf8(all[i as int]).push(0));
        i = i + 1;
    }
    assert(all.take(i as int) =~= all);
    buffer
}

/// What a request for the keys of the extended attributes is answered: how
/// much room they take if none is offered, the keys if they fit.
pub fn listxattr_reply(names: &Vec<String>, size: u32) -> (r: Result<ListxattrReply, Error>)
    ensures
        ({
            let all = packed(crate::winter::texts(names@));
            if size == 0 {
                r matches Ok(ListxattrReply::Count(n)) && n == all.len() as u32
            } else if size < all.len() {
                r matches Err(e) && e@ == crate::error::os(ENODATA)
            } else {
                r matches Ok(ListxattrReply::Names(b)) && b@ == all
            }
        }),
{
    let buffer = pack(names);
    let total_size: usize = buffer.len();
    if size == 0 {
        Ok(ListxattrReply::Count(total_size as u32))
    } else if (size as u64) < (total_size as u64) {
        Err(Error::from_raw_os_error(ENODATA))
    } else {
        Ok(ListxattrReply::Names(buffer))
    }
}

/// What the file system says of itself.
#[derive(Clone, Copy, Debug, PartialEq, Eq, Structural)]
pub struct Statfs {
    pub f_bsize: u64,
    pub f_frsize: u64,
    pub f_blocks: u64,
    pub f_bfree: u64,
    pub f_bavail: u64,
    pub f_files: u64,
    pub f_ffree: u64,
    pub f_namemax: u64,
}

/// The unsigned number of 64 bits that a sum or difference comes to.
pub open spec fn modulo(x: int) -> int {
    x % 0x1_0000_0000_0000_0000
}

/// What the file system says of itself, given what was estimated: storage is
/// counted in blocks, in total rounded up.
pub open spec fn statfs_of(
    block_size: i64,
    used_storage: u64,
    free_storage: u64,
    files: u64,
    max_files: u64,
    name_max: u64,
) -> Statfs {
    Statfs {
        f_bsize: block_size as u64,
        f_frsize: block_size as u64,
        f_blocks: (modulo(used_storage + free_storage + block_size - 1) / (
        block_size as int)) as u64,
        f_bfree: (free_storage as int / (block_size as int)) as u64,
        f_bavail: (free_storage as int / (block_size as int)) as u64,
        f_files: files,
        f_ffree: modulo(max_files - files) as u64,
        f_namemax: name_max,
    }
}

/// What the file system says of itself, given what was estimated: storage is
/// counted in blocks, in total rounded up.
pub fn statfs_reply(
    block_size: i64,
    used_storage: u64,
    free_storage: u64,
    files: u64,
    max_files: u64,
    name_max: u64,
) -> (r: Statfs)
    requires
        block_size > 0,
    ensures
        r == statfs_of(block_size, used_storage, free_storage, files, max_files, name_max),
{
    let bs: u64 = block_size as u64;
    let f_bfree: u64 = free_storage / bs;
    let total: u64 = used_storage.wrapping_add(free_storage).wrapping_add(bs - 1);
    let f_ffree: u64 = max_files.wrapping_sub(files);
    proof {
        let sum = used_storage + free_storage + block_size - 1;
        assert(total == modulo(sum)) by {
            if sum >= 0x2_0000_0000_0000_0000 {
                assert(total == sum - 0x2_0000_0000_0000_0000);
            } else if sum >= 0x1_0000_0000_0000_0000 {
                assert(total == sum - 0x1_0000_0000_0000_0000);
            } else {
                assert(total == sum);
            }
        }
        assert(f_ffree == modulo(max_files - files));
    }
    Statfs {
        f_bsize: bs,
        f_frsize: bs,
        f_blocks: total / bs,
        f_bfree,
        f_bavail: f_bfree,
        f_files: files,
        f_ffree,
        f_namemax: name_max,
    }
}

/// Refuses a mode of allocation that is not supported.
pub fn check_fallocate_mode(mode: u32) -> (r: Result<(), Error>)
    ensures
        if mode == 0 {
            r is Ok
        } else {
            r matches Err(e) && e@ == crate::error::invalid("Unsupported fallocate mode")
        },
{
    if mode == 0 {
        Ok(())
    } else {
        Err(Error::new(ErrorKind::InvalidInput, "Unsupported fallocate mode"))
    }
}

/// The error for a time that does not exist.
pub open spec fn invalid_time(what: &str, secs: i64, nsec: i64) -> ErrorView {
    ErrorView::Message {
        kind: ErrorKind::InvalidInput,
        message: what@ + crate::text::decimal_text(secs as int) + " "@ + crate::text::decimal_text(
            nsec as int,
        ),
    }
}

/// The time that a request gives; `what` says in the error which one it is.
pub fn requested_time(what: &str, secs: i64, nsec: i64) -> (r: Result<Timestamp, Error>)
    ensures
        if crate::timestamp::is_timestamp(secs, nsec as u32) {
            r matches Ok(t) && t@ == (secs, nsec as u32)
        } else {
            r matches Err(e) && e@ == invalid_time(what, secs, nsec)
        },
{
    match Timestamp::from_timestamp(secs, nsec as u32) {
        Some(t) => Ok(t),
        None => {
            let mut message = what.to_string();
            message.append(crate::text::decimal(secs).as_str());
            message.append(" ");
            message.append(crate::text::decimal(nsec).as_str());
            Err(Error::Message { kind: ErrorKind::InvalidInput, message })
        },
    }
}

} // verus!
