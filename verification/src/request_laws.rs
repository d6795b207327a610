//! What requests lead to and why they are refused, in terms of what they ask
//! for and of the tree as it was.

use vstd::prelude::*;
use crate::blocks::{BlockView, SourceView};
use crate::error::{Error, ErrorKind, ErrorView, ENODATA, ERANGE};
use crate::handler::{Stat, WinterFsHandler};
use crate::modes::{
    FUSE_ATOMIC_O_TRUNC, FUSE_AUTO_INVAL_DATA, FUSE_BIG_WRITES, FUSE_CACHE_SYMLINKS,
    FUSE_DO_READDIRPLUS, FUSE_MAX_PAGES, FUSE_POSIX_ACL, FUSE_READDIRPLUS_AUTO,
    FUSE_WRITEBACK_CACHE, O_TRUNC, RENAME_EXCHANGE, RENAME_NOREPLACE, SETATTR_ATIME,
    SETATTR_ATIME_NOW, SETATTR_CTIME, SETATTR_GID, SETATTR_MODE, SETATTR_MTIME,
    SETATTR_MTIME_NOW, SETATTR_SIZE, SETATTR_UID, S_IFDIR, S_IFLNK, S_IFMT, XATTR_CREATE,
    XATTR_REPLACE,
};
use crate::winter::{EntryCore, FsState, WinterFs, WinterHandle, WinterInode, WinterTree};

verus! {

/// Whether something is refused with an error of this kind.
pub open spec fn fails_as(refused: Option<ErrorView>, kind: ErrorKind) -> bool {
    refused matches Some(e) && e.kind() == kind
}

/// Setting attributes sets each attribute that the request holds to the value in
/// the request, on its own and whatever else the request holds, and leaves each
/// one that it does not hold as it was. A time that is given goes before the
/// present. Only a change of the size changes the content: nothing is left
/// beyond a smaller size, and no other byte changes. Nothing else of the inode,
/// and nothing else in the tree, changes. What is said of the size is said of a
/// handle that agrees with its inode.
pub proof fn setattr_sets_exactly_what_is_asked(
    handle: EntryCore,
    state: FsState,
    valid: u32,
    attr: Stat,
    atime_now: (i64, u32),
    mtime_now: (i64, u32),
)
    requires
        state.inodes.contains_key(handle.st_ino),
        state.inodes[handle.st_ino].st_ino == handle.st_ino,
    ensures
        ({
            let id = handle.st_ino;
            let old = state.inodes[id];
            let (kept, after) = crate::handler::attrs_set(
                (handle, state),
                valid,
                attr,
                atime_now,
                mtime_now,
            );
            let new = after.inodes[id];
            &&& handle == old ==> kept == new
            &&& new.st_mode == if valid & SETATTR_MODE == SETATTR_MODE {
                attr.st_mode
            } else {
                old.st_mode
            }
            &&& new.st_uid == if valid & SETATTR_UID == SETATTR_UID {
                attr.st_uid
            } else {
                old.st_uid
            }
            &&& new.st_gid == if valid & SETATTR_GID == SETATTR_GID {
                attr.st_gid
            } else {
                old.st_gid
            }
            &&& handle == old ==> new.st_size == if valid & SETATTR_SIZE == SETATTR_SIZE {
                attr.st_size
            } else {
                old.st_size
            }
            &&& (new.st_atime, new.st_atime_nsec) == if valid & SETATTR_ATIME == SETATTR_ATIME {
                (attr.st_atime, attr.st_atime_nsec as u32 as i64)
            } else if valid & SETATTR_ATIME_NOW == SETATTR_ATIME_NOW {
                (atime_now.0, atime_now.1 as i64)
            } else {
                (old.st_atime, old.st_atime_nsec)
            }
            &&& (new.st_mtime, new.st_mtime_nsec) == if valid & SETATTR_MTIME == SETATTR_MTIME {
                (attr.st_mtime, attr.st_mtime_nsec as u32 as i64)
            } else if valid & SETATTR_MTIME_NOW == SETATTR_MTIME_NOW {
                (mtime_now.0, mtime_now.1 as i64)
            } else {
                (old.st_mtime, old.st_mtime_nsec)
            }
            &&& (new.st_ctime, new.st_ctime_nsec) == if valid & SETATTR_CTIME == SETATTR_CTIME {
                (attr.st_ctime, attr.st_ctime_nsec as u32 as i64)
            } else {
                (old.st_ctime, old.st_ctime_nsec)
            }
            &&& new.st_ino == old.st_ino
            &&& new.st_rdev == old.st_rdev
            &&& forall|other: u64|
                other != id ==> (#[trigger] after.inodes.contains_key(other)
                    <==> state.inodes.contains_key(other)) && after.inodes[other]
                    == state.inodes[other]
            &&& after.links == state.links
            &&& after.xattrs == state.xattrs
            &&& valid & SETATTR_SIZE != SETATTR_SIZE ==> new.st_size == old.st_size && after.bytes
                == state.bytes
            &&& handle == old ==> forall|i: u64, p: int| #[trigger]
                after.byte(i, p) == if i == id && valid & SETATTR_SIZE == SETATTR_SIZE && p
                    >= attr.st_size && attr.st_size < old.st_size {
                    0
                } else {
                    state.byte(i, p)
                }
            &&& forall|i: u64, p: int|
                i != id ==> #[trigger] after.byte(i, p) == state.byte(i, p)
        }),
{
    let id = handle.st_ino;
    let at = (handle, state);
    let mode = valid & SETATTR_MODE == SETATTR_MODE;
    let set_mode = crate::winter::with_mode(attr.st_mode);
    lemma_step(id, at, mode, set_mode);
    let a = step(at, mode, set_mode);
    let uid = valid & SETATTR_UID == SETATTR_UID;
    let set_uid = crate::winter::with_uid(attr.st_uid);
    lemma_step(id, a, uid, set_uid);
    let b = step(a, uid, set_uid);
    let gid = valid & SETATTR_GID == SETATTR_GID;
    let set_gid = crate::winter::with_gid(attr.st_gid);
    lemma_step(id, b, gid, set_gid);
    let c = step(b, gid, set_gid);
    let size = valid & SETATTR_SIZE == SETATTR_SIZE;
    lemma_size_step(id, c, size, attr.st_size);
    let d = if size {
        crate::handler::size_set(c, attr.st_size)
    } else {
        c
    };
    let atime = valid & SETATTR_ATIME == SETATTR_ATIME;
    let atime_is_now = valid & SETATTR_ATIME_NOW == SETATTR_ATIME_NOW;
    let set_atime = crate::winter::with_atime(
        if atime {
            (attr.st_atime, attr.st_atime_nsec as u32)
        } else {
            atime_now
        },
    );
    lemma_step(id, d, atime || atime_is_now, set_atime);
    let e = step(d, atime || atime_is_now, set_atime);
    let mtime = valid & SETATTR_MTIME == SETATTR_MTIME;
    let mtime_is_now = valid & SETATTR_MTIME_NOW == SETATTR_MTIME_NOW;
    let set_mtime = crate::winter::with_mtime(
        if mtime {
            (attr.st_mtime, attr.st_mtime_nsec as u32)
        } else {
            mtime_now
        },
    );
    lemma_step(id, e, mtime || mtime_is_now, set_mtime);
    let f = step(e, mtime || mtime_is_now, set_mtime);
    let ctime = valid & SETATTR_CTIME == SETATTR_CTIME;
    let set_ctime = crate::winter::with_ctime((attr.st_ctime, attr.st_ctime_nsec as u32));
    lemma_step(id, f, ctime, set_ctime);
    let g = step(f, ctime, set_ctime);
    assert(g == crate::handler::attrs_set(at, valid, attr, atime_now, mtime_now));
    let after = g.1;
    assert(after.inodes.remove(id) == state.inodes.remove(id));
    assert forall|other: u64| other != id implies (#[trigger] after.inodes.contains_key(other)
        <==> state.inodes.contains_key(other)) && after.inodes[other] == state.inodes[other] by {
        assert(after.inodes.remove(id).contains_key(other) == after.inodes.contains_key(other));
        assert(state.inodes.remove(id).contains_key(other) == state.inodes.contains_key(other));
        assert(after.inodes.remove(id)[other] == after.inodes[other]);
        assert(state.inodes.remove(id)[other] == state.inodes[other]);
    }
}

/// One step of setting attributes: a change of the inode, if it is asked for.
spec fn step(
    at: (EntryCore, FsState),
    asked: bool,
    change: spec_fn(EntryCore) -> EntryCore,
) -> (EntryCore, FsState) {
    if asked {
        crate::handler::changed(at, change)
    } else {
        at
    }
}

/// Whether nothing but attributes of one inode differs.
spec fn only_of(id: u64, before: FsState, after: FsState) -> bool {
    &&& after.inodes.contains_key(id)
    &&& after.inodes[id].st_ino == id
    &&& after.inodes.remove(id) == before.inodes.remove(id)
    &&& after.links == before.links
    &&& after.xattrs == before.xattrs
}

proof fn lemma_step(
    id: u64,
    at: (EntryCore, FsState),
    asked: bool,
    change: spec_fn(EntryCore) -> EntryCore,
)
    requires
        at.0.st_ino == id,
        at.1.inodes.contains_key(id),
        at.1.inodes[id].st_ino == id,
        change(at.1.inodes[id]).st_ino == id,
    ensures
        ({
            let r = step(at, asked, change);
            &&& r.0.st_ino == id
            &&& only_of(id, at.1, r.1)
            &&& r.1.bytes == at.1.bytes
            &&& r.1.inodes[id] == if asked {
                change(at.1.inodes[id])
            } else {
                at.1.inodes[id]
            }
            &&& r.0 == if asked {
                r.1.inodes[id]
            } else {
                at.0
            }
        }),
{
    let r = step(at, asked, change);
    assert(r.1.inodes.remove(id) =~= at.1.inodes.remove(id));
}

proof fn lemma_size_step(id: u64, at: (EntryCore, FsState), asked: bool, size: i64)
    requires
        at.0.st_ino == id,
        at.1.inodes.contains_key(id),
        at.1.inodes[id].st_ino == id,
    ensures
        ({
            let r = if asked {
                crate::handler::size_set(at, size)
            } else {
                at
            };
            let new = r.1.inodes[id];
            &&& r.0.st_ino == id
            &&& only_of(id, at.1, r.1)
            &&& new == EntryCore { st_size: new.st_size, ..at.1.inodes[id] }
            &&& !asked ==> r == at
            &&& forall|i: u64, p: int|
                i != id ==> #[trigger] r.1.byte(i, p) == at.1.byte(i, p)
            &&& at.0 == at.1.inodes[id] ==> {
                &&& r.0 == new
                &&& asked ==> new.st_size == size
                &&& forall|p: int| #[trigger]
                    r.1.byte(id, p) == if asked && p >= size && size < at.0.st_size {
                        0
                    } else {
                        at.1.byte(id, p)
                    }
            }
        }),
{
    let r = if asked {
        crate::handler::size_set(at, size)
    } else {
        at
    };
    assert(r.1.inodes.remove(id) =~= at.1.inodes.remove(id));
}

/// The bits of a request to set attributes stand for different attributes.
pub proof fn setattr_bits_are_independent(valid: u32)
    ensures
        SETATTR_MODE & SETATTR_UID == 0,
        (SETATTR_MODE | SETATTR_UID) & SETATTR_GID == 0,
        (SETATTR_MODE | SETATTR_UID | SETATTR_GID) & SETATTR_SIZE == 0,
        (SETATTR_MODE | SETATTR_UID | SETATTR_GID | SETATTR_SIZE) & SETATTR_ATIME == 0,
        (SETATTR_MODE | SETATTR_UID | SETATTR_GID | SETATTR_SIZE | SETATTR_ATIME) & SETATTR_MTIME
            == 0,
        (SETATTR_MODE | SETATTR_UID | SETATTR_GID | SETATTR_SIZE | SETATTR_ATIME | SETATTR_MTIME)
            & SETATTR_ATIME_NOW == 0,
        (SETATTR_MODE | SETATTR_UID | SETATTR_GID | SETATTR_SIZE | SETATTR_ATIME | SETATTR_MTIME
            | SETATTR_ATIME_NOW) & SETATTR_MTIME_NOW == 0,
        (SETATTR_MODE | SETATTR_UID | SETATTR_GID | SETATTR_SIZE | SETATTR_ATIME | SETATTR_MTIME
            | SETATTR_ATIME_NOW | SETATTR_MTIME_NOW) & SETATTR_CTIME == 0,
{
    assert(1u32 & 2 == 0 && (1u32 | 2) & 4 == 0 && (1u32 | 2 | 4) & 8 == 0 && (1u32 | 2 | 4 | 8)
        & 16 == 0 && (1u32 | 2 | 4 | 8 | 16) & 32 == 0 && (1u32 | 2 | 4 | 8 | 16 | 32) & 128 == 0
        && (1u32 | 2 | 4 | 8 | 16 | 32 | 128) & 256 == 0 && (1u32 | 2 | 4 | 8 | 16 | 32 | 128
        | 256) & 1024 == 0) by (bit_vector);
}

/// Setting attributes is refused exactly if the request holds a time that does
/// not exist. The error names the first such time, as it was given.
pub proof fn setattr_refuses_only_times_that_do_not_exist(valid: u32, attr: Stat)
    ensures
        ({
            let refused = crate::handler::time_refused(valid, attr);
            let bad_atime = valid & SETATTR_ATIME == SETATTR_ATIME
                && !crate::timestamp::is_timestamp(attr.st_atime, attr.st_atime_nsec as u32);
            let bad_mtime = valid & SETATTR_MTIME == SETATTR_MTIME
                && !crate::timestamp::is_timestamp(attr.st_mtime, attr.st_mtime_nsec as u32);
            let bad_ctime = valid & SETATTR_CTIME == SETATTR_CTIME
                && !crate::timestamp::is_timestamp(attr.st_ctime, attr.st_ctime_nsec as u32);
            &&& refused is None <==> !bad_atime && !bad_mtime && !bad_ctime
            &&& refused matches Some(e) ==> e.kind() == ErrorKind::InvalidInput
            &&& bad_atime ==> refused == Some(
                crate::rules::invalid_time("Invalid atime: ", attr.st_atime, attr.st_atime_nsec),
            )
            &&& bad_mtime && !bad_atime ==> refused == Some(
                crate::rules::invalid_time("Invalid mtime: ", attr.st_mtime, attr.st_mtime_nsec),
            )
            &&& bad_ctime && !bad_atime && !bad_mtime ==> refused == Some(
                crate::rules::invalid_time("Invalid ctime: ", attr.st_ctime, attr.st_ctime_nsec),
            )
        }),
{
}

/// The entry of an inode shows each of its attributes, and no other inode's.
pub proof fn entry_shows_the_attributes<FS: WinterFs>(fs: FS, state: FsState, attrs: EntryCore)
    ensures
        ({
            let entry = crate::handler::entry_of(fs, state, attrs);
            &&& entry.inode == attrs.st_ino && entry.attr.st_ino == attrs.st_ino
            &&& entry.generation == 0
            &&& entry.attr_flags == 0
            &&& entry.attr.st_mode == attrs.st_mode
            &&& entry.attr.st_uid == attrs.st_uid
            &&& entry.attr.st_gid == attrs.st_gid
            &&& entry.attr.st_rdev == attrs.st_rdev
            &&& entry.attr.st_size == attrs.st_size
            &&& entry.attr.st_atime == attrs.st_atime
            &&& entry.attr.st_atime_nsec == attrs.st_atime_nsec
            &&& entry.attr.st_mtime == attrs.st_mtime
            &&& entry.attr.st_mtime_nsec == attrs.st_mtime_nsec
            &&& entry.attr.st_ctime == attrs.st_ctime
            &&& entry.attr.st_ctime_nsec == attrs.st_ctime_nsec
            &&& entry.attr.st_blksize == fs.block_bytes()
            &&& entry.attr_timeout == <FS::Inode as WinterInode>::attr_validity(attrs)
            &&& entry.entry_timeout == <FS::Inode as WinterInode>::entry_validity(attrs)
            &&& attrs.st_mode & S_IFMT != S_IFDIR ==> entry.attr.st_nlink == state.links_to(
                attrs.st_ino,
            ).len() as u64
            &&& attrs.st_mode & S_IFMT == S_IFDIR ==> entry.attr.st_nlink == (state.child_dirs(
                attrs.st_ino,
            ).len() + 2) as u64
            &&& fs.block_bytes() > 0 && 0 <= attrs.st_size && attrs.st_size + fs.block_bytes() - 1
                <= i64::MAX ==> entry.attr.st_blocks * fs.block_bytes() >= attrs.st_size && (
            entry.attr.st_blocks - 1) * fs.block_bytes() < attrs.st_size
        }),
{
    if fs.block_bytes() > 0 && 0 <= attrs.st_size && attrs.st_size + fs.block_bytes() - 1
        <= i64::MAX {
        blocks_are_just_enough(attrs.st_size, fs.block_bytes());
    }
}

/// The blocks of a file are just enough for its size: one fewer would not hold
/// it.
pub proof fn blocks_are_just_enough(size: i64, block_size: i64)
    requires
        block_size > 0,
        0 <= size,
        size + block_size - 1 <= i64::MAX,
    ensures
        ({
            let n = crate::handler::block_count(size, block_size);
            &&& n * block_size >= size
            &&& (n - 1) * block_size < size
            &&& 0 <= n <= i64::MAX
        }),
{
    let x = size + block_size - 1;
    let b = block_size as int;
    let n = x / b;
    assert(crate::handler::block_count(size, block_size) == n);
    assert(n * b <= x < (n + 1) * b && 0 <= n <= x) by (nonlinear_arith)
        requires
            n == x / b,
            b > 0,
            x >= 0,
    ;
    assert((n + 1) * b == n * b + b && (n - 1) * b == n * b - b) by (nonlinear_arith);
}

/// A name can be given away exactly if it leads nowhere.
pub proof fn taken_names_are_refused(existing: u64)
    ensures
        crate::handler::taken_refused(existing) is None <==> existing == 0,
        crate::handler::taken_refused(existing) matches Some(e) ==> e.kind()
            == ErrorKind::AlreadyExists,
{
}

/// A name in a directory can be removed exactly if it leads to what is to be
/// removed: a directory that no name is in, or something that is no directory.
/// Each other case has an error of its own.
pub proof fn removal_needs_the_right_kind_of_file(
    state: FsState,
    parent: u64,
    name: Seq<char>,
    require_directory: bool,
)
    requires
        state.inodes.contains_key(parent),
        state.links.contains_key((parent, name)) ==> state.inodes.contains_key(
            state.links[(parent, name)],
        ),
        !state.inodes.contains_key(0),
    ensures
        ({
            let refused = crate::handler::removal_refused(state, parent, name, require_directory);
            let in_directory = state.inodes[parent].st_mode & S_IFMT == S_IFDIR;
            let leads = state.links.contains_key((parent, name));
            let child = state.links[(parent, name)];
            let to_directory = state.inodes[child].st_mode & S_IFMT == S_IFDIR;
            let empty = forall|n: Seq<char>| !#[trigger] state.links.contains_key((child, n));
            &&& refused is None <==> in_directory && leads && to_directory == require_directory
                && (require_directory ==> empty)
            &&& !in_directory ==> fails_as(refused, ErrorKind::NotADirectory)
            &&& in_directory && !leads ==> fails_as(refused, ErrorKind::NotFound)
            &&& in_directory && leads && require_directory && !to_directory
                ==> fails_as(refused, ErrorKind::NotADirectory)
            &&& in_directory && leads && !require_directory && to_directory
                ==> fails_as(refused, ErrorKind::IsADirectory)
            &&& in_directory && leads && require_directory && to_directory && !empty
                ==> fails_as(refused, ErrorKind::DirectoryNotEmpty)
        }),
{
}

/// An entry that does not exist is never moved; one that does is moved to a place
/// that is free unless it is to be exchanged, and to a place that is taken
/// unless nothing is to be replaced.
pub proof fn rename_is_refused_where_its_flags_say(source: u64, target: u64, flags: u32)
    ensures
        ({
            let refused = crate::handler::rename_refused(source, target, flags);
            &&& refused is None <==> source != 0 && (flags == RENAME_NOREPLACE ==> target == 0)
                && (flags == RENAME_EXCHANGE ==> target != 0)
            &&& source == 0 ==> fails_as(refused, ErrorKind::NotFound)
            &&& source != 0 && flags == RENAME_NOREPLACE && target != 0 ==> fails_as(refused, ErrorKind::AlreadyExists)
            &&& source != 0 && flags == RENAME_EXCHANGE && target == 0 ==> fails_as(refused, ErrorKind::NotFound)
        }),
{
}

/// A file can get a second name exactly if it is no directory and the name is
/// free and in a directory. Each other case has an error of its own.
pub proof fn link_needs_a_file_and_a_free_name(
    state: FsState,
    inode: u64,
    parent: u64,
    name: Seq<char>,
)
    requires
        state.inodes.contains_key(parent),
        state.inodes.contains_key(inode),
        state.links.contains_key((parent, name)) ==> state.links[(parent, name)] != 0,
    ensures
        ({
            let refused = crate::handler::link_refused(state, inode, parent, name);
            let in_directory = state.inodes[parent].st_mode & S_IFMT == S_IFDIR;
            let of_directory = state.inodes[inode].st_mode & S_IFMT == S_IFDIR;
            let taken = state.links.contains_key((parent, name));
            &&& refused is None <==> in_directory && !of_directory && !taken
            &&& !in_directory ==> fails_as(refused, ErrorKind::NotADirectory)
            &&& in_directory && of_directory ==> fails_as(refused, ErrorKind::IsADirectory)
            &&& in_directory && !of_directory && taken ==> fails_as(refused, ErrorKind::AlreadyExists)
        }),
{
}

/// A request about an extended attribute is let through exactly if its key is a
/// text that is not empty and its flags are one of those that are known.
pub proof fn xattr_requests_need_a_key_and_known_flags(name: Option<Seq<char>>, flags: u32)
    ensures
        ({
            let refused = crate::handler::xattr_refused(name, flags);
            &&& refused is None <==> (name matches Some(key) && key.len() > 0) && (flags == 0
                || flags == XATTR_CREATE || flags == XATTR_REPLACE)
            &&& refused matches Some(e) ==> e.kind() == ErrorKind::InvalidInput
        }),
{
}

/// An extended attribute that has to be new is set exactly if there is none, one
/// that is to be replaced exactly if there is one, and any other always.
pub proof fn xattr_flags_say_what_must_exist(value: Option<Seq<u8>>, flags: u32)
    ensures
        ({
            let refused = crate::handler::xattr_set_refused(value, flags);
            &&& flags == XATTR_CREATE ==> (refused is None <==> value is None)
            &&& flags == XATTR_REPLACE ==> (refused is None <==> value is Some)
            &&& flags != XATTR_CREATE && flags != XATTR_REPLACE ==> refused is None
            &&& flags == XATTR_CREATE && value is Some ==> fails_as(refused, ErrorKind::AlreadyExists)
            &&& flags == XATTR_REPLACE && value is None ==> refused == Some(
                ErrorView::Os { code: ENODATA },
            )
        }),
{
}

/// An extended attribute is given exactly if there is one and it fits into the
/// room that is offered, if any is; without room its length is asked for.
pub proof fn xattr_is_given_if_it_fits(value: Option<Seq<u8>>, size: u32)
    ensures
        ({
            let refused = crate::handler::xattr_get_refused(value, size);
            &&& refused is None <==> (value matches Some(v) && (size == 0 || v.len() <= size))
            &&& value is None ==> refused == Some(ErrorView::Os { code: ENODATA })
            &&& value is Some && refused is Some ==> refused == Some(ErrorView::Os { code: ERANGE })
        }),
{
}

/// More references to an inode are added to those that are counted, up to the
/// largest number; fewer are taken off, and none are kept once none are left.
/// The counts of other inodes stay.
pub proof fn references_are_counted_per_inode(
    counts: Map<u64, u64>,
    inode: u64,
    amount: u64,
    other: u64,
)
    ensures
        ({
            let before = if counts.contains_key(inode) {
                counts[inode] as int
            } else {
                0
            };
            let up = crate::handler::raised(counts, inode, amount);
            let down = crate::handler::lowered(counts, inode, amount);
            &&& up.contains_key(inode)
            &&& before + amount <= u64::MAX ==> up[inode] == before + amount
            &&& before + amount > u64::MAX ==> up[inode] == u64::MAX
            &&& down.contains_key(inode) <==> before > amount
            &&& before > amount ==> down[inode] == before - amount
            &&& other != inode ==> {
                &&& up.contains_key(other) == counts.contains_key(other)
                &&& down.contains_key(other) == counts.contains_key(other)
                &&& up[other] == counts[other]
                &&& counts.contains_key(other) ==> down[other] == counts[other]
            }
        }),
{
}

/// An inode that was made has the mode, the owner and the device that were asked
/// for and no content, its name leads to it, and every other name and inode is
/// as it was.
pub proof fn made_inode_is_as_asked(
    before: FsState,
    parent: u64,
    name: Seq<char>,
    mode: u32,
    uid: u32,
    gid: u32,
    rdev: u64,
    id: u64,
    after: FsState,
)
    requires
        crate::handler::made(before, parent, name, mode, uid, gid, rdev, id, after),
    ensures
        id != 0 && !before.inodes.contains_key(id) && after.inodes.contains_key(id),
        !before.links.contains_key((parent, name)),
        after.child(parent, name) == id,
        after.inodes[id].st_ino == id,
        after.inodes[id].st_mode == mode,
        after.inodes[id].st_uid == uid,
        after.inodes[id].st_gid == gid,
        after.inodes[id].st_rdev == rdev,
        after.inodes[id].st_size == 0,
        forall|p: int| #[trigger] after.byte(id, p) == 0,
        forall|i: u64|
            i != id ==> (#[trigger] after.inodes.contains_key(i) <==> before.inodes.contains_key(i))
                && after.inodes[i] == before.inodes[i],
        forall|l: (u64, Seq<char>)|
            l != (parent, name) ==> (#[trigger] after.links.contains_key(l)
                <==> before.links.contains_key(l)) && after.links[l] == before.links[l],
        after.xattrs == before.xattrs,
        forall|i: u64, p: int| i != id ==> #[trigger] after.byte(i, p) == before.byte(i, p),
{
    assert forall|p: int| #[trigger] after.byte(id, p) == 0 by {
        assert((after.bytes)(id, p) == 0);
    }
}

/// A symbolic link that was made is one, with all permissions, belongs to whom it
/// was made for, is as long as its path and has its bytes.
pub proof fn symbolic_link_is_as_asked(
    before: FsState,
    parent: u64,
    name: Seq<char>,
    uid: u32,
    gid: u32,
    path: Seq<u8>,
    id: u64,
    after: FsState,
)
    requires
        crate::handler::symlinked(before, parent, name, uid, gid, path, id, after),
        path.len() <= i64::MAX,
        path.len() <= usize::MAX,
    ensures
        after.child(parent, name) == id,
        after.inodes[id].st_mode & S_IFMT == S_IFLNK,
        after.inodes[id].st_mode & 0o7777 == 0o777,
        after.inodes[id].st_uid == uid,
        after.inodes[id].st_gid == gid,
        after.inodes[id].st_size == path.len(),
        forall|i: int| 0 <= i < path.len() ==> after.byte(id, i) == #[trigger] path[i],
{
    let (middle, attrs) = choose|middle: FsState, attrs: EntryCore|
        {
            &&& #[trigger] crate::handler::made(
                before,
                parent,
                name,
                S_IFLNK | 0o777,
                uid,
                gid,
                0,
                id,
                middle,
            )
            &&& #[trigger] crate::winter::written(
                middle.inodes[id],
                middle,
                0,
                path,
                attrs,
                after,
            )
        };
    assert((0o120000u32 | 0o777) & 0o170000 == 0o120000u32 && (0o120000u32 | 0o777) & 0o7777
        == 0o777) by (bit_vector);
}

/// Creating a file under a name that leads somewhere gives what is there and
/// changes nothing.
pub proof fn create_finds_what_is_there(
    before: FsState,
    parent: u64,
    name: Seq<char>,
    mode: u32,
    uid: u32,
    gid: u32,
    id: u64,
    after: FsState,
)
    requires
        crate::handler::found_or_made(before, parent, name, mode, uid, gid, id, after),
        before.links.contains_key((parent, name)),
        before.links[(parent, name)] != 0,
    ensures
        id == before.links[(parent, name)],
        after == before,
{
}

/// After an exchange each of the two names leads to where the other one led, and
/// every other name leads to where it led.
pub proof fn exchange_swaps_two_names(
    state: FsState,
    olddir: u64,
    oldname: Seq<char>,
    newdir: u64,
    newname: Seq<char>,
)
    requires
        state.links.contains_key((olddir, oldname)),
        state.links.contains_key((newdir, newname)),
    ensures
        ({
            let after = crate::handler::exchanged(state, olddir, oldname, newdir, newname);
            &&& after.child(olddir, oldname) == state.links[(newdir, newname)]
            &&& after.child(newdir, newname) == state.links[(olddir, oldname)]
            &&& forall|l: (u64, Seq<char>)|
                l != (olddir, oldname) && l != (newdir, newname) ==> (
                #[trigger] after.links.contains_key(l) <==> state.links.contains_key(l))
                    && after.links[l] == state.links[l]
            &&& after.inodes == state.inodes
            &&& after.xattrs == state.xattrs
            &&& after.bytes == state.bytes
        }),
{
}

/// Opening a file empties it exactly if that is asked for: then its size is zero
/// and it has no bytes. No other file changes.
pub proof fn open_empties_only_where_asked(state: FsState, inode: u64, flags: u32)
    requires
        state.inodes.contains_key(inode),
    ensures
        ({
            let after = crate::handler::truncated_if(state, inode, flags);
            &&& flags & O_TRUNC == 0 ==> after == state
            &&& flags & O_TRUNC != 0 ==> {
                &&& after.inodes[inode] == EntryCore { st_size: 0, ..state.inodes[inode] }
                &&& forall|p: int| p >= 0 ==> #[trigger] after.byte(inode, p) == 0
                &&& forall|i: u64, p: int|
                    i != inode ==> #[trigger] after.byte(i, p) == state.byte(i, p)
                &&& forall|i: u64|
                    i != inode ==> (#[trigger] after.inodes.contains_key(i)
                        <==> state.inodes.contains_key(i)) && after.inodes[i] == state.inodes[i]
                &&& after.links == state.links
                &&& after.xattrs == state.xattrs
            }
        }),
{
}

/// A write makes a file as large as it takes to hold what was written, and never
/// smaller; only the size of that inode changes.
pub proof fn write_grows_the_file_to_hold_it(
    handle: EntryCore,
    before: FsState,
    offset: i64,
    data: Seq<u8>,
    handle_after: EntryCore,
    after: FsState,
)
    requires
        crate::winter::written(handle, before, offset, data, handle_after, after),
        before.inodes.contains_key(handle.st_ino),
        handle == before.inodes[handle.st_ino],
        0 <= offset,
        offset + data.len() <= i64::MAX,
        data.len() <= usize::MAX,
    ensures
        ({
            let new = after.inodes[handle.st_ino];
            &&& handle_after == new
            &&& new.st_size >= handle.st_size
            &&& new.st_size >= offset + data.len()
            &&& new.st_size == handle.st_size || new.st_size == offset + data.len()
            &&& new == EntryCore { st_size: new.st_size, ..handle }
            &&& forall|i: u64|
                i != handle.st_ino ==> (#[trigger] after.inodes.contains_key(i)
                    <==> before.inodes.contains_key(i)) && after.inodes[i] == before.inodes[i]
            &&& after.links == before.links
            &&& after.xattrs == before.xattrs
        }),
{
    assert(after.inodes[handle.st_ino] == handle_after);
}

/// The keys of extended attributes are packed one after the other, each with a
/// zero byte behind it.
pub proof fn packed_keys_follow_each_other(first: Seq<Seq<char>>, second: Seq<Seq<char>>)
    ensures
        crate::rules::packed(first + second) == crate::rules::packed(first)
            + crate::rules::packed(second),
        forall|name: Seq<char>| #[trigger]
            crate::rules::packed(seq![name]) == vstd::utf8::encode_utf8(name) + seq![0u8],
    decreases second.len(),
{
    if second.len() == 0 {
        assert(first + second =~= first);
        assert(crate::rules::packed(first) + seq![] =~= crate::rules::packed(first));
    } else {
        let head = second.drop_last();
        packed_keys_follow_each_other(first, head);
        assert((first + second).drop_last() =~= first + head);
        assert(crate::rules::packed(first + second) =~= crate::rules::packed(first)
            + crate::rules::packed(second));
    }
    assert forall|name: Seq<char>| #[trigger]
        crate::rules::packed(seq![name]) == vstd::utf8::encode_utf8(name) + seq![0u8] by {
        reveal_with_fuel(crate::rules::packed, 2);
        assert(seq![name].drop_last() =~= seq![]);
        assert(crate::rules::packed(seq![name]) =~= vstd::utf8::encode_utf8(name) + seq![0u8]);
    }
}

/// The blocks that the file system says it has are just enough for all storage,
/// those that are free hold no more than is free, and the files there are and
/// those there may be add up to the largest number of files.
pub proof fn statfs_adds_up(
    block_size: i64,
    used_storage: u64,
    free_storage: u64,
    files: u64,
    max_files: u64,
    name_max: u64,
)
    requires
        block_size > 0,
        used_storage + free_storage + block_size - 1 <= u64::MAX,
        files <= max_files,
    ensures
        ({
            let r = crate::rules::statfs_of(
                block_size,
                used_storage,
                free_storage,
                files,
                max_files,
                name_max,
            );
            &&& r.f_bsize == block_size && r.f_frsize == block_size
            &&& r.f_blocks * block_size >= used_storage + free_storage
            &&& (r.f_blocks - 1) * block_size < used_storage + free_storage
            &&& r.f_bfree * block_size <= free_storage
            &&& (r.f_bfree + 1) * block_size > free_storage
            &&& r.f_bavail == r.f_bfree
            &&& r.f_files == files
            &&& r.f_files + r.f_ffree == max_files
            &&& r.f_namemax == name_max
        }),
{
    let b = block_size as int;
    let x = used_storage + free_storage + block_size - 1;
    let y = free_storage as int;
    let n = x / b;
    let m = y / b;
    assert(n * b <= x < (n + 1) * b && 0 <= n <= x) by (nonlinear_arith)
        requires
            n == x / b,
            b > 0,
            x >= 0,
    ;
    assert(m * b <= y < (m + 1) * b && 0 <= m <= y) by (nonlinear_arith)
        requires
            m == y / b,
            b > 0,
            y >= 0,
    ;
    assert((n + 1) * b == n * b + b && (n - 1) * b == n * b - b) by (nonlinear_arith);
}

/// Each option that is wanted is used exactly if the kernel is capable of it, and
/// an option that is not wanted is never used.
pub proof fn wanted_options_are_used_if_possible(capable: u64, option: u64)
    ensures
        ({
            let used = capable & crate::rules::wanted_options();
            let wanted = option == FUSE_MAX_PAGES || option == FUSE_BIG_WRITES || option
                == FUSE_WRITEBACK_CACHE || option == FUSE_AUTO_INVAL_DATA || option
                == FUSE_ATOMIC_O_TRUNC || option == FUSE_DO_READDIRPLUS || option
                == FUSE_READDIRPLUS_AUTO || option == FUSE_CACHE_SYMLINKS || option
                == FUSE_POSIX_ACL;
            &&& wanted ==> used & option == capable & option
            &&& option & FUSE_MAX_PAGES == 0 && option & FUSE_BIG_WRITES == 0 && option
                & FUSE_WRITEBACK_CACHE == 0 && option & FUSE_AUTO_INVAL_DATA == 0 && option
                & FUSE_ATOMIC_O_TRUNC == 0 && option & FUSE_DO_READDIRPLUS == 0 && option
                & FUSE_READDIRPLUS_AUTO == 0 && option & FUSE_CACHE_SYMLINKS == 0 && option
                & FUSE_POSIX_ACL == 0 ==> used & option == 0
        }),
{
    let a = FUSE_MAX_PAGES;
    let b = FUSE_BIG_WRITES;
    let c = FUSE_WRITEBACK_CACHE;
    let d = FUSE_AUTO_INVAL_DATA;
    let e = FUSE_ATOMIC_O_TRUNC;
    let f = FUSE_DO_READDIRPLUS;
    let g = FUSE_READDIRPLUS_AUTO;
    let h = FUSE_CACHE_SYMLINKS;
    let i = FUSE_POSIX_ACL;
    assert((option == a || option == b || option == c || option == d || option == e || option == f
        || option == g || option == h || option == i) ==> (capable & (a | b | c | d | e | f | g | h
        | i)) & option == capable & option) by (bit_vector);
    assert((option & a == 0 && option & b == 0 && option & c == 0 && option & d == 0 && option & e
        == 0 && option & f == 0 && option & g == 0 && option & h == 0 && option & i == 0) ==> (
    capable & (a | b | c | d | e | f | g | h | i)) & option == 0) by (bit_vector);
}

/// An operation on a file is about the file of the handle that it uses: that is
/// the open handle that is named, if one is, and else one for the inode that is
/// named. A handle that is named but not open is never used.
pub proof fn operations_use_the_named_handle<FS: WinterFs>(
    handler: WinterFsHandler<FS>,
    state: FsState,
    inode: u64,
    handle: Option<u64>,
    flags: u32,
    h: FS::Handle,
)
    requires
        handler.uses(state, inode, handle, flags, h),
    ensures
        handler.inode_of(inode, handle) == h.attrs().st_ino,
        !handler.stale(handle),
        handle is Some && handle != Some(0u64) ==> handler.open_handles().contains_key(handle->0)
            && handler.open_handles()[handle->0] == h,
        handle is None || handle == Some(0u64) ==> h.attrs().st_ino == inode && h.attrs()
            == state.inodes[inode] && state.inodes.contains_key(inode) && handler.storage().opened(
            h,
            inode,
            flags,
        ),
{
}

/// An operation through an open handle changes no other handle and opens none,
/// and one through a handle of its own leaves all handles as they were. No count
/// of references changes.
pub proof fn operations_leave_other_handles<FS: WinterFs>(
    before: WinterFsHandler<FS>,
    after: WinterFsHandler<FS>,
    handle: Option<u64>,
    h: FS::Handle,
    other: u64,
)
    requires
        after.used(&before, handle, h),
        !before.stale(handle),
    ensures
        after.lookups() == before.lookups(),
        after.open_handles().contains_key(other) == before.open_handles().contains_key(other),
        handle != Some(other) || other == 0 ==> before.open_handles().contains_key(other)
            ==> after.open_handles()[other] == before.open_handles()[other],
        handle == Some(other) && other != 0 ==> after.open_handles()[other] == h,
        after.kept(&before, handle),
{
    if let Some(id) = handle {
        if id != 0 {
            assert(after.open_handles()[id] == h);
        }
    }
}

/// An operation through a handle that is not open is refused as an invalid
/// argument, and through any other handle it fails only if the storage does.
pub proof fn closed_handles_are_refused<FS: WinterFs>(
    handler: WinterFsHandler<FS>,
    handle: Option<u64>,
    error: ErrorView,
)
    requires
        handler.missed(handle, error),
    ensures
        (handle matches Some(id) && id != 0 && !handler.open_handles().contains_key(id))
            ==> error.kind() == ErrorKind::InvalidInput,
        !(handle matches Some(id) && id != 0 && !handler.open_handles().contains_key(id))
            ==> crate::handler::is_fault::<FS>(error),
{
}

/// What was done in a context is there for others exactly if it is said to have
/// succeeded or only closing the context failed: an operation that failed
/// changes nothing for others, and is answered with its own error.
pub proof fn only_success_is_committed<FS: WinterFs, R>(
    handler: WinterFsHandler<FS>,
    before: FS::Context,
    result: Result<R, Error>,
    after: FS::Context,
    r: Result<R, Error>,
)
    requires
        handler.concluded(before, result, after, r),
    ensures
        r is Ok ==> result is Ok && r == result && after.committed() == before.state()
            && !after.is_open(),
        result is Err ==> r == result && after.committed() == before.committed(),
        after.committed() == before.state() || after.committed() == before.committed(),
        r is Err && result is Ok ==> FS::may_fail_with(r->Err_0@),
{
}

/// The parent that a directory shows is one in which a name leads to it, and
/// itself exactly if no name leads to it or it is in itself.
pub proof fn dotdot_leads_to_a_parent(state: FsState, inode: u64, parent: u64)
    requires
        crate::handler::is_dotdot(state, inode, parent),
    ensures
        (exists|name: Seq<char>| #[trigger]
            state.links.contains_key((parent, name)) && state.links[(parent, name)] == inode) || (
        parent == inode && forall|l: (u64, Seq<char>)| #[trigger]
            state.links.contains_key(l) ==> state.links[l] != inode),
{
    if state.links_to(inode).is_empty() {
        assert forall|l: (u64, Seq<char>)| #[trigger]
            state.links.contains_key(l) implies state.links[l] != inode by {
            assert(!state.links_to(inode).contains(l));
        }
    } else {
        let name = choose|name: Seq<char>| #[trigger]
            state.links_to(inode).contains((parent, name));
        assert(state.links.contains_key((parent, name)));
    }
}

/// Creating a file under a name that leads nowhere makes one there, of the mode
/// and the owner that were asked for.
pub proof fn create_makes_what_is_missing(
    before: FsState,
    parent: u64,
    name: Seq<char>,
    mode: u32,
    uid: u32,
    gid: u32,
    id: u64,
    after: FsState,
)
    requires
        crate::handler::found_or_made(before, parent, name, mode, uid, gid, id, after),
        !before.links.contains_key((parent, name)),
    ensures
        after.child(parent, name) == id,
        id != 0 && !before.inodes.contains_key(id),
        after.inodes[id].st_mode == mode,
        after.inodes[id].st_uid == uid,
        after.inodes[id].st_gid == gid,
        after.inodes[id].st_rdev == 0,
        after.inodes[id].st_size == 0,
{
    made_inode_is_as_asked(before, parent, name, mode, uid, gid, 0, id, after);
}

/// The mode of what is made has none of the permissions that the mask takes
/// away, and all others that were asked for.
pub proof fn mask_takes_permissions_away(mode: u32, umask: u32)
    ensures
        crate::modes::masked(mode, umask) & umask == 0,
        crate::modes::masked(mode, umask) | (mode & umask) == mode,
        umask & S_IFMT == 0 ==> crate::modes::masked(mode, umask) & S_IFMT == mode & S_IFMT,
{
    assert((mode & !umask) & umask == 0 && (mode & !umask) | (mode & umask) == mode) by (bit_vector);
    assert(umask & 0o170000u32 == 0 ==> (mode & !umask) & 0o170000u32 == mode & 0o170000u32)
        by (bit_vector);
}

/// A rename takes at most one of its flags, and no other flag.
pub proof fn rename_takes_one_flag(flags: u32)
    ensures
        crate::rules::rename_flags_known(flags) <==> (flags == 0 || flags == RENAME_NOREPLACE
            || flags == RENAME_EXCHANGE),
        !crate::rules::rename_flags_known(RENAME_NOREPLACE | RENAME_EXCHANGE),
        RENAME_NOREPLACE & RENAME_EXCHANGE == 0,
{
    assert(1u32 | 2 == 3 && 1u32 & 2 == 0) by (bit_vector);
}

/// Whether a block, which is new if only new ones count, is read out of the
/// stored block with this identifier.
pub open spec fn is_read_from(b: BlockView, only_new: bool, id: u64) -> bool {
    (!only_new || b.id is None) && (b.source matches SourceView::Sqlite { block_id, .. } && block_id
        == id)
}

/// The data that is asked for is that of the blocks that are read out of the
/// database, or only of the new ones among them, and no other.
pub proof fn only_needed_data_is_asked_for(s: Seq<BlockView>, only_new: bool, id: u64)
    ensures
        crate::operations::data_ids(s, only_new).contains(id) <==> exists|i: int|
            0 <= i < s.len() && is_read_from(#[trigger] s[i], only_new, id),
    decreases s.len(),
{
    let all = crate::operations::data_ids(s, only_new);
    if s.len() > 0 {
        let head = s.drop_last();
        let first = crate::operations::data_ids(head, only_new);
        only_needed_data_is_asked_for(head, only_new, id);
        if first.contains(id) {
            let k = choose|k: int| 0 <= k < first.len() && first[k] == id;
            assert(all[k] == id);
            let i = choose|i: int|
                0 <= i < head.len() && is_read_from(#[trigger] head[i], only_new, id);
            assert(s[i] == head[i]);
        }
        if all.contains(id) && !first.contains(id) {
            let k = choose|k: int| 0 <= k < all.len() && all[k] == id;
            if k < first.len() {
                assert(first[k] == id);
            }
            assert(is_read_from(s[s.len() - 1], only_new, id));
        }
        if exists|i: int|
            0 <= i < s.len() && is_read_from(#[trigger] s[i], only_new, id) {
            let i = choose|i: int|
                0 <= i < s.len() && is_read_from(#[trigger] s[i], only_new, id);
            if i < head.len() {
                assert(head[i] == s[i]);
                assert(first.contains(id));
            } else {
                assert(all[all.len() - 1] == id);
            }
        }
    }
}

/// A key that the storage does not answer for itself is listed exactly if there
/// is a value under it.
pub proof fn listed_keys_have_values<H: WinterHandle>(handle: H, state: FsState, key: Seq<char>)
    requires
        !H::answers(key),
        !handle.own_keys().contains(key),
    ensures
        crate::winter::xattr_keys(handle, state).contains(key) <==> crate::winter::xattr_value(
            handle,
            state,
            key,
        ) is Some,
        crate::winter::xattr_value(handle, state, key) is Some <==> state.xattrs.contains_key(
            (handle.attrs().st_ino, key),
        ),
{
}

} // verus!
