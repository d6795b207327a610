//! The operations that the kernel asks for, on any storage.

use std::collections::HashMap;
use vstd::prelude::*;
use crate::error::{Error, ErrorKind, ErrorView, ENODATA, ERANGE};
use crate::modes::{
    DT_DIR, O_APPEND, O_RDONLY, O_TRUNC, O_WRONLY, RENAME_EXCHANGE, RENAME_NOREPLACE,
    SETATTR_ATIME, SETATTR_ATIME_NOW, SETATTR_CTIME, SETATTR_GID, SETATTR_MODE, SETATTR_MTIME, SETATTR_MTIME_NOW, SETATTR_SIZE,
    SETATTR_UID, S_IFDIR, S_IFLNK, S_IFMT, S_IFREG, XATTR_CREATE, XATTR_REPLACE,
};
use crate::rules::{GetxattrReply, ListxattrReply, Statfs};
use crate::timestamp::Timestamp;
use crate::winter::{
    EntryCore, FsState, Validity, WinterFs, WinterHandle, WinterInode, WinterTree,
};

verus! {

broadcast use vstd::std_specs::hash::group_hash_axioms;

/// The attributes of a file as the kernel wants them.
#[derive(Clone, Copy, Debug, PartialEq, Eq, Structural)]
pub struct Stat {
    pub st_ino: u64,
    pub st_nlink: u64,
    pub st_mode: u32,
    pub st_uid: u32,
    pub st_gid: u32,
    pub st_rdev: u64,
    pub st_size: i64,
    pub st_blksize: i64,
    pub st_blocks: i64,
    pub st_atime: i64,
    pub st_atime_nsec: i64,
    pub st_mtime: i64,
    pub st_mtime_nsec: i64,
    pub st_ctime: i64,
    pub st_ctime_nsec: i64,
}

/// A file as the kernel wants it.
#[derive(Clone, Copy, Debug, PartialEq, Eq, Structural)]
pub struct Entry {
    pub inode: u64,
    pub generation: u64,
    pub attr: Stat,
    pub attr_flags: u32,
    pub attr_timeout: Validity,
    pub entry_timeout: Validity,
}

/// The signed number of 64 bits that a sum comes to.
pub open spec fn wrapped(x: int) -> int {
    if x > i64::MAX {
        x - 0x1_0000_0000_0000_0000
    } else if x < i64::MIN {
        x + 0x1_0000_0000_0000_0000
    } else {
        x
    }
}

/// How many blocks a file of this size takes, rounded up.
pub open spec fn block_count(size: i64, block_size: i64) -> int {
    let x = wrapped(size + block_size - 1);
    if x >= 0 {
        x / (block_size as int)
    } else {
        -((-x) / (block_size as int))
    }
}

/// How many blocks a file of this size takes, rounded up.
pub fn count_blocks(size: i64, block_size: i64) -> (r: i64)
    requires
        block_size > 0,
    ensures
        r == block_count(size, block_size),
{
    let x: i128 = (size as i128) + (block_size as i128) - 1;
    let y: i128 = if x > i64::MAX as i128 {
        x - 0x1_0000_0000_0000_0000
    } else {
        x
    };
    if y >= 0 {
        let q: u64 = (y as u64) / (block_size as u64);
        assert(q <= y) by (nonlinear_arith)
            requires
                q == (y as int) / (block_size as int),
                y >= 0,
                block_size > 0,
        ;
        q as i64
    } else {
        let m: u64 = (-y) as u64;
        let q: u64 = m / (block_size as u64);
        assert(q <= m) by (nonlinear_arith)
            requires
                q == (m as int) / (block_size as int),
                block_size > 0,
        ;
        (-(q as i128)) as i64
    }
}

/// How many names lead to an inode, as UNIX counts them: a directory counts
/// its own name, its `.` and the `..` of each directory in it.
pub open spec fn link_count(state: FsState, inode: u64, mode: u32) -> nat {
    if crate::modes::is_dir(mode) {
        state.child_dirs(inode).len() + 2
    } else {
        state.links_to(inode).len()
    }
}

/// Whether an error is one that the storage fails with.
pub open spec fn is_fault<FS: WinterFs>(error: ErrorView) -> bool {
    ||| FS::may_fail_with(error)
    ||| <FS::Context as WinterTree>::may_fail_with(error)
    ||| <FS::Handle as WinterHandle>::may_fail_with(error)
    ||| <FS::Inode as WinterInode>::may_fail_with(error)
}

/// The entry of an inode with these attributes.
pub open spec fn entry_of<FS: WinterFs>(fs: FS, state: FsState, attrs: EntryCore) -> Entry {
    Entry {
        inode: attrs.st_ino,
        generation: 0,
        attr: Stat {
            st_ino: attrs.st_ino,
            st_nlink: link_count(state, attrs.st_ino, attrs.st_mode) as u64,
            st_mode: attrs.st_mode,
            st_uid: attrs.st_uid,
            st_gid: attrs.st_gid,
            st_rdev: attrs.st_rdev,
            st_size: attrs.st_size,
            st_blksize: fs.block_bytes(),
            st_blocks: block_count(attrs.st_size, fs.block_bytes()) as i64,
            st_atime: attrs.st_atime,
            st_atime_nsec: attrs.st_atime_nsec,
            st_mtime: attrs.st_mtime,
            st_mtime_nsec: attrs.st_mtime_nsec,
            st_ctime: attrs.st_ctime,
            st_ctime_nsec: attrs.st_ctime_nsec,
        },
        attr_flags: 0,
        attr_timeout: <FS::Inode as WinterInode>::attr_validity(attrs),
        entry_timeout: <FS::Inode as WinterInode>::entry_validity(attrs),
    }
}

/// This provides an abstraction layer on top of FUSE. The idea is to separate
/// between the actual filesystem logic and the "dealing with Kernel
/// shenanigans" logic: it keeps the handles of the open files, and how many
/// references to each inode the kernel holds.
pub struct WinterFsHandler<FS: WinterFs> {
    fs: FS,
    next_handle: u64,
    handles: HashMap<u64, FS::Handle>,
    lookup_counts: HashMap<u64, u64>,
}

/// A handle that was taken out of the handler for one operation.
pub struct Taken<H> {
    id: u64,
    temporary: bool,
    handle: H,
}

impl<H> Taken<H> {
    /// The identifier of the handle.
    pub closed spec fn id(&self) -> u64 {
        self.id
    }

    /// Whether the handle was opened for one operation only.
    pub closed spec fn temporary(&self) -> bool {
        self.temporary
    }

    /// The handle itself.
    pub closed spec fn handle(&self) -> H {
        self.handle
    }
}

/// The counts of references after `amount` more to an inode.
pub open spec fn raised(counts: Map<u64, u64>, inode: u64, amount: u64) -> Map<u64, u64> {
    let before = if counts.contains_key(inode) {
        counts[inode] as int
    } else {
        0
    };
    counts.insert(
        inode,
        if before + amount > u64::MAX {
            u64::MAX
        } else {
            (before + amount) as u64
        },
    )
}

/// The counts of references after `amount` fewer to an inode: one that drops
/// to zero is no longer kept.
pub open spec fn lowered(counts: Map<u64, u64>, inode: u64, amount: u64) -> Map<u64, u64> {
    if !counts.contains_key(inode) {
        counts
    } else if counts[inode] <= amount {
        counts.remove(inode)
    } else {
        counts.insert(inode, (counts[inode] - amount) as u64)
    }
}

/// Whether `amount` fewer references to an inode leave none of those that were
/// counted.
pub open spec fn runs_out(counts: Map<u64, u64>, inode: u64, amount: u64) -> bool {
    counts.contains_key(inode) && counts[inode] <= amount
}

/// The tree after `amount` fewer references to an inode: one that nothing
/// refers to and nothing leads to is deleted.
pub open spec fn collected(
    state: FsState,
    counts: Map<u64, u64>,
    inode: u64,
    amount: u64,
) -> FsState {
    if runs_out(counts, inode, amount) && state.links_to(inode).is_empty() {
        state.without_inode(inode)
    } else {
        state
    }
}

impl<FS: WinterFs> WinterFsHandler<FS> {
    /// The storage.
    pub closed spec fn storage(&self) -> FS {
        self.fs
    }

    /// The identifier that the next handle will get.
    pub closed spec fn next_id(&self) -> u64 {
        self.next_handle
    }

    /// The handles of the open files.
    pub closed spec fn open_handles(&self) -> Map<u64, FS::Handle> {
        self.handles@
    }

    /// How many references to each inode the kernel holds.
    pub closed spec fn lookups(&self) -> Map<u64, u64> {
        self.lookup_counts@
    }

    /// Whether the storage and the handles are the same.
    pub open spec fn same_handles(&self, other: &Self) -> bool {
        &&& self.storage() == other.storage()
        &&& self.next_id() == other.next_id()
        &&& self.open_handles() == other.open_handles()
    }

    /// Whether everything is the same.
    pub open spec fn same(&self, other: &Self) -> bool {
        self.same_handles(other) && self.lookups() == other.lookups()
    }

    /// A handler for a storage, with no open files.
    pub fn new(fs: FS) -> (r: Self)
        ensures
            r.storage() == fs,
            r.next_id() == 1,
            r.open_handles() == Map::<u64, FS::Handle>::empty(),
            r.lookups() == Map::<u64, u64>::empty(),
    {
        WinterFsHandler {
            fs,
            next_handle: 1,
            handles: HashMap::new(),
            lookup_counts: HashMap::new(),
        }
    }

    /// The storage.
    pub fn fs(&self) -> (r: &FS)
        ensures
            *r == self.storage(),
    {
        &self.fs
    }

    /// Some operations will increase the "lookup count" of a given inode. This
    /// is essentially how many parts of the system might still be referencing
    /// this inode. For example even after a file is deleted you can still
    /// write to it. It's because of this lookup count.
    pub fn increase_lookup(&mut self, inode: u64, amount: u64)
        ensures
            final(self).same_handles(old(self)),
            final(self).lookups() == raised(old(self).lookups(), inode, amount),
    {
        let count: u64 = match self.lookup_counts.get(&inode) {
            Some(c) => *c,
            None => 0,
        };
        self.lookup_counts.insert(inode, count.saturating_add(amount));
    }

    /// Decreases the lookup count on a given inode, and at the same time
    /// perform garbage collection on said inode. For starters, when the count
    /// drops to zero then we stop keeping scores on the lookup count. But also
    /// when there are no links left to that inode then we know it needs to be
    /// removed from storage.
    pub fn decrease_lookup(
        &mut self,
        inode: u64,
        amount: u64,
        context: &mut FS::Context,
    ) -> (r: Result<(), Error>)
        ensures
            final(self).same_handles(old(self)),
            final(self).lookups() == lowered(old(self).lookups(), inode, amount),
            final(context).committed() == old(context).committed(),
            !runs_out(old(self).lookups(), inode, amount) ==> r is Ok,
            r matches Err(e) ==> is_fault::<FS>(e@),
            r is Ok ==> final(context).state() == collected(
                old(context).state(),
                old(self).lookups(),
                inode,
                amount,
            ),
    {
        let count: u64 = match self.lookup_counts.get(&inode) {
            Some(c) => *c,
            None => return Ok(()),
        };
        if count > amount {
            self.lookup_counts.insert(inode, count - amount);
            return Ok(());
        }
        self.lookup_counts.remove(&inode);
        let parents = match context.find_parents_of(inode) {
            Ok(p) => p,
            Err(e) => return Err(e),
        };
        let ghost links = old(context).state().links_to(inode);
        if parents.len() == 0 {
            proof {
                links.lemma_len0_is_empty();
                assert(links.is_empty());
            }
            return context.delete_inode(inode);
        }
        proof {
            assert(parents@.contains(parents@[0]));
            let name = choose|name: Seq<char>| #[trigger] links.contains((parents@[0], name));
            assert(!links.is_empty());
        }
        Ok(())
    }

    /// Whether an operation in a new context may give `result`, with the handler
    /// and the context that it leaves.
    pub open spec fn carries_out<R, F: FnOnce(&mut Self, &mut FS::Context) -> Result<R, Error>>(
        f: F,
        handler: &mut Self,
        context: &mut FS::Context,
        result: Result<R, Error>,
    ) -> bool {
        call_ensures(f, (handler, context), result)
    }

    /// Runs an operation in a context of its own, which is concluded. The
    /// operation is not run if there is no new context.
    pub fn with_context<R, F: FnOnce(&mut Self, &mut FS::Context) -> Result<R, Error>>(
        &mut self,
        f: F,
    ) -> (r: Result<R, Error>)
        requires
            forall|handler: &mut Self, context: &mut FS::Context|
                call_requires(f, (handler, context)),
        ensures
            ({
                ||| {
                    &&& r matches Err(e) && old(self).storage().refuses_context(e@)
                    &&& *final(self) == *old(self)
                }
                ||| exists|
                    handler: &mut Self,
                    context: &mut FS::Context,
                    result: Result<R, Error>,
                    after: FS::Context,
                |
                    {
                        &&& old(self).storage().creates(*context)
                        &&& *handler == *old(self)
                        &&& #[trigger] Self::carries_out(f, handler, context, result)
                        &&& *final(handler) == *final(self)
                        &&& #[trigger] final(self).concluded(*final(context), result, after, r)
                    }
            }),
    {
        let mut context = match self.fs.create_context() {
            Ok(c) => c,
            Err(e) => return Err(e),
        };
        let ghost operation = f;
        let ghost created = context;
        let result = f(self, &mut context);
        let ghost ran = result;
        let ghost left = context;
        proof {
            let (h, c) = choose|h: &mut Self, c: &mut FS::Context|
                {
                    &&& #[trigger] call_ensures(operation, (h, c), ran)
                    &&& *h == *old(self)
                    &&& *final(h) == *self
                    &&& *c == created
                    &&& *final(c) == left
                };
            assert(Self::carries_out(operation, h, c, ran));
        }
        let r = self.conclude(&mut context, result);
        assert(self.concluded(left, ran, context, r));
        r
    }

    /// Allocate a new handle ID and insert the handle into the map.
    pub fn create_handle(&mut self, handle: FS::Handle) -> (r: u64)
        requires
            old(self).next_id() < u64::MAX,
        ensures
            r == old(self).next_id(),
            final(self).storage() == old(self).storage(),
            final(self).lookups() == old(self).lookups(),
            final(self).next_id() == old(self).next_id() + 1,
            final(self).open_handles() == old(self).open_handles().insert(r, handle),
    {
        let id: u64 = self.next_handle;
        self.handles.insert(id, handle);
        self.next_handle = id + 1;
        id
    }

    /// Tells whether a handle can still get an identifier.
    pub fn can_open(&self) -> (r: bool)
        ensures
            r == (self.next_id() < u64::MAX),
    {
        self.next_handle < u64::MAX
    }

    /// Remove a handle from the map.
    pub fn remove_handle(&mut self, handle: u64) -> (r: Option<FS::Handle>)
        ensures
            final(self).storage() == old(self).storage(),
            final(self).lookups() == old(self).lookups(),
            final(self).next_id() == old(self).next_id(),
            if handle != 0 && old(self).open_handles().contains_key(handle) {
                &&& r == Some(old(self).open_handles()[handle])
                &&& final(self).open_handles() == old(self).open_handles().remove(handle)
            } else {
                r is None && final(self).open_handles() == old(self).open_handles()
            },
    {
        if handle == 0 {
            None
        } else {
            let r = self.handles.remove(&handle);
            assert(r is None ==> self.handles@ =~= old(self).handles@);
            r
        }
    }

    /// Whether a context has been closed right after what was done in it had
    /// been committed.
    pub open spec fn committed_and_closed(&self, before: FS::Context, after: FS::Context) -> bool {
        exists|synced: FS::Context|
            {
                &&& #[trigger] self.storage().commits(before, synced)
                &&& #[trigger] self.storage().closes(synced, after)
            }
    }

    /// Whether a context has been closed right after what was done in it had
    /// been rolled back.
    pub open spec fn undone_and_closed(&self, before: FS::Context, after: FS::Context) -> bool {
        exists|undone: FS::Context|
            {
                &&& #[trigger] self.storage().rolls_back(before, undone)
                &&& #[trigger] self.storage().closes(undone, after)
            }
    }

    /// Whether a context in which an operation gave `result` has been concluded
    /// with `r`. What the operation did is committed only if it succeeded; if it
    /// failed, nothing is, and it is rolled back. Either way the context is
    /// closed, but not if the commit itself fails: then nothing else is done.
    pub open spec fn concluded<R>(
        &self,
        before: FS::Context,
        result: Result<R, Error>,
        after: FS::Context,
        r: Result<R, Error>,
    ) -> bool {
        match (result, r) {
            (Ok(value), Ok(v)) => {
                &&& v == value
                &&& after.committed() == before.state()
                &&& !after.is_open()
                &&& self.committed_and_closed(before, after)
            },
            (Ok(_), Err(e)) => {
                &&& FS::may_fail_with(e@)
                &&& {
                    ||| {
                        &&& after.committed() == before.committed()
                        &&& self.storage().fails_to_commit(before, after)
                    }
                    ||| {
                        &&& after.committed() == before.state()
                        &&& self.committed_and_closed(before, after)
                    }
                }
            },
            (Err(error), Err(e)) => {
                &&& e == error
                &&& after.committed() == before.committed()
                &&& self.undone_and_closed(before, after)
            },
            (Err(_), Ok(_)) => false,
        }
    }

    /// Makes sure to properly commit and close the context depending on the
    /// success of the operation that was carried out in it.
    pub fn conclude<R>(&self, context: &mut FS::Context, result: Result<R, Error>) -> (r: Result<
        R,
        Error,
    >)
        ensures
            self.concluded(*old(context), result, *final(context), r),
    {
        match result {
            Ok(value) => {
                match self.fs.sync_context(context) {
                    Ok(_) => {},
                    Err(e) => return Err(e),
                }
                let ghost synced = *context;
                assert(self.storage().commits(*old(context), synced));
                let closed = self.fs.close_context(context);
                assert(self.storage().closes(synced, *context));
                match closed {
                    Ok(_) => Ok(value),
                    Err(e) => Err(e),
                }
            },
            Err(error) => {
                let _ = self.fs.rollback_context(context);
                let ghost undone = *context;
                assert(self.storage().rolls_back(*old(context), undone));
                let _ = self.fs.close_context(context);
                Err(error)
            },
        }
    }

    /// Counts the hardlinks to a given inode, simulating what the regular
    /// count would be on a UNIX file system.
    fn count_links(&self, inode: u64, mode: u32, context: &mut FS::Context) -> (r: Result<
        u64,
        Error,
    >)
        ensures
            final(context).committed() == old(context).committed(),
            r matches Ok(n) ==> {
                &&& final(context).state() == old(context).state()
                &&& n == link_count(old(context).state(), inode, mode)
            },
            r matches Err(e) ==> is_fault::<FS>(e@),
    {
        if crate::modes::is_directory(mode) {
            match context.count_child_directories(inode) {
                Ok(count) => Ok(count + 2),
                Err(e) => Err(e),
            }
        } else {
            match context.find_parents_of(inode) {
                Ok(found) => Ok(found.len() as u64),
                Err(e) => Err(e),
            }
        }
    }

    /// Transforms an inode into an entry.
    fn make_entry(&self, inode: &FS::Inode, context: &mut FS::Context) -> (r: Result<Entry, Error>)
        ensures
            final(context).committed() == old(context).committed(),
            r matches Ok(entry) ==> {
                &&& final(context).state() == old(context).state()
                &&& entry == entry_of(self.storage(), old(context).state(), inode.attrs())
            },
            r matches Err(e) ==> is_fault::<FS>(e@),
    {
        let attrs = match inode.make_entry() {
            Ok(a) => a,
            Err(e) => return Err(e),
        };
        let block_size: i64 = match self.fs.block_size() {
            Ok(b) => b,
            Err(e) => return Err(e),
        };
        let st_nlink: u64 = match self.count_links(attrs.st_ino, attrs.st_mode, context) {
            Ok(n) => n,
            Err(e) => return Err(e),
        };
        let attr_timeout = match inode.attr_valid_time() {
            Ok(t) => t,
            Err(e) => return Err(e),
        };
        let entry_timeout = match inode.entry_valid_time() {
            Ok(t) => t,
            Err(e) => return Err(e),
        };
        Ok(
            Entry {
                inode: attrs.st_ino,
                generation: 0,
                attr: Stat {
                    st_ino: attrs.st_ino,
                    st_nlink,
                    st_mode: attrs.st_mode,
                    st_uid: attrs.st_uid,
                    st_gid: attrs.st_gid,
                    st_rdev: attrs.st_rdev,
                    st_size: attrs.st_size,
                    st_blksize: block_size,
                    st_blocks: count_blocks(attrs.st_size, block_size),
                    st_atime: attrs.st_atime,
                    st_atime_nsec: attrs.st_atime_nsec,
                    st_mtime: attrs.st_mtime,
                    st_mtime_nsec: attrs.st_mtime_nsec,
                    st_ctime: attrs.st_ctime,
                    st_ctime_nsec: attrs.st_ctime_nsec,
                },
                attr_flags: 0,
                attr_timeout,
                entry_timeout,
            },
        )
    }
}

/// The error for a name that is no text.
pub open spec fn not_text() -> ErrorView {
    crate::error::invalid("Invalid UTF-8")
}

/// Why a name cannot be given away, if it cannot: it leads to an inode already.
pub open spec fn taken_refused(existing: u64) -> Option<ErrorView> {
    if existing != 0 {
        Some(crate::error::message(ErrorKind::AlreadyExists, "File already exists"))
    } else {
        None
    }
}

/// Why a name cannot be removed, if it cannot: it must lie in a directory and
/// lead to a directory or to a file, whichever was asked for, and a directory
/// must be empty.
pub open spec fn removal_refused(
    state: FsState,
    parent: u64,
    name: Seq<char>,
    require_directory: bool,
) -> Option<ErrorView> {
    let child = state.child(parent, name);
    let is_directory = crate::modes::is_dir(state.inodes[child].st_mode);
    if !state.inodes.contains_key(parent) {
        None
    } else if !crate::modes::is_dir(state.inodes[parent].st_mode) {
        Some(crate::error::message(ErrorKind::NotADirectory, "Parent is not a directory"))
    } else if child == 0 && require_directory {
        Some(crate::error::message(ErrorKind::NotFound, "Directory not found"))
    } else if child == 0 {
        Some(crate::error::message(ErrorKind::NotFound, "File not found"))
    } else if !state.inodes.contains_key(child) {
        None
    } else if require_directory && !is_directory {
        Some(crate::error::message(ErrorKind::NotADirectory, "Not a directory"))
    } else if !require_directory && is_directory {
        Some(crate::error::message(ErrorKind::IsADirectory, "Is a directory"))
    } else if require_directory && state.has_children(child) {
        Some(crate::error::message(ErrorKind::DirectoryNotEmpty, "Directory not empty"))
    } else {
        None
    }
}

/// Why an entry cannot be moved or exchanged, if it cannot: it must exist, a
/// target that must not be replaced must not, and one to exchange with must.
pub open spec fn rename_refused(source: u64, target: u64, flags: u32) -> Option<ErrorView> {
    if source == 0 {
        Some(crate::error::message(ErrorKind::NotFound, "Source does not exist"))
    } else if target != 0 && flags == RENAME_NOREPLACE {
        Some(crate::error::message(ErrorKind::AlreadyExists, "File already exists"))
    } else if target == 0 && flags == RENAME_EXCHANGE {
        Some(crate::error::message(ErrorKind::NotFound, "Target does not exist"))
    } else {
        None
    }
}

/// Why a file cannot get a second name, if it cannot: the name must lie in a
/// directory and be free, and the file must be no directory.
pub open spec fn link_refused(
    state: FsState,
    inode: u64,
    parent: u64,
    name: Seq<char>,
) -> Option<ErrorView> {
    if !state.inodes.contains_key(parent) {
        None
    } else if !crate::modes::is_dir(state.inodes[parent].st_mode) {
        Some(crate::error::message(ErrorKind::NotADirectory, "Parent is not a directory"))
    } else if !state.inodes.contains_key(inode) {
        None
    } else if crate::modes::is_dir(state.inodes[inode].st_mode) {
        Some(
            crate::error::message(ErrorKind::IsADirectory, "Cannot create hard link to directory"),
        )
    } else {
        taken_refused(state.child(parent, name))
    }
}

/// The tree with the entry at one place moved to another, replacing what was
/// there.
pub open spec fn moved(
    state: FsState,
    olddir: u64,
    oldname: Seq<char>,
    newdir: u64,
    newname: Seq<char>,
) -> FsState {
    let source = state.links[(olddir, oldname)];
    state.without_link(newdir, newname).without_link(olddir, oldname).with_link(
        newdir,
        newname,
        source,
    )
}

/// The tree with the entries at two places exchanged.
pub open spec fn exchanged(
    state: FsState,
    olddir: u64,
    oldname: Seq<char>,
    newdir: u64,
    newname: Seq<char>,
) -> FsState {
    let source = state.links[(olddir, oldname)];
    let target = state.links[(newdir, newname)];
    state.without_link(olddir, oldname).without_link(newdir, newname).with_link(
        newdir,
        newname,
        source,
    ).with_link(olddir, oldname, target)
}

/// The counts of references after a list of requests to lower them.
pub open spec fn lowered_all(counts: Map<u64, u64>, requests: Seq<(u64, u64)>) -> Map<u64, u64>
    decreases requests.len(),
{
    if requests.len() == 0 {
        counts
    } else {
        lowered(
            lowered_all(counts, requests.drop_last()),
            requests.last().0,
            requests.last().1,
        )
    }
}

/// The tree after a list of requests to lower counts of references.
pub open spec fn collected_all(
    state: FsState,
    counts: Map<u64, u64>,
    requests: Seq<(u64, u64)>,
) -> FsState
    decreases requests.len(),
{
    if requests.len() == 0 {
        state
    } else {
        collected(
            collected_all(state, counts, requests.drop_last()),
            lowered_all(counts, requests.drop_last()),
            requests.last().0,
            requests.last().1,
        )
    }
}

impl<FS: WinterFs> WinterFsHandler<FS> {
    /// Finds what a name in a directory leads to. A name that leads nowhere
    /// gives the entry of an inode that does not exist.
    pub fn lookup(&mut self, context: &mut FS::Context, parent: u64, name: &[u8]) -> (r: Result<
        Entry,
        Error,
    >)
        ensures
            final(self).same_handles(old(self)),
            final(context).committed() == old(context).committed(),
            match r {
                Ok(entry) => {
                    let state = old(context).state();
                    &&& final(context).state() == state
                    &&& crate::text::text_of(name@) matches Some(text) && {
                        let id = state.child(parent, text);
                        if id > 0 {
                            &&& state.inodes.contains_key(id)
                            &&& entry == entry_of(old(self).storage(), state, state.inodes[id])
                            &&& final(self).lookups() == raised(old(self).lookups(), id, 1)
                        } else {
                            &&& entry == entry_of(
                                old(self).storage(),
                                state,
                                crate::winter::empty_core(),
                            )
                            &&& final(self).lookups() == old(self).lookups()
                        }
                    }
                },
                Err(e) => {
                    &&& final(self).lookups() == old(self).lookups()
                    &&& if crate::text::text_of(name@) is None {
                        e@ == not_text()
                    } else {
                        is_fault::<FS>(e@)
                    }
                },
            },
    {
        let name_str = match crate::text::to_str(name) {
            Ok(n) => n,
            Err(e) => return Err(e),
        };
        let file_id: u64 = match context.lookup(parent, name_str.as_str()) {
            Ok(id) => id,
            Err(e) => return Err(e),
        };
        if file_id > 0 {
            let inode = match context.get_inode(file_id) {
                Ok(i) => i,
                Err(e) => return Err(e),
            };
            let entry = match self.make_entry(&inode, context) {
                Ok(e) => e,
                Err(e) => return Err(e),
            };
            self.increase_lookup(file_id, 1);
            Ok(entry)
        } else {
            let inode = context.empty_inode();
            self.make_entry(&inode, context)
        }
    }

    /// The kernel drops `count` references to an inode.
    pub fn forget(&mut self, context: &mut FS::Context, inode: u64, count: u64) -> (r: Result<
        (),
        Error,
    >)
        ensures
            final(self).same_handles(old(self)),
            final(self).lookups() == lowered(old(self).lookups(), inode, count),
            final(context).committed() == old(context).committed(),
            !runs_out(old(self).lookups(), inode, count) ==> r is Ok,
            r matches Err(e) ==> is_fault::<FS>(e@),
            r is Ok ==> final(context).state() == collected(
                old(context).state(),
                old(self).lookups(),
                inode,
                count,
            ),
    {
        self.decrease_lookup(inode, count, context)
    }

    /// The kernel drops references to many inodes.
    pub fn batch_forget(&mut self, context: &mut FS::Context, requests: &Vec<(u64, u64)>) -> (r:
        Result<(), Error>)
        ensures
            final(self).same_handles(old(self)),
            final(context).committed() == old(context).committed(),
            r is Ok ==> {
                &&& final(self).lookups() == lowered_all(old(self).lookups(), requests@)
                &&& final(context).state() == collected_all(
                    old(context).state(),
                    old(self).lookups(),
                    requests@,
                )
            },
            (forall|i: int|
                0 <= i < requests@.len() ==> !runs_out(
                    lowered_all(old(self).lookups(), requests@.take(i)),
                    (#[trigger] requests@[i]).0,
                    requests@[i].1,
                )) ==> r is Ok,
            r matches Err(e) ==> is_fault::<FS>(e@) && exists|k: int|
                0 < k <= requests@.len() && final(self).lookups() == lowered_all(
                    old(self).lookups(),
                    #[trigger] requests@.take(k),
                ),
    {
        let mut i: usize = 0;
        assert(requests@.take(0) =~= seq![]);
        while i < requests.len()
            invariant
                i <= requests.len(),
                self.same_handles(old(self)),
                context.committed() == old(context).committed(),
                self.lookups() == lowered_all(old(self).lookups(), requests@.take(i as int)),
                context.state() == collected_all(
                    old(context).state(),
                    old(self).lookups(),
                    requests@.take(i as int),
                ),
            decreases requests.len() - i,
        {
            assert(requests@.take(i + 1).drop_last() =~= requests@.take(i as int));
            let (inode, count) = requests[i];
            assert(requests@[i as int] == (inode, count));
            match self.decrease_lookup(inode, count, context) {
                Ok(_) => {},
                Err(e) => return Err(e),
            }
            i = i + 1;
        }
        assert(requests@.take(i as int) =~= requests@);
        Ok(())
    }

    /// Creates a directory.
    pub fn mkdir(
        &mut self,
        context: &mut FS::Context,
        uid: u32,
        gid: u32,
        parent: u64,
        name: &[u8],
        mode: u32,
        umask: u32,
    ) -> (r: Result<Entry, Error>)
        ensures
            final(self).same_handles(old(self)),
            final(context).committed() == old(context).committed(),
            match r {
                Ok(entry) => {
                    let state = old(context).state();
                    let after = final(context).state();
                    let id = entry.inode;
                    &&& crate::text::text_of(name@) matches Some(text) && {
                        &&& state.child(parent, text) == 0
                        &&& made(
                            state,
                            parent,
                            text,
                            S_IFDIR | crate::modes::masked(mode, umask),
                            uid,
                            gid,
                            0,
                            id,
                            after,
                        )
                        &&& entry == entry_of(old(self).storage(), after, after.inodes[id])
                        &&& final(self).lookups() == raised(old(self).lookups(), id, 1)
                    }
                },
                Err(e) => {
                    &&& final(self).lookups() == old(self).lookups()
                    &&& match crate::text::text_of(name@) {
                        None => e@ == not_text(),
                        Some(text) => is_fault::<FS>(e@) || taken_refused(
                            old(context).state().child(parent, text),
                        ) == Some(e@),
                    }
                },
            },
    {
        self.make_node(context, uid, gid, parent, name, S_IFDIR | (mode & !umask), 0)
    }

    /// Helper function for removing entries from the filesystem.
    /// - `require_directory`: if true, the target must be an empty directory;
    ///   if false, it must NOT be a directory
    fn remove_entry(
        &self,
        context: &mut FS::Context,
        parent: u64,
        name: &[u8],
        require_directory: bool,
    ) -> (r: Result<(), Error>)
        ensures
            final(context).committed() == old(context).committed(),
            match r {
                Ok(_) => {
                    let state = old(context).state();
                    &&& crate::text::text_of(name@) matches Some(text) && {
                        let child = state.child(parent, text);
                        &&& state.inodes.contains_key(parent)
                        &&& crate::modes::is_dir(state.inodes[parent].st_mode)
                        &&& child != 0
                        &&& state.inodes.contains_key(child)
                        &&& crate::modes::is_dir(state.inodes[child].st_mode) == require_directory
                        &&& require_directory ==> !state.has_children(child)
                        &&& final(context).state() == state.without_link(parent, text)
                    }
                },
                Err(e) => match crate::text::text_of(name@) {
                    None => e@ == not_text(),
                    Some(text) => is_fault::<FS>(e@) || removal_refused(
                        old(context).state(),
                        parent,
                        text,
                        require_directory,
                    ) == Some(e@),
                },
            },
    {
        let name_str = match crate::text::to_str(name) {
            Ok(n) => n,
            Err(e) => return Err(e),
        };
        let parent_inode = match context.get_inode(parent) {
            Ok(i) => i,
            Err(e) => return Err(e),
        };
        match crate::rules::check_parent(parent_inode.get_mode()) {
            Ok(_) => {},
            Err(e) => return Err(e),
        }
        let child_id: u64 = match context.lookup(parent, name_str.as_str()) {
            Ok(id) => id,
            Err(e) => return Err(e),
        };
        match crate::rules::check_removed_exists(child_id, require_directory) {
            Ok(_) => {},
            Err(e) => return Err(e),
        }
        let child = match context.get_inode(child_id) {
            Ok(i) => i,
            Err(e) => return Err(e),
        };
        let child_mode: u32 = child.get_mode();
        match crate::rules::check_removed_kind(child_mode, require_directory) {
            Ok(_) => {},
            Err(e) => return Err(e),
        }
        let ghost state = old(context).state();
        if require_directory {
            let children = match context.find_children_of(child_id, 1, 0) {
                Ok(c) => c,
                Err(e) => return Err(e),
            };
            proof {
                let all = <FS::Context as WinterTree>::listing(state, child_id);
                assert(crate::winter::named(children@).len() == children@.len());
                if all.len() > 0 {
                    assert(state.links.contains_key((child_id, all[0].0)));
                } else if state.has_children(child_id) {
                    let n = choose|n: Seq<char>| #[trigger]
                        state.links.contains_key((child_id, n));
                    assert(all.contains((n, state.links[(child_id, n)])));
                }
            }
            match crate::rules::check_empty(children.len()) {
                Ok(_) => {},
                Err(e) => return Err(e),
            }
        }
        context.remove_child(parent, name_str.as_str())
    }

    /// Removes a name that leads to a file.
    pub fn unlink(&mut self, context: &mut FS::Context, parent: u64, name: &[u8]) -> (r: Result<
        (),
        Error,
    >)
        ensures
            final(self).same(old(self)),
            final(context).committed() == old(context).committed(),
            match r {
                Ok(_) => {
                    let state = old(context).state();
                    &&& crate::text::text_of(name@) matches Some(text) && {
                        let child = state.child(parent, text);
                        &&& state.inodes.contains_key(parent)
                        &&& crate::modes::is_dir(state.inodes[parent].st_mode)
                        &&& child != 0
                        &&& state.inodes.contains_key(child)
                        &&& !crate::modes::is_dir(state.inodes[child].st_mode)
                        &&& final(context).state() == state.without_link(parent, text)
                    }
                },
                Err(e) => match crate::text::text_of(name@) {
                    None => e@ == not_text(),
                    Some(text) => is_fault::<FS>(e@) || removal_refused(
                        old(context).state(),
                        parent,
                        text,
                        false,
                    ) == Some(e@),
                },
            },
    {
        self.remove_entry(context, parent, name, false)
    }

    /// Removes a name that leads to an empty directory.
    pub fn rmdir(&mut self, context: &mut FS::Context, parent: u64, name: &[u8]) -> (r: Result<
        (),
        Error,
    >)
        ensures
            final(self).same(old(self)),
            final(context).committed() == old(context).committed(),
            match r {
                Ok(_) => {
                    let state = old(context).state();
                    &&& crate::text::text_of(name@) matches Some(text) && {
                        let child = state.child(parent, text);
                        &&& state.inodes.contains_key(parent)
                        &&& crate::modes::is_dir(state.inodes[parent].st_mode)
                        &&& child != 0
                        &&& state.inodes.contains_key(child)
                        &&& crate::modes::is_dir(state.inodes[child].st_mode)
                        &&& !state.has_children(child)
                        &&& final(context).state() == state.without_link(parent, text)
                    }
                },
                Err(e) => match crate::text::text_of(name@) {
                    None => e@ == not_text(),
                    Some(text) => is_fault::<FS>(e@) || removal_refused(
                        old(context).state(),
                        parent,
                        text,
                        true,
                    ) == Some(e@),
                },
            },
    {
        self.remove_entry(context, parent, name, true)
    }

    /// Moves an entry, or exchanges two.
    pub fn rename(
        &mut self,
        context: &mut FS::Context,
        olddir: u64,
        oldname: &[u8],
        newdir: u64,
        newname: &[u8],
        flags: u32,
    ) -> (r: Result<(), Error>)
        ensures
            final(self).same(old(self)),
            final(context).committed() == old(context).committed(),
            match r {
                Ok(_) => {
                    let state = old(context).state();
                    &&& crate::rules::rename_flags_known(flags)
                    &&& crate::text::text_of(oldname@) matches Some(old_text)
                        && crate::text::text_of(newname@) matches Some(new_text) && {
                        &&& old_text.len() > 0
                        &&& new_text.len() > 0
                        &&& state.inodes.contains_key(olddir)
                        &&& state.inodes.contains_key(newdir)
                        &&& state.child(olddir, old_text) != 0
                        &&& flags == RENAME_NOREPLACE ==> state.child(
                            newdir,
                            new_text,
                        ) == 0
                        &&& flags == RENAME_EXCHANGE ==> state.child(newdir, new_text) != 0
                        &&& final(context).state() == if flags == RENAME_EXCHANGE {
                            exchanged(state, olddir, old_text, newdir, new_text)
                        } else {
                            moved(state, olddir, old_text, newdir, new_text)
                        }
                    }
                },
                Err(e) => if !crate::rules::rename_flags_known(flags) {
                    e@ == crate::error::invalid("Invalid flags")
                } else {
                    match (crate::text::text_of(oldname@), crate::text::text_of(newname@)) {
                        (Some(old_text), Some(new_text)) => if old_text.len() == 0
                            || new_text.len() == 0 {
                            e@ == crate::error::invalid("Empty name")
                        } else {
                            is_fault::<FS>(e@) || rename_refused(
                                old(context).state().child(olddir, old_text),
                                old(context).state().child(newdir, new_text),
                                flags,
                            ) == Some(e@)
                        },
                        _ => e@ == not_text(),
                    }
                },
            },
    {
        match crate::rules::check_rename_flags(flags) {
            Ok(_) => {},
            Err(e) => return Err(e),
        }
        let old_name_str = match crate::text::to_str(oldname) {
            Ok(n) => n,
            Err(e) => return Err(e),
        };
        let new_name_str = match crate::text::to_str(newname) {
            Ok(n) => n,
            Err(e) => return Err(e),
        };
        match crate::rules::check_rename_names(old_name_str.as_str(), new_name_str.as_str()) {
            Ok(_) => {},
            Err(e) => return Err(e),
        }
        let old_parent = match context.get_inode(olddir) {
            Ok(i) => i,
            Err(e) => return Err(e),
        };
        let new_parent = match context.get_inode(newdir) {
            Ok(i) => i,
            Err(e) => return Err(e),
        };
        let old_id: u64 = old_parent.get_id();
        let new_id: u64 = new_parent.get_id();
        let source_inode_id: u64 = match context.lookup(old_id, old_name_str.as_str()) {
            Ok(id) => id,
            Err(e) => return Err(e),
        };
        match crate::rules::check_rename_source(source_inode_id) {
            Ok(_) => {},
            Err(e) => return Err(e),
        }
        let target_inode_id: u64 = match context.lookup(new_id, new_name_str.as_str()) {
            Ok(id) => id,
            Err(e) => return Err(e),
        };
        match crate::rules::check_rename_target(target_inode_id, flags) {
            Ok(_) => {},
            Err(e) => return Err(e),
        }
        if flags == RENAME_EXCHANGE {
            match context.remove_child(old_id, old_name_str.as_str()) {
                Ok(_) => {},
                Err(e) => return Err(e),
            }
            match context.remove_child(new_id, new_name_str.as_str()) {
                Ok(_) => {},
                Err(e) => return Err(e),
            }
            match context.add_child(new_id, source_inode_id, new_name_str.as_str()) {
                Ok(_) => {},
                Err(e) => return Err(e),
            }
            match context.add_child(old_id, target_inode_id, old_name_str.as_str()) {
                Ok(_) => {},
                Err(e) => return Err(e),
            }
        } else {
            if target_inode_id > 0 {
                match context.remove_child(new_id, new_name_str.as_str()) {
                    Ok(_) => {},
                    Err(e) => return Err(e),
                }
            }
            match context.remove_child(old_id, old_name_str.as_str()) {
                Ok(_) => {},
                Err(e) => return Err(e),
            }
            match context.add_child(new_id, source_inode_id, new_name_str.as_str()) {
                Ok(_) => {},
                Err(e) => return Err(e),
            }
            assert(context.state() =~= moved(
                old(context).state(),
                olddir,
                old_name_str@,
                newdir,
                new_name_str@,
            ));
        }
        Ok(())
    }

    /// Adds a second name for a file.
    pub fn link(
        &mut self,
        context: &mut FS::Context,
        inode: u64,
        newparent: u64,
        newname: &[u8],
    ) -> (r: Result<Entry, Error>)
        ensures
            final(self).same_handles(old(self)),
            final(context).committed() == old(context).committed(),
            match r {
                Ok(entry) => {
                    let state = old(context).state();
                    &&& crate::text::text_of(newname@) matches Some(text) && {
                        &&& state.inodes.contains_key(newparent)
                        &&& crate::modes::is_dir(state.inodes[newparent].st_mode)
                        &&& state.inodes.contains_key(inode)
                        &&& !crate::modes::is_dir(state.inodes[inode].st_mode)
                        &&& state.child(newparent, text) == 0
                        &&& final(context).state() == state.with_link(newparent, text, inode)
                        &&& entry == entry_of(
                            old(self).storage(),
                            final(context).state(),
                            state.inodes[inode],
                        )
                        &&& final(self).lookups() == raised(old(self).lookups(), inode, 1)
                    }
                },
                Err(e) => {
                    &&& final(self).lookups() == old(self).lookups()
                    &&& match crate::text::text_of(newname@) {
                        None => e@ == not_text(),
                        Some(text) => is_fault::<FS>(e@) || link_refused(
                            old(context).state(),
                            inode,
                            newparent,
                            text,
                        ) == Some(e@),
                    }
                },
            },
    {
        let name_str = match crate::text::to_str(newname) {
            Ok(n) => n,
            Err(e) => return Err(e),
        };
        // Verify parent is a directory
        let parent = match context.get_inode(newparent) {
            Ok(i) => i,
            Err(e) => return Err(e),
        };
        match crate::rules::check_parent(parent.get_mode()) {
            Ok(_) => {},
            Err(e) => return Err(e),
        }
        // Verify the file is not a directory (hard links to directories are
        // not allowed)
        let file = match context.get_inode(inode) {
            Ok(i) => i,
            Err(e) => return Err(e),
        };
        match crate::rules::check_linkable(file.get_mode()) {
            Ok(_) => {},
            Err(e) => return Err(e),
        }
        // Check if the name already exists in the parent directory
        let existing_id: u64 = match context.lookup(newparent, name_str.as_str()) {
            Ok(id) => id,
            Err(e) => return Err(e),
        };
        match crate::rules::check_free(existing_id) {
            Ok(_) => {},
            Err(e) => return Err(e),
        }
        match context.add_child(newparent, inode, name_str.as_str()) {
            Ok(_) => {},
            Err(e) => return Err(e),
        }
        let entry = match self.make_entry(&file, context) {
            Ok(e) => e,
            Err(e) => return Err(e),
        };
        self.increase_lookup(inode, 1);
        Ok(entry)
    }
}

/// Whether an inode of this mode has been made, without content, and put under
/// a name that was free.
pub open spec fn made(
    before: FsState,
    parent: u64,
    name: Seq<char>,
    mode: u32,
    uid: u32,
    gid: u32,
    rdev: u64,
    id: u64,
    after: FsState,
) -> bool {
    let attrs = after.inodes[id];
    &&& id != 0
    &&& !before.inodes.contains_key(id)
    &&& before.inodes.contains_key(parent) || parent == id
    &&& !before.links.contains_key((parent, name))
    &&& attrs.st_ino == id
    &&& attrs.st_mode == mode
    &&& attrs.st_uid == uid
    &&& attrs.st_gid == gid
    &&& attrs.st_rdev == rdev
    &&& attrs.st_size == 0
    &&& forall|p: int| #[trigger] (after.bytes)(id, p) == 0
    &&& after == before.with_inode(id, attrs).with_link(parent, name, id)
}

/// Whether a symbolic link has been made under a name that was free, with
/// this path as its content.
pub open spec fn symlinked(
    before: FsState,
    parent: u64,
    name: Seq<char>,
    uid: u32,
    gid: u32,
    path: Seq<u8>,
    id: u64,
    after: FsState,
) -> bool {
    exists|middle: FsState, attrs: EntryCore|
        {
            &&& #[trigger] made(
                before,
                parent,
                name,
                S_IFLNK | 0o777,
                uid,
                gid,
                0,
                id,
                middle,
            )
            &&& #[trigger] crate::winter::written(
                middle.inodes[id],
                middle,
                0,
                path,
                attrs,
                after,
            )
        }
}

/// Whether this is the file under a name, or one of this mode that has been
/// made under it because it was free.
pub open spec fn found_or_made(
    before: FsState,
    parent: u64,
    name: Seq<char>,
    mode: u32,
    uid: u32,
    gid: u32,
    id: u64,
    after: FsState,
) -> bool {
    let existing = before.child(parent, name);
    if existing == 0 {
        made(before, parent, name, mode, uid, gid, 0, id, after)
    } else {
        id == existing && after == before
    }
}

/// What a request to create a file asks for.
#[derive(Clone, Copy, Debug, PartialEq, Eq, Structural)]
pub struct CreateArgs {
    pub flags: u32,
    pub mode: u32,
    pub umask: u32,
}

/// The tree with a file emptied, if that was asked for.
pub open spec fn truncated_if(state: FsState, inode: u64, flags: u32) -> FsState {
    if flags & O_TRUNC != 0 {
        crate::winter::resized(state, inode, 0).cut(inode, 0)
    } else {
        state
    }
}

impl<FS: WinterFs> WinterFsHandler<FS> {
    /// Opens the file under a name, which is created if it is free.
    pub fn create(
        &mut self,
        context: &mut FS::Context,
        uid: u32,
        gid: u32,
        parent: u64,
        name: &[u8],
        args: CreateArgs,
    ) -> (r: Result<(Entry, u64), Error>)
        requires
            old(self).next_id() < u64::MAX,
        ensures
            final(self).storage() == old(self).storage(),
            final(context).committed() == old(context).committed(),
            match r {
                Ok((entry, handle)) => {
                    let state = old(context).state();
                    let id = entry.inode;
                    &&& crate::text::text_of(name@) matches Some(text) && {
                        let existing = state.child(parent, text);
                        &&& existing == 0 || args.flags & crate::modes::O_EXCL == 0
                        &&& exists|middle: FsState|
                            {
                                &&& #[trigger] found_or_made(
                                    old(context).state(),
                                    parent,
                                    text,
                                    S_IFREG | crate::modes::masked(args.mode, args.umask),
                                    uid,
                                    gid,
                                    id,
                                    middle,
                                )
                                &&& middle.inodes.contains_key(id)
                                &&& entry == entry_of(
                                    old(self).storage(),
                                    middle,
                                    middle.inodes[id],
                                )
                                &&& final(context).state() == truncated_if(middle, id, args.flags)
                            }
                        &&& final(self).lookups() == raised(old(self).lookups(), id, 1)
                        &&& handle == old(self).next_id()
                        &&& final(self).next_id() == handle + 1
                        &&& final(self).open_handles().contains_key(handle)
                        &&& final(self).open_handles() == old(self).open_handles().insert(
                            handle,
                            final(self).open_handles()[handle],
                        )
                        &&& final(self).open_handles()[handle].attrs().st_ino == id
                        &&& exists|h: FS::Handle|
                            {
                                let kept = final(self).open_handles()[handle];
                                &&& #[trigger] old(self).storage().opened(h, id, args.flags)
                                &&& if args.flags & O_TRUNC != 0 {
                                    kept.attrs() == crate::winter::with_size(0)(h.attrs())
                                } else {
                                    kept == h
                                }
                            }
                    }
                },
                Err(e) => {
                    &&& final(self).same_handles(old(self))
                    &&& match crate::text::text_of(name@) {
                        None => {
                            &&& e@ == not_text()
                            &&& final(self).lookups() == old(self).lookups()
                        },
                        Some(text) => {
                            let existing = old(context).state().child(parent, text);
                            ||| is_fault::<FS>(e@)
                            ||| {
                                &&& args.flags & crate::modes::O_EXCL != 0
                                &&& taken_refused(existing) == Some(e@)
                                &&& final(self).lookups() == old(self).lookups()
                            }
                        },
                    }
                    &&& final(self).lookups() == old(self).lookups() || exists|id: u64|
                        #![trigger raised(old(self).lookups(), id, 1)]
                        final(self).lookups() == raised(old(self).lookups(), id, 1)
                },
            },
    {
        let name_str = match crate::text::to_str(name) {
            Ok(n) => n,
            Err(e) => return Err(e),
        };
        let existing_id: u64 = match context.lookup(parent, name_str.as_str()) {
            Ok(id) => id,
            Err(e) => return Err(e),
        };
        match crate::rules::check_exclusive(existing_id, args.flags) {
            Ok(_) => {},
            Err(e) => return Err(e),
        }
        let file_id: u64 = if existing_id == 0 {
            let full_mode: u32 = S_IFREG | (args.mode & !args.umask);
            let file = match context.create_inode(full_mode, uid, gid, 0) {
                Ok(f) => f,
                Err(e) => return Err(e),
            };
            let new_id: u64 = file.get_id();
            match context.add_child(parent, new_id, name_str.as_str()) {
                Ok(_) => {},
                Err(e) => return Err(e),
            }
            new_id
        } else {
            existing_id
        };
        self.increase_lookup(file_id, 1);
        let ghost middle = context.state();
        let inode = match context.get_inode(file_id) {
            Ok(i) => i,
            Err(e) => return Err(e),
        };
        let entry = match self.make_entry(&inode, context) {
            Ok(e) => e,
            Err(e) => return Err(e),
        };
        let mut fh = match self.fs.open(context, file_id, args.flags) {
            Ok(h) => h,
            Err(e) => return Err(e),
        };
        assert(self.storage().opened(fh, file_id, args.flags));
        if args.flags & O_TRUNC != 0 {
            match fh.truncate(context) {
                Ok(_) => {},
                Err(e) => return Err(e),
            }
        }
        assert(found_or_made(
            old(context).state(),
            parent,
            name_str@,
            S_IFREG | crate::modes::masked(args.mode, args.umask),
            uid,
            gid,
            file_id,
            middle,
        ));
        let id: u64 = self.create_handle(fh);
        Ok((entry, id))
    }

    /// Whether this handle is the one that an operation uses: the open one
    /// with this identifier, or, if none is named, one that was opened for it
    /// with these flags.
    pub open spec fn uses(
        &self,
        state: FsState,
        inode: u64,
        handle: Option<u64>,
        flags: u32,
        h: FS::Handle,
    ) -> bool {
        match handle {
            Some(id) if id != 0 => self.open_handles().contains_key(id)
                && self.open_handles()[id] == h,
            _ => {
                &&& state.inodes.contains_key(inode)
                &&& h.attrs() == state.inodes[inode]
                &&& h.attrs().st_ino == inode
                &&& self.storage().opened(h, inode, flags)
            },
        }
    }

    /// Whether the handler is as before an operation on a file, but that the
    /// handle that was used is now `h`, and one that was opened for the
    /// operation took an identifier.
    pub open spec fn used(&self, before: &Self, handle: Option<u64>, h: FS::Handle) -> bool {
        &&& self.storage() == before.storage()
        &&& self.lookups() == before.lookups()
        &&& match handle {
            Some(id) if id != 0 => {
                &&& self.next_id() == before.next_id()
                &&& self.open_handles() == before.open_handles().insert(id, h)
            },
            _ => {
                &&& self.next_id() == before.next_id() + 1
                &&& self.open_handles() == before.open_handles()
            },
        }
    }

    /// Whether the handler is as before an operation on a file, but that the
    /// handle that was used may have another value, and one that was opened
    /// for the operation may have taken an identifier.
    pub open spec fn kept(&self, before: &Self, handle: Option<u64>) -> bool {
        &&& self.storage() == before.storage()
        &&& self.lookups() == before.lookups()
        &&& match handle {
            Some(id) if id != 0 => {
                &&& self.next_id() == before.next_id()
                &&& self.open_handles() == before.open_handles() || {
                    &&& before.open_handles().contains_key(id)
                    &&& self.open_handles() == before.open_handles().insert(
                        id,
                        self.open_handles()[id],
                    )
                }
            },
            _ => {
                &&& before.next_id() <= self.next_id() <= before.next_id() + 1
                &&& self.open_handles() == before.open_handles()
            },
        }
    }

    /// Whether a handle is named that is not open.
    pub open spec fn stale(&self, handle: Option<u64>) -> bool {
        handle matches Some(id) && id != 0 && !self.open_handles().contains_key(id)
    }

    /// Whether an operation through a handle fails with this error: the handle
    /// is not open, or else the storage failed.
    pub open spec fn missed(&self, handle: Option<u64>, error: ErrorView) -> bool {
        if self.stale(handle) {
            error == crate::error::invalid("Invalid handle")
        } else {
            is_fault::<FS>(error)
        }
    }

    /// Takes the handle for an operation out of the map, or opens a temporary
    /// one if none is named.
    fn take_handle(
        &mut self,
        context: &mut FS::Context,
        inode: u64,
        handle: Option<u64>,
        flags: u32,
    ) -> (r: Result<Taken<FS::Handle>, Error>)
        requires
            old(self).next_id() < u64::MAX,
        ensures
            final(self).storage() == old(self).storage(),
            final(self).lookups() == old(self).lookups(),
            final(context).committed() == old(context).committed(),
            match r {
                Ok(t) => {
                    &&& old(self).uses(old(context).state(), inode, handle, flags, t.handle())
                    &&& final(context).state() == old(context).state()
                    &&& match handle {
                        Some(id) if id != 0 => {
                            &&& *final(context) == *old(context)
                            &&& !t.temporary()
                            &&& t.id() == id
                            &&& final(self).next_id() == old(self).next_id()
                            &&& final(self).open_handles() == old(self).open_handles().remove(id)
                        },
                        _ => {
                            &&& t.temporary()
                            &&& final(self).next_id() == old(self).next_id() + 1
                            &&& final(self).open_handles() == old(self).open_handles()
                        },
                    }
                },
                Err(e) => {
                    &&& final(self).same(old(self))
                    &&& old(self).missed(handle, e@)
                },
            },
    {
        let named: u64 = match handle {
            Some(id) => id,
            None => 0,
        };
        if named != 0 {
            match self.remove_handle(named) {
                Some(h) => Ok(Taken { id: named, temporary: false, handle: h }),
                None => Err(Error::new(ErrorKind::InvalidInput, "Invalid handle")),
            }
        } else {
            match self.fs.open(context, inode, flags) {
                Ok(h) => {
                    let id: u64 = self.next_handle;
                    self.next_handle = id + 1;
                    Ok(Taken { id, temporary: true, handle: h })
                },
                Err(e) => Err(e),
            }
        }
    }

    /// Puts a handle back after an operation; a temporary one is dropped.
    fn give_back(&mut self, taken: Taken<FS::Handle>)
        ensures
            final(self).storage() == old(self).storage(),
            final(self).lookups() == old(self).lookups(),
            final(self).next_id() == old(self).next_id(),
            final(self).open_handles() == if taken.temporary() {
                old(self).open_handles()
            } else {
                old(self).open_handles().insert(taken.id(), taken.handle())
            },
    {
        if !taken.temporary {
            self.handles.insert(taken.id, taken.handle);
        }
    }

    /// Appends a slice of the data of a file to `w`.
    pub fn read(
        &mut self,
        context: &mut FS::Context,
        inode: u64,
        handle: u64,
        w: &mut Vec<u8>,
        size: u32,
        offset: u64,
    ) -> (r: Result<usize, Error>)
        requires
            old(self).next_id() < u64::MAX,
        ensures
            final(context).committed() == old(context).committed(),
            final(self).storage() == old(self).storage(),
            final(self).lookups() == old(self).lookups(),
            final(self).kept(old(self), Some(handle)),
            match r {
                Ok(n) => {
                    &&& final(context).state() == old(context).state()
                    &&& exists|h: FS::Handle, after: FS::Handle|
                        {
                            let bytes = crate::winter::read_from(
                                old(context).state(),
                                h.attrs(),
                                size as usize,
                                offset as i64,
                            );
                            &&& #[trigger] old(self).uses(
                                old(context).state(),
                                inode,
                                Some(handle),
                                O_RDONLY,
                                h,
                            )
                            &&& final(w)@ == old(w)@ + bytes
                            &&& n == bytes.len()
                            &&& #[trigger] final(self).used(old(self), Some(handle), after)
                            &&& after.attrs() == h.attrs()
                        }
                },
                Err(e) => {
                    &&& old(self).missed(Some(handle), e@)
                    &&& old(self).stale(Some(handle)) ==> final(self).same(old(self))
                },
            },
    {
        let mut taken = match self.take_handle(context, inode, Some(handle), O_RDONLY) {
            Ok(t) => t,
            Err(e) => return Err(e),
        };
        let ghost h = taken.handle;
        let result = taken.handle.read(context, size as usize, offset as i64, w);
        let ghost after = taken.handle;
        self.give_back(taken);
        proof {
            assert(self.open_handles() =~= if handle != 0 {
                old(self).open_handles().insert(handle, after)
            } else {
                old(self).open_handles()
            });
            assert(old(self).uses(old(context).state(), inode, Some(handle), O_RDONLY, h));
            assert(self.used(old(self), Some(handle), after));
        }
        result
    }
}

impl<FS: WinterFs> WinterFsHandler<FS> {
    /// Writes data into a file, at the end of it if that was asked for.
    pub fn write(
        &mut self,
        context: &mut FS::Context,
        inode: u64,
        handle: u64,
        data: &Vec<u8>,
        size: u32,
        offset: u64,
        flags: u32,
    ) -> (r: Result<usize, Error>)
        requires
            old(self).next_id() < u64::MAX,
        ensures
            final(context).committed() == old(context).committed(),
            final(self).storage() == old(self).storage(),
            final(self).lookups() == old(self).lookups(),
            final(self).kept(old(self), Some(handle)),
            match r {
                Ok(n) => {
                    &&& n == data@.len()
                    &&& exists|h: FS::Handle, after: FS::Handle|
                        {
                            &&& #[trigger] old(self).uses(
                                old(context).state(),
                                inode,
                                Some(handle),
                                O_WRONLY,
                                h,
                            )
                            &&& #[trigger] final(self).used(old(self), Some(handle), after)
                            &&& flags & O_APPEND == 0 ==> {
                                &&& n == size
                                &&& crate::winter::written(
                                    h.attrs(),
                                    old(context).state(),
                                    offset as i64,
                                    data@,
                                    after.attrs(),
                                    final(context).state(),
                                )
                            }
                            &&& flags & O_APPEND != 0 ==> crate::winter::appended(
                                h.attrs(),
                                old(context).state(),
                                data@,
                                after.attrs(),
                                final(context).state(),
                            )
                        }
                },
                Err(e) => {
                    &&& old(self).missed(Some(handle), e@)
                    &&& old(self).stale(Some(handle)) ==> final(self).same(old(self))
                },
            },
    {
        let mut taken = match self.take_handle(context, inode, Some(handle), O_WRONLY) {
            Ok(t) => t,
            Err(e) => return Err(e),
        };
        let ghost h = taken.handle;
        let result = if flags & O_APPEND != 0 {
            taken.handle.append(context, size as usize, data)
        } else {
            taken.handle.write(context, size as usize, offset as i64, data)
        };
        let ghost after = taken.handle;
        self.give_back(taken);
        proof {
            assert(self.open_handles() =~= if handle != 0 {
                old(self).open_handles().insert(handle, after)
            } else {
                old(self).open_handles()
            });
            assert(old(self).uses(old(context).state(), inode, Some(handle), O_WRONLY, h));
            assert(self.used(old(self), Some(handle), after));
        }
        result
    }

    /// The system closes a file.
    pub fn flush(&mut self, context: &mut FS::Context, handle: u64) -> (r: Result<(), Error>)
        ensures
            final(context).committed() == old(context).committed(),
            final(self).storage() == old(self).storage(),
            final(self).lookups() == old(self).lookups(),
            final(self).kept(old(self), Some(handle)),
            final(self).next_id() == old(self).next_id(),
            handle == 0 ==> r is Ok && final(self).same(old(self)) && *final(context) == *old(
                context,
            ),
            handle != 0 ==> match r {
                Ok(_) => {
                    &&& final(context).state() == old(context).state()
                    &&& old(self).open_handles().contains_key(handle)
                    &&& exists|after: FS::Handle|
                        {
                            &&& #[trigger] final(self).used(old(self), Some(handle), after)
                            &&& after.attrs() == old(self).open_handles()[handle].attrs()
                            &&& after.flushed(*final(context))
                        }
                },
                Err(e) => old(self).missed(Some(handle), e@),
            },
    {
        if handle == 0 {
            return Ok(());
        }
        let mut fh = match self.remove_handle(handle) {
            Some(h) => h,
            None => return Err(Error::new(ErrorKind::InvalidInput, "Invalid handle")),
        };
        let result = fh.flush(context);
        let ghost after = fh;
        self.handles.insert(handle, fh);
        proof {
            assert(self.open_handles() =~= old(self).open_handles().insert(handle, after));
            assert(self.used(old(self), Some(handle), after));
        }
        result
    }

    /// Persists a file to the disk: its data if that was asked for, and its
    /// metadata.
    pub fn fsync(&mut self, context: &mut FS::Context, datasync: bool, handle: u64) -> (r: Result<
        (),
        Error,
    >)
        ensures
            final(context).committed() == old(context).committed(),
            final(self).storage() == old(self).storage(),
            final(self).lookups() == old(self).lookups(),
            final(self).kept(old(self), Some(handle)),
            final(self).next_id() == old(self).next_id(),
            handle == 0 ==> r is Ok && final(self).same(old(self)) && *final(context) == *old(
                context,
            ),
            handle != 0 ==> match r {
                Ok(_) => {
                    &&& final(context).state() == old(context).state()
                    &&& old(self).open_handles().contains_key(handle)
                    &&& exists|after: FS::Handle|
                        {
                            &&& #[trigger] final(self).used(old(self), Some(handle), after)
                            &&& after.attrs() == old(self).open_handles()[handle].attrs()
                            &&& after.metadata_synced(*final(context))
                            &&& datasync ==> after.data_synced(*final(context))
                        }
                },
                Err(e) => old(self).missed(Some(handle), e@),
            },
    {
        if handle == 0 {
            return Ok(());
        }
        let mut fh = match self.remove_handle(handle) {
            Some(h) => h,
            None => return Err(Error::new(ErrorKind::InvalidInput, "Invalid handle")),
        };
        let data_result = if datasync {
            fh.fsync_data(context)
        } else {
            Ok(())
        };
        let result = match data_result {
            Ok(_) => fh.fsync_metadata(context),
            Err(e) => Err(e),
        };
        let ghost after = fh;
        self.handles.insert(handle, fh);
        proof {
            assert(self.open_handles() =~= old(self).open_handles().insert(handle, after));
            assert(self.used(old(self), Some(handle), after));
        }
        result
    }

    /// Persists a directory to the disk.
    pub fn fsyncdir(&mut self, context: &mut FS::Context, datasync: bool, handle: u64) -> (r:
        Result<(), Error>)
        ensures
            final(context).committed() == old(context).committed(),
            final(self).storage() == old(self).storage(),
            final(self).lookups() == old(self).lookups(),
            final(self).kept(old(self), Some(handle)),
            final(self).next_id() == old(self).next_id(),
            handle == 0 ==> r is Ok && final(self).same(old(self)) && *final(context) == *old(
                context,
            ),
            handle != 0 ==> match r {
                Ok(_) => {
                    &&& final(context).state() == old(context).state()
                    &&& old(self).open_handles().contains_key(handle)
                    &&& exists|after: FS::Handle|
                        {
                            &&& #[trigger] final(self).used(old(self), Some(handle), after)
                            &&& after.attrs() == old(self).open_handles()[handle].attrs()
                            &&& after.metadata_synced(*final(context))
                            &&& datasync ==> after.data_synced(*final(context))
                        }
                },
                Err(e) => old(self).missed(Some(handle), e@),
            },
    {
        self.fsync(context, datasync, handle)
    }

    /// Our fallocate implementation does not really respect the standard
    /// because we have no intent of managing the actual layout of the disk
    /// and this is entirely a call to manage the layout of the disk. Best we
    /// can do is pretend the file is bigger (even though it isn't).
    pub fn fallocate(
        &mut self,
        context: &mut FS::Context,
        inode: u64,
        handle: u64,
        mode: u32,
        offset: u64,
        length: u64,
    ) -> (r: Result<(), Error>)
        requires
            old(self).next_id() < u64::MAX,
            mode == 0 ==> offset + length <= u64::MAX,
        ensures
            final(context).committed() == old(context).committed(),
            final(self).storage() == old(self).storage(),
            final(self).lookups() == old(self).lookups(),
            final(self).kept(old(self), Some(handle)),
            match r {
                Ok(_) => {
                    &&& mode == 0
                    &&& exists|h: FS::Handle, after: FS::Handle|
                        {
                            &&& #[trigger] old(self).uses(
                                old(context).state(),
                                inode,
                                Some(handle),
                                0,
                                h,
                            )
                            &&& #[trigger] final(self).used(old(self), Some(handle), after)
                            &&& if offset + length > h.attrs().st_size as u64 {
                                (after.attrs(), final(context).state()) == size_set(
                                    (h.attrs(), old(context).state()),
                                    (offset + length) as u64 as i64,
                                )
                            } else {
                                after == h && final(context).state() == old(context).state()
                            }
                        }
                },
                Err(e) => if mode != 0 {
                    e@ == crate::error::invalid("Unsupported fallocate mode") && final(self).same(
                        old(self),
                    )
                } else {
                    &&& old(self).missed(Some(handle), e@)
                    &&& old(self).stale(Some(handle)) ==> final(self).same(old(self))
                },
            },
    {
        match crate::rules::check_fallocate_mode(mode) {
            Ok(_) => {},
            Err(e) => return Err(e),
        }
        let new_size: u64 = offset + length;
        let mut taken = match self.take_handle(context, inode, Some(handle), 0) {
            Ok(t) => t,
            Err(e) => return Err(e),
        };
        let ghost h = taken.handle;
        let result = match taken.handle.get_inode().make_entry() {
            Ok(attrs) => {
                if new_size > attrs.st_size as u64 {
                    taken.handle.set_size(context, new_size as i64)
                } else {
                    Ok(())
                }
            },
            Err(e) => Err(e),
        };
        let ghost after = taken.handle;
        self.give_back(taken);
        proof {
            assert(self.open_handles() =~= if handle != 0 {
                old(self).open_handles().insert(handle, after)
            } else {
                old(self).open_handles()
            });
            assert(old(self).uses(old(context).state(), inode, Some(handle), 0, h));
            assert(self.used(old(self), Some(handle), after));
        }
        result
    }

    /// Closes a handle, which is flushed first if that was asked for. A handle
    /// that cannot be flushed stays open.
    pub fn release(&mut self, context: &mut FS::Context, handle: u64, flush: bool) -> (r: Result<
        (),
        Error,
    >)
        ensures
            final(context).committed() == old(context).committed(),
            final(self).storage() == old(self).storage(),
            final(self).lookups() == old(self).lookups(),
            final(self).next_id() == old(self).next_id(),
            handle == 0 ==> r is Ok && final(self).same(old(self)),
            handle != 0 && !flush ==> r is Ok,
            r is Ok ==> {
                &&& final(context).state() == old(context).state()
                &&& final(self).open_handles() == if handle == 0 {
                    old(self).open_handles()
                } else {
                    old(self).open_handles().remove(handle)
                }
                &&& handle != 0 && flush ==> old(self).open_handles().contains_key(handle)
            },
            r matches Err(e) ==> old(self).missed(Some(handle), e@) && final(self).kept(
                old(self),
                Some(handle),
            ),
            r is Ok && handle != 0 && flush ==> exists|h: FS::Handle| #[trigger]
                h.flushed(*final(context)) && h.attrs() == old(self).open_handles()[handle].attrs(),
    {
        if handle == 0 {
            return Ok(());
        }
        if flush {
            match self.flush(context, handle) {
                Ok(_) => {},
                Err(e) => return Err(e),
            }
        }
        self.remove_handle(handle);
        assert(self.open_handles() =~= old(self).open_handles().remove(handle));
        Ok(())
    }

    /// Closes a handle of a directory.
    pub fn releasedir(&mut self, handle: u64) -> (r: Result<(), Error>)
        ensures
            r is Ok,
            final(self).storage() == old(self).storage(),
            final(self).lookups() == old(self).lookups(),
            final(self).next_id() == old(self).next_id(),
            final(self).open_handles() == if handle == 0 {
                old(self).open_handles()
            } else {
                old(self).open_handles().remove(handle)
            },
    {
        if handle == 0 {
            return Ok(());
        }
        self.remove_handle(handle);
        assert(self.open_handles() =~= old(self).open_handles().remove(handle));
        Ok(())
    }
}

/// The attributes that a handle keeps, and the tree, after an attribute of its
/// inode was changed in storage and read back.
pub open spec fn changed(
    at: (EntryCore, FsState),
    change: spec_fn(EntryCore) -> EntryCore,
) -> (EntryCore, FsState) {
    let id = at.0.st_ino;
    let attrs = change(at.1.inodes[id]);
    (attrs, at.1.with_inode(id, attrs))
}

/// The attributes that a handle keeps, and the tree, after its size was set:
/// nothing is done if the handle already has it, and else nothing is left
/// beyond the new end.
pub open spec fn size_set(at: (EntryCore, FsState), size: i64) -> (EntryCore, FsState) {
    if at.0.st_size == size {
        at
    } else {
        changed(
            (at.0, crate::winter::shortened(at.0, at.1, size)),
            crate::winter::with_size(size),
        )
    }
}

impl<FS: WinterFs> WinterFsHandler<FS> {
    /// Tells how much storage there is, and how many files.
    pub fn statfs(&mut self, context: &mut FS::Context) -> (r: Result<Statfs, Error>)
        ensures
            final(self).same(old(self)),
            final(context).committed() == old(context).committed(),
            match r {
                Ok(stat) => {
                    &&& final(context).state() == old(context).state()
                    &&& exists|used: u64, free: u64|
                        {
                            let fs = old(self).storage();
                            &&& #[trigger] old(self).storage().may_take_up(used)
                            &&& #[trigger] old(self).storage().may_be_left(free)
                            &&& stat == crate::rules::statfs_of(
                                fs.block_bytes(),
                                used,
                                free,
                                fs.files_count(old(context).state()),
                                fs.files_limit(old(context).state()),
                                fs.name_limit(old(context).state()),
                            )
                        }
                },
                Err(e) => is_fault::<FS>(e@),
            },
    {
        let block_size: i64 = match self.fs.block_size() {
            Ok(b) => b,
            Err(e) => return Err(e),
        };
        let used_storage: u64 = match self.fs.estimate_used_storage() {
            Ok(u) => u,
            Err(e) => return Err(e),
        };
        let free_storage: u64 = match self.fs.estimate_free_storage() {
            Ok(f) => f,
            Err(e) => return Err(e),
        };
        let files: u64 = match self.fs.estimate_files_count(context) {
            Ok(n) => n,
            Err(e) => return Err(e),
        };
        let max_files: u64 = match self.fs.max_files_count(context) {
            Ok(n) => n,
            Err(e) => return Err(e),
        };
        let name_max: u64 = match self.fs.get_name_max_size(context) {
            Ok(n) => n,
            Err(e) => return Err(e),
        };
        assert(self.storage().may_take_up(used_storage));
        assert(self.storage().may_be_left(free_storage));
        Ok(
            crate::rules::statfs_reply(
                block_size,
                used_storage,
                free_storage,
                files,
                max_files,
                name_max,
            ),
        )
    }

    /// Sets an extended attribute of a file.
    pub fn setxattr(
        &mut self,
        context: &mut FS::Context,
        inode: u64,
        name: &[u8],
        value: &[u8],
        flags: u32,
    ) -> (r: Result<(), Error>)
        requires
            old(self).next_id() < u64::MAX,
        ensures
            final(context).committed() == old(context).committed(),
            final(self).storage() == old(self).storage(),
            final(self).lookups() == old(self).lookups(),
            final(self).kept(old(self), None),
            final(self).open_handles() == old(self).open_handles(),
            match r {
                Ok(_) => {
                    let state = old(context).state();
                    &&& final(self).next_id() == old(self).next_id() + 1
                    &&& flags == 0 || flags == XATTR_CREATE || flags == XATTR_REPLACE
                    &&& crate::text::text_of(name@) matches Some(key) && {
                        &&& key.len() > 0
                        &&& final(context).state() == state.with_xattr(inode, key, value@)
                        &&& exists|h: FS::Handle|
                            {
                                &&& #[trigger] old(self).uses(state, inode, None, O_WRONLY, h)
                                &&& flags == XATTR_CREATE ==> crate::winter::xattr_value(h, state, key) is None
                                &&& flags == XATTR_REPLACE ==> crate::winter::xattr_value(h, state, key) is Some
                            }
                    }
                },
                Err(e) => match xattr_refused(crate::text::text_of(name@), flags) {
                    Some(error) => e@ == error,
                    None => is_fault::<FS>(e@) || exists|h: FS::Handle|
                        {
                            &&& #[trigger] old(self).uses(
                                old(context).state(),
                                inode,
                                None,
                                O_WRONLY,
                                h,
                            )
                            &&& xattr_set_refused(
                                crate::winter::xattr_value(
                                    h,
                                    old(context).state(),
                                    crate::text::text_of(name@)->0,
                                ),
                                flags,
                            ) == Some(e@)
                        },
                },
            },
    {
        let name_str = match crate::text::to_str(name) {
            Ok(n) => n,
            Err(e) => return Err(e),
        };
        match crate::rules::check_xattr_arguments(name_str.as_str(), flags) {
            Ok(_) => {},
            Err(e) => return Err(e),
        }
        let ghost state = context.state();
        let mut taken = match self.take_handle(context, inode, None, O_WRONLY) {
            Ok(t) => t,
            Err(e) => return Err(e),
        };
        let ghost h = taken.handle;
        assert(old(self).uses(state, inode, None, O_WRONLY, h));
        let permission = if flags == XATTR_CREATE || flags == XATTR_REPLACE {
            let present = match taken.handle.xattr_get(context, name_str.as_str()) {
                Ok(_) => Ok(()),
                Err(e) => Err(e),
            };
            crate::rules::check_xattr_presence(flags, present)
        } else {
            Ok(())
        };
        let result = match permission {
            Ok(_) => taken.handle.xattr_set(context, name_str.as_str(), value),
            Err(e) => Err(e),
        };
        self.give_back(taken);
        result
    }

    /// Gets an extended attribute of a file.
    pub fn getxattr(&mut self, context: &mut FS::Context, inode: u64, name: &[u8], size: u32) -> (r:
        Result<GetxattrReply, Error>)
        requires
            old(self).next_id() < u64::MAX,
        ensures
            final(context).committed() == old(context).committed(),
            final(self).storage() == old(self).storage(),
            final(self).lookups() == old(self).lookups(),
            final(self).kept(old(self), None),
            final(self).open_handles() == old(self).open_handles(),
            match r {
                Ok(reply) => {
                    let state = old(context).state();
                    &&& final(context).state() == state
                    &&& final(self).next_id() == old(self).next_id() + 1
                    &&& crate::text::text_of(name@) matches Some(key) && {
                        &&& key.len() > 0
                        &&& exists|h: FS::Handle|
                            {
                                &&& #[trigger] old(self).uses(state, inode, None, O_RDONLY, h)
                                &&& crate::winter::xattr_value(h, state, key) matches Some(value) && match reply {
                                    GetxattrReply::Count(n) => size == 0 && n
                                        == value.len() as u32,
                                    GetxattrReply::Value(v) => 0 < size && value.len() <= size
                                        && v@ == value,
                                }
                            }
                    }
                },
                Err(e) => match crate::text::text_of(name@) {
                    None => e@ == not_text(),
                    Some(key) => if key.len() == 0 {
                        e@ == crate::error::invalid("Name cannot be empty")
                    } else {
                        is_fault::<FS>(e@) || exists|h: FS::Handle|
                            {
                                &&& #[trigger] old(self).uses(
                                    old(context).state(),
                                    inode,
                                    None,
                                    O_RDONLY,
                                    h,
                                )
                                &&& xattr_get_refused(
                                    crate::winter::xattr_value(h, old(context).state(), key),
                                    size,
                                ) == Some(e@)
                            }
                    },
                },
            },
    {
        let name_str = match crate::text::to_str(name) {
            Ok(n) => n,
            Err(e) => return Err(e),
        };
        if name_str.as_str().is_empty() {
            return Err(Error::new(ErrorKind::InvalidInput, "Name cannot be empty"));
        }
        let ghost state = context.state();
        let mut taken = match self.take_handle(context, inode, None, O_RDONLY) {
            Ok(t) => t,
            Err(e) => return Err(e),
        };
        let ghost h = taken.handle;
        assert(old(self).uses(state, inode, None, O_RDONLY, h));
        let value = taken.handle.xattr_get(context, name_str.as_str());
        self.give_back(taken);
        crate::rules::getxattr_reply(value, size)
    }

    /// Lists the keys of the extended attributes of a file.
    pub fn listxattr(&mut self, context: &mut FS::Context, inode: u64, size: u32) -> (r: Result<
        ListxattrReply,
        Error,
    >)
        requires
            old(self).next_id() < u64::MAX,
        ensures
            final(context).committed() == old(context).committed(),
            final(self).storage() == old(self).storage(),
            final(self).lookups() == old(self).lookups(),
            final(self).kept(old(self), None),
            final(self).open_handles() == old(self).open_handles(),
            r matches Ok(reply) ==> {
                let state = old(context).state();
                &&& final(context).state() == state
                &&& final(self).next_id() == old(self).next_id() + 1
                &&& exists|h: FS::Handle, keys: Seq<Seq<char>>|
                    {
                        &&& #[trigger] old(self).uses(state, inode, None, O_RDONLY, h)
                        &&& keys.to_set() == crate::winter::xattr_keys(h, state)
                        &&& match reply {
                            ListxattrReply::Count(n) => size == 0 && n
                                == (#[trigger] crate::rules::packed(keys)).len() as u32,
                            ListxattrReply::Names(b) => 0 < size && b@
                                == crate::rules::packed(keys) && b@.len() <= size,
                        }
                    }
            },
            r matches Err(e) ==> is_fault::<FS>(e@) || exists|h: FS::Handle, keys: Seq<Seq<char>>|
                {
                    &&& #[trigger] old(self).uses(
                        old(context).state(),
                        inode,
                        None,
                        O_RDONLY,
                        h,
                    )
                    &&& keys.to_set() == crate::winter::xattr_keys(h, old(context).state())
                    &&& 0 < size < (#[trigger] crate::rules::packed(keys)).len()
                    &&& e@ == crate::error::os(ENODATA)
                },
    {
        let ghost state = context.state();
        let mut taken = match self.take_handle(context, inode, None, O_RDONLY) {
            Ok(t) => t,
            Err(e) => return Err(e),
        };
        let ghost h = taken.handle;
        assert(old(self).uses(state, inode, None, O_RDONLY, h));
        let listed = taken.handle.xattr_list(context);
        self.give_back(taken);
        match listed {
            Ok(names) => {
                let ghost keys = crate::winter::texts(names@);
                assert(keys.to_set() == crate::winter::xattr_keys(h, state));
                crate::rules::listxattr_reply(&names, size)
            },
            Err(e) => Err(e),
        }
    }

    /// Removes an extended attribute of a file.
    pub fn removexattr(&mut self, context: &mut FS::Context, inode: u64, name: &[u8]) -> (r: Result<
        (),
        Error,
    >)
        requires
            old(self).next_id() < u64::MAX,
        ensures
            final(context).committed() == old(context).committed(),
            final(self).storage() == old(self).storage(),
            final(self).lookups() == old(self).lookups(),
            final(self).kept(old(self), None),
            final(self).open_handles() == old(self).open_handles(),
            match r {
                Ok(_) => {
                    let state = old(context).state();
                    &&& final(self).next_id() == old(self).next_id() + 1
                    &&& crate::text::text_of(name@) matches Some(key) && {
                        &&& key.len() > 0
                        &&& state.xattrs.contains_key((inode, key))
                        &&& final(context).state() == state.without_xattr(inode, key)
                        &&& exists|h: FS::Handle| #[trigger]
                            old(self).uses(state, inode, None, O_WRONLY, h)
                    }
                },
                Err(e) => match xattr_refused(crate::text::text_of(name@), 0) {
                    Some(error) => e@ == error,
                    None => is_fault::<FS>(e@),
                },
            },
    {
        let name_str = match crate::text::to_str(name) {
            Ok(n) => n,
            Err(e) => return Err(e),
        };
        match crate::rules::check_xattr_arguments(name_str.as_str(), 0) {
            Ok(_) => {},
            Err(e) => return Err(e),
        }
        let mut taken = match self.take_handle(context, inode, None, O_WRONLY) {
            Ok(t) => t,
            Err(e) => return Err(e),
        };
        assert(old(self).uses(old(context).state(), inode, None, O_WRONLY, taken.handle));
        let result = taken.handle.xattr_remove(context, name_str.as_str());
        self.give_back(taken);
        result
    }

    /// Gets the attributes of a file.
    pub fn getattr(&mut self, context: &mut FS::Context, inode: u64, handle: Option<u64>) -> (r:
        Result<(Stat, Validity), Error>)
        ensures
            final(self).same(old(self)),
            final(context).committed() == old(context).committed(),
            match r {
                Ok((attr, timeout)) => {
                    let state = old(context).state();
                    let id = old(self).inode_of(inode, handle);
                    &&& final(context).state() == state
                    &&& !old(self).stale(handle)
                    &&& state.inodes.contains_key(id)
                    &&& (attr, timeout) == (
                        entry_of(old(self).storage(), state, state.inodes[id]).attr,
                        entry_of(old(self).storage(), state, state.inodes[id]).attr_timeout,
                    )
                },
                Err(e) => old(self).missed(handle, e@),
            },
    {
        let named: u64 = match handle {
            Some(id) => id,
            None => 0,
        };
        let inode_id: u64 = if named != 0 {
            match self.handles.get(&named) {
                Some(fh) => fh.get_inode().get_id(),
                None => return Err(Error::new(ErrorKind::InvalidInput, "Invalid handle")),
            }
        } else {
            inode
        };
        let inode_obj = match context.get_inode(inode_id) {
            Ok(i) => i,
            Err(e) => return Err(e),
        };
        match self.make_entry(&inode_obj, context) {
            Ok(entry) => Ok((entry.attr, entry.attr_timeout)),
            Err(e) => Err(e),
        }
    }

    /// The inode that an operation is about: that of the handle, if one is
    /// named.
    pub open spec fn inode_of(&self, inode: u64, handle: Option<u64>) -> u64 {
        match handle {
            Some(id) if id != 0 => self.open_handles()[id].attrs().st_ino,
            _ => inode,
        }
    }
}

/// Why a request about an extended attribute is refused before the storage is
/// asked, if it is.
pub open spec fn xattr_refused(name: Option<Seq<char>>, flags: u32) -> Option<ErrorView> {
    match name {
        None => Some(not_text()),
        Some(key) => if key.len() == 0 {
            Some(crate::error::invalid("Empty xattr name"))
        } else if flags != 0 && flags != XATTR_CREATE && flags != XATTR_REPLACE {
            Some(crate::error::invalid("Invalid flags"))
        } else {
            None
        },
    }
}

/// Why an extended attribute cannot be set, if it cannot: one that has to be
/// new must not exist, one that is to be replaced must.
pub open spec fn xattr_set_refused(value: Option<Seq<u8>>, flags: u32) -> Option<ErrorView> {
    if flags == XATTR_CREATE && value is Some {
        Some(crate::error::message(ErrorKind::AlreadyExists, "Attribute already exists"))
    } else if flags == XATTR_REPLACE && value is None {
        Some(crate::error::os(ENODATA))
    } else {
        None
    }
}

/// Why an extended attribute cannot be given, if it cannot: it must exist and
/// fit, if room for it was offered.
pub open spec fn xattr_get_refused(value: Option<Seq<u8>>, size: u32) -> Option<ErrorView> {
    match value {
        None => Some(crate::error::os(ENODATA)),
        Some(v) => if 0 < size < v.len() {
            Some(crate::error::os(ERANGE))
        } else {
            None
        },
    }
}

/// Whether a request holds an attribute.
pub open spec fn holds(valid: u32, bit: u32) -> bool {
    valid & bit == bit
}

/// Whether a request holds a time that does not exist.
pub open spec fn holds_no_time(valid: u32, bit: u32, secs: i64, nsec: i64) -> bool {
    holds(valid, bit) && !crate::timestamp::is_timestamp(secs, nsec as u32)
}

/// Why attributes cannot be set, if they cannot: the first time that a request
/// holds and that does not exist.
pub open spec fn time_refused(valid: u32, attr: Stat) -> Option<ErrorView> {
    if holds_no_time(valid, SETATTR_ATIME, attr.st_atime, attr.st_atime_nsec) {
        Some(
            crate::rules::invalid_time("Invalid atime: ", attr.st_atime, attr.st_atime_nsec),
        )
    } else if holds_no_time(valid, SETATTR_MTIME, attr.st_mtime, attr.st_mtime_nsec) {
        Some(
            crate::rules::invalid_time("Invalid mtime: ", attr.st_mtime, attr.st_mtime_nsec),
        )
    } else if holds_no_time(valid, SETATTR_CTIME, attr.st_ctime, attr.st_ctime_nsec) {
        Some(
            crate::rules::invalid_time("Invalid ctime: ", attr.st_ctime, attr.st_ctime_nsec),
        )
    } else {
        None
    }
}

/// The attributes that a handle keeps, and the tree, after those attributes
/// were set that a request holds. The times that are to be the present are
/// `atime_now` and `mtime_now`.
pub open spec fn attrs_set(
    at: (EntryCore, FsState),
    valid: u32,
    attr: Stat,
    atime_now: (i64, u32),
    mtime_now: (i64, u32),
) -> (EntryCore, FsState) {
    let a = if holds(valid, SETATTR_MODE) {
        changed(at, crate::winter::with_mode(attr.st_mode))
    } else {
        at
    };
    let b = if holds(valid, SETATTR_UID) {
        changed(a, crate::winter::with_uid(attr.st_uid))
    } else {
        a
    };
    let c = if holds(valid, SETATTR_GID) {
        changed(b, crate::winter::with_gid(attr.st_gid))
    } else {
        b
    };
    let d = if holds(valid, SETATTR_SIZE) {
        size_set(c, attr.st_size)
    } else {
        c
    };
    let e = if holds(valid, SETATTR_ATIME) {
        changed(d, crate::winter::with_atime((attr.st_atime, attr.st_atime_nsec as u32)))
    } else if holds(valid, SETATTR_ATIME_NOW) {
        changed(d, crate::winter::with_atime(atime_now))
    } else {
        d
    };
    let f = if holds(valid, SETATTR_MTIME) {
        changed(e, crate::winter::with_mtime((attr.st_mtime, attr.st_mtime_nsec as u32)))
    } else if holds(valid, SETATTR_MTIME_NOW) {
        changed(e, crate::winter::with_mtime(mtime_now))
    } else {
        e
    };
    if holds(valid, SETATTR_CTIME) {
        changed(f, crate::winter::with_ctime((attr.st_ctime, attr.st_ctime_nsec as u32)))
    } else {
        f
    }
}

/// Sets those attributes that a request holds, through a handle.
fn set_attrs<FS: WinterFs>(
    fh: &mut FS::Handle,
    context: &mut FS::Context,
    attr: &Stat,
    valid: u32,
    atime_now: Timestamp,
    mtime_now: Timestamp,
) -> (r: Result<(), Error>)
    ensures
        final(context).committed() == old(context).committed(),
        r is Ok ==> {
            &&& time_refused(valid, *attr) is None
            &&& (final(fh).attrs(), final(context).state()) == attrs_set(
                (old(fh).attrs(), old(context).state()),
                valid,
                *attr,
                atime_now@,
                mtime_now@,
            )
            &&& final(fh).attrs().st_ino == old(fh).attrs().st_ino
        },
        r matches Err(e) ==> is_fault::<FS>(e@) || time_refused(valid, *attr) == Some(e@),
{
    if valid & SETATTR_MODE == SETATTR_MODE {
        match fh.set_mode(context, attr.st_mode) {
            Ok(_) => {},
            Err(e) => return Err(e),
        }
    }
    if valid & SETATTR_UID == SETATTR_UID {
        match fh.set_uid(context, attr.st_uid) {
            Ok(_) => {},
            Err(e) => return Err(e),
        }
    }
    if valid & SETATTR_GID == SETATTR_GID {
        match fh.set_gid(context, attr.st_gid) {
            Ok(_) => {},
            Err(e) => return Err(e),
        }
    }
    if valid & SETATTR_SIZE == SETATTR_SIZE {
        match fh.set_size(context, attr.st_size) {
            Ok(_) => {},
            Err(e) => return Err(e),
        }
    }
    if valid & SETATTR_ATIME == SETATTR_ATIME {
        let atime = match crate::rules::requested_time(
            "Invalid atime: ",
            attr.st_atime,
            attr.st_atime_nsec,
        ) {
            Ok(t) => t,
            Err(e) => return Err(e),
        };
        match fh.set_atime(context, atime) {
            Ok(_) => {},
            Err(e) => return Err(e),
        }
    } else if valid & SETATTR_ATIME_NOW == SETATTR_ATIME_NOW {
        match fh.set_atime(context, atime_now) {
            Ok(_) => {},
            Err(e) => return Err(e),
        }
    }
    if valid & SETATTR_MTIME == SETATTR_MTIME {
        let mtime = match crate::rules::requested_time(
            "Invalid mtime: ",
            attr.st_mtime,
            attr.st_mtime_nsec,
        ) {
            Ok(t) => t,
            Err(e) => return Err(e),
        };
        match fh.set_mtime(context, mtime) {
            Ok(_) => {},
            Err(e) => return Err(e),
        }
    } else if valid & SETATTR_MTIME_NOW == SETATTR_MTIME_NOW {
        match fh.set_mtime(context, mtime_now) {
            Ok(_) => {},
            Err(e) => return Err(e),
        }
    }
    if valid & SETATTR_CTIME == SETATTR_CTIME {
        let ctime = match crate::rules::requested_time(
            "Invalid ctime: ",
            attr.st_ctime,
            attr.st_ctime_nsec,
        ) {
            Ok(t) => t,
            Err(e) => return Err(e),
        };
        match fh.set_ctime(context, ctime) {
            Ok(_) => {},
            Err(e) => return Err(e),
        }
    }
    Ok(())
}

impl<FS: WinterFs> WinterFsHandler<FS> {
    /// Sets attributes of a file. The times that are to be the present are
    /// `atime_now` and `mtime_now`.
    pub fn setattr_at(
        &mut self,
        context: &mut FS::Context,
        inode: u64,
        attr: &Stat,
        handle: Option<u64>,
        valid: u32,
        atime_now: Timestamp,
        mtime_now: Timestamp,
    ) -> (r: Result<(Stat, Validity), Error>)
        requires
            old(self).next_id() < u64::MAX,
        ensures
            final(context).committed() == old(context).committed(),
            final(self).storage() == old(self).storage(),
            final(self).lookups() == old(self).lookups(),
            final(self).kept(old(self), handle),
            match r {
                Ok((new_attr, timeout)) => {
                    &&& time_refused(valid, *attr) is None
                    &&& exists|h: FS::Handle, after: FS::Handle|
                        {
                            let state = final(context).state();
                            let id = h.attrs().st_ino;
                            let entry = entry_of(old(self).storage(), state, state.inodes[id]);
                            &&& #[trigger] old(self).uses(
                                old(context).state(),
                                inode,
                                handle,
                                0,
                                h,
                            )
                            &&& #[trigger] final(self).used(old(self), handle, after)
                            &&& (after.attrs(), state) == attrs_set(
                                (h.attrs(), old(context).state()),
                                valid,
                                *attr,
                                atime_now@,
                                mtime_now@,
                            )
                            &&& state.inodes.contains_key(id)
                            &&& new_attr == entry.attr
                            &&& timeout == entry.attr_timeout
                        }
                },
                Err(e) => {
                    &&& old(self).missed(handle, e@) || !old(self).stale(handle) && time_refused(
                        valid,
                        *attr,
                    ) == Some(e@)
                    &&& old(self).stale(handle) ==> final(self).same(old(self))
                },
            },
    {
        let mut taken = match self.take_handle(context, inode, handle, 0) {
            Ok(t) => t,
            Err(e) => return Err(e),
        };
        let ghost h = taken.handle;
        let set = set_attrs::<FS>(&mut taken.handle, context, attr, valid, atime_now, mtime_now);
        let ghost after = taken.handle;
        let id: u64 = taken.handle.get_inode().get_id();
        self.give_back(taken);
        proof {
            assert(self.open_handles() =~= match handle {
                Some(id) if id != 0 => old(self).open_handles().insert(id, after),
                _ => old(self).open_handles(),
            });
            assert(old(self).uses(old(context).state(), inode, handle, 0, h));
            assert(self.used(old(self), handle, after));
        }
        match set {
            Ok(_) => {},
            Err(e) => return Err(e),
        }
        let result_inode = match context.get_inode(id) {
            Ok(i) => i,
            Err(e) => return Err(e),
        };
        match self.make_entry(&result_inode, context) {
            Ok(entry) => Ok((entry.attr, entry.attr_timeout)),
            Err(e) => Err(e),
        }
    }

    /// Sets attributes of a file.
    pub fn setattr(
        &mut self,
        context: &mut FS::Context,
        inode: u64,
        attr: &Stat,
        handle: Option<u64>,
        valid: u32,
    ) -> (r: Result<(Stat, Validity), Error>)
        requires
            old(self).next_id() < u64::MAX,
        ensures
            final(context).committed() == old(context).committed(),
            final(self).storage() == old(self).storage(),
            final(self).lookups() == old(self).lookups(),
            final(self).kept(old(self), handle),
            match r {
                Ok((new_attr, timeout)) => {
                    &&& time_refused(valid, *attr) is None
                    &&& exists|h: FS::Handle, after: FS::Handle, a: (i64, u32), m: (i64, u32)|
                        {
                            let state = final(context).state();
                            let id = h.attrs().st_ino;
                            let entry = entry_of(old(self).storage(), state, state.inodes[id]);
                            &&& #[trigger] old(self).uses(
                                old(context).state(),
                                inode,
                                handle,
                                0,
                                h,
                            )
                            &&& #[trigger] final(self).used(old(self), handle, after)
                            &&& crate::timestamp::is_timestamp(a.0, a.1)
                            &&& crate::timestamp::is_timestamp(m.0, m.1)
                            &&& (after.attrs(), state) == #[trigger] attrs_set(
                                (h.attrs(), old(context).state()),
                                valid,
                                *attr,
                                a,
                                m,
                            )
                            &&& state.inodes.contains_key(id)
                            &&& new_attr == entry.attr
                            &&& timeout == entry.attr_timeout
                        }
                },
                Err(e) => {
                    &&& old(self).missed(handle, e@) || !old(self).stale(handle) && time_refused(
                        valid,
                        *attr,
                    ) == Some(e@)
                    &&& old(self).stale(handle) ==> final(self).same(old(self))
                },
            },
    {
        let atime_now = Timestamp::now();
        let mtime_now = Timestamp::now();
        self.setattr_at(context, inode, attr, handle, valid, atime_now, mtime_now)
    }
}

/// An entry of a directory.
#[derive(Debug)]
pub struct OwnedDirEntry {
    pub ino: u64,
    pub offset: u64,
    pub type_: u32,
    pub name: Vec<u8>,
}

/// The mathematical content of an [`OwnedDirEntry`].
#[verifier::ext_equal]
pub struct DirEntryView {
    pub ino: u64,
    pub offset: u64,
    pub type_: u32,
    pub name: Seq<u8>,
}

impl View for OwnedDirEntry {
    type V = DirEntryView;

    open spec fn view(&self) -> DirEntryView {
        DirEntryView { ino: self.ino, offset: self.offset, type_: self.type_, name: self.name@ }
    }
}

/// The contents of a list of entries.
pub open spec fn listed(s: Seq<(OwnedDirEntry, Entry)>) -> Seq<(DirEntryView, Entry)> {
    s.map_values(|e: (OwnedDirEntry, Entry)| (e.0@, e.1))
}

/// The entry of a directory for itself or for its parent.
pub open spec fn dots<FS: WinterFs>(
    fs: FS,
    state: FsState,
    inode: u64,
    offset: u64,
    name: Seq<u8>,
) -> (DirEntryView, Entry) {
    (
        DirEntryView { ino: inode, offset, type_: DT_DIR, name },
        entry_of(fs, state, state.inodes[inode]),
    )
}

/// The entries for children, the first of which has the number `first`.
pub open spec fn child_entries<FS: WinterFs>(
    fs: FS,
    state: FsState,
    children: Seq<(Seq<char>, u64)>,
    first: int,
) -> Seq<(DirEntryView, Entry)> {
    Seq::new(
        children.len(),
        |i: int|
            (
                DirEntryView {
                    ino: children[i].1,
                    offset: (first + i) as u64,
                    type_: (state.inodes[children[i].1].st_mode & S_IFMT) >> 12,
                    name: vstd::utf8::encode_utf8(children[i].0),
                },
                entry_of(fs, state, state.inodes[children[i].1]),
            ),
    )
}

/// All the entries of a directory, each with its number: the directory itself,
/// its parent and then its children.
pub open spec fn all_entries<FS: WinterFs>(
    fs: FS,
    state: FsState,
    inode: u64,
    parent: u64,
) -> Seq<(DirEntryView, Entry)> {
    seq![
        dots(fs, state, inode, 1, seq![46u8]),
        dots(fs, state, parent, 2, seq![46u8, 46u8]),
    ] + child_entries(fs, state, <FS::Context as WinterTree>::listing(state, inode), 4)
}

/// How many entries of a directory have a number up to this offset.
pub open spec fn entries_up_to(offset: u64) -> int {
    if offset <= 2 {
        offset as int
    } else if offset == 3 {
        2
    } else {
        offset - 1
    }
}

/// Whether there can be an entry after this offset. The kernel's offsets are
/// signed numbers.
pub open spec fn is_offset(offset: u64) -> bool {
    offset <= i64::MAX && offset <= usize::MAX
}

/// The entries of a directory after an offset, which is the number of the entry
/// that was listed last, or 0; `size` of them at most.
pub open spec fn directory<FS: WinterFs>(
    fs: FS,
    state: FsState,
    inode: u64,
    parent: u64,
    size: u32,
    offset: u64,
) -> Seq<(DirEntryView, Entry)> {
    let all = all_entries(fs, state, inode, parent);
    let from = entries_up_to(offset);
    if !is_offset(offset) || from >= all.len() {
        seq![]
    } else if from + size >= all.len() {
        all.skip(from)
    } else {
        all.subrange(from, from + size)
    }
}

/// The entries for the directory itself and its parent that are listed after an
/// offset, `size` of them at most.
spec fn leading<FS: WinterFs>(
    fs: FS,
    state: FsState,
    inode: u64,
    parent: u64,
    size: u32,
    offset: u64,
) -> Seq<(DirEntryView, Entry)> {
    let dot = dots(fs, state, inode, 1, seq![46u8]);
    let dotdot = dots(fs, state, parent, 2, seq![46u8, 46u8]);
    if offset > 1 || size == 0 {
        seq![]
    } else if offset == 1 {
        seq![dotdot]
    } else if size == 1 {
        seq![dot]
    } else {
        seq![dot, dotdot]
    }
}

/// A listing is made of its leading entries and of a page of the children.
proof fn lemma_listing<FS: WinterFs>(
    fs: FS,
    state: FsState,
    inode: u64,
    parent: u64,
    size: u32,
    offset: u64,
)
    ensures
        ({
            let children = <FS::Context as WinterTree>::listing(state, inode);
            let head = leading(fs, state, inode, parent, size, offset);
            let from = if offset <= 3 {
                0
            } else {
                offset - 3
            };
            directory(fs, state, inode, parent, size, offset) == head + (if size > head.len()
                && is_offset(offset) {
                child_entries(
                    fs,
                    state,
                    crate::winter::page(children, size - head.len(), from),
                    from + 4,
                )
            } else {
                seq![]
            })
        }),
{
    let children = <FS::Context as WinterTree>::listing(state, inode);
    let all = all_entries(fs, state, inode, parent);
    let head = leading(fs, state, inode, parent, size, offset);
    let from = if offset <= 3 {
        0
    } else {
        offset - 3
    };
    let page = crate::winter::page(children, size - head.len(), from);
    let tail = if size > head.len() && is_offset(offset) {
        child_entries(fs, state, page, from + 4)
    } else {
        seq![]
    };
    let listed = directory(fs, state, inode, parent, size, offset);
    assert(listed.len() == (head + tail).len());
    assert forall|i: int| 0 <= i < listed.len() implies listed[i] == (head + tail)[i] by {
        if i >= head.len() {
            let k = i - head.len();
            assert(page[k] == children[from + k]);
            assert(listed[i] == all[from + 2 + k]);
        }
    }
    assert(listed =~= head + tail);
}

/// Whether this is where `..` leads: to a directory in which the inode can be
/// found, or to itself if there is none.
pub open spec fn is_dotdot(state: FsState, inode: u64, parent: u64) -> bool {
    if state.links_to(inode).is_empty() {
        parent == inode
    } else {
        exists|name: Seq<char>| #[trigger] state.links_to(inode).contains((parent, name))
    }
}

/// Whether these are the entries of a directory, for one of the places where
/// its `..` may lead.
pub open spec fn is_directory_listing<FS: WinterFs>(
    fs: FS,
    state: FsState,
    inode: u64,
    size: u32,
    offset: u64,
    entries: Seq<(DirEntryView, Entry)>,
) -> bool {
    exists|parent: u64|
        {
            &&& offset == 0 && size > 1 || offset == 1 && size > 0 ==> is_dotdot(
                state,
                inode,
                parent,
            )
            &&& entries == #[trigger] directory(fs, state, inode, parent, size, offset)
        }
}

impl<FS: WinterFs> WinterFsHandler<FS> {
    /// The entry of a directory for itself or for its parent.
    fn dots_entry(&self, context: &mut FS::Context, inode: u64, offset: u64, name: Vec<u8>) -> (r:
        Result<(OwnedDirEntry, Entry), Error>)
        ensures
            final(context).committed() == old(context).committed(),
            r matches Ok((dir_entry, entry)) ==> {
                &&& final(context).state() == old(context).state()
                &&& old(context).state().inodes.contains_key(inode)
                &&& (dir_entry@, entry) == dots(
                    self.storage(),
                    old(context).state(),
                    inode,
                    offset,
                    name@,
                )
            },
            r matches Err(e) ==> is_fault::<FS>(e@),
    {
        let inode_obj = match context.get_inode(inode) {
            Ok(i) => i,
            Err(e) => return Err(e),
        };
        match self.make_entry(&inode_obj, context) {
            Ok(entry) => Ok((OwnedDirEntry { ino: inode, offset, type_: DT_DIR, name }, entry)),
            Err(e) => Err(e),
        }
    }

    /// Appends the entries for children of a directory, the first of which has
    /// the number `first`.
    fn append_children(
        &self,
        context: &mut FS::Context,
        entries: &mut Vec<(OwnedDirEntry, Entry)>,
        children: &Vec<(String, u64)>,
        first: u64,
    ) -> (r: Result<(), Error>)
        requires
            first <= i64::MAX + 4,
            children@.len() <= u32::MAX,
        ensures
            final(context).committed() == old(context).committed(),
            r is Ok ==> {
                &&& final(context).state() == old(context).state()
                &&& forall|i: int|
                    0 <= i < children@.len() ==> old(context).state().inodes.contains_key(
                        (#[trigger] children@[i]).1,
                    )
                &&& listed(final(entries)@) == listed(old(entries)@) + child_entries(
                    self.storage(),
                    old(context).state(),
                    crate::winter::named(children@),
                    first as int,
                )
            },
            r matches Err(e) ==> is_fault::<FS>(e@),
    {
        let ghost all = crate::winter::named(children@);
        let ghost state = context.state();
        let mut i: usize = 0;
        assert(listed(entries@) =~= listed(old(entries)@) + child_entries(
            self.storage(),
            state,
            all.take(0),
            first as int,
        ));
        while i < children.len()
            invariant
                i <= children.len(),
                first <= i64::MAX + 4,
                children@.len() <= u32::MAX,
                state == old(context).state(),
                context.state() == state,
                context.committed() == old(context).committed(),
                all == crate::winter::named(children@),
                forall|k: int|
                    0 <= k < i ==> state.inodes.contains_key((#[trigger] children@[k]).1),
                listed(entries@) == listed(old(entries)@) + child_entries(
                    self.storage(),
                    state,
                    all.take(i as int),
                    first as int,
                ),
            decreases children.len() - i,
        {
            let child_id: u64 = children[i].1;
            let child_inode = match context.get_inode(child_id) {
                Ok(c) => c,
                Err(e) => return Err(e),
            };
            let child_mode: u32 = child_inode.get_mode();
            let dir_entry = OwnedDirEntry {
                ino: child_id,
                offset: first + i as u64,
                type_: (child_mode & S_IFMT) >> 12,
                name: crate::sql::copy_bytes(children[i].0.as_str().as_bytes()),
            };
            let entry = match self.make_entry(&child_inode, context) {
                Ok(e) => e,
                Err(e) => return Err(e),
            };
            let ghost before = listed(entries@);
            let ghost added = (dir_entry@, entry);
            entries.push((dir_entry, entry));
            proof {
                assert(all[i as int] == (children@[i as int].0@, child_id));
                let less = child_entries(self.storage(), state, all.take(i as int), first as int);
                let more = child_entries(self.storage(), state, all.take(i + 1), first as int);
                assert(listed(entries@) =~= before.push(added));
                assert(more =~= less.push(added));
                assert(before.push(added) =~= listed(old(entries)@) + more);
            }
            i = i + 1;
        }
        assert(all.take(i as int) =~= all);
        Ok(())
    }

    /// Lists a directory.
    pub fn inner_readdir(
        &self,
        context: &mut FS::Context,
        inode: u64,
        handle: u64,
        size: u32,
        offset: u64,
    ) -> (r: Result<Vec<(OwnedDirEntry, Entry)>, Error>)
        ensures
            final(context).committed() == old(context).committed(),
            match r {
                Ok(entries) => {
                    let state = old(context).state();
                    let dir = self.inode_of(inode, Some(handle));
                    &&& final(context).state() == state
                    &&& !self.stale(Some(handle))
                    &&& state.inodes.contains_key(dir)
                    &&& crate::modes::is_dir(state.inodes[dir].st_mode)
                    &&& is_directory_listing(
                        self.storage(),
                        state,
                        dir,
                        size,
                        offset,
                        listed(entries@),
                    )
                },
                Err(e) => {
                    let state = old(context).state();
                    let dir = self.inode_of(inode, Some(handle));
                    ||| self.missed(Some(handle), e@)
                    ||| {
                        &&& !self.stale(Some(handle))
                        &&& state.inodes.contains_key(dir)
                        &&& !crate::modes::is_dir(state.inodes[dir].st_mode)
                        &&& e@ == crate::error::message(ErrorKind::NotADirectory, "Not a directory")
                    }
                },
            },
    {
        let dir_id: u64 = if handle != 0 {
            match self.handles.get(&handle) {
                Some(fh) => fh.get_inode().get_id(),
                None => return Err(Error::new(ErrorKind::InvalidInput, "Invalid handle")),
            }
        } else {
            inode
        };
        let ghost state = context.state();
        let dir_inode = match context.get_inode(dir_id) {
            Ok(i) => i,
            Err(e) => return Err(e),
        };
        match crate::rules::check_directory(dir_inode.get_mode()) {
            Ok(_) => {},
            Err(e) => return Err(e),
        }
        let mut entries: Vec<(OwnedDirEntry, Entry)> = Vec::new();
        let ghost mut parent: u64 = dir_id;
        if offset == 0 && size > 0 {
            let dot_name: Vec<u8> = vec![46u8];
            assert(dot_name@ =~= seq![46u8]);
            let dot = match self.dots_entry(context, dir_id, 1, dot_name) {
                Ok(e) => e,
                Err(e) => return Err(e),
            };
            entries.push(dot);
        }
        if offset <= 1 && entries.len() < size as usize {
            let parent_ids = match context.find_parents_of(dir_id) {
                Ok(p) => p,
                Err(e) => return Err(e),
            };
            let parent_id: u64 = if parent_ids.len() > 0 {
                parent_ids[0]
            } else {
                dir_id
            };
            proof {
                let links = state.links_to(dir_id);
                if parent_ids@.len() > 0 {
                    assert(parent_ids@.contains(parent_ids@[0]));
                    let name = choose|name: Seq<char>| #[trigger]
                        links.contains((parent_ids@[0], name));
                    assert(!links.is_empty());
                } else {
                    links.lemma_len0_is_empty();
                    assert(links.is_empty());
                }
                assert(is_dotdot(state, dir_id, parent_id));
                parent = parent_id;
            }
            let dotdot_name: Vec<u8> = vec![46u8, 46u8];
            assert(dotdot_name@ =~= seq![46u8, 46u8]);
            let dotdot = match self.dots_entry(context, parent_id, 2, dotdot_name) {
                Ok(e) => e,
                Err(e) => return Err(e),
            };
            entries.push(dotdot);
        }
        assert(listed(entries@) =~= leading(
            self.storage(),
            state,
            dir_id,
            parent,
            size,
            offset,
        ));
        let regular_offset: u64 = if offset <= 3 {
            0
        } else {
            offset - 3
        };
        let remaining_size: usize = (size as usize).saturating_sub(entries.len());
        if remaining_size > 0 && offset <= i64::MAX as u64 && offset <= usize::MAX as u64 {
            let children = match context.find_children_of(
                dir_id,
                remaining_size,
                regular_offset as usize,
            ) {
                Ok(c) => c,
                Err(e) => return Err(e),
            };
            assert(crate::winter::named(children@).len() == children@.len());
            match self.append_children(context, &mut entries, &children, regular_offset + 4) {
                Ok(_) => {},
                Err(e) => return Err(e),
            }
        }
        proof {
            lemma_listing(self.storage(), state, dir_id, parent, size, offset);
            assert(listed(entries@) =~= directory(
                self.storage(),
                state,
                dir_id,
                parent,
                size,
                offset,
            ));
            assert(is_directory_listing(
                self.storage(),
                state,
                dir_id,
                size,
                offset,
                listed(entries@),
            ));
        }
        Ok(entries)
    }

    /// Counts a reference for an entry that the kernel was told of in a
    /// listing: one for each entry but the directory itself and its parent.
    pub fn count_listed(&mut self, name: &Vec<u8>, inode: u64)
        ensures
            final(self).same_handles(old(self)),
            final(self).lookups() == if name@ == seq![46u8] || name@ == seq![46u8, 46u8] {
                old(self).lookups()
            } else {
                raised(old(self).lookups(), inode, 1)
            },
    {
        let dot = name.len() == 1 && name[0] == 46;
        let dotdot = name.len() == 2 && name[0] == 46 && name[1] == 46;
        proof {
            assert(dot <==> name@ =~= seq![46u8]);
            assert(dotdot <==> name@ =~= seq![46u8, 46u8]);
        }
        if !dot && !dotdot {
            self.increase_lookup(inode, 1);
        }
    }
}

impl<FS: WinterFs> WinterFsHandler<FS> {
    /// Makes an inode under a free name, and its entry.
    fn make_node(
        &mut self,
        context: &mut FS::Context,
        uid: u32,
        gid: u32,
        parent: u64,
        name: &[u8],
        full_mode: u32,
        rdev: u64,
    ) -> (r: Result<Entry, Error>)
        ensures
            final(self).same_handles(old(self)),
            final(context).committed() == old(context).committed(),
            match r {
                Ok(entry) => {
                    let state = old(context).state();
                    let after = final(context).state();
                    let id = entry.inode;
                    &&& crate::text::text_of(name@) matches Some(text) && {
                        &&& state.child(parent, text) == 0
                        &&& made(state, parent, text, full_mode, uid, gid, rdev, id, after)
                        &&& entry == entry_of(old(self).storage(), after, after.inodes[id])
                        &&& final(self).lookups() == raised(old(self).lookups(), id, 1)
                    }
                },
                Err(e) => {
                    &&& final(self).lookups() == old(self).lookups()
                    &&& match crate::text::text_of(name@) {
                        None => e@ == not_text(),
                        Some(text) => is_fault::<FS>(e@) || taken_refused(
                            old(context).state().child(parent, text),
                        ) == Some(e@),
                    }
                },
            },
    {
        let name_str = match crate::text::to_str(name) {
            Ok(n) => n,
            Err(e) => return Err(e),
        };
        let file_id: u64 = match context.lookup(parent, name_str.as_str()) {
            Ok(id) => id,
            Err(e) => return Err(e),
        };
        match crate::rules::check_free(file_id) {
            Ok(_) => {},
            Err(e) => return Err(e),
        }
        let file = match context.create_inode(full_mode, uid, gid, rdev) {
            Ok(f) => f,
            Err(e) => return Err(e),
        };
        let id: u64 = file.get_id();
        match context.add_child(parent, id, name_str.as_str()) {
            Ok(_) => {},
            Err(e) => return Err(e),
        }
        let entry = match self.make_entry(&file, context) {
            Ok(e) => e,
            Err(e) => return Err(e),
        };
        self.increase_lookup(id, 1);
        Ok(entry)
    }

    /// Creates a special file, such as one that stands for a device.
    pub fn mknod(
        &mut self,
        context: &mut FS::Context,
        uid: u32,
        gid: u32,
        parent: u64,
        name: &[u8],
        mode: u32,
        rdev: u32,
        umask: u32,
    ) -> (r: Result<Entry, Error>)
        ensures
            final(self).same_handles(old(self)),
            final(context).committed() == old(context).committed(),
            match r {
                Ok(entry) => {
                    let state = old(context).state();
                    let after = final(context).state();
                    let id = entry.inode;
                    &&& crate::text::text_of(name@) matches Some(text) && {
                        &&& state.child(parent, text) == 0
                        &&& made(
                            state,
                            parent,
                            text,
                            crate::modes::masked(mode, umask),
                            uid,
                            gid,
                            rdev as u64,
                            id,
                            after,
                        )
                        &&& entry == entry_of(old(self).storage(), after, after.inodes[id])
                        &&& final(self).lookups() == raised(old(self).lookups(), id, 1)
                    }
                },
                Err(e) => {
                    &&& final(self).lookups() == old(self).lookups()
                    &&& match crate::text::text_of(name@) {
                        None => e@ == not_text(),
                        Some(text) => is_fault::<FS>(e@) || taken_refused(
                            old(context).state().child(parent, text),
                        ) == Some(e@),
                    }
                },
            },
    {
        self.make_node(context, uid, gid, parent, name, mode & !umask, rdev as u64)
    }

    /// Creates a symbolic link, whose content is the path that it leads to.
    pub fn symlink(
        &mut self,
        context: &mut FS::Context,
        uid: u32,
        gid: u32,
        linkname: &Vec<u8>,
        parent: u64,
        name: &[u8],
    ) -> (r: Result<Entry, Error>)
        ensures
            final(self).same_handles(old(self)),
            final(context).committed() == old(context).committed(),
            match r {
                Ok(entry) => {
                    let state = old(context).state();
                    let after = final(context).state();
                    let id = entry.inode;
                    &&& crate::text::text_of(name@) matches Some(text) && {
                        &&& state.child(parent, text) == 0
                        &&& symlinked(
                            state,
                            parent,
                            text,
                            uid,
                            gid,
                            linkname@,
                            id,
                            after,
                        )
                        &&& after.inodes.contains_key(id)
                        &&& entry == entry_of(old(self).storage(), after, after.inodes[id])
                        &&& final(self).lookups() == raised(old(self).lookups(), id, 1)
                        &&& exists|h: FS::Handle| #[trigger]
                            old(self).storage().opened(h, id, O_WRONLY)
                    }
                },
                Err(e) => match crate::text::text_of(name@) {
                    None => e@ == not_text(),
                    Some(text) => is_fault::<FS>(e@) || taken_refused(
                        old(context).state().child(parent, text),
                    ) == Some(e@),
                },
            },
    {
        let mode: u32 = S_IFLNK | 0o777;
        let node = match self.make_node(context, uid, gid, parent, name, mode, 0) {
            Ok(e) => e,
            Err(e) => return Err(e),
        };
        let ghost middle = context.state();
        let mut fh = match self.fs.open(context, node.inode, O_WRONLY) {
            Ok(h) => h,
            Err(e) => return Err(e),
        };
        let ghost h = fh;
        match fh.write(context, linkname.len(), 0, linkname) {
            Ok(_) => {},
            Err(e) => return Err(e),
        }
        let ghost after = context.state();
        assert(h.attrs() == middle.inodes[node.inode]);
        assert(crate::winter::written(h.attrs(), middle, 0, linkname@, fh.attrs(), after));
        let inode = match context.get_inode(node.inode) {
            Ok(i) => i,
            Err(e) => return Err(e),
        };
        self.make_entry(&inode, context)
    }

    /// Reads the path that a symbolic link leads to: the whole content of the
    /// file.
    pub fn readlink(&mut self, context: &mut FS::Context, inode: u64) -> (r: Result<
        Vec<u8>,
        Error,
    >)
        ensures
            final(self).same(old(self)),
            final(context).committed() == old(context).committed(),
            r matches Ok(path) ==> {
                let state = old(context).state();
                &&& final(context).state() == state
                &&& state.inodes.contains_key(inode)
                &&& state.inodes[inode].st_ino == inode
                &&& state.inodes[inode].st_size >= 0
                &&& exists|h: FS::Handle| #[trigger] old(self).storage().opened(h, inode, O_RDONLY)
                &&& path@ == crate::winter::read_from(
                    state,
                    state.inodes[inode],
                    state.inodes[inode].st_size as usize,
                    0,
                )
            },
            r matches Err(e) ==> {
                ||| is_fault::<FS>(e@)
                ||| {
                    &&& old(context).state().inodes[inode].st_size < 0
                    &&& e@ == crate::error::invalid("Invalid symbolic link")
                }
            },
    {
        let ghost state = context.state();
        let mut fh = match self.fs.open(context, inode, O_RDONLY) {
            Ok(h) => h,
            Err(e) => return Err(e),
        };
        assert(self.storage().opened(fh, inode, O_RDONLY));
        let size: i64 = match fh.get_inode().make_entry() {
            Ok(attrs) => attrs.st_size,
            Err(e) => return Err(e),
        };
        if size < 0 {
            return Err(Error::new(ErrorKind::InvalidInput, "Invalid symbolic link"));
        }
        let mut path: Vec<u8> = Vec::new();
        match fh.read(context, size as usize, 0, &mut path) {
            Ok(_) => {
                assert(path@ =~= crate::winter::read_from(
                    state,
                    state.inodes[inode],
                    size as usize,
                    0,
                ));
                Ok(path)
            },
            Err(e) => Err(e),
        }
    }
}

} // verus!
