//! An abstraction layer on top of FUSE: a few traits with an orthogonal cut of
//! file system operations, which a storage implements, and the contracts that
//! it keeps. What the contracts speak of (the state of a tree, the bytes of a
//! file) is left open unless an implementation defines it.

use vstd::prelude::*;
use crate::error::{Error, ErrorKind, ErrorView};
use crate::timestamp::Timestamp;

verus! {

/// That's the core of the attributes we're going to need for an inode entry,
/// minus dynamic or tree-related stuff which will computed otherwise.
#[derive(Clone, Copy, Debug, PartialEq, Eq, Structural)]
pub struct EntryCore {
    pub st_ino: u64,
    pub st_size: i64,
    pub st_atime: i64,
    pub st_atime_nsec: i64,
    pub st_mtime: i64,
    pub st_mtime_nsec: i64,
    pub st_ctime: i64,
    pub st_ctime_nsec: i64,
    pub st_mode: u32,
    pub st_uid: u32,
    pub st_gid: u32,
    pub st_rdev: u64,
}

/// For how long something may be kept in a cache.
#[derive(Clone, Copy, Debug, PartialEq, Eq, Structural)]
pub struct Validity {
    pub secs: u64,
    pub nanos: u32,
}

/// The attributes of an inode that does not exist: all zero.
pub open spec fn empty_core() -> EntryCore {
    EntryCore {
        st_ino: 0,
        st_size: 0,
        st_atime: 0,
        st_atime_nsec: 0,
        st_mtime: 0,
        st_mtime_nsec: 0,
        st_ctime: 0,
        st_ctime_nsec: 0,
        st_mode: 0,
        st_uid: 0,
        st_gid: 0,
        st_rdev: 0,
    }
}

/// What a file tree holds: the attributes of its inodes, which child each name
/// in a directory leads to, the extended attributes, and the byte at each
/// position of each file, which is zero wherever nothing is stored.
#[verifier::ext_equal]
pub struct FsState {
    pub inodes: Map<u64, EntryCore>,
    pub links: Map<(u64, Seq<char>), u64>,
    pub xattrs: Map<(u64, Seq<char>), Seq<u8>>,
    pub bytes: spec_fn(u64, int) -> u8,
}

impl FsState {
    /// The byte at a position of a file.
    pub open spec fn byte(self, inode: u64, at: int) -> u8 {
        (self.bytes)(inode, at)
    }

    /// The `n` bytes of a file from a position on.
    pub open spec fn content(self, inode: u64, at: int, n: nat) -> Seq<u8> {
        Seq::new(n, |i: int| self.byte(inode, at + i))
    }

    /// The tree with data in a file, from a position on. Every other byte stays
    /// as it is.
    pub open spec fn with_data(self, inode: u64, at: int, data: Seq<u8>) -> FsState {
        FsState {
            bytes: |i: u64, p: int|
                if i == inode && at <= p < at + data.len() {
                    data[p - at]
                } else {
                    self.byte(i, p)
                },
            ..self
        }
    }

    /// The tree with nothing in a file from a position on. Every other byte
    /// stays as it is.
    pub open spec fn cut(self, inode: u64, at: int) -> FsState {
        FsState {
            bytes: |i: u64, p: int|
                if i == inode && p >= at {
                    0
                } else {
                    self.byte(i, p)
                },
            ..self
        }
    }

    /// The inode that a name in a directory leads to, or 0.
    pub open spec fn child(self, parent: u64, name: Seq<char>) -> u64 {
        if self.links.contains_key((parent, name)) {
            self.links[(parent, name)]
        } else {
            0
        }
    }

    /// The places in the tree that lead to an inode.
    pub open spec fn links_to(self, inode: u64) -> Set<(u64, Seq<char>)> {
        self.links.dom().filter(|l: (u64, Seq<char>)| self.links[l] == inode)
    }

    /// The names in a directory that lead to directories.
    pub open spec fn child_dirs(self, inode: u64) -> Set<(u64, Seq<char>)> {
        self.links.dom().filter(
            |l: (u64, Seq<char>)|
                l.0 == inode && self.inodes.contains_key(self.links[l]) && crate::modes::is_dir(
                    self.inodes[self.links[l]].st_mode,
                ),
        )
    }

    /// Whether a name in this directory leads somewhere.
    pub open spec fn has_children(self, inode: u64) -> bool {
        exists|name: Seq<char>| #[trigger] self.links.contains_key((inode, name))
    }

    /// The tree with a name that leads to an inode.
    pub open spec fn with_link(self, parent: u64, name: Seq<char>, child: u64) -> FsState {
        FsState { links: self.links.insert((parent, name), child), ..self }
    }

    /// The tree without a name.
    pub open spec fn without_link(self, parent: u64, name: Seq<char>) -> FsState {
        FsState { links: self.links.remove((parent, name)), ..self }
    }

    /// The tree with an inode of these attributes.
    pub open spec fn with_inode(self, inode: u64, attrs: EntryCore) -> FsState {
        FsState { inodes: self.inodes.insert(inode, attrs), ..self }
    }

    /// The tree without an inode, what it is linked to, its extended
    /// attributes and its content.
    pub open spec fn without_inode(self, inode: u64) -> FsState {
        FsState {
            inodes: self.inodes.remove(inode),
            links: self.links.restrict(
                self.links.dom().filter(|l: (u64, Seq<char>)| l.0 != inode),
            ),
            xattrs: self.xattrs.restrict(
                self.xattrs.dom().filter(|x: (u64, Seq<char>)| x.0 != inode),
            ),
            bytes: |i: u64, p: int|
                if i == inode {
                    0
                } else {
                    self.byte(i, p)
                },
        }
    }

    /// The tree with an extended attribute.
    pub open spec fn with_xattr(self, inode: u64, key: Seq<char>, value: Seq<u8>) -> FsState {
        FsState { xattrs: self.xattrs.insert((inode, key), value), ..self }
    }

    /// The tree without an extended attribute.
    pub open spec fn without_xattr(self, inode: u64, key: Seq<char>) -> FsState {
        FsState { xattrs: self.xattrs.remove((inode, key)), ..self }
    }

    /// Whether every name lies in an inode that exists and leads to one, every
    /// extended attribute is that of one, and nothing is stored beyond the end
    /// of a file.
    pub open spec fn consistent(self) -> bool {
        &&& forall|l: (u64, Seq<char>)| #[trigger]
            self.links.contains_key(l) ==> self.inodes.contains_key(l.0) && self.inodes.contains_key(
                self.links[l],
            )
        &&& forall|x: (u64, Seq<char>)| #[trigger]
            self.xattrs.contains_key(x) ==> self.inodes.contains_key(x.0)
        &&& forall|i: u64, p: int| #[trigger]
            (self.bytes)(i, p) != 0 ==> self.inodes.contains_key(i) && 0 <= p
                < self.inodes[i].st_size
    }
}

/// An inode as it was read.
pub trait WinterInode {
    /// The attributes of the inode.
    closed spec fn attrs(&self) -> EntryCore {
        arbitrary()
    }

    /// For how long attributes like these may be cached.
    closed spec fn attr_validity(attrs: EntryCore) -> Validity {
        arbitrary()
    }

    /// For how long a name that leads to such an inode may be cached.
    closed spec fn entry_validity(attrs: EntryCore) -> Validity {
        arbitrary()
    }

    /// Whether reading an inode may fail with this error.
    closed spec fn may_fail_with(error: ErrorView) -> bool {
        arbitrary()
    }

    fn get_id(&self) -> (r: u64)
        ensures
            r == self.attrs().st_ino,
    ;

    fn get_mode(&self) -> (r: u32)
        ensures
            r == self.attrs().st_mode,
    ;

    fn make_entry(&self) -> (r: Result<EntryCore, Error>)
        ensures
            r matches Ok(attrs) ==> attrs == self.attrs(),
            r matches Err(e) ==> Self::may_fail_with(e@),
    ;

    fn attr_valid_time(&self) -> (r: Result<Validity, Error>)
        ensures
            r matches Ok(v) ==> v == Self::attr_validity(self.attrs()),
            r matches Err(e) ==> Self::may_fail_with(e@),
    ;

    fn entry_valid_time(&self) -> (r: Result<Validity, Error>)
        ensures
            r matches Ok(v) ==> v == Self::entry_validity(self.attrs()),
            r matches Err(e) ==> Self::may_fail_with(e@),
    ;
}

/// A context that is passed to each operation, and the file tree in it. What
/// is done in a context shows in its own state; what others see is what has
/// been committed. An operation that fails may leave any state behind, but it
/// commits nothing.
pub trait WinterTree: Sized {
    type Inode: WinterInode;

    /// The tree as the context sees it.
    closed spec fn state(&self) -> FsState {
        arbitrary()
    }

    /// The tree as it has been committed.
    closed spec fn committed(&self) -> FsState {
        arbitrary()
    }

    /// The children of a directory, in the order in which they are listed.
    closed spec fn listing(state: FsState, parent: u64) -> Seq<(Seq<char>, u64)> {
        arbitrary()
    }

    /// Whether the context has not been closed.
    closed spec fn is_open(&self) -> bool {
        arbitrary()
    }

    /// Whether the context may fail with this error.
    closed spec fn may_fail_with(error: ErrorView) -> bool {
        arbitrary()
    }

    /// Finds the inode that a name in a directory leads to, or 0.
    fn lookup(&mut self, parent: u64, name: &str) -> (r: Result<u64, Error>)
        ensures
            final(self).committed() == old(self).committed(),
            r matches Ok(id) ==> {
                &&& final(self).state() == old(self).state()
                &&& id == old(self).state().child(parent, name@)
            },
            r matches Err(e) ==> Self::may_fail_with(e@),
    ;

    /// Reads an inode, which has to exist.
    fn get_inode(&mut self, inode: u64) -> (r: Result<Self::Inode, Error>)
        ensures
            final(self).committed() == old(self).committed(),
            r matches Ok(i) ==> {
                &&& final(self).state() == old(self).state()
                &&& old(self).state().inodes.contains_key(inode)
                &&& i.attrs() == old(self).state().inodes[inode]
                &&& i.attrs().st_ino == inode
            },
            r matches Err(e) ==> Self::may_fail_with(e@),
    ;

    /// An inode that does not exist.
    fn empty_inode(&mut self) -> (r: Self::Inode)
        ensures
            final(self).committed() == old(self).committed(),
            final(self).state() == old(self).state(),
            r.attrs() == empty_core(),
    ;

    /// Counts the names in a directory that lead to directories.
    fn count_child_directories(&mut self, inode: u64) -> (r: Result<u64, Error>)
        ensures
            final(self).committed() == old(self).committed(),
            r matches Ok(n) ==> {
                &&& final(self).state() == old(self).state()
                &&& n == old(self).state().child_dirs(inode).len()
                &&& n <= i64::MAX
            },
            r matches Err(e) ==> Self::may_fail_with(e@),
    ;

    /// Finds the directories in which an inode can be found, once for each
    /// name that leads to it, in any order.
    fn find_parents_of(&mut self, inode: u64) -> (r: Result<Vec<u64>, Error>)
        ensures
            final(self).committed() == old(self).committed(),
            r matches Ok(parents) ==> {
                &&& final(self).state() == old(self).state()
                &&& old(self).state().links_to(inode).finite()
                &&& parents@.len() == old(self).state().links_to(inode).len()
                &&& forall|p: u64| #[trigger]
                    parents@.contains(p) <==> exists|name: Seq<char>| #[trigger]
                        old(self).state().links_to(inode).contains((p, name))
            },
            r matches Err(e) ==> Self::may_fail_with(e@),
    ;

    /// Creates an inode that nothing leads to yet, with no content.
    fn create_inode(&mut self, mode: u32, uid: u32, gid: u32, rdev: u64) -> (r: Result<
        Self::Inode,
        Error,
    >)
        ensures
            final(self).committed() == old(self).committed(),
            r matches Ok(i) ==> {
                let attrs = i.attrs();
                &&& attrs.st_ino != 0
                &&& !old(self).state().inodes.contains_key(attrs.st_ino)
                &&& forall|p: int| #[trigger] (old(self).state().bytes)(attrs.st_ino, p) == 0
                &&& attrs.st_mode == mode
                &&& attrs.st_uid == uid
                &&& attrs.st_gid == gid
                &&& attrs.st_rdev == rdev
                &&& attrs.st_size == 0
                &&& attrs.st_mtime == attrs.st_atime && attrs.st_mtime_nsec == attrs.st_atime_nsec
                &&& attrs.st_ctime == attrs.st_atime && attrs.st_ctime_nsec == attrs.st_atime_nsec
                &&& final(self).state() == old(self).state().with_inode(attrs.st_ino, attrs)
            },
            r matches Err(e) ==> Self::may_fail_with(e@),
    ;

    /// Adds a name to a directory. The name must be free, and both inodes must
    /// exist.
    fn add_child(&mut self, parent: u64, child: u64, name: &str) -> (r: Result<(), Error>)
        ensures
            final(self).committed() == old(self).committed(),
            r is Ok ==> {
                &&& old(self).state().inodes.contains_key(parent)
                &&& old(self).state().inodes.contains_key(child)
                &&& !old(self).state().links.contains_key((parent, name@))
                &&& final(self).state() == old(self).state().with_link(parent, name@, child)
            },
            r matches Err(e) ==> Self::may_fail_with(e@),
    ;

    /// Removes a name from a directory.
    fn remove_child(&mut self, parent: u64, name: &str) -> (r: Result<(), Error>)
        ensures
            final(self).committed() == old(self).committed(),
            r is Ok ==> final(self).state() == old(self).state().without_link(parent, name@),
            r matches Err(e) ==> Self::may_fail_with(e@),
    ;

    /// Lists all the children of the given parent directory. You do not need
    /// to return "." and "..", those are automatically generated. The list is
    /// paginated, so make sure that the output order is stable at least until
    /// the content of the directory changes (or ideally until forever).
    ///
    /// - `parent`: ID of the parent inode
    /// - `size`: number of expected returned items
    /// - `offset`: offset from the list
    fn find_children_of(&mut self, parent: u64, size: usize, offset: usize) -> (r: Result<
        Vec<(String, u64)>,
        Error,
    >)
        ensures
            final(self).committed() == old(self).committed(),
            r matches Ok(children) ==> {
                let all = Self::listing(old(self).state(), parent);
                &&& final(self).state() == old(self).state()
                &&& named(children@) == page(all, size as int, offset as int)
                &&& lists_children(all, old(self).state(), parent)
            },
            r matches Err(e) ==> Self::may_fail_with(e@),
    ;

    /// Explicitly deletes an inode and its data from storage. Essentially it's
    /// not because an inode has zero link remaining that it should be deleted,
    /// instead this function will be called to do the job. An inode that
    /// something leads to is not deleted.
    fn delete_inode(&mut self, inode: u64) -> (r: Result<(), Error>)
        ensures
            final(self).committed() == old(self).committed(),
            r is Ok ==> {
                &&& forall|l: (u64, Seq<char>)| !old(self).state().links_to(inode).contains(l)
                &&& final(self).state() == old(self).state().without_inode(inode)
            },
            r matches Err(e) ==> Self::may_fail_with(e@),
    ;
}

/// Children with the text of their names.
pub open spec fn named(children: Seq<(String, u64)>) -> Seq<(Seq<char>, u64)> {
    children.map_values(|c: (String, u64)| (c.0@, c.1))
}

/// Up to `size` elements of a list, from `offset` on.
pub open spec fn page(all: Seq<(Seq<char>, u64)>, size: int, offset: int) -> Seq<
    (Seq<char>, u64),
> {
    if offset >= all.len() {
        seq![]
    } else if offset + size >= all.len() {
        all.skip(offset)
    } else {
        all.subrange(offset, offset + size)
    }
}

/// Whether the list holds each child of a directory once, and nothing else.
pub open spec fn lists_children(
    all: Seq<(Seq<char>, u64)>,
    state: FsState,
    parent: u64,
) -> bool {
    &&& forall|i: int|
        0 <= i < all.len() ==> state.links.contains_key((parent, (#[trigger] all[i]).0))
            && state.links[(parent, all[i].0)] == all[i].1
    &&& forall|name: Seq<char>| #[trigger]
        state.links.contains_key((parent, name)) ==> all.contains(
            (name, state.links[(parent, name)]),
        )
    &&& all.no_duplicates()
}

/// A file that is open. It keeps the inode as it was when it was last read
/// through this handle.
pub trait WinterHandle: Sized {
    type Context: WinterTree<Inode = Self::Inode>;

    type Inode: WinterInode;

    /// The attributes that the handle keeps.
    closed spec fn attrs(&self) -> EntryCore {
        arbitrary()
    }

    /// Whether the storage answers for an extended attribute itself, whatever
    /// is stored under its key.
    closed spec fn answers(key: Seq<char>) -> bool {
        arbitrary()
    }

    /// What the storage answers for such an extended attribute, if anything.
    closed spec fn own_value(&self, key: Seq<char>) -> Option<Seq<u8>> {
        arbitrary()
    }

    /// The keys that the storage lists besides those that are stored.
    closed spec fn own_keys(&self) -> Set<Seq<char>> {
        arbitrary()
    }

    /// Whether the handle has been flushed.
    closed spec fn flushed(&self, context: Self::Context) -> bool {
        arbitrary()
    }

    /// Whether the data of the file has been persisted to the disk.
    closed spec fn data_synced(&self, context: Self::Context) -> bool {
        arbitrary()
    }

    /// Whether the metadata of the file has been persisted to the disk.
    closed spec fn metadata_synced(&self, context: Self::Context) -> bool {
        arbitrary()
    }

    /// Whether an operation on a handle may fail with this error.
    closed spec fn may_fail_with(error: ErrorView) -> bool {
        arbitrary()
    }

    /// Returns the inode handled by this handle.
    fn get_inode(&self) -> (r: &Self::Inode)
        ensures
            r.attrs() == self.attrs(),
    ;

    /// You would probably think that this means you have to flush the content
    /// onto the disk. Well you would be wrong. The system calls this when the
    /// file is closed (although it might get called several times from what I
    /// understand?), so it's more something you can use to schedule
    /// maintenance tasks or whatever rather than actually writing the content
    /// That would actually be `fsync_data`.
    fn flush(&mut self, context: &mut Self::Context) -> (r: Result<(), Error>)
        ensures
            final(context).committed() == old(context).committed(),
            r is Ok ==> {
                &&& final(context).state() == old(context).state()
                &&& final(self).flushed(*final(context))
            },
            final(self).attrs() == old(self).attrs(),
            r matches Err(e) ==> Self::may_fail_with(e@),
    ;

    /// Persists to the disk the data of the file (so blocks basically).
    fn fsync_data(&mut self, context: &mut Self::Context) -> (r: Result<(), Error>)
        ensures
            final(context).committed() == old(context).committed(),
            r is Ok ==> {
                &&& final(context).state() == old(context).state()
                &&& final(self).data_synced(*final(context))
            },
            final(self).attrs() == old(self).attrs(),
            r matches Err(e) ==> Self::may_fail_with(e@),
    ;

    /// Persists to the disk the metadata (so the inode itself essentially). Data
    /// that has been persisted stays so.
    fn fsync_metadata(&mut self, context: &mut Self::Context) -> (r: Result<(), Error>)
        ensures
            final(context).committed() == old(context).committed(),
            r is Ok ==> {
                &&& final(context).state() == old(context).state()
                &&& final(self).metadata_synced(*final(context))
                &&& old(self).data_synced(*old(context)) ==> final(self).data_synced(
                    *final(context),
                )
            },
            final(self).attrs() == old(self).attrs(),
            r matches Err(e) ==> Self::may_fail_with(e@),
    ;

    /// Empties the file completely.
    fn truncate(&mut self, context: &mut Self::Context) -> (r: Result<(), Error>)
        ensures
            final(context).committed() == old(context).committed(),
            r is Ok ==> {
                &&& final(self).attrs() == with_size(0)(old(self).attrs())
                &&& final(context).state() == resized(
                    old(context).state(),
                    old(self).attrs().st_ino,
                    0,
                ).cut(old(self).attrs().st_ino, 0)
            },
            r matches Err(e) ==> Self::may_fail_with(e@),
    ;

    fn set_mode(&mut self, context: &mut Self::Context, mode: u32) -> (r: Result<(), Error>)
        ensures
            final(context).committed() == old(context).committed(),
            r is Ok ==> attrs_changed(
                old(self).attrs(),
                old(context).state(),
                with_mode(mode),
                final(self).attrs(),
                final(context).state(),
            ),
            r matches Err(e) ==> Self::may_fail_with(e@),
    ;

    fn set_uid(&mut self, context: &mut Self::Context, uid: u32) -> (r: Result<(), Error>)
        ensures
            final(context).committed() == old(context).committed(),
            r is Ok ==> attrs_changed(
                old(self).attrs(),
                old(context).state(),
                with_uid(uid),
                final(self).attrs(),
                final(context).state(),
            ),
            r matches Err(e) ==> Self::may_fail_with(e@),
    ;

    fn set_gid(&mut self, context: &mut Self::Context, gid: u32) -> (r: Result<(), Error>)
        ensures
            final(context).committed() == old(context).committed(),
            r is Ok ==> attrs_changed(
                old(self).attrs(),
                old(context).state(),
                with_gid(gid),
                final(self).attrs(),
                final(context).state(),
            ),
            r matches Err(e) ==> Self::may_fail_with(e@),
    ;

    /// Grows or shrinks the file. Nothing is done if the handle already has
    /// this size. Else the bytes before both ends stay as they are, and nothing
    /// is left beyond the new one.
    fn set_size(&mut self, context: &mut Self::Context, size: i64) -> (r: Result<(), Error>)
        ensures
            final(context).committed() == old(context).committed(),
            r is Ok ==> if old(self).attrs().st_size == size {
                &&& final(self).attrs() == old(self).attrs()
                &&& final(context).state() == old(context).state()
            } else {
                attrs_changed(
                    old(self).attrs(),
                    shortened(old(self).attrs(), old(context).state(), size),
                    with_size(size),
                    final(self).attrs(),
                    final(context).state(),
                )
            },
            r matches Err(e) ==> Self::may_fail_with(e@),
    ;

    fn set_atime(&mut self, context: &mut Self::Context, atime: Timestamp) -> (r: Result<
        (),
        Error,
    >)
        ensures
            final(context).committed() == old(context).committed(),
            r is Ok ==> attrs_changed(
                old(self).attrs(),
                old(context).state(),
                with_atime(atime@),
                final(self).attrs(),
                final(context).state(),
            ),
            r matches Err(e) ==> Self::may_fail_with(e@),
    ;

    fn set_mtime(&mut self, context: &mut Self::Context, mtime: Timestamp) -> (r: Result<
        (),
        Error,
    >)
        ensures
            final(context).committed() == old(context).committed(),
            r is Ok ==> attrs_changed(
                old(self).attrs(),
                old(context).state(),
                with_mtime(mtime@),
                final(self).attrs(),
                final(context).state(),
            ),
            r matches Err(e) ==> Self::may_fail_with(e@),
    ;

    fn set_ctime(&mut self, context: &mut Self::Context, ctime: Timestamp) -> (r: Result<
        (),
        Error,
    >)
        ensures
            final(context).committed() == old(context).committed(),
            r is Ok ==> attrs_changed(
                old(self).attrs(),
                old(context).state(),
                with_ctime(ctime@),
                final(self).attrs(),
                final(context).state(),
            ),
            r matches Err(e) ==> Self::may_fail_with(e@),
    ;

    /// Appends a slice of the data to `w`: the bytes from `offset` on, up to
    /// `size` of them and up to the end of the file.
    fn read(
        &mut self,
        context: &mut Self::Context,
        size: usize,
        offset: i64,
        w: &mut Vec<u8>,
    ) -> (r: Result<usize, Error>)
        ensures
            final(context).committed() == old(context).committed(),
            r matches Ok(n) ==> {
                let bytes = read_from(old(context).state(), old(self).attrs(), size, offset);
                &&& final(context).state() == old(context).state()
                &&& final(self).attrs() == old(self).attrs()
                &&& final(w)@ == old(w)@ + bytes
                &&& n == bytes.len()
            },
            r matches Err(e) ==> Self::may_fail_with(e@),
    ;

    /// Persists the provided data into storage, all `size` bytes of it. Every
    /// other byte stays as it is.
    fn write(
        &mut self,
        context: &mut Self::Context,
        size: usize,
        offset: i64,
        data: &Vec<u8>,
    ) -> (r: Result<usize, Error>)
        ensures
            final(context).committed() == old(context).committed(),
            r matches Ok(n) ==> {
                &&& n == size
                &&& n == data@.len()
                &&& written(
                    old(self).attrs(),
                    old(context).state(),
                    offset,
                    data@,
                    final(self).attrs(),
                    final(context).state(),
                )
            },
            r matches Err(e) ==> Self::may_fail_with(e@),
    ;

    /// Like write but guaranteed to append at the end of the file: the data
    /// goes right behind its last byte.
    fn append(&mut self, context: &mut Self::Context, size: usize, data: &Vec<u8>) -> (r: Result<
        usize,
        Error,
    >)
        ensures
            final(context).committed() == old(context).committed(),
            r matches Ok(n) ==> {
                &&& n == data@.len()
                &&& appended(
                    old(self).attrs(),
                    old(context).state(),
                    data@,
                    final(self).attrs(),
                    final(context).state(),
                )
            },
            r matches Err(e) ==> Self::may_fail_with(e@),
    ;

    /// Set an extended attribute on the inode.
    fn xattr_set(&mut self, context: &mut Self::Context, key: &str, value: &[u8]) -> (r: Result<
        (),
        Error,
    >)
        ensures
            final(context).committed() == old(context).committed(),
            r is Ok ==> {
                &&& final(self).attrs() == old(self).attrs()
                &&& final(context).state() == old(context).state().with_xattr(
                    old(self).attrs().st_ino,
                    key@,
                    value@,
                )
            },
            r matches Err(e) ==> Self::may_fail_with(e@),
    ;

    /// Get an extended attribute from the inode (fails if key doesn't exist).
    fn xattr_get(&mut self, context: &mut Self::Context, key: &str) -> (r: Result<Vec<u8>, Error>)
        ensures
            final(context).committed() == old(context).committed(),
            match r {
                Ok(value) => {
                    &&& stored_or_own(
                        old(context).state(),
                        old(self).attrs().st_ino,
                        key@,
                        Self::answers(key@),
                        old(self).own_value(key@),
                    ) == Some(value@)
                    &&& final(context).state() == old(context).state()
                    &&& *final(self) == *old(self)
                },
                Err(e) => e@.kind() == ErrorKind::NotFound ==> {
                    &&& stored_or_own(
                        old(context).state(),
                        old(self).attrs().st_ino,
                        key@,
                        Self::answers(key@),
                        old(self).own_value(key@),
                    ) is None
                    &&& final(context).state() == old(context).state()
                    &&& *final(self) == *old(self)
                },
            },
            r matches Err(e) ==> Self::may_fail_with(e@),
    ;

    /// Remove an extended attribute from the inode, which has to exist.
    fn xattr_remove(&mut self, context: &mut Self::Context, key: &str) -> (r: Result<(), Error>)
        ensures
            final(context).committed() == old(context).committed(),
            r is Ok ==> {
                let id = old(self).attrs().st_ino;
                &&& final(self).attrs() == old(self).attrs()
                &&& old(context).state().xattrs.contains_key((id, key@))
                &&& final(context).state() == old(context).state().without_xattr(id, key@)
            },
            r matches Err(e) ==> Self::may_fail_with(e@),
    ;

    /// List all extended attribute keys for the inode, in any order.
    fn xattr_list(&mut self, context: &mut Self::Context) -> (r: Result<Vec<String>, Error>)
        ensures
            final(context).committed() == old(context).committed(),
            r matches Ok(keys) ==> {
                &&& final(self).attrs() == old(self).attrs()
                &&& final(context).state() == old(context).state()
                &&& texts(keys@).to_set() == stored_and_own(
                    old(context).state(),
                    old(self).attrs().st_ino,
                    old(self).own_keys(),
                )
            },
            r matches Err(e) ==> Self::may_fail_with(e@),
    ;
}

/// The value of an extended attribute, if there is one: what the storage
/// answers itself, if it does, and else what is stored.
pub open spec fn stored_or_own(
    state: FsState,
    inode: u64,
    key: Seq<char>,
    answers: bool,
    own: Option<Seq<u8>>,
) -> Option<Seq<u8>> {
    if answers {
        own
    } else if state.xattrs.contains_key((inode, key)) {
        Some(state.xattrs[(inode, key)])
    } else {
        None
    }
}

/// The keys of the extended attributes that are stored, and those of the
/// storage itself.
pub open spec fn stored_and_own(state: FsState, inode: u64, own: Set<Seq<char>>) -> Set<Seq<char>> {
    Set::new(|key: Seq<char>| state.xattrs.contains_key((inode, key)) || own.contains(key))
}

/// The value of an extended attribute as a handle shows it, if there is one
/// under this key.
pub open spec fn xattr_value<H: WinterHandle>(
    handle: H,
    state: FsState,
    key: Seq<char>,
) -> Option<Seq<u8>> {
    stored_or_own(
        state,
        handle.attrs().st_ino,
        key,
        H::answers(key),
        handle.own_value(key),
    )
}

/// The keys of the extended attributes that a handle shows.
pub open spec fn xattr_keys<H: WinterHandle>(handle: H, state: FsState) -> Set<Seq<char>> {
    stored_and_own(state, handle.attrs().st_ino, handle.own_keys())
}

/// How many of `size` bytes from `offset` on lie in a file.
pub open spec fn readable(file_size: i64, size: usize, offset: i64) -> nat {
    if offset < 0 || offset >= file_size {
        0
    } else if offset + size <= file_size {
        size as nat
    } else {
        (file_size - offset) as nat
    }
}

/// What a read of `size` bytes from `offset` on gives, through a handle with
/// these attributes.
pub open spec fn read_from(
    state: FsState,
    handle: EntryCore,
    size: usize,
    offset: i64,
) -> Seq<u8> {
    state.content(handle.st_ino, offset as int, readable(handle.st_size, size, offset))
}

/// Whether data has been written through a handle with these attributes: it
/// stands at `offset`, the size covers it, and nothing else has changed.
pub open spec fn written(
    handle: EntryCore,
    before: FsState,
    offset: i64,
    data: Seq<u8>,
    handle_after: EntryCore,
    after: FsState,
) -> bool {
    let sized = if handle_after == handle {
        before
    } else {
        resized(before, handle.st_ino, handle_after.st_size)
    };
    &&& handle_after == with_size(grown(handle.st_size, offset, data.len() as usize))(handle)
    &&& after == sized.with_data(handle.st_ino, offset as int, data)
}

/// Whether data has been appended through a handle with these attributes: it
/// stands right behind the last byte of the file, whose size covers it, and
/// nothing else has changed.
pub open spec fn appended(
    handle: EntryCore,
    before: FsState,
    data: Seq<u8>,
    handle_after: EntryCore,
    after: FsState,
) -> bool {
    let size = handle.st_size + data.len();
    if data.len() == 0 {
        handle_after == handle && after == before
    } else {
        &&& size <= i64::MAX
        &&& handle_after == with_size(size as i64)(handle)
        &&& after == resized(before, handle.st_ino, size as i64).with_data(
            handle.st_ino,
            handle.st_size as int,
            data,
        )
    }
}

/// The tree without what a smaller size cuts off the file of a handle with
/// these attributes.
pub open spec fn shortened(handle: EntryCore, state: FsState, size: i64) -> FsState {
    if size < handle.st_size {
        state.cut(handle.st_ino, size as int)
    } else {
        state
    }
}

/// The size of a file after `n` bytes were written at `offset`.
pub open spec fn grown(size: i64, offset: i64, n: usize) -> i64 {
    if offset + n > size {
        (offset + n) as i64
    } else {
        size
    }
}

/// The tree with another size of an inode, if it exists.
pub open spec fn resized(state: FsState, inode: u64, size: i64) -> FsState {
    if state.inodes.contains_key(inode) {
        state.with_inode(inode, with_size(size)(state.inodes[inode]))
    } else {
        state
    }
}

/// The contents of a list of texts.
pub open spec fn texts(s: Seq<String>) -> Seq<Seq<char>> {
    s.map_values(|t: String| t@)
}

/// Whether attributes of a handle's inode have been changed, in storage and in
/// the handle, which then agree.
pub open spec fn attrs_changed(
    handle_before: EntryCore,
    before: FsState,
    change: spec_fn(EntryCore) -> EntryCore,
    handle_after: EntryCore,
    after: FsState,
) -> bool {
    let id = handle_before.st_ino;
    &&& before.inodes.contains_key(id)
    &&& after == before.with_inode(id, change(before.inodes[id]))
    &&& handle_after == after.inodes[id]
    &&& handle_after.st_ino == id
}

/// The change that sets the mode.
pub open spec fn with_mode(mode: u32) -> spec_fn(EntryCore) -> EntryCore {
    |a: EntryCore| EntryCore { st_mode: mode, ..a }
}

/// The change that sets the owner.
pub open spec fn with_uid(uid: u32) -> spec_fn(EntryCore) -> EntryCore {
    |a: EntryCore| EntryCore { st_uid: uid, ..a }
}

/// The change that sets the group.
pub open spec fn with_gid(gid: u32) -> spec_fn(EntryCore) -> EntryCore {
    |a: EntryCore| EntryCore { st_gid: gid, ..a }
}

/// The change that sets the size.
pub open spec fn with_size(size: i64) -> spec_fn(EntryCore) -> EntryCore {
    |a: EntryCore| EntryCore { st_size: size, ..a }
}

/// The change that sets the time of the last access.
pub open spec fn with_atime(t: (i64, u32)) -> spec_fn(EntryCore) -> EntryCore {
    |a: EntryCore| EntryCore { st_atime: t.0, st_atime_nsec: t.1 as i64, ..a }
}

/// The change that sets the time of the last change of content.
pub open spec fn with_mtime(t: (i64, u32)) -> spec_fn(EntryCore) -> EntryCore {
    |a: EntryCore| EntryCore { st_mtime: t.0, st_mtime_nsec: t.1 as i64, ..a }
}

/// The change that sets the time of the last change of attributes.
pub open spec fn with_ctime(t: (i64, u32)) -> spec_fn(EntryCore) -> EntryCore {
    |a: EntryCore| EntryCore { st_ctime: t.0, st_ctime_nsec: t.1 as i64, ..a }
}

/// How many files a storage without a limit of its own could have.
///
/// To be noted that we're taking the max integer and not the max unsigned
/// integer because apparently some implementations will overflow. But this is
/// no issue in the sense that it's not _really_ the max given that to achieve
/// this file count by creating one file every millisecond you'd still need
/// 292,277,024 years.
pub fn default_max_files_count() -> (r: u64)
    ensures
        r == i64::MAX,
{
    i64::MAX as u64
}

/// How long a name can be in a storage without a limit of its own: what seems
/// to be a decent default, given that anyways software up the chain probably
/// has this limit hard-coded anyways.
pub fn default_name_max_size() -> (r: u64)
    ensures
        r == 4096,
{
    4096
}

/// A storage for file trees.
pub trait WinterFs: Sized {
    /// An opaque context object passed to most operations, typically
    /// something that allows you to manipulate the persistence layer.
    type Context: WinterTree<Inode = Self::Inode>;

    /// An opaque type for a file handle, which will be stored in RAM as long
    /// as the file is open.
    type Handle: WinterHandle<Context = Self::Context, Inode = Self::Inode>;

    /// Internal opaque representation of an inode.
    type Inode: WinterInode;

    /// The block size in use.
    closed spec fn block_bytes(&self) -> i64 {
        arbitrary()
    }

    /// Whether so many bytes may be what the storage takes up.
    closed spec fn may_take_up(&self, bytes: u64) -> bool {
        arbitrary()
    }

    /// Whether so many bytes may be what is left for the storage.
    closed spec fn may_be_left(&self, bytes: u64) -> bool {
        arbitrary()
    }

    /// The number of files.
    closed spec fn files_count(&self, state: FsState) -> u64 {
        arbitrary()
    }

    /// How many files there could be.
    closed spec fn files_limit(&self, state: FsState) -> u64 {
        arbitrary()
    }

    /// How long a name can be.
    closed spec fn name_limit(&self, state: FsState) -> u64 {
        arbitrary()
    }

    /// Whether a new context may be this one.
    closed spec fn creates(&self, context: Self::Context) -> bool {
        arbitrary()
    }

    /// Whether a new context may be refused with this error.
    closed spec fn refuses_context(&self, error: ErrorView) -> bool {
        arbitrary()
    }

    /// Whether `after` may be what a commit of `before` leaves.
    closed spec fn commits(&self, before: Self::Context, after: Self::Context) -> bool {
        arbitrary()
    }

    /// Whether `after` may be what a commit of `before` that failed leaves.
    closed spec fn fails_to_commit(&self, before: Self::Context, after: Self::Context) -> bool {
        arbitrary()
    }

    /// Whether `after` may be what rolling `before` back leaves, whether that
    /// worked or not.
    closed spec fn rolls_back(&self, before: Self::Context, after: Self::Context) -> bool {
        arbitrary()
    }

    /// Whether `after` may be what closing `before` leaves, whether that worked
    /// or not.
    closed spec fn closes(&self, before: Self::Context, after: Self::Context) -> bool {
        arbitrary()
    }

    /// Whether a handle may be what opening an inode with these flags gives.
    closed spec fn opened(&self, handle: Self::Handle, inode: u64, flags: u32) -> bool {
        arbitrary()
    }

    /// Whether the storage may fail with this error.
    closed spec fn may_fail_with(error: ErrorView) -> bool {
        arbitrary()
    }

    /// Indicates what is the block size in use of this instance (it does not
    /// have to be strictly true, it's just that lots of syscalls measure size
    /// in blocks instead of bytes, so this is kind of the baseline for giving
    /// editorial info to the callers). There are no empty blocks.
    fn block_size(&self) -> (r: Result<i64, Error>)
        ensures
            r matches Ok(b) ==> b == self.block_bytes() && b > 0,
            r matches Err(e) ==> Self::may_fail_with(e@),
    ;

    /// Returns in bytes an estimation of how much storage is currently being
    /// used on the physical media.
    fn estimate_used_storage(&self) -> (r: Result<u64, Error>)
        ensures
            r matches Ok(n) ==> self.may_take_up(n),
            r matches Err(e) ==> Self::may_fail_with(e@),
    ;

    /// Here the goal is to estimate how much free storage there is on the
    /// underlying storage medium so that at least you can have an idea of
    /// how much more data you can add.
    fn estimate_free_storage(&self) -> (r: Result<u64, Error>)
        ensures
            r matches Ok(n) ==> self.may_be_left(n),
            r matches Err(e) ==> Self::may_fail_with(e@),
    ;

    /// Counts how many files there are on the disk.
    fn estimate_files_count(&self, context: &mut Self::Context) -> (r: Result<u64, Error>)
        ensures
            final(context).committed() == old(context).committed(),
            r matches Ok(n) ==> {
                &&& final(context).state() == old(context).state()
                &&& n == self.files_count(old(context).state())
            },
            r matches Err(e) ==> Self::may_fail_with(e@),
    ;

    /// Indicates how many files you could have on the disk. A storage that
    /// knows of no limit gives [`default_max_files_count`].
    fn max_files_count(&self, context: &mut Self::Context) -> (r: Result<u64, Error>)
        ensures
            final(context).committed() == old(context).committed(),
            r matches Ok(n) ==> {
                &&& final(context).state() == old(context).state()
                &&& n == self.files_limit(old(context).state())
            },
            r matches Err(e) ==> Self::may_fail_with(e@),
    ;

    /// If you have a limit in the max length of a file name give it here, else
    /// [`default_name_max_size`].
    fn get_name_max_size(&self, context: &mut Self::Context) -> (r: Result<u64, Error>)
        ensures
            final(context).committed() == old(context).committed(),
            r matches Ok(n) ==> {
                &&& final(context).state() == old(context).state()
                &&& n == self.name_limit(old(context).state())
            },
            r matches Err(e) ==> Self::may_fail_with(e@),
    ;

    /// Creates a new context for an operation or a set of operations.
    fn create_context(&self) -> (r: Result<Self::Context, Error>)
        ensures
            r matches Ok(c) ==> c.state() == c.committed() && c.is_open() && self.creates(c),
            r matches Err(e) ==> Self::may_fail_with(e@) && self.refuses_context(e@),
    ;

    /// Commits the changes made within the context: all of them or none.
    fn sync_context(&self, context: &mut Self::Context) -> (r: Result<(), Error>)
        ensures
            match r {
                Ok(_) => {
                    &&& final(context).committed() == old(context).state()
                    &&& final(context).state() == old(context).state()
                    &&& self.commits(*old(context), *final(context))
                },
                Err(_) => {
                    &&& final(context).committed() == old(context).committed()
                    &&& self.fails_to_commit(*old(context), *final(context))
                },
            },
            r matches Err(e) ==> Self::may_fail_with(e@),
    ;

    /// Rolls back any changes made within the context.
    fn rollback_context(&self, context: &mut Self::Context) -> (r: Result<(), Error>)
        ensures
            final(context).committed() == old(context).committed(),
            self.rolls_back(*old(context), *final(context)),
            r is Ok ==> final(context).state() == final(context).committed(),
            r matches Err(e) ==> Self::may_fail_with(e@),
    ;

    /// Closes up and releases the context.
    fn close_context(&self, context: &mut Self::Context) -> (r: Result<(), Error>)
        ensures
            final(context).committed() == old(context).committed(),
            self.closes(*old(context), *final(context)),
            r is Ok ==> !final(context).is_open(),
            r matches Err(e) ==> Self::may_fail_with(e@),
    ;

    /// Opens a file and returns the backend handle.
    fn open(&self, context: &mut Self::Context, inode: u64, flags: u32) -> (r: Result<
        Self::Handle,
        Error,
    >)
        ensures
            final(context).committed() == old(context).committed(),
            r matches Ok(h) ==> {
                &&& final(context).state() == old(context).state()
                &&& old(context).state().inodes.contains_key(inode)
                &&& h.attrs() == old(context).state().inodes[inode]
                &&& h.attrs().st_ino == inode
                &&& self.opened(h, inode, flags)
            },
            r matches Err(e) ==> Self::may_fail_with(e@),
    ;
}

} // verus!
