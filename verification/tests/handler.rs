use flocon::error::{Error, ErrorKind, ENODATA, ERANGE};
use flocon::handler::{CreateArgs, Entry, Stat, WinterFsHandler};
use flocon::modes::{
    is_directory, O_APPEND, O_EXCL, O_TRUNC, RENAME_EXCHANGE, RENAME_NOREPLACE, SETATTR_ATIME,
    SETATTR_ATIME_NOW, SETATTR_CTIME, SETATTR_GID, SETATTR_MODE, SETATTR_MTIME, SETATTR_MTIME_NOW,
    SETATTR_SIZE, SETATTR_UID, S_IFDIR, S_IFLNK, S_IFREG, XATTR_CREATE, XATTR_REPLACE,
};
use flocon::rules::{GetxattrReply, ListxattrReply};
use flocon::timestamp::Timestamp;
use flocon::winter::{
    default_max_files_count, default_name_max_size, EntryCore, Validity, WinterFs, WinterHandle,
    WinterInode, WinterTree,
};
use std::cell::{Cell, RefCell};
use std::collections::BTreeMap;
use std::rc::Rc;

#[derive(Clone, Default)]
struct Tree {
    inodes: BTreeMap<u64, EntryCore>,
    links: BTreeMap<(u64, String), u64>,
    xattrs: BTreeMap<(u64, String), Vec<u8>>,
    data: BTreeMap<u64, Vec<u8>>,
    last_id: u64,
}

struct MemoryContext {
    tree: Tree,
    shared: Rc<RefCell<Tree>>,
    stuck: Rc<Cell<bool>>,
    log: Rc<RefCell<Vec<&'static str>>>,
}

impl MemoryContext {
    fn note(&self, what: &'static str) -> Result<(), Error> {
        self.log.borrow_mut().push(what);
        if self.stuck.get() {
            return Err(Error::new(ErrorKind::Other, "Stuck"));
        }
        Ok(())
    }
}

#[derive(Clone, Copy)]
struct MemoryInode(EntryCore);

struct MemoryHandle(MemoryInode);

struct MemoryFs {
    shared: Rc<RefCell<Tree>>,
    full: Rc<Cell<bool>>,
    stuck: Rc<Cell<bool>>,
    down: Rc<Cell<bool>>,
    log: Rc<RefCell<Vec<&'static str>>>,
    opened: Rc<RefCell<Vec<(u64, u32)>>>,
}

const EMPTY: EntryCore = EntryCore {
    st_ino: 0,
    st_size: 0,
    st_atime: 0,
    st_atime_nsec: 0,
    st_mtime: 0,
    st_mtime_nsec: 0,
    st_ctime: 0,
    st_ctime_nsec: 0,
    st_mode: 0,
    st_uid: 0,
    st_gid: 0,
    st_rdev: 0,
};

impl WinterInode for MemoryInode {
    fn get_id(&self) -> u64 {
        self.0.st_ino
    }

    fn get_mode(&self) -> u32 {
        self.0.st_mode
    }

    fn make_entry(&self) -> Result<EntryCore, Error> {
        Ok(self.0)
    }

    fn attr_valid_time(&self) -> Result<Validity, Error> {
        Ok(Validity { secs: 10, nanos: 1 })
    }

    fn entry_valid_time(&self) -> Result<Validity, Error> {
        Ok(Validity { secs: 20, nanos: 2 })
    }
}

impl WinterTree for MemoryContext {
    type Inode = MemoryInode;

    fn lookup(&mut self, parent: u64, name: &str) -> Result<u64, Error> {
        Ok(*self
            .tree
            .links
            .get(&(parent, name.to_string()))
            .unwrap_or(&0))
    }

    fn get_inode(&mut self, inode: u64) -> Result<MemoryInode, Error> {
        match self.tree.inodes.get(&inode) {
            Some(i) => Ok(MemoryInode(*i)),
            None => Err(Error::new(ErrorKind::Other, "No such inode")),
        }
    }

    fn empty_inode(&mut self) -> MemoryInode {
        MemoryInode(EMPTY)
    }

    fn count_child_directories(&mut self, inode: u64) -> Result<u64, Error> {
        let mut n = 0;
        for ((parent, _), child) in &self.tree.links {
            if *parent == inode && is_directory(self.tree.inodes[child].st_mode) {
                n += 1;
            }
        }
        Ok(n)
    }

    fn find_parents_of(&mut self, inode: u64) -> Result<Vec<u64>, Error> {
        let mut parents = Vec::new();
        for ((parent, _), child) in &self.tree.links {
            if *child == inode {
                parents.push(*parent);
            }
        }
        Ok(parents)
    }

    fn create_inode(
        &mut self,
        mode: u32,
        uid: u32,
        gid: u32,
        rdev: u64,
    ) -> Result<MemoryInode, Error> {
        self.tree.last_id += 1;
        let core = EntryCore {
            st_ino: self.tree.last_id,
            st_mode: mode,
            st_uid: uid,
            st_gid: gid,
            st_rdev: rdev,
            ..EMPTY
        };
        self.tree.inodes.insert(core.st_ino, core);
        self.tree.data.insert(core.st_ino, Vec::new());
        Ok(MemoryInode(core))
    }

    fn add_child(&mut self, parent: u64, child: u64, name: &str) -> Result<(), Error> {
        let place = (parent, name.to_string());
        let known =
            self.tree.inodes.contains_key(&parent) && self.tree.inodes.contains_key(&child);
        if !known || self.tree.links.contains_key(&place) {
            return Err(Error::new(ErrorKind::Other, "Constraint failed"));
        }
        self.tree.links.insert(place, child);
        Ok(())
    }

    fn remove_child(&mut self, parent: u64, name: &str) -> Result<(), Error> {
        self.tree.links.remove(&(parent, name.to_string()));
        Ok(())
    }

    fn find_children_of(
        &mut self,
        parent: u64,
        size: usize,
        offset: usize,
    ) -> Result<Vec<(String, u64)>, Error> {
        let all: Vec<(String, u64)> = self
            .tree
            .links
            .iter()
            .filter(|(place, _)| place.0 == parent)
            .map(|(place, child)| (place.1.clone(), *child))
            .collect();
        Ok(all.into_iter().skip(offset).take(size).collect())
    }

    fn delete_inode(&mut self, inode: u64) -> Result<(), Error> {
        self.tree.inodes.remove(&inode);
        self.tree.data.remove(&inode);
        self.tree.xattrs.retain(|k, _| k.0 != inode);
        self.tree.links.retain(|k, _| k.0 != inode);
        Ok(())
    }
}

impl MemoryHandle {
    fn change(&mut self, context: &mut MemoryContext, f: impl Fn(&mut EntryCore)) {
        let core = context.tree.inodes.get_mut(&self.0 .0.st_ino).unwrap();
        f(core);
        self.0 = MemoryInode(*core);
    }
}

impl WinterHandle for MemoryHandle {
    type Context = MemoryContext;
    type Inode = MemoryInode;

    fn get_inode(&self) -> &MemoryInode {
        &self.0
    }

    fn flush(&mut self, context: &mut MemoryContext) -> Result<(), Error> {
        context.note("flush")
    }

    fn fsync_data(&mut self, context: &mut MemoryContext) -> Result<(), Error> {
        context.note("data")
    }

    fn fsync_metadata(&mut self, context: &mut MemoryContext) -> Result<(), Error> {
        context.note("metadata")
    }

    fn truncate(&mut self, context: &mut MemoryContext) -> Result<(), Error> {
        self.set_size(context, 0)
    }

    fn set_mode(&mut self, context: &mut MemoryContext, mode: u32) -> Result<(), Error> {
        context.note("mode")?;
        self.change(context, |c| c.st_mode = mode);
        Ok(())
    }

    fn set_uid(&mut self, context: &mut MemoryContext, uid: u32) -> Result<(), Error> {
        self.change(context, |c| c.st_uid = uid);
        Ok(())
    }

    fn set_gid(&mut self, context: &mut MemoryContext, gid: u32) -> Result<(), Error> {
        self.change(context, |c| c.st_gid = gid);
        Ok(())
    }

    fn set_size(&mut self, context: &mut MemoryContext, size: i64) -> Result<(), Error> {
        self.change(context, |c| c.st_size = size);
        let id = self.0 .0.st_ino;
        context
            .tree
            .data
            .get_mut(&id)
            .unwrap()
            .resize(size as usize, 0);
        Ok(())
    }

    fn set_atime(&mut self, context: &mut MemoryContext, t: Timestamp) -> Result<(), Error> {
        self.change(context, |c| {
            c.st_atime = t.timestamp();
            c.st_atime_nsec = t.timestamp_subsec_nanos() as i64;
        });
        Ok(())
    }

    fn set_mtime(&mut self, context: &mut MemoryContext, t: Timestamp) -> Result<(), Error> {
        self.change(context, |c| {
            c.st_mtime = t.timestamp();
            c.st_mtime_nsec = t.timestamp_subsec_nanos() as i64;
        });
        Ok(())
    }

    fn set_ctime(&mut self, context: &mut MemoryContext, t: Timestamp) -> Result<(), Error> {
        self.change(context, |c| {
            c.st_ctime = t.timestamp();
            c.st_ctime_nsec = t.timestamp_subsec_nanos() as i64;
        });
        Ok(())
    }

    fn read(
        &mut self,
        context: &mut MemoryContext,
        size: usize,
        offset: i64,
        w: &mut Vec<u8>,
    ) -> Result<usize, Error> {
        context.note("read")?;
        let data = &context.tree.data[&self.0 .0.st_ino];
        let known = self.0 .0.st_size as usize;
        let first = known.min(offset as usize);
        let last = known.min(first + size);
        for at in first..last {
            w.push(*data.get(at).unwrap_or(&0));
        }
        Ok(last - first)
    }

    fn write(
        &mut self,
        context: &mut MemoryContext,
        size: usize,
        offset: i64,
        data: &Vec<u8>,
    ) -> Result<usize, Error> {
        context.note("write")?;
        if size != data.len() {
            return Err(Error::new(ErrorKind::Other, "Unexpected EOF"));
        }
        let end = offset as usize + size;
        let id = self.0 .0.st_ino;
        if end as i64 > self.0 .0.st_size {
            self.0 .0.st_size = end as i64;
            context.tree.inodes.get_mut(&id).unwrap().st_size = end as i64;
        }
        let bytes = context.tree.data.get_mut(&id).unwrap();
        if bytes.len() < end {
            bytes.resize(end, 0);
        }
        bytes[offset as usize..end].copy_from_slice(data);
        Ok(size)
    }

    fn append(
        &mut self,
        context: &mut MemoryContext,
        size: usize,
        data: &Vec<u8>,
    ) -> Result<usize, Error> {
        self.write(context, size, self.0 .0.st_size, data)
    }

    fn xattr_set(
        &mut self,
        context: &mut MemoryContext,
        key: &str,
        value: &[u8],
    ) -> Result<(), Error> {
        let place = (self.0 .0.st_ino, key.to_string());
        context.tree.xattrs.insert(place, value.to_vec());
        Ok(())
    }

    fn xattr_get(&mut self, context: &mut MemoryContext, key: &str) -> Result<Vec<u8>, Error> {
        if key == "broken" {
            return Err(Error::new(ErrorKind::Other, "Broken attribute"));
        }
        match context.tree.xattrs.get(&(self.0 .0.st_ino, key.to_string())) {
            Some(value) => Ok(value.clone()),
            None => Err(Error::new(ErrorKind::NotFound, "No such attribute")),
        }
    }

    fn xattr_remove(&mut self, context: &mut MemoryContext, key: &str) -> Result<(), Error> {
        let place = (self.0 .0.st_ino, key.to_string());
        match context.tree.xattrs.remove(&place) {
            Some(_) => Ok(()),
            None => Err(Error::new(ErrorKind::NotFound, "No such attribute")),
        }
    }

    fn xattr_list(&mut self, context: &mut MemoryContext) -> Result<Vec<String>, Error> {
        let id = self.0 .0.st_ino;
        Ok(context
            .tree
            .xattrs
            .keys()
            .filter(|k| k.0 == id)
            .map(|k| k.1.clone())
            .collect())
    }
}

impl WinterFs for MemoryFs {
    type Context = MemoryContext;
    type Handle = MemoryHandle;
    type Inode = MemoryInode;

    fn block_size(&self) -> Result<i64, Error> {
        Ok(512)
    }

    fn estimate_used_storage(&self) -> Result<u64, Error> {
        Ok(1000)
    }

    fn estimate_free_storage(&self) -> Result<u64, Error> {
        Ok(5000)
    }

    fn estimate_files_count(&self, context: &mut MemoryContext) -> Result<u64, Error> {
        Ok(context.tree.inodes.len() as u64)
    }

    fn max_files_count(&self, _context: &mut MemoryContext) -> Result<u64, Error> {
        Ok(default_max_files_count())
    }

    fn get_name_max_size(&self, _context: &mut MemoryContext) -> Result<u64, Error> {
        Ok(default_name_max_size())
    }

    fn create_context(&self) -> Result<MemoryContext, Error> {
        if self.down.get() {
            return Err(Error::new(ErrorKind::Other, "No connection"));
        }
        self.log.borrow_mut().clear();
        Ok(MemoryContext {
            tree: self.shared.borrow().clone(),
            shared: self.shared.clone(),
            stuck: self.stuck.clone(),
            log: self.log.clone(),
        })
    }

    fn sync_context(&self, context: &mut MemoryContext) -> Result<(), Error> {
        self.log.borrow_mut().push("sync");
        if self.full.get() {
            return Err(Error::new(ErrorKind::Other, "Disk full"));
        }
        *context.shared.borrow_mut() = context.tree.clone();
        Ok(())
    }

    fn rollback_context(&self, context: &mut MemoryContext) -> Result<(), Error> {
        self.log.borrow_mut().push("rollback");
        context.tree = context.shared.borrow().clone();
        Ok(())
    }

    fn close_context(&self, _context: &mut MemoryContext) -> Result<(), Error> {
        self.log.borrow_mut().push("close");
        Ok(())
    }

    fn open(
        &self,
        context: &mut MemoryContext,
        inode: u64,
        flags: u32,
    ) -> Result<MemoryHandle, Error> {
        self.opened.borrow_mut().push((inode, flags));
        Ok(MemoryHandle(context.get_inode(inode)?))
    }
}

type Handler = WinterFsHandler<MemoryFs>;

/// A file system with nothing but its root
fn mounted() -> (Handler, Rc<RefCell<Tree>>, Rc<Cell<bool>>) {
    let shared = Rc::new(RefCell::new(Tree::default()));
    let full = Rc::new(Cell::new(false));
    let mut tree = Tree::default();
    tree.last_id = 1;
    tree.inodes.insert(
        1,
        EntryCore {
            st_ino: 1,
            st_mode: S_IFDIR | 0o755,
            ..EMPTY
        },
    );
    *shared.borrow_mut() = tree;
    let fs = MemoryFs {
        shared: shared.clone(),
        full: full.clone(),
        stuck: Rc::new(Cell::new(false)),
        down: Rc::new(Cell::new(false)),
        opened: Rc::new(RefCell::new(Vec::new())),
        log: Rc::new(RefCell::new(Vec::new())),
    };
    (WinterFsHandler::new(fs), shared, full)
}

/// Makes a context, does something in it and concludes it
fn run<R>(
    h: &mut Handler,
    f: impl FnOnce(&mut Handler, &mut MemoryContext) -> Result<R, Error>,
) -> Result<R, Error> {
    h.with_context(f)
}

fn mkdir(h: &mut Handler, parent: u64, name: &str) -> Entry {
    run(h, |h, c| h.mkdir(c, 7, 8, parent, name.as_bytes(), 0o777, 0o022)).unwrap()
}

fn create(h: &mut Handler, parent: u64, name: &str, flags: u32) -> Result<(Entry, u64), Error> {
    let args = CreateArgs {
        flags,
        mode: 0o666,
        umask: 0o022,
    };
    run(h, |h, c| h.create(c, 7, 8, parent, name.as_bytes(), args))
}

fn write(h: &mut Handler, inode: u64, handle: u64, offset: u64, data: &[u8], flags: u32) -> usize {
    let data = data.to_vec();
    run(h, |h, c| {
        h.write(c, inode, handle, &data, data.len() as u32, offset, flags)
    })
    .unwrap()
}

fn read(h: &mut Handler, inode: u64, handle: u64, size: u32, offset: u64) -> Vec<u8> {
    let mut out = Vec::new();
    let n = run(h, |h, c| h.read(c, inode, handle, &mut out, size, offset)).unwrap();
    assert_eq!(n, out.len());
    out
}

fn lookup(h: &mut Handler, parent: u64, name: &str) -> Entry {
    run(h, |h, c| h.lookup(c, parent, name.as_bytes())).unwrap()
}

fn fault<R>(r: Result<R, Error>) -> (ErrorKind, String) {
    match r {
        Ok(_) => panic!("expected an error"),
        Err(Error::Message { kind, message }) => (kind, message),
        Err(Error::Os { code }) => panic!("expected words, got code {}", code),
    }
}

fn code<R>(r: Result<R, Error>) -> i32 {
    match r {
        Err(Error::Os { code }) => code,
        _ => panic!("expected a code"),
    }
}

fn said(kind: ErrorKind, message: &str) -> (ErrorKind, String) {
    (kind, message.to_string())
}

#[test]
fn mkdir_makes_an_entry() {
    let (mut h, shared, _) = mounted();
    let e = mkdir(&mut h, 1, "etc");
    assert_eq!(e.inode, 2);
    assert_eq!(e.generation, 0);
    assert_eq!(e.attr_flags, 0);
    assert_eq!(e.attr_timeout, Validity { secs: 10, nanos: 1 });
    assert_eq!(e.entry_timeout, Validity { secs: 20, nanos: 2 });
    assert_eq!(
        e.attr,
        Stat {
            st_ino: 2,
            st_nlink: 2,
            st_mode: S_IFDIR | 0o755,
            st_uid: 7,
            st_gid: 8,
            st_rdev: 0,
            st_size: 0,
            st_blksize: 512,
            st_blocks: 0,
            st_atime: 0,
            st_atime_nsec: 0,
            st_mtime: 0,
            st_mtime_nsec: 0,
            st_ctime: 0,
            st_ctime_nsec: 0,
        }
    );
    assert_eq!(shared.borrow().links[&(1, "etc".to_string())], 2);
    let again = run(&mut h, |h, c| h.mkdir(c, 7, 8, 1, b"etc", 0o777, 0));
    assert_eq!(
        fault(again),
        said(ErrorKind::AlreadyExists, "File already exists")
    );
    let bad = run(&mut h, |h, c| h.mkdir(c, 7, 8, 1, &[0xff, 0xfe], 0o777, 0));
    assert_eq!(fault(bad), said(ErrorKind::InvalidInput, "Invalid UTF-8"));
}

#[test]
fn directories_in_a_directory_count_as_links() {
    let (mut h, _, _) = mounted();
    mkdir(&mut h, 1, "a");
    mkdir(&mut h, 1, "b");
    create(&mut h, 1, "c", 0).unwrap();
    let (stat, valid) = run(&mut h, |h, c| h.getattr(c, 1, None)).unwrap();
    assert_eq!(stat.st_nlink, 4);
    assert_eq!(valid, Validity { secs: 10, nanos: 1 });
}

#[test]
fn lookup_of_nothing_is_an_empty_entry() {
    let (mut h, _, _) = mounted();
    let e = lookup(&mut h, 1, "nothing");
    assert_eq!(e.inode, 0);
    assert_eq!(e.attr.st_mode, 0);
    assert_eq!(e.attr.st_nlink, 0);
    let bad = run(&mut h, |h, c| h.lookup(c, 1, &[0xc3]));
    assert_eq!(fault(bad), said(ErrorKind::InvalidInput, "Invalid UTF-8"));
}

#[test]
fn forgotten_files_without_links_are_deleted() {
    let (mut h, shared, _) = mounted();
    let (e, handle) = create(&mut h, 1, "f", 0).unwrap();
    assert_eq!(e.inode, 2);
    lookup(&mut h, 1, "f");
    run(&mut h, |h, c| h.unlink(c, 1, b"f")).unwrap();
    // It was looked up twice, and can still be written
    write(&mut h, 2, handle, 0, b"still here", 0);
    run(&mut h, |h, c| h.forget(c, 2, 1)).unwrap();
    assert!(shared.borrow().inodes.contains_key(&2));
    assert_eq!(read(&mut h, 2, handle, 100, 0), b"still here");
    run(&mut h, |h, c| h.forget(c, 2, 1)).unwrap();
    assert!(!shared.borrow().inodes.contains_key(&2));
    // Nothing is known of the inode any more
    run(&mut h, |h, c| h.forget(c, 2, 5)).unwrap();
}

#[test]
fn forgotten_files_with_links_stay() {
    let (mut h, shared, _) = mounted();
    create(&mut h, 1, "a", 0).unwrap();
    create(&mut h, 1, "b", 0).unwrap();
    run(&mut h, |h, c| h.unlink(c, 1, b"b")).unwrap();
    run(&mut h, |h, c| {
        h.batch_forget(c, &vec![(2, 100), (3, 1), (9, 9)])
    })
    .unwrap();
    assert!(shared.borrow().inodes.contains_key(&2));
    assert!(!shared.borrow().inodes.contains_key(&3));
}

#[test]
fn lowering_the_lookup_count_undoes_raising_it() {
    let (mut h, shared, _) = mounted();
    create(&mut h, 1, "f", 0).unwrap();
    h.increase_lookup(2, 10);
    run(&mut h, |h, c| h.unlink(c, 1, b"f")).unwrap();
    run(&mut h, |h, c| h.decrease_lookup(2, 10, c)).unwrap();
    assert!(shared.borrow().inodes.contains_key(&2));
    run(&mut h, |h, c| h.decrease_lookup(2, 1, c)).unwrap();
    assert!(!shared.borrow().inodes.contains_key(&2));
}

#[test]
fn failed_operations_change_nothing() {
    let (mut h, shared, _) = mounted();
    // The inode is made, then the parent turns out not to exist
    let r = run(&mut h, |h, c| h.mkdir(c, 7, 8, 99, b"x", 0o777, 0));
    assert_eq!(fault(r), said(ErrorKind::Other, "Constraint failed"));
    assert_eq!(shared.borrow().inodes.len(), 1);
    assert_eq!(shared.borrow().last_id, 1);
}

#[test]
fn failed_commits_are_reported() {
    let (mut h, shared, full) = mounted();
    full.set(true);
    let r = run(&mut h, |h, c| h.mkdir(c, 7, 8, 1, b"x", 0o777, 0));
    assert_eq!(fault(r), said(ErrorKind::Other, "Disk full"));
    assert_eq!(shared.borrow().inodes.len(), 1);
}

#[test]
fn contexts_are_concluded() {
    let (mut h, _, full) = mounted();
    let log = h.fs().log.clone();
    let mut context = h.fs().create_context().unwrap();
    let made = h.mkdir(&mut context, 7, 8, 1, b"x", 0o777, 0);
    assert!(h.conclude(&mut context, made).is_ok());
    assert_eq!(*log.borrow(), vec!["sync", "close"]);
    // What a failed operation did is rolled back
    let mut context = h.fs().create_context().unwrap();
    let refused = h.mkdir(&mut context, 7, 8, 99, b"y", 0o777, 0);
    assert_eq!(context.tree.inodes.len(), 3);
    assert!(h.conclude(&mut context, refused).is_err());
    assert_eq!(*log.borrow(), vec!["rollback", "close"]);
    assert_eq!(context.tree.inodes.len(), 2);
    // A commit that fails leaves the context open
    full.set(true);
    let mut context = h.fs().create_context().unwrap();
    let made = h.mkdir(&mut context, 7, 8, 1, b"z", 0o777, 0);
    assert!(h.conclude(&mut context, made).is_err());
    assert_eq!(*log.borrow(), vec!["sync"]);
    assert_eq!(context.tree.inodes.len(), 3);
}

#[test]
fn operations_run_in_a_context_of_their_own() {
    let (mut h, _, _) = mounted();
    let log = h.fs().log.clone();
    assert_eq!(h.with_context(|_, _| Ok(5)).unwrap(), 5);
    assert_eq!(*log.borrow(), vec!["sync", "close"]);
    let r = h.with_context(|_, _| -> Result<(), Error> {
        Err(Error::new(ErrorKind::InvalidInput, "No"))
    });
    assert_eq!(fault(r), said(ErrorKind::InvalidInput, "No"));
    assert_eq!(*log.borrow(), vec!["rollback", "close"]);
    // Without a context nothing is run
    h.fs().down.set(true);
    let mut ran = false;
    let r = h.with_context(|_, _| {
        ran = true;
        Ok(())
    });
    assert_eq!(fault(r), said(ErrorKind::Other, "No connection"));
    assert!(!ran);
}

#[test]
fn files_are_opened_with_flags() {
    let (mut h, _, _) = mounted();
    let opened = h.fs().opened.clone();
    create(&mut h, 1, "f", O_APPEND).unwrap();
    write(&mut h, 2, 0, 0, b"x", 0);
    read(&mut h, 2, 0, 1, 0);
    let target = b"f".to_vec();
    run(&mut h, |h, c| h.symlink(c, 7, 8, &target, 1, b"s")).unwrap();
    run(&mut h, |h, c| h.readlink(c, 3)).unwrap();
    let expected = vec![(2, O_APPEND), (2, 1), (2, 0), (3, 1), (3, 0)];
    assert_eq!(*opened.borrow(), expected);
}

#[test]
fn handles_survive_failures() {
    let (mut h, _, _) = mounted();
    let (_, handle) = create(&mut h, 1, "f", 0).unwrap();
    write(&mut h, 2, handle, 0, b"hello", 0);
    let stuck = said(ErrorKind::Other, "Stuck");
    h.fs().stuck.set(true);
    let r = run(&mut h, |h, c| h.flush(c, handle));
    assert_eq!(fault(r), stuck);
    let r = run(&mut h, |h, c| h.fsync(c, true, handle));
    assert_eq!(fault(r), stuck);
    let r = run(&mut h, |h, c| h.release(c, handle, true));
    assert_eq!(fault(r), stuck);
    let r = run(&mut h, |h, c| h.read(c, 2, handle, &mut Vec::new(), 5, 0));
    assert_eq!(fault(r), stuck);
    let data = b"x".to_vec();
    let r = run(&mut h, |h, c| h.write(c, 2, handle, &data, 1, 0, 0));
    assert_eq!(fault(r), stuck);
    let (stat, _) = run(&mut h, |h, c| h.getattr(c, 2, None)).unwrap();
    let r = run(&mut h, |h, c| {
        h.setattr(c, 2, &stat, Some(handle), SETATTR_MODE)
    });
    assert_eq!(fault(r), stuck);
    h.fs().stuck.set(false);
    assert_eq!(read(&mut h, 2, handle, 100, 0), b"hello");
    run(&mut h, |h, c| h.release(c, handle, true)).unwrap();
}

#[test]
fn files_are_persisted_as_asked() {
    let (mut h, _, _) = mounted();
    let log = h.fs().log.clone();
    let (_, handle) = create(&mut h, 1, "f", 0).unwrap();
    run(&mut h, |h, c| h.fsync(c, true, handle)).unwrap();
    assert_eq!(*log.borrow(), vec!["data", "metadata", "sync", "close"]);
    run(&mut h, |h, c| h.fsyncdir(c, false, handle)).unwrap();
    assert_eq!(*log.borrow(), vec!["metadata", "sync", "close"]);
    run(&mut h, |h, c| h.flush(c, handle)).unwrap();
    assert_eq!(*log.borrow(), vec!["flush", "sync", "close"]);
    run(&mut h, |h, c| h.release(c, handle, true)).unwrap();
    assert_eq!(*log.borrow(), vec!["flush", "sync", "close"]);
}

#[test]
fn devices_and_sockets_are_no_directories() {
    let (mut h, shared, _) = mounted();
    for (name, mode) in [("disk", 0o060644), ("socket", 0o140755)] {
        let e = run(&mut h, |h, c| {
            h.mknod(c, 7, 8, 1, name.as_bytes(), mode, 0, 0)
        })
        .unwrap();
        assert_eq!(e.attr.st_nlink, 1);
        let r = run(&mut h, |h, c| h.rmdir(c, 1, name.as_bytes()));
        assert_eq!(fault(r), said(ErrorKind::NotADirectory, "Not a directory"));
        let e = run(&mut h, |h, c| h.link(c, e.inode, 1, b"second")).unwrap();
        assert_eq!(e.attr.st_nlink, 2);
        run(&mut h, |h, c| h.unlink(c, 1, b"second")).unwrap();
        run(&mut h, |h, c| h.unlink(c, 1, name.as_bytes())).unwrap();
    }
    assert!(shared.borrow().links.is_empty());
    let (stat, _) = run(&mut h, |h, c| h.getattr(c, 1, None)).unwrap();
    assert_eq!(stat.st_nlink, 2);
}

#[test]
fn unlink_and_rmdir_check_what_they_remove() {
    let (mut h, shared, _) = mounted();
    mkdir(&mut h, 1, "d");
    create(&mut h, 2, "f", 0).unwrap();
    let r = run(&mut h, |h, c| h.unlink(c, 1, b"d"));
    assert_eq!(fault(r), said(ErrorKind::IsADirectory, "Is a directory"));
    let r = run(&mut h, |h, c| h.rmdir(c, 2, b"f"));
    assert_eq!(fault(r), said(ErrorKind::NotADirectory, "Not a directory"));
    let r = run(&mut h, |h, c| h.rmdir(c, 1, b"d"));
    assert_eq!(
        fault(r),
        said(ErrorKind::DirectoryNotEmpty, "Directory not empty")
    );
    let r = run(&mut h, |h, c| h.unlink(c, 1, b"x"));
    assert_eq!(fault(r), said(ErrorKind::NotFound, "File not found"));
    let r = run(&mut h, |h, c| h.rmdir(c, 1, b"x"));
    assert_eq!(fault(r), said(ErrorKind::NotFound, "Directory not found"));
    let r = run(&mut h, |h, c| h.unlink(c, 3, b"x"));
    assert_eq!(
        fault(r),
        said(ErrorKind::NotADirectory, "Parent is not a directory")
    );
    run(&mut h, |h, c| h.unlink(c, 2, b"f")).unwrap();
    run(&mut h, |h, c| h.rmdir(c, 1, b"d")).unwrap();
    assert!(shared.borrow().links.is_empty());
}

#[test]
fn rename_moves_and_replaces() {
    let (mut h, shared, _) = mounted();
    create(&mut h, 1, "a", 0).unwrap();
    create(&mut h, 1, "b", 0).unwrap();
    mkdir(&mut h, 1, "d");
    run(&mut h, |h, c| h.rename(c, 1, b"a", 4, b"z", 0)).unwrap();
    assert_eq!(shared.borrow().links.get(&(1, "a".to_string())), None);
    assert_eq!(shared.borrow().links[&(4, "z".to_string())], 2);
    // Moving back undoes the move
    run(&mut h, |h, c| h.rename(c, 4, b"z", 1, b"a", 0)).unwrap();
    assert_eq!(shared.borrow().links[&(1, "a".to_string())], 2);
    assert_eq!(shared.borrow().links.len(), 3);
    // Replacing
    let r = run(&mut h, |h, c| {
        h.rename(c, 1, b"a", 1, b"b", RENAME_NOREPLACE)
    });
    assert_eq!(
        fault(r),
        said(ErrorKind::AlreadyExists, "File already exists")
    );
    run(&mut h, |h, c| h.rename(c, 1, b"a", 1, b"b", 0)).unwrap();
    assert_eq!(shared.borrow().links[&(1, "b".to_string())], 2);
    assert_eq!(shared.borrow().links.len(), 2);
}

#[test]
fn rename_exchanges() {
    let (mut h, shared, _) = mounted();
    create(&mut h, 1, "a", 0).unwrap();
    create(&mut h, 1, "b", 0).unwrap();
    for expected in [3, 2] {
        run(&mut h, |h, c| {
            h.rename(c, 1, b"a", 1, b"b", RENAME_EXCHANGE)
        })
        .unwrap();
        assert_eq!(shared.borrow().links[&(1, "a".to_string())], expected);
        assert_eq!(shared.borrow().links[&(1, "b".to_string())], 5 - expected);
    }
    let r = run(&mut h, |h, c| {
        h.rename(c, 1, b"a", 1, b"c", RENAME_EXCHANGE)
    });
    assert_eq!(fault(r), said(ErrorKind::NotFound, "Target does not exist"));
}

#[test]
fn rename_checks_its_arguments() {
    let (mut h, _, _) = mounted();
    let mut rename = |a: &[u8], b: &[u8], flags: u32| {
        fault(run(&mut h, |h, c| h.rename(c, 1, a, 1, b, flags)))
    };
    assert_eq!(
        rename(b"a", b"b", 3),
        said(ErrorKind::InvalidInput, "Invalid flags")
    );
    assert_eq!(
        rename(b"", b"b", 0),
        said(ErrorKind::InvalidInput, "Empty name")
    );
    assert_eq!(
        rename(b"a", b"", 0),
        said(ErrorKind::InvalidInput, "Empty name")
    );
    assert_eq!(
        rename(&[0x80], b"b", 0),
        said(ErrorKind::InvalidInput, "Invalid UTF-8")
    );
    assert_eq!(
        rename(b"a", b"b", 0),
        said(ErrorKind::NotFound, "Source does not exist")
    );
}

#[test]
fn links_are_counted() {
    let (mut h, shared, _) = mounted();
    create(&mut h, 1, "a", 0).unwrap();
    mkdir(&mut h, 1, "d");
    let e = run(&mut h, |h, c| h.link(c, 2, 3, b"b")).unwrap();
    assert_eq!(e.inode, 2);
    assert_eq!(e.attr.st_nlink, 2);
    // Unlinking undoes linking
    run(&mut h, |h, c| h.unlink(c, 3, b"b")).unwrap();
    assert_eq!(lookup(&mut h, 1, "a").attr.st_nlink, 1);
    assert_eq!(shared.borrow().links.len(), 2);
    let r = run(&mut h, |h, c| h.link(c, 3, 1, b"b"));
    assert_eq!(
        fault(r),
        said(
            ErrorKind::IsADirectory,
            "Cannot create hard link to directory"
        )
    );
    let r = run(&mut h, |h, c| h.link(c, 2, 2, b"b"));
    assert_eq!(
        fault(r),
        said(ErrorKind::NotADirectory, "Parent is not a directory")
    );
    let r = run(&mut h, |h, c| h.link(c, 2, 1, b"a"));
    assert_eq!(
        fault(r),
        said(ErrorKind::AlreadyExists, "File already exists")
    );
}

#[test]
fn create_opens_files() {
    let (mut h, _, _) = mounted();
    let (e, handle) = create(&mut h, 1, "f", O_EXCL).unwrap();
    assert_eq!((e.inode, handle), (2, 1));
    assert_eq!(e.attr.st_mode, S_IFREG | 0o644);
    assert_eq!((e.attr.st_uid, e.attr.st_gid, e.attr.st_nlink), (7, 8, 1));
    assert_eq!(write(&mut h, 2, handle, 0, b"content", 0), 7);
    let r = create(&mut h, 1, "f", O_EXCL);
    assert_eq!(
        fault(r),
        said(ErrorKind::AlreadyExists, "File already exists")
    );
    let (e, other) = create(&mut h, 1, "f", 0).unwrap();
    assert_eq!((e.inode, e.attr.st_size, other), (2, 7, 2));
    assert_eq!(read(&mut h, 2, other, 100, 0), b"content");
    let (_, emptied) = create(&mut h, 1, "f", O_TRUNC).unwrap();
    assert_eq!(read(&mut h, 2, emptied, 100, 0), b"");
    assert_eq!(read(&mut h, 2, 0, 100, 0), b"");
}

#[test]
fn writes_are_read_back() {
    let (mut h, _, _) = mounted();
    let (_, handle) = create(&mut h, 1, "f", 0).unwrap();
    write(&mut h, 2, handle, 0, b"hello world", 0);
    write(&mut h, 2, handle, 6, b"WORLD", 0);
    assert_eq!(read(&mut h, 2, handle, 5, 6), b"WORLD");
    // Without a handle, one is made for the time of the operation
    write(&mut h, 2, 0, 99, b"!", O_APPEND);
    assert_eq!(read(&mut h, 2, 0, 100, 0), b"hello WORLD!");
    let (e, next) = create(&mut h, 1, "g", 0).unwrap();
    assert_eq!(e.inode, 3);
    assert_eq!(next, 4);
    let r = run(&mut h, |h, c| h.read(c, 2, 77, &mut Vec::new(), 1, 0));
    assert_eq!(fault(r), said(ErrorKind::InvalidInput, "Invalid handle"));
}

#[test]
fn stat_counts_blocks() {
    let (mut h, _, _) = mounted();
    let (_, handle) = create(&mut h, 1, "f", 0).unwrap();
    write(&mut h, 2, handle, 0, &[1; 513], 0);
    let (stat, _) = run(&mut h, |h, c| h.getattr(c, 999, Some(handle))).unwrap();
    assert_eq!((stat.st_ino, stat.st_size, stat.st_blocks), (2, 513, 2));
    let r = run(&mut h, |h, c| h.getattr(c, 2, Some(50)));
    assert_eq!(fault(r), said(ErrorKind::InvalidInput, "Invalid handle"));
    assert_eq!(flocon::handler::count_blocks(512, 512), 1);
    assert_eq!(flocon::handler::count_blocks(1024, 512), 2);
}

#[test]
fn handles_are_closed() {
    let (mut h, _, _) = mounted();
    let (_, handle) = create(&mut h, 1, "f", 0).unwrap();
    run(&mut h, |h, c| h.flush(c, handle)).unwrap();
    run(&mut h, |h, c| h.fsync(c, true, handle)).unwrap();
    run(&mut h, |h, c| h.fsyncdir(c, false, handle)).unwrap();
    run(&mut h, |h, c| h.release(c, handle, true)).unwrap();
    let r = run(&mut h, |h, c| h.flush(c, handle));
    assert_eq!(fault(r), said(ErrorKind::InvalidInput, "Invalid handle"));
    let r = run(&mut h, |h, c| h.fsync(c, true, handle));
    assert_eq!(fault(r), said(ErrorKind::InvalidInput, "Invalid handle"));
    let r = run(&mut h, |h, c| h.release(c, handle, true));
    assert_eq!(fault(r), said(ErrorKind::InvalidInput, "Invalid handle"));
    run(&mut h, |h, c| h.release(c, handle, false)).unwrap();
    run(&mut h, |h, c| h.flush(c, 0)).unwrap();
    run(&mut h, |h, c| h.fsync(c, true, 0)).unwrap();
    run(&mut h, |h, c| h.release(c, 0, true)).unwrap();
    h.releasedir(0).unwrap();
    let (_, handle) = create(&mut h, 1, "g", 0).unwrap();
    h.releasedir(handle).unwrap();
    assert!(h.remove_handle(handle).is_none());
}

#[test]
fn fallocate_grows_files() {
    let (mut h, _, _) = mounted();
    let (_, handle) = create(&mut h, 1, "f", 0).unwrap();
    run(&mut h, |h, c| h.fallocate(c, 2, handle, 0, 10, 5)).unwrap();
    assert_eq!(read(&mut h, 2, handle, 100, 0), vec![0; 15]);
    run(&mut h, |h, c| h.fallocate(c, 2, handle, 0, 0, 5)).unwrap();
    assert_eq!(read(&mut h, 2, handle, 100, 0).len(), 15);
    let r = run(&mut h, |h, c| h.fallocate(c, 2, handle, 1, 0, 50));
    assert_eq!(
        fault(r),
        said(ErrorKind::InvalidInput, "Unsupported fallocate mode")
    );
}

#[test]
fn statfs_counts_in_blocks() {
    let (mut h, _, _) = mounted();
    create(&mut h, 1, "f", 0).unwrap();
    let s = run(&mut h, |h, c| h.statfs(c)).unwrap();
    assert_eq!((s.f_bsize, s.f_frsize), (512, 512));
    assert_eq!((s.f_blocks, s.f_bfree, s.f_bavail), (12, 9, 9));
    assert_eq!((s.f_files, s.f_ffree), (2, i64::MAX as u64 - 2));
    assert_eq!(s.f_namemax, 4096);
}

#[test]
fn setattr_changes_what_is_asked() {
    let (mut h, shared, _) = mounted();
    create(&mut h, 1, "f", 0).unwrap();
    let asked = Stat {
        st_ino: 0,
        st_nlink: 0,
        st_mode: S_IFREG | 0o600,
        st_uid: 10,
        st_gid: 11,
        st_rdev: 0,
        st_size: 3,
        st_blksize: 0,
        st_blocks: 0,
        st_atime: 100,
        st_atime_nsec: 1,
        st_mtime: 200,
        st_mtime_nsec: 2,
        st_ctime: 300,
        st_ctime_nsec: 3,
    };
    let (stat, _) = run(&mut h, |h, c| h.setattr(c, 2, &asked, None, SETATTR_MODE)).unwrap();
    assert_eq!((stat.st_mode, stat.st_uid), (S_IFREG | 0o600, 7));
    let rest = SETATTR_UID
        | SETATTR_GID
        | SETATTR_SIZE
        | SETATTR_ATIME
        | SETATTR_MTIME
        | SETATTR_CTIME
        | SETATTR_ATIME_NOW;
    let (stat, _) = run(&mut h, |h, c| h.setattr(c, 2, &asked, Some(0), rest)).unwrap();
    assert_eq!((stat.st_uid, stat.st_gid, stat.st_size), (10, 11, 3));
    assert_eq!((stat.st_atime, stat.st_atime_nsec), (100, 1));
    assert_eq!((stat.st_mtime, stat.st_mtime_nsec), (200, 2));
    assert_eq!((stat.st_ctime, stat.st_ctime_nsec), (300, 3));
    let now = Timestamp::from_timestamp(5000, 6).unwrap();
    let later = Timestamp::from_timestamp(7000, 8).unwrap();
    let (stat, _) = run(&mut h, |h, c| {
        let valid = SETATTR_ATIME_NOW | SETATTR_MTIME_NOW;
        h.setattr_at(c, 2, &asked, Some(1), valid, now, later)
    })
    .unwrap();
    assert_eq!((stat.st_atime, stat.st_atime_nsec), (5000, 6));
    assert_eq!((stat.st_mtime, stat.st_mtime_nsec), (7000, 8));
    // A time that does not exist undoes what came before it
    let late = Stat {
        st_mode: S_IFREG,
        st_mtime: i64::MAX,
        ..asked
    };
    let r = run(&mut h, |h, c| {
        h.setattr(c, 2, &late, None, SETATTR_MODE | SETATTR_MTIME)
    });
    assert_eq!(
        fault(r),
        said(
            ErrorKind::InvalidInput,
            "Invalid mtime: 9223372036854775807 2"
        )
    );
    assert_eq!(shared.borrow().inodes[&2].st_mode, S_IFREG | 0o600);
}

#[test]
fn resized_files_keep_bytes_and_show_zeros() {
    let (mut h, shared, _) = mounted();
    let (_, handle) = create(&mut h, 1, "f", 0).unwrap();
    write(&mut h, 2, handle, 0, b"hello", 0);
    let (stat, _) = run(&mut h, |h, c| h.getattr(c, 2, None)).unwrap();
    let sized = |size: i64| Stat {
        st_size: size,
        ..stat
    };
    let valid = SETATTR_SIZE;
    run(&mut h, |h, c| {
        h.setattr(c, 2, &sized(2), Some(handle), valid)
    })
    .unwrap();
    assert_eq!(read(&mut h, 2, handle, 100, 0), b"he");
    run(&mut h, |h, c| {
        h.setattr(c, 2, &sized(4), Some(handle), valid)
    })
    .unwrap();
    assert_eq!(read(&mut h, 2, handle, 100, 0), b"he\0\0");
    write(&mut h, 2, handle, 0, b"!", O_APPEND);
    assert_eq!(read(&mut h, 2, handle, 100, 0), b"he\0\0!");
    // A change of attributes or of the name leaves the content alone
    run(&mut h, |h, c| {
        h.setattr(c, 2, &stat, Some(handle), SETATTR_MODE | SETATTR_UID)
    })
    .unwrap();
    run(&mut h, |h, c| h.rename(c, 1, b"f", 1, b"g", 0)).unwrap();
    assert_eq!(shared.borrow().data[&2], b"he\0\0!");
}

#[test]
fn xattrs_are_set_and_read() {
    let (mut h, _, _) = mounted();
    create(&mut h, 1, "f", 0).unwrap();
    run(&mut h, |h, c| h.setxattr(c, 2, b"user.a", b"one", 0)).unwrap();
    match run(&mut h, |h, c| h.getxattr(c, 2, b"user.a", 100)).unwrap() {
        GetxattrReply::Value(v) => assert_eq!(v, b"one"),
        GetxattrReply::Count(_) => panic!("expected a value"),
    }
    match run(&mut h, |h, c| h.getxattr(c, 2, b"user.a", 0)).unwrap() {
        GetxattrReply::Count(n) => assert_eq!(n, 3),
        GetxattrReply::Value(_) => panic!("expected a count"),
    }
    let r = run(&mut h, |h, c| h.getxattr(c, 2, b"user.a", 2));
    assert_eq!(code(r), ERANGE);
    let r = run(&mut h, |h, c| h.getxattr(c, 2, b"user.b", 2));
    assert_eq!(code(r), ENODATA);
    let r = run(&mut h, |h, c| h.getxattr(c, 2, b"broken", 2));
    assert_eq!(fault(r), said(ErrorKind::Other, "Broken attribute"));
    let r = run(&mut h, |h, c| h.getxattr(c, 2, b"", 2));
    assert_eq!(
        fault(r),
        said(ErrorKind::InvalidInput, "Name cannot be empty")
    );
    run(&mut h, |h, c| h.removexattr(c, 2, b"user.a")).unwrap();
    let r = run(&mut h, |h, c| h.removexattr(c, 2, b"user.a"));
    assert_eq!(fault(r), said(ErrorKind::NotFound, "No such attribute"));
    let r = run(&mut h, |h, c| h.removexattr(c, 2, b""));
    assert_eq!(fault(r), said(ErrorKind::InvalidInput, "Empty xattr name"));
}

#[test]
fn xattr_flags_are_kept() {
    let (mut h, _, _) = mounted();
    create(&mut h, 1, "f", 0).unwrap();
    let mut set = |name: &[u8], flags: u32| run(&mut h, |h, c| h.setxattr(c, 2, name, b"v", flags));
    assert_eq!(code(set(b"k", XATTR_REPLACE)), ENODATA);
    set(b"k", XATTR_CREATE).unwrap();
    assert_eq!(
        fault(set(b"k", XATTR_CREATE)),
        said(ErrorKind::AlreadyExists, "Attribute already exists")
    );
    set(b"k", XATTR_REPLACE).unwrap();
    assert_eq!(
        fault(set(b"broken", XATTR_CREATE)),
        said(ErrorKind::Other, "Broken attribute")
    );
    set(b"broken", 0).unwrap();
    assert_eq!(
        fault(set(b"k", 3)),
        said(ErrorKind::InvalidInput, "Invalid flags")
    );
    assert_eq!(
        fault(set(b"", 0)),
        said(ErrorKind::InvalidInput, "Empty xattr name")
    );
}

#[test]
fn xattr_keys_are_listed() {
    let (mut h, _, _) = mounted();
    create(&mut h, 1, "f", 0).unwrap();
    run(&mut h, |h, c| h.setxattr(c, 2, b"a", b"1", 0)).unwrap();
    run(&mut h, |h, c| h.setxattr(c, 2, "é".as_bytes(), b"2", 0)).unwrap();
    match run(&mut h, |h, c| h.listxattr(c, 2, 0)).unwrap() {
        ListxattrReply::Count(n) => assert_eq!(n, 5),
        ListxattrReply::Names(_) => panic!("expected a count"),
    }
    match run(&mut h, |h, c| h.listxattr(c, 2, 5)).unwrap() {
        ListxattrReply::Names(b) => assert_eq!(b, [b'a', 0, 0xc3, 0xa9, 0]),
        ListxattrReply::Count(_) => panic!("expected names"),
    }
    assert_eq!(code(run(&mut h, |h, c| h.listxattr(c, 2, 4))), ENODATA);
}

#[test]
fn directories_are_listed() {
    let (mut h, _, _) = mounted();
    mkdir(&mut h, 1, "d");
    create(&mut h, 2, "a", 0).unwrap();
    mkdir(&mut h, 2, "b");
    let list = |h: &mut Handler, inode: u64, size: u32, offset: u64| {
        run(h, |h, c| h.inner_readdir(c, inode, 0, size, offset))
            .unwrap()
            .into_iter()
            .map(|(d, e)| {
                assert_eq!(d.ino, e.inode);
                (String::from_utf8(d.name).unwrap(), d.ino, d.offset, d.type_)
            })
            .collect::<Vec<_>>()
    };
    let own = |name: &str, ino: u64, offset: u64, kind: u32| (name.to_string(), ino, offset, kind);
    assert_eq!(
        list(&mut h, 2, 100, 0),
        vec![
            own(".", 2, 1, 4),
            own("..", 1, 2, 4),
            own("a", 3, 4, 8),
            own("b", 4, 5, 4)
        ]
    );
    // The root is its own parent
    assert_eq!(
        list(&mut h, 1, 100, 0),
        vec![own(".", 1, 1, 4), own("..", 1, 2, 4), own("d", 2, 4, 4)]
    );
    assert_eq!(list(&mut h, 2, 1, 0), vec![own(".", 2, 1, 4)]);
    assert_eq!(
        list(&mut h, 2, 3, 0),
        vec![own(".", 2, 1, 4), own("..", 1, 2, 4), own("a", 3, 4, 8)]
    );
    assert_eq!(list(&mut h, 2, 0, 0), vec![]);
    // A listing goes on after the entry that was listed last
    assert_eq!(
        list(&mut h, 2, 100, 1),
        vec![own("..", 1, 2, 4), own("a", 3, 4, 8), own("b", 4, 5, 4)]
    );
    for offset in [2, 3] {
        assert_eq!(
            list(&mut h, 2, 100, offset),
            vec![own("a", 3, 4, 8), own("b", 4, 5, 4)]
        );
    }
    assert_eq!(list(&mut h, 2, 100, 4), vec![own("b", 4, 5, 4)]);
    assert_eq!(list(&mut h, 2, 100, 5), vec![]);
    assert_eq!(list(&mut h, 2, 100, u64::MAX), vec![]);
    for size in [1, 2, 3] {
        let mut all = Vec::new();
        let mut page = list(&mut h, 2, size, 0);
        while !page.is_empty() {
            assert!(page.len() <= size as usize);
            all.extend(page);
            let last = all.last().unwrap().2;
            page = list(&mut h, 2, size, last);
        }
        assert_eq!(all, list(&mut h, 2, 100, 0));
    }
    let r = run(&mut h, |h, c| h.inner_readdir(c, 3, 0, 10, 0));
    assert_eq!(fault(r), said(ErrorKind::NotADirectory, "Not a directory"));
    let r = run(&mut h, |h, c| h.inner_readdir(c, 2, 40, 10, 0));
    assert_eq!(fault(r), said(ErrorKind::InvalidInput, "Invalid handle"));
}

#[test]
fn listed_children_are_looked_up() {
    let (mut h, shared, _) = mounted();
    create(&mut h, 1, "f", 0).unwrap();
    h.count_listed(&b"f".to_vec(), 2);
    h.count_listed(&b".".to_vec(), 2);
    h.count_listed(&b"..".to_vec(), 2);
    run(&mut h, |h, c| h.unlink(c, 1, b"f")).unwrap();
    run(&mut h, |h, c| h.forget(c, 2, 1)).unwrap();
    assert!(shared.borrow().inodes.contains_key(&2));
    run(&mut h, |h, c| h.forget(c, 2, 1)).unwrap();
    assert!(!shared.borrow().inodes.contains_key(&2));
}

#[test]
fn special_files_are_made() {
    let (mut h, shared, _) = mounted();
    let e = run(&mut h, |h, c| {
        h.mknod(c, 7, 8, 1, b"null", 0o020666, 0x103, 0o022)
    })
    .unwrap();
    assert_eq!(e.attr.st_mode, 0o020644);
    assert_eq!(e.attr.st_rdev, 0x103);
    assert_eq!(shared.borrow().inodes[&2].st_rdev, 0x103);
    let r = run(&mut h, |h, c| {
        h.mknod(c, 7, 8, 1, b"null", 0o020666, 0x103, 0o022)
    });
    assert_eq!(
        fault(r),
        said(ErrorKind::AlreadyExists, "File already exists")
    );
}

#[test]
fn symlinks_are_read_back() {
    let (mut h, _, _) = mounted();
    let target = b"../somewhere/else".to_vec();
    let e = run(&mut h, |h, c| h.symlink(c, 7, 8, &target, 1, b"s")).unwrap();
    assert_eq!(e.attr.st_mode, S_IFLNK | 0o777);
    let read = run(&mut h, |h, c| h.readlink(c, e.inode)).unwrap();
    assert_eq!(read, target);
}
