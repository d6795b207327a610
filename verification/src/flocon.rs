//! The storage of a file tree in SQLite: which statements each operation takes,
//! and what their rows mean.

use vstd::prelude::*;
use vstd::string::StringExecFns;
use crate::blocks::FloconContext;
use crate::error::{Error, ErrorKind, ErrorView, EBUSY, ENOENT};
use crate::modes::{S_IFDIR, S_IFMT};
use crate::sql::{SqlValue, SqlView, Statement, StatementView};
use crate::storage::{Overwrite, Resize, WritePlan};
use crate::timestamp::Timestamp;
use crate::winter::{EntryCore, Validity, WinterInode};

verus! {

/// The seconds of a year.
pub const ONE_YEAR: u64 = 31_536_000;

/// How many bytes a block holds. Most files are less than 1 Mio (and then it
/// jumps through the roof) so we'll use this as a block size to limit having
/// to deal with multi-block stuff for most files.
pub const BLOCK_SIZE: i64 = 1_048_576;

/// An inode as it was read from the database.
pub struct FloconInode {
    id: u64,
    mode: u32,
    uid: u32,
    gid: u32,
    size: i64,
    rdev: u64,
    atime: Timestamp,
    mtime: Timestamp,
    ctime: Timestamp,
}

impl WinterInode for FloconInode {
    closed spec fn attrs(&self) -> EntryCore {
        EntryCore {
            st_ino: self.id,
            st_size: self.size,
            st_atime: self.atime@.0,
            st_atime_nsec: self.atime@.1 as i64,
            st_mtime: self.mtime@.0,
            st_mtime_nsec: self.mtime@.1 as i64,
            st_ctime: self.ctime@.0,
            st_ctime_nsec: self.ctime@.1 as i64,
            st_mode: self.mode,
            st_uid: self.uid,
            st_gid: self.gid,
            st_rdev: self.rdev,
        }
    }

    open spec fn attr_validity(attrs: EntryCore) -> Validity {
        Validity { secs: ONE_YEAR, nanos: 0 }
    }

    open spec fn entry_validity(attrs: EntryCore) -> Validity {
        Validity { secs: ONE_YEAR, nanos: 0 }
    }

    open spec fn may_fail_with(error: ErrorView) -> bool {
        false
    }

    fn get_id(&self) -> (r: u64) {
        self.id
    }

    fn get_mode(&self) -> (r: u32) {
        self.mode
    }

    fn make_entry(&self) -> (r: Result<EntryCore, Error>)
        ensures
            r is Ok,
    {
        Ok(
            EntryCore {
                st_ino: self.id,
                st_size: self.size,
                st_atime: self.atime.timestamp(),
                st_atime_nsec: self.atime.timestamp_subsec_nanos() as i64,
                st_mtime: self.mtime.timestamp(),
                st_mtime_nsec: self.mtime.timestamp_subsec_nanos() as i64,
                st_ctime: self.ctime.timestamp(),
                st_ctime_nsec: self.ctime.timestamp_subsec_nanos() as i64,
                st_mode: self.mode,
                st_uid: self.uid,
                st_gid: self.gid,
                st_rdev: self.rdev,
            },
        )
    }

    /// We're not a network file system so we leave the cache in place for
    /// a significant amount of time (the kernel will expire the cache entries
    /// when it modifies things from its own point of view).
    fn attr_valid_time(&self) -> (r: Result<Validity, Error>)
        ensures
            r is Ok,
    {
        Ok(Validity { secs: ONE_YEAR, nanos: 0 })
    }

    /// We're not a network file system so we leave the cache in place for
    /// a significant amount of time (the kernel will expire the cache entries
    /// when it modifies things from its own point of view).
    fn entry_valid_time(&self) -> (r: Result<Validity, Error>)
        ensures
            r is Ok,
    {
        Ok(Validity { secs: ONE_YEAR, nanos: 0 })
    }
}

/// The point in time that the column of this name holds as text, or the error of
/// one that holds none.
pub open spec fn as_time(row: Seq<SqlView>, column: int, name: Seq<char>) -> Result<
    (i64, u32),
    ErrorView,
> {
    match crate::sql::as_text(row, column, name) {
        Ok(text) => match crate::timestamp::rfc3339_read(text) {
            Ok(t) => Ok(t),
            Err(why) => Err(crate::sql::unreadable_text(column, why)),
        },
        Err(error) => Err(error),
    }
}

/// Reads a point in time that is stored as text.
fn get_time(row: &Vec<SqlValue>, column: usize, name: &str) -> (r: Result<Timestamp, Error>)
    ensures
        match as_time(crate::sql::values(row@), column as int, name@) {
            Ok(t) => r matches Ok(x) && x@ == t,
            Err(error) => r matches Err(e) && e@ == error,
        },
{
    let text = match crate::sql::get_text(row, column, name) {
        Ok(t) => t,
        Err(e) => return Err(e),
    };
    match Timestamp::parse_from_rfc3339(text.as_str()) {
        Ok(t) => Ok(t),
        Err(why) => Err(crate::sql::unreadable_text_error(column, why.as_str())),
    }
}

/// The attributes that a row of the `inode` table holds, or the error of the
/// first column that does not hold what it should.
pub open spec fn attrs_of_row(row: Seq<SqlView>) -> Result<EntryCore, ErrorView> {
    match crate::sql::as_u64(row, 0, "id"@) {
        Err(error) => Err(error),
        Ok(id) => match crate::sql::as_u32(row, 1, "mode"@) {
            Err(error) => Err(error),
            Ok(mode) => match crate::sql::as_u32(row, 2, "uid"@) {
                Err(error) => Err(error),
                Ok(uid) => match crate::sql::as_u32(row, 3, "gid"@) {
                    Err(error) => Err(error),
                    Ok(gid) => match crate::sql::as_i64(row, 4, "size"@) {
                        Err(error) => Err(error),
                        Ok(size) => match crate::sql::as_u64(row, 5, "rdev"@) {
                            Err(error) => Err(error),
                            Ok(rdev) => match as_time(row, 6, "atime"@) {
                                Err(error) => Err(error),
                                Ok(atime) => match as_time(row, 7, "mtime"@) {
                                    Err(error) => Err(error),
                                    Ok(mtime) => match as_time(row, 8, "ctime"@) {
                                        Err(error) => Err(error),
                                        Ok(ctime) => Ok(
                                            EntryCore {
                                                st_ino: id,
                                                st_size: size,
                                                st_atime: atime.0,
                                                st_atime_nsec: atime.1 as i64,
                                                st_mtime: mtime.0,
                                                st_mtime_nsec: mtime.1 as i64,
                                                st_ctime: ctime.0,
                                                st_ctime_nsec: ctime.1 as i64,
                                                st_mode: mode,
                                                st_uid: uid,
                                                st_gid: gid,
                                                st_rdev: rdev,
                                            },
                                        ),
                                    },
                                },
                            },
                        },
                    },
                },
            },
        },
    }
}

/// What a query for an inode gives: it does not exist if there is no row.
pub open spec fn inode_of_rows(rows: Seq<Seq<SqlView>>) -> Result<EntryCore, ErrorView> {
    if rows.len() == 0 {
        Err(crate::error::os(ENOENT))
    } else {
        attrs_of_row(rows[0])
    }
}

/// What a query for one number, in the column of this name, gives.
pub open spec fn number_of_rows(rows: Seq<Seq<SqlView>>, name: Seq<char>) -> Result<
    u64,
    ErrorView,
> {
    if rows.len() == 0 {
        Err(crate::sql::no_rows())
    } else {
        crate::sql::as_u64(rows[0], 0, name)
    }
}

/// Reads one number.
fn read_number(rows: &Vec<Vec<SqlValue>>, name: &str) -> (r: Result<u64, Error>)
    ensures
        match number_of_rows(crate::sql::rows(rows@), name@) {
            Ok(n) => r matches Ok(x) && x == n,
            Err(error) => r matches Err(e) && e@ == error,
        },
{
    if rows.len() == 0 {
        return Err(Error::new(ErrorKind::Other, "Query returned no rows"));
    }
    assert(crate::sql::rows(rows@)[0] == crate::sql::values(rows[0]@));
    crate::sql::get_u64(&rows[0], 0, name)
}

/// What a query that counts gives.
pub open spec fn count_of_rows(rows: Seq<Seq<SqlView>>) -> Result<u64, ErrorView> {
    number_of_rows(rows, "count(*)"@)
}

/// Reads how many were counted.
pub fn read_count(rows: &Vec<Vec<SqlValue>>) -> (r: Result<u64, Error>)
    ensures
        match count_of_rows(crate::sql::rows(rows@)) {
            Ok(n) => r matches Ok(x) && x == n,
            Err(error) => r matches Err(e) && e@ == error,
        },
{
    read_number(rows, "count(*)")
}

/// The parents that rows hold, or the error of the first row that holds none.
pub open spec fn ids_of_rows(rows: Seq<Seq<SqlView>>) -> Result<Seq<u64>, ErrorView>
    decreases rows.len(),
{
    if rows.len() == 0 {
        Ok(seq![])
    } else {
        match ids_of_rows(rows.drop_last()) {
            Err(error) => Err(error),
            Ok(head) => match crate::sql::as_u64(rows.last(), 0, "parent_id"@) {
                Ok(id) => Ok(head.push(id)),
                Err(error) => Err(error),
            },
        }
    }
}

/// The child that a row holds, or the error of the first column that does not
/// hold what it should.
pub open spec fn child_of_row(row: Seq<SqlView>) -> Result<(Seq<char>, u64), ErrorView> {
    match crate::sql::as_text(row, 0, "name"@) {
        Err(error) => Err(error),
        Ok(name) => match crate::sql::as_u64(row, 1, "child_id"@) {
            Ok(id) => Ok((name, id)),
            Err(error) => Err(error),
        },
    }
}

/// The children that rows hold, or the error of the first row that holds none.
pub open spec fn children_of_rows(rows: Seq<Seq<SqlView>>) -> Result<
    Seq<(Seq<char>, u64)>,
    ErrorView,
>
    decreases rows.len(),
{
    if rows.len() == 0 {
        Ok(seq![])
    } else {
        match children_of_rows(rows.drop_last()) {
            Err(error) => Err(error),
            Ok(head) => match child_of_row(rows.last()) {
                Ok(child) => Ok(head.push(child)),
                Err(error) => Err(error),
            },
        }
    }
}

/// The names that rows hold, or the error of the first row that holds none.
pub open spec fn texts_of_rows(rows: Seq<Seq<SqlView>>) -> Result<Seq<Seq<char>>, ErrorView>
    decreases rows.len(),
{
    if rows.len() == 0 {
        Ok(seq![])
    } else {
        match texts_of_rows(rows.drop_last()) {
            Err(error) => Err(error),
            Ok(head) => match crate::sql::as_text(rows.last(), 0, "name"@) {
                Ok(text) => Ok(head.push(text)),
                Err(error) => Err(error),
            },
        }
    }
}

/// The first row that holds something else decides, whatever follows it.
proof fn lemma_bad_row(rows: Seq<Seq<SqlView>>, i: int)
    requires
        0 <= i < rows.len(),
    ensures
        ids_of_rows(rows.take(i)) is Ok && crate::sql::as_u64(rows[i], 0, "parent_id"@) is Err
            ==> ids_of_rows(rows) == Err::<Seq<u64>, ErrorView>(
            crate::sql::as_u64(rows[i], 0, "parent_id"@)->Err_0,
        ),
        children_of_rows(rows.take(i)) is Ok && child_of_row(rows[i]) is Err
            ==> children_of_rows(rows) == Err::<Seq<(Seq<char>, u64)>, ErrorView>(
            child_of_row(rows[i])->Err_0,
        ),
        texts_of_rows(rows.take(i)) is Ok && crate::sql::as_text(rows[i], 0, "name"@) is Err
            ==> texts_of_rows(rows) == Err::<Seq<Seq<char>>, ErrorView>(
            crate::sql::as_text(rows[i], 0, "name"@)->Err_0,
        ),
    decreases rows.len(),
{
    if i < rows.len() - 1 {
        assert(rows.drop_last().take(i) =~= rows.take(i));
        lemma_bad_row(rows.drop_last(), i);
    } else {
        assert(rows.drop_last() =~= rows.take(i));
    }
}

/// Reads a list of parents.
pub fn read_ids(rows: &Vec<Vec<SqlValue>>) -> (r: Result<Vec<u64>, Error>)
    ensures
        match ids_of_rows(crate::sql::rows(rows@)) {
            Ok(ids) => r matches Ok(x) && x@ == ids,
            Err(error) => r matches Err(e) && e@ == error,
        },
{
    let ghost all = crate::sql::rows(rows@);
    let mut ids: Vec<u64> = Vec::new();
    let mut i: usize = 0;
    assert(ids@ =~= seq![]);
    while i < rows.len()
        invariant
            i <= rows.len(),
            all == crate::sql::rows(rows@),
            ids_of_rows(all.take(i as int)) == Ok::<Seq<u64>, ErrorView>(ids@),
        decreases rows.len() - i,
    {
        assert(all[i as int] == crate::sql::values(rows[i as int]@));
        match crate::sql::get_u64(&rows[i], 0, "parent_id") {
            Ok(id) => {
                ids.push(id);
                assert(all.take(i + 1).drop_last() =~= all.take(i as int));
            },
            Err(e) => {
                proof {
                    lemma_bad_row(all, i as int);
                }
                return Err(e);
            },
        }
        i = i + 1;
    }
    assert(all.take(i as int) =~= all);
    Ok(ids)
}

/// Reads a child.
fn read_child_row(row: &Vec<SqlValue>) -> (r: Result<(String, u64), Error>)
    ensures
        match child_of_row(crate::sql::values(row@)) {
            Ok(child) => r matches Ok(c) && (c.0@, c.1) == child,
            Err(error) => r matches Err(e) && e@ == error,
        },
{
    let name = match crate::sql::get_text(row, 0, "name") {
        Ok(n) => n,
        Err(e) => return Err(e),
    };
    match crate::sql::get_u64(row, 1, "child_id") {
        Ok(id) => Ok((name, id)),
        Err(e) => Err(e),
    }
}

/// Reads a list of children.
pub fn read_children(rows: &Vec<Vec<SqlValue>>) -> (r: Result<Vec<(String, u64)>, Error>)
    ensures
        match children_of_rows(crate::sql::rows(rows@)) {
            Ok(children) => r matches Ok(x) && crate::winter::named(x@) == children,
            Err(error) => r matches Err(e) && e@ == error,
        },
{
    let ghost all = crate::sql::rows(rows@);
    let mut children: Vec<(String, u64)> = Vec::new();
    let mut i: usize = 0;
    assert(crate::winter::named(children@) =~= seq![]);
    while i < rows.len()
        invariant
            i <= rows.len(),
            all == crate::sql::rows(rows@),
            children_of_rows(all.take(i as int)) == Ok::<Seq<(Seq<char>, u64)>, ErrorView>(
                crate::winter::named(children@),
            ),
        decreases rows.len() - i,
    {
        assert(all[i as int] == crate::sql::values(rows[i as int]@));
        match read_child_row(&rows[i]) {
            Ok(child) => {
                let ghost before = crate::winter::named(children@);
                let ghost c = (child.0@, child.1);
                children.push(child);
                proof {
                    assert(all.take(i + 1).drop_last() =~= all.take(i as int));
                    assert(crate::winter::named(children@) =~= before.push(c));
                }
            },
            Err(e) => {
                proof {
                    lemma_bad_row(all, i as int);
                }
                return Err(e);
            },
        }
        i = i + 1;
    }
    assert(all.take(i as int) =~= all);
    Ok(children)
}

/// Reads a list of names.
pub fn read_texts(rows: &Vec<Vec<SqlValue>>) -> (r: Result<Vec<String>, Error>)
    ensures
        match texts_of_rows(crate::sql::rows(rows@)) {
            Ok(texts) => r matches Ok(x) && crate::winter::texts(x@) == texts,
            Err(error) => r matches Err(e) && e@ == error,
        },
{
    let ghost all = crate::sql::rows(rows@);
    let mut texts: Vec<String> = Vec::new();
    let mut i: usize = 0;
    assert(crate::winter::texts(texts@) =~= seq![]);
    while i < rows.len()
        invariant
            i <= rows.len(),
            all == crate::sql::rows(rows@),
            texts_of_rows(all.take(i as int)) == Ok::<Seq<Seq<char>>, ErrorView>(
                crate::winter::texts(texts@),
            ),
        decreases rows.len() - i,
    {
        assert(all[i as int] == crate::sql::values(rows[i as int]@));
        match crate::sql::get_text(&rows[i], 0, "name") {
            Ok(text) => {
                let ghost before = crate::winter::texts(texts@);
                let ghost t = text@;
                texts.push(text);
                proof {
                    assert(all.take(i + 1).drop_last() =~= all.take(i as int));
                    assert(crate::winter::texts(texts@) =~= before.push(t));
                }
            },
            Err(e) => {
                proof {
                    lemma_bad_row(all, i as int);
                }
                return Err(e);
            },
        }
        i = i + 1;
    }
    assert(all.take(i as int) =~= all);
    Ok(texts)
}

/// The file tree in the `inode` and `link` tables.
pub struct FloconTree;

impl FloconTree {
    /// The query for the child under a name.
    pub open spec fn lookup_statement(parent: u64, name: Seq<char>) -> StatementView {
        crate::sql::statement(
            "select l.child_id from link l where l.parent_id = ? and l.name = ?",
            seq![crate::sql::int_param(parent), SqlView::Text(name)],
        )
    }

    /// Asks for the child under a name.
    pub fn lookup(parent: u64, name: &str) -> (r: Result<Statement, Error>)
        ensures
            if crate::sql::bindable(parent) {
                r matches Ok(s) && s@ == Self::lookup_statement(parent, name@)
            } else {
                r matches Err(e) && e@ == crate::sql::unbindable()
            },
    {
        let parent_param = match crate::sql::bind_u64(parent) {
            Ok(v) => v,
            Err(e) => return Err(e),
        };
        let r = Statement::new(
            "select l.child_id from link l where l.parent_id = ? and l.name = ?",
            vec![parent_param, crate::sql::bind_text(name)],
        );
        assert(r@ =~= Self::lookup_statement(parent, name@));
        Ok(r)
    }

    /// What a query for the child under a name gives: 0 if there is none.
    pub open spec fn child_of_rows(rows: Seq<Seq<SqlView>>) -> Result<u64, ErrorView> {
        if rows.len() == 0 {
            Ok(0)
        } else {
            number_of_rows(rows, "child_id"@)
        }
    }

    /// Reads the child under a name, or 0.
    pub fn read_child(rows: &Vec<Vec<SqlValue>>) -> (r: Result<u64, Error>)
        ensures
            match Self::child_of_rows(crate::sql::rows(rows@)) {
                Ok(id) => r matches Ok(x) && x == id,
                Err(error) => r matches Err(e) && e@ == error,
            },
    {
        if rows.len() == 0 {
            Ok(0)
        } else {
            read_number(rows, "child_id")
        }
    }

    /// The query for an inode.
    pub open spec fn get_inode_statement(inode: u64) -> StatementView {
        crate::sql::statement(
            "select id, mode, uid, gid, size, rdev, atime, mtime, ctime from inode where id = ?",
            seq![crate::sql::int_param(inode)],
        )
    }

    /// Asks for an inode.
    pub fn get_inode(inode: u64) -> (r: Result<Statement, Error>)
        ensures
            if crate::sql::bindable(inode) {
                r matches Ok(s) && s@ == Self::get_inode_statement(inode)
            } else {
                r matches Err(e) && e@ == crate::sql::unbindable()
            },
    {
        Statement::by_id(
            "select id, mode, uid, gid, size, rdev, atime, mtime, ctime from inode where id = ?",
            inode,
        )
    }

    /// Reads an inode.
    pub fn read_inode(rows: &Vec<Vec<SqlValue>>) -> (r: Result<FloconInode, Error>)
        ensures
            match inode_of_rows(crate::sql::rows(rows@)) {
                Ok(attrs) => r matches Ok(i) && i.attrs() == attrs,
                Err(error) => r matches Err(e) && e@ == error,
            },
    {
        if rows.len() == 0 {
            return Err(Error::from_raw_os_error(ENOENT));
        }
        assert(crate::sql::rows(rows@)[0] == crate::sql::values(rows[0]@));
        let row = &rows[0];
        let id: u64 = match crate::sql::get_u64(row, 0, "id") {
            Ok(v) => v,
            Err(e) => return Err(e),
        };
        let mode: u32 = match crate::sql::get_u32(row, 1, "mode") {
            Ok(v) => v,
            Err(e) => return Err(e),
        };
        let uid: u32 = match crate::sql::get_u32(row, 2, "uid") {
            Ok(v) => v,
            Err(e) => return Err(e),
        };
        let gid: u32 = match crate::sql::get_u32(row, 3, "gid") {
            Ok(v) => v,
            Err(e) => return Err(e),
        };
        let size: i64 = match crate::sql::get_i64(row, 4, "size") {
            Ok(v) => v,
            Err(e) => return Err(e),
        };
        let rdev: u64 = match crate::sql::get_u64(row, 5, "rdev") {
            Ok(v) => v,
            Err(e) => return Err(e),
        };
        let atime = match get_time(row, 6, "atime") {
            Ok(v) => v,
            Err(e) => return Err(e),
        };
        let mtime = match get_time(row, 7, "mtime") {
            Ok(v) => v,
            Err(e) => return Err(e),
        };
        let ctime = match get_time(row, 8, "ctime") {
            Ok(v) => v,
            Err(e) => return Err(e),
        };
        Ok(FloconInode { id, mode, uid, gid, size, rdev, atime, mtime, ctime })
    }

    /// An inode that does not exist: all zero, and from the start of 1970.
    pub fn empty_inode() -> (r: FloconInode)
        ensures
            r.attrs() == crate::winter::empty_core(),
    {
        let epoch = Timestamp::epoch();
        FloconInode {
            id: 0,
            mode: 0,
            uid: 0,
            gid: 0,
            size: 0,
            rdev: 0,
            atime: epoch,
            mtime: epoch,
            ctime: epoch,
        }
    }

    /// The query for the number of directories in a directory.
    pub open spec fn count_child_directories_statement(inode: u64) -> StatementView {
        crate::sql::statement(
            "select count(*) from link l inner join inode i on l.child_id = i.id where l.parent_id = ? and (i.mode & ?) = ?",
            seq![
                crate::sql::int_param(inode),
                SqlView::Integer(S_IFMT as i64),
                SqlView::Integer(S_IFDIR as i64),
            ],
        )
    }

    /// Finding children of a given directory which also are directories. This
    /// might sound weird, but that's what is needed in order to simulate
    /// UNIX-style link-counting on directories.
    pub fn count_child_directories(inode: u64) -> (r: Result<Statement, Error>)
        ensures
            if crate::sql::bindable(inode) {
                r matches Ok(s) && s@ == Self::count_child_directories_statement(inode)
            } else {
                r matches Err(e) && e@ == crate::sql::unbindable()
            },
    {
        let inode_param = match crate::sql::bind_u64(inode) {
            Ok(v) => v,
            Err(e) => return Err(e),
        };
        let r = Statement::new(
            "select count(*) from link l inner join inode i on l.child_id = i.id where l.parent_id = ? and (i.mode & ?) = ?",
            vec![
                inode_param,
                SqlValue::Integer(S_IFMT as i64),
                SqlValue::Integer(S_IFDIR as i64),
            ],
        );
        assert(r@ =~= Self::count_child_directories_statement(inode));
        Ok(r)
    }

    /// The query for the parents of an inode.
    pub open spec fn find_parents_of_statement(inode: u64) -> StatementView {
        crate::sql::statement(
            "select parent_id from link where child_id = ?",
            seq![crate::sql::int_param(inode)],
        )
    }

    /// Finds all the potential parents of a given inode, meaning that it's all
    /// the directories in which you would find this inode.
    pub fn find_parents_of(inode: u64) -> (r: Result<Statement, Error>)
        ensures
            if crate::sql::bindable(inode) {
                r matches Ok(s) && s@ == Self::find_parents_of_statement(inode)
            } else {
                r matches Err(e) && e@ == crate::sql::unbindable()
            },
    {
        Statement::by_id("select parent_id from link where child_id = ?", inode)
    }

    /// The statement that stores a new inode, all of whose times are `now`.
    pub open spec fn create_inode_statement(
        mode: u32,
        uid: u32,
        gid: u32,
        rdev: u64,
        now: (i64, u32),
    ) -> StatementView {
        let time = SqlView::Text(crate::timestamp::rfc3339_nanos(now.0, now.1));
        crate::sql::statement(
            "insert into inode (mode, uid, gid, size, rdev, atime, mtime, ctime, btime) values (?, ?, ?, ?, ?, ?, ?, ?, ?)",
            seq![
                SqlView::Integer(mode as i64),
                SqlView::Integer(uid as i64),
                SqlView::Integer(gid as i64),
                SqlView::Integer(0),
                crate::sql::int_param(rdev),
                time,
                time,
                time,
                time,
            ],
        )
    }

    /// Stores a new inode, all of whose times are `now`.
    pub fn create_inode_at(mode: u32, uid: u32, gid: u32, rdev: u64, now: Timestamp) -> (r: Result<
        Statement,
        Error,
    >)
        ensures
            if crate::sql::bindable(rdev) {
                r matches Ok(s) && s@ == Self::create_inode_statement(mode, uid, gid, rdev, now@)
            } else {
                r matches Err(e) && e@ == crate::sql::unbindable()
            },
            r is Ok && crate::timestamp::has_four_digit_year(now@.0)
                ==> crate::timestamp::reads_as(
                crate::timestamp::rfc3339_nanos(now@.0, now@.1),
                now@,
            ),
    {
        let rdev_param = match crate::sql::bind_u64(rdev) {
            Ok(v) => v,
            Err(e) => return Err(e),
        };
        let now_str = now.to_rfc3339_nanos();
        let r = Statement::new(
            "insert into inode (mode, uid, gid, size, rdev, atime, mtime, ctime, btime) values (?, ?, ?, ?, ?, ?, ?, ?, ?)",
            vec![
                SqlValue::Integer(mode as i64),
                SqlValue::Integer(uid as i64),
                SqlValue::Integer(gid as i64),
                SqlValue::Integer(0),
                rdev_param,
                crate::sql::bind_text(now_str.as_str()),
                crate::sql::bind_text(now_str.as_str()),
                crate::sql::bind_text(now_str.as_str()),
                crate::sql::bind_text(now_str.as_str()),
            ],
        );
        assert(r@ =~= Self::create_inode_statement(mode, uid, gid, rdev, now@));
        Ok(r)
    }

    /// Stores a new inode.
    pub fn create_inode(mode: u32, uid: u32, gid: u32, rdev: u64) -> (r: Result<Statement, Error>)
        ensures
            if crate::sql::bindable(rdev) {
                r matches Ok(s) && exists|now: (i64, u32)|
                    crate::timestamp::is_timestamp(now.0, now.1) && s@
                        == #[trigger] Self::create_inode_statement(mode, uid, gid, rdev, now)
            } else {
                r matches Err(e) && e@ == crate::sql::unbindable()
            },
    {
        Self::create_inode_at(mode, uid, gid, rdev, Timestamp::now())
    }

    /// The statement that adds a name to a directory.
    pub open spec fn add_child_statement(
        parent: u64,
        child: u64,
        name: Seq<char>,
    ) -> StatementView {
        crate::sql::statement(
            "insert into link (parent_id, child_id, name) values (?, ?, ?)",
            seq![
                crate::sql::int_param(parent),
                crate::sql::int_param(child),
                SqlView::Text(name),
            ],
        )
    }

    /// Adds a name to a directory.
    pub fn add_child(parent: u64, child: u64, name: &str) -> (r: Result<Statement, Error>)
        ensures
            if crate::sql::bindable(parent) && crate::sql::bindable(child) {
                r matches Ok(s) && s@ == Self::add_child_statement(parent, child, name@)
            } else {
                r matches Err(e) && e@ == crate::sql::unbindable()
            },
    {
        let parent_param = match crate::sql::bind_u64(parent) {
            Ok(v) => v,
            Err(e) => return Err(e),
        };
        let child_param = match crate::sql::bind_u64(child) {
            Ok(v) => v,
            Err(e) => return Err(e),
        };
        let r = Statement::new(
            "insert into link (parent_id, child_id, name) values (?, ?, ?)",
            vec![parent_param, child_param, crate::sql::bind_text(name)],
        );
        assert(r@ =~= Self::add_child_statement(parent, child, name@));
        Ok(r)
    }

    /// The statement that removes a name from a directory.
    pub open spec fn remove_child_statement(parent: u64, name: Seq<char>) -> StatementView {
        crate::sql::statement(
            "delete from link where parent_id = ? and name = ?",
            seq![crate::sql::int_param(parent), SqlView::Text(name)],
        )
    }

    /// Removes a name from a directory.
    pub fn remove_child(parent: u64, name: &str) -> (r: Result<Statement, Error>)
        ensures
            if crate::sql::bindable(parent) {
                r matches Ok(s) && s@ == Self::remove_child_statement(parent, name@)
            } else {
                r matches Err(e) && e@ == crate::sql::unbindable()
            },
    {
        let parent_param = match crate::sql::bind_u64(parent) {
            Ok(v) => v,
            Err(e) => return Err(e),
        };
        let r = Statement::new(
            "delete from link where parent_id = ? and name = ?",
            vec![parent_param, crate::sql::bind_text(name)],
        );
        assert(r@ =~= Self::remove_child_statement(parent, name@));
        Ok(r)
    }

    /// The query for a page of the children of a directory, in the order of
    /// their names.
    pub open spec fn find_children_of_statement(
        parent: u64,
        size: u64,
        offset: u64,
    ) -> StatementView {
        crate::sql::statement(
            "select name, child_id from link where parent_id = ? order by name asc limit ? offset ?",
            seq![
                crate::sql::int_param(parent),
                crate::sql::int_param(size),
                crate::sql::int_param(offset),
            ],
        )
    }

    /// Asks for a page of the children of a directory.
    pub fn find_children_of(parent: u64, size: usize, offset: usize) -> (r: Result<
        Statement,
        Error,
    >)
        ensures
            if crate::sql::bindable(parent) && crate::sql::bindable(size as u64)
                && crate::sql::bindable(offset as u64) {
                r matches Ok(s) && s@ == Self::find_children_of_statement(
                    parent,
                    size as u64,
                    offset as u64,
                )
            } else {
                r matches Err(e) && e@ == crate::sql::unbindable()
            },
    {
        let parent_param = match crate::sql::bind_u64(parent) {
            Ok(v) => v,
            Err(e) => return Err(e),
        };
        let size_param = match crate::sql::bind_u64(size as u64) {
            Ok(v) => v,
            Err(e) => return Err(e),
        };
        let offset_param = match crate::sql::bind_u64(offset as u64) {
            Ok(v) => v,
            Err(e) => return Err(e),
        };
        let r = Statement::new(
            "select name, child_id from link where parent_id = ? order by name asc limit ? offset ?",
            vec![parent_param, size_param, offset_param],
        );
        assert(r@ =~= Self::find_children_of_statement(parent, size as u64, offset as u64));
        Ok(r)
    }

    /// The query for the number of names that lead to an inode.
    pub open spec fn link_count_statement(inode: u64) -> StatementView {
        crate::sql::statement(
            "select count(*) from link where child_id = ?",
            seq![crate::sql::int_param(inode)],
        )
    }

    /// Asks for the number of names that lead to an inode, which is to be
    /// deleted.
    pub fn link_count(inode: u64) -> (r: Result<Statement, Error>)
        ensures
            if crate::sql::bindable(inode) {
                r matches Ok(s) && s@ == Self::link_count_statement(inode)
            } else {
                r matches Err(e) && e@ == crate::sql::unbindable()
            },
    {
        Statement::by_id("select count(*) from link where child_id = ?", inode)
    }

    /// The statements that delete an inode with all that belongs to it: its
    /// blocks, its extended attributes and then the inode itself.
    pub open spec fn delete_inode_statements(inode: u64) -> Seq<StatementView> {
        seq![
            crate::sql::statement(
                "delete from block where inode_id = ?",
                seq![crate::sql::int_param(inode)],
            ),
            crate::sql::statement(
                "delete from xattr where inode_id = ?",
                seq![crate::sql::int_param(inode)],
            ),
            crate::sql::statement(
                "delete from inode where id = ?",
                seq![crate::sql::int_param(inode)],
            ),
        ]
    }

    /// Deletes an inode, unless names still lead to it.
    pub fn delete_inode(inode: u64, link_count: u64) -> (r: Result<Vec<Statement>, Error>)
        ensures
            if link_count > 0 {
                r matches Err(e) && e@ == crate::error::os(EBUSY)
            } else if !crate::sql::bindable(inode) {
                r matches Err(e) && e@ == crate::sql::unbindable()
            } else {
                r matches Ok(s) && crate::sql::statements(s@) == Self::delete_inode_statements(
                    inode,
                )
            },
    {
        if link_count > 0 {
            return Err(Error::from_raw_os_error(EBUSY));
        }
        let blocks = match Statement::by_id("delete from block where inode_id = ?", inode) {
            Ok(s) => s,
            Err(e) => return Err(e),
        };
        let xattrs = match Statement::by_id("delete from xattr where inode_id = ?", inode) {
            Ok(s) => s,
            Err(e) => return Err(e),
        };
        let itself = match Statement::by_id("delete from inode where id = ?", inode) {
            Ok(s) => s,
            Err(e) => return Err(e),
        };
        let r = vec![blocks, xattrs, itself];
        assert(crate::sql::statements(r@) =~= Self::delete_inode_statements(inode));
        Ok(r)
    }
}

/// An open file in the database.
pub struct FloconHandle {
    inode: FloconInode,
    block_size: i64,
    image_name: String,
}

/// Whether this is a field of an inode that holds a number.
pub open spec fn is_numeric_field(name: Seq<char>) -> bool {
    name == "mode"@ || name == "uid"@ || name == "gid"@ || name == "size"@ || name == "rdev"@
}

/// Whether this is a field of an inode that holds a point in time.
pub open spec fn is_datetime_field(name: Seq<char>) -> bool {
    name == "atime"@ || name == "mtime"@ || name == "ctime"@ || name == "btime"@
}

/// The statement that sets a field of an inode.
pub open spec fn update_inode_statement(
    field_name: Seq<char>,
    value: SqlView,
    inode: u64,
) -> StatementView {
    StatementView {
        sql: "update inode set "@ + field_name + " = ? where id = ?"@,
        params: seq![value, crate::sql::int_param(inode)],
    }
}

/// The statement that sets a field of an inode.
fn update_inode(field_name: &str, value: SqlValue, inode: u64) -> (r: Result<Statement, Error>)
    ensures
        if crate::sql::bindable(inode) {
            r matches Ok(s) && s@ == update_inode_statement(field_name@, value@, inode)
        } else {
            r matches Err(e) && e@ == crate::sql::unbindable()
        },
{
    let inode_param = match crate::sql::bind_u64(inode) {
        Ok(v) => v,
        Err(e) => return Err(e),
    };
    let mut sql = "update inode set ".to_string();
    sql.append(field_name);
    sql.append(" = ? where id = ?");
    let r = Statement { sql, params: vec![value, inode_param] };
    assert(r@ =~= update_inode_statement(field_name@, value@, inode));
    Ok(r)
}

/// Where the value of an extended attribute comes from.
#[derive(Clone, Copy, Debug, PartialEq, Eq, Structural)]
pub enum XattrSource {
    /// It is the name of the image.
    Image,
    /// There is none.
    Nowhere,
    /// It is what is stored under the key, if anything is.
    Table,
}

/// Whether the key is one of those that only the file system itself sets.
pub open spec fn is_reserved(key: Seq<char>) -> bool {
    crate::text::begins_with(key, "flocon."@)
}

/// Where the value under a key comes from: what comes before the first dot of
/// the key decides.
pub open spec fn xattr_source(key: Seq<char>) -> XattrSource {
    if key == "flocon.image"@ {
        XattrSource::Image
    } else if key == "flocon"@ || is_reserved(key) {
        XattrSource::Nowhere
    } else {
        XattrSource::Table
    }
}

/// The error for an extended attribute that does not exist.
pub open spec fn no_data() -> ErrorView {
    crate::error::message(ErrorKind::NotFound, "No data available")
}

impl FloconHandle {
    #[verifier::type_invariant]
    spec fn has_blocks(self) -> bool {
        self.block_size > 0
    }

    /// The attributes that the handle keeps.
    pub closed spec fn attrs(&self) -> EntryCore {
        self.inode.attrs()
    }

    /// How many bytes a block of the file holds.
    pub closed spec fn block_bytes(&self) -> i64 {
        self.block_size
    }

    /// The name of the image.
    pub closed spec fn image(&self) -> Seq<char> {
        self.image_name@
    }

    /// A handle on an inode.
    pub fn new(inode: FloconInode, block_size: i64, image_name: String) -> (r: Self)
        requires
            block_size > 0,
        ensures
            r.attrs() == inode.attrs(),
            r.block_bytes() == block_size,
            r.image() == image_name@,
    {
        FloconHandle { inode, block_size, image_name }
    }

    /// Returns the inode handled by this handle.
    pub fn get_inode(&self) -> (r: &FloconInode)
        ensures
            r.attrs() == self.attrs(),
    {
        &self.inode
    }

    /// Keeps the inode as it was read anew.
    pub fn reload(&mut self, inode: FloconInode)
        ensures
            final(self).attrs() == inode.attrs(),
            final(self).block_bytes() == old(self).block_bytes(),
            final(self).image() == old(self).image(),
    {
        proof {
            use_type_invariant(&*self);
        }
        self.inode = inode;
    }

    /// Keeps another size of the inode.
    pub fn keep_size(&mut self, size: i64)
        ensures
            final(self).attrs() == crate::winter::with_size(size)(old(self).attrs()),
            final(self).block_bytes() == old(self).block_bytes(),
            final(self).image() == old(self).image(),
    {
        proof {
            use_type_invariant(&*self);
        }
        self.inode.size = size;
    }

    /// Update a numeric field in the inode.
    pub fn update_inode_numeric(&self, field_name: &str, value: u64) -> (r: Result<
        Statement,
        Error,
    >)
        ensures
            if !is_numeric_field(field_name@) {
                r matches Err(e) && e@ == crate::error::invalid("Invalid field name")
            } else if crate::sql::bindable(value) && crate::sql::bindable(self.attrs().st_ino) {
                r matches Ok(s) && s@ == update_inode_statement(
                    field_name@,
                    crate::sql::int_param(value),
                    self.attrs().st_ino,
                )
            } else {
                r matches Err(e) && e@ == crate::sql::unbindable()
            },
    {
        // Validate field name to prevent SQL injection
        if !(crate::text::same_text(field_name, "mode") || crate::text::same_text(
            field_name,
            "uid",
        ) || crate::text::same_text(field_name, "gid") || crate::text::same_text(
            field_name,
            "size",
        ) || crate::text::same_text(field_name, "rdev")) {
            return Err(Error::new(ErrorKind::InvalidInput, "Invalid field name"));
        }
        match crate::sql::bind_u64(value) {
            Ok(param) => update_inode(field_name, param, self.inode.id),
            Err(e) => Err(e),
        }
    }

    /// Update a datetime field in the inode. In the years 0 to 9999 the value
    /// is read back as it was set.
    pub fn update_inode_datetime(&self, field_name: &str, value: Timestamp) -> (r: Result<
        Statement,
        Error,
    >)
        ensures
            if !is_datetime_field(field_name@) {
                r matches Err(e) && e@ == crate::error::invalid("Invalid field name")
            } else if crate::sql::bindable(self.attrs().st_ino) {
                r matches Ok(s) && s@ == update_inode_statement(
                    field_name@,
                    SqlView::Text(crate::timestamp::rfc3339_nanos(value@.0, value@.1)),
                    self.attrs().st_ino,
                )
            } else {
                r matches Err(e) && e@ == crate::sql::unbindable()
            },
            r is Ok && crate::timestamp::has_four_digit_year(value@.0)
                ==> crate::timestamp::reads_as(
                crate::timestamp::rfc3339_nanos(value@.0, value@.1),
                value@,
            ),
    {
        // Validate field name to prevent SQL injection
        if !(crate::text::same_text(field_name, "atime") || crate::text::same_text(
            field_name,
            "mtime",
        ) || crate::text::same_text(field_name, "ctime") || crate::text::same_text(
            field_name,
            "btime",
        )) {
            return Err(Error::new(ErrorKind::InvalidInput, "Invalid field name"));
        }
        // Convert datetime to string with nanosecond precision
        let datetime_str = value.to_rfc3339_nanos();
        update_inode(field_name, SqlValue::Text(datetime_str), self.inode.id)
    }

    /// The statements that empty the file.
    pub open spec fn truncate_statements(inode: u64) -> Seq<StatementView> {
        seq![
            crate::sql::statement(
                "delete from block where inode_id = ?",
                seq![crate::sql::int_param(inode)],
            ),
            crate::sql::statement(
                "update inode set size = 0 where id = ?",
                seq![crate::sql::int_param(inode)],
            ),
        ]
    }

    /// Empties the file completely.
    pub fn truncate(&self) -> (r: Result<Vec<Statement>, Error>)
        ensures
            if crate::sql::bindable(self.attrs().st_ino) {
                r matches Ok(s) && crate::sql::statements(s@) == Self::truncate_statements(
                    self.attrs().st_ino,
                )
            } else {
                r matches Err(e) && e@ == crate::sql::unbindable()
            },
    {
        let blocks = match Statement::by_id("delete from block where inode_id = ?", self.inode.id) {
            Ok(s) => s,
            Err(e) => return Err(e),
        };
        let size = match Statement::by_id(
            "update inode set size = 0 where id = ?",
            self.inode.id,
        ) {
            Ok(s) => s,
            Err(e) => return Err(e),
        };
        let r = vec![blocks, size];
        assert(crate::sql::statements(r@) =~= Self::truncate_statements(self.attrs().st_ino));
        Ok(r)
    }

    /// What a change to this size asks for.
    pub fn set_size(&self, size: i64) -> (r: Resize)
        ensures
            r == if size == self.attrs().st_size {
                Resize::Keep
            } else if size < self.attrs().st_size {
                Resize::Shrink { truncate_point: size }
            } else {
                Resize::Grow { fill: self.attrs().st_size > 0 }
            },
    {
        crate::storage::resize(self.inode.size, size)
    }

    /// Records a new size.
    pub fn record_size(&self, size: i64) -> (r: Result<Statement, Error>)
        ensures
            if size >= 0 && crate::sql::bindable(self.attrs().st_ino) {
                r matches Ok(s) && s@ == update_inode_statement(
                    "size"@,
                    SqlView::Integer(size),
                    self.attrs().st_ino,
                )
            } else {
                r matches Err(e) && e@ == crate::sql::unbindable()
            },
    {
        if size < 0 {
            return Err(
                Error::new(ErrorKind::Other, "out of range integral type conversion attempted"),
            );
        }
        self.update_inode_numeric("size", size as u64)
    }

    /// The range that a read touches.
    pub fn read_window(&self, size: usize, offset: i64) -> (r: Result<Option<(u64, u64)>, Error>)
        requires
            size <= i64::MAX,
            i64::MIN < offset + size <= i64::MAX,
        ensures
            match crate::storage::window(self.attrs().st_size, size as nat, offset) {
                Ok(w) => r matches Ok(x) && x == w,
                Err(error) => r matches Err(e) && e@ == error,
            },
    {
        crate::storage::read_window(self.inode.size, size, offset)
    }

    /// Asks for the stored blocks that meet a range.
    pub fn overlapping_blocks(&self, first_byte: i64, last_byte: i64) -> (r: Result<
        Statement,
        Error,
    >)
        ensures
            if crate::sql::bindable(self.attrs().st_ino) {
                r matches Ok(s) && s@ == crate::storage::overlapping_blocks_statement(
                    self.attrs().st_ino,
                    first_byte,
                    last_byte,
                )
            } else {
                r matches Err(e) && e@ == crate::sql::unbindable()
            },
    {
        crate::storage::overlapping_blocks(self.inode.id, first_byte, last_byte)
    }

    /// Refuses a write for which fewer or more bytes came than were announced.
    pub fn check_incoming(size: usize, bytes_read: usize) -> (r: Result<(), Error>)
        ensures
            if bytes_read == size {
                r is Ok
            } else {
                r matches Err(e) && e@ == crate::error::message(
                    ErrorKind::Other,
                    "Unexpected EOF",
                )
            },
    {
        if bytes_read != size {
            Err(Error::new(ErrorKind::Other, "Unexpected EOF"))
        } else {
            Ok(())
        }
    }

    /// Works out the blocks that a write leaves.
    pub fn prepare_write(&self, rows: &Vec<Vec<SqlValue>>, offset: i64, data: &Vec<u8>) -> (r:
        Result<Overwrite, Error>)
        requires
            offset + data@.len() <= i64::MAX,
            offset >= 0 || offset + data@.len() <= 0,
        ensures
            match crate::storage::blocks_of_rows(crate::sql::rows(rows@), 1) {
                Ok(s) => {
                    if offset < 0 && data@.len() > 0 {
                        r matches Err(e) && e@ == crate::sql::unbindable()
                    } else {
                        r matches Ok(o) && {
                            &&& o.ids@ == crate::storage::ids(s)
                            &&& o.sequence@ == if offset < 0 {
                                s
                            } else {
                                crate::storage::overwrite(
                                    s,
                                    offset as u64,
                                    data@,
                                    self.block_bytes() as u64,
                                )
                            }
                            &&& crate::storage::all_sound(o.sequence@)
                            &&& forall|i: int|
                                0 <= i < o.ids@.len() ==> #[trigger] o.ids@[i] <= i64::MAX
                        }
                    }
                },
                Err(error) => r matches Err(e) && e@ == error,
            },
    {
        proof {
            use_type_invariant(self);
        }
        crate::storage::prepare_write(rows, offset, data, self.block_size as u64)
    }

    /// Plans a write of `len` bytes at `offset` whose blocks have been worked
    /// out.
    pub fn plan_write(&self, offset: i64, len: usize, write: &Overwrite, context: &FloconContext) -> (r:
        Result<WritePlan, Error>)
        requires
            len <= i64::MAX,
            offset + len <= i64::MAX,
            crate::storage::new_blocks_readable(write.sequence@, context@),
            forall|i: int| 0 <= i < write.ids@.len() ==> #[trigger] write.ids@[i] <= i64::MAX,
        ensures
            ({
                let inode = self.attrs().st_ino;
                let file_size = self.attrs().st_size;
                if crate::storage::new_blocks_storable(inode, write.sequence@) && (offset + len
                    > file_size ==> crate::sql::bindable(inode)) {
                    r matches Ok(plan) && {
                        &&& crate::sql::statements(plan.statements@)
                            == crate::storage::write_statements(
                            inode,
                            file_size,
                            offset + len,
                            write.ids@,
                            write.sequence@,
                            context@,
                        )
                        &&& plan.size == crate::storage::larger(offset + len, file_size as int)
                    }
                } else {
                    r matches Err(e) && e@ == crate::sql::unbindable()
                }
            }),
    {
        crate::storage::plan_write(self.inode.id, self.inode.size, offset, len, write, context)
    }

    /// Plans an append: the data goes to the end of the file.
    pub fn plan_append(&self, data: &Vec<u8>) -> (r: Result<WritePlan, Error>)
        requires
            data@.len() <= i64::MAX,
        ensures
            ({
                let inode = self.attrs().st_ino;
                let file_size = self.attrs().st_size;
                let block_size = self.block_bytes() as u64;
                if crate::storage::appendable(inode, file_size, data@, block_size) {
                    r matches Ok(plan) && {
                        &&& crate::sql::statements(plan.statements@)
                            == crate::storage::append_statements(
                            inode,
                            file_size,
                            data@,
                            block_size,
                        )
                        &&& plan.size == file_size + data@.len()
                    }
                } else {
                    r matches Err(e) && e@ == crate::sql::unbindable()
                }
            }),
    {
        proof {
            use_type_invariant(self);
        }
        crate::storage::plan_append(self.inode.id, self.inode.size, data, self.block_size as u64)
    }
}

impl FloconHandle {
    /// The statement that changes an extended attribute that exists.
    pub open spec fn xattr_update_statement(
        inode: u64,
        key: Seq<char>,
        value: Seq<u8>,
    ) -> StatementView {
        crate::sql::statement(
            "update xattr set value = ? where inode_id = ? and name = ?",
            seq![SqlView::Blob(value), crate::sql::int_param(inode), SqlView::Text(key)],
        )
    }

    /// Tries to change an existing extended attribute. Those of the file
    /// system itself are refused.
    pub fn xattr_set(&self, key: &str, value: &[u8]) -> (r: Result<Statement, Error>)
        ensures
            if is_reserved(key@) {
                r matches Err(e) && e@ == crate::error::message(
                    ErrorKind::PermissionDenied,
                    "Cannot set flocon.* attributes",
                )
            } else if crate::sql::bindable(self.attrs().st_ino) {
                r matches Ok(s) && s@ == Self::xattr_update_statement(
                    self.attrs().st_ino,
                    key@,
                    value@,
                )
            } else {
                r matches Err(e) && e@ == crate::sql::unbindable()
            },
    {
        if crate::text::starts_with(key, "flocon.") {
            return Err(
                Error::new(ErrorKind::PermissionDenied, "Cannot set flocon.* attributes"),
            );
        }
        let inode_param = match crate::sql::bind_u64(self.inode.id) {
            Ok(v) => v,
            Err(e) => return Err(e),
        };
        let r = Statement::new(
            "update xattr set value = ? where inode_id = ? and name = ?",
            vec![crate::sql::bind_blob(value), inode_param, crate::sql::bind_text(key)],
        );
        assert(r@ =~= Self::xattr_update_statement(self.attrs().st_ino, key@, value@));
        Ok(r)
    }

    /// The statement that adds an extended attribute.
    pub open spec fn xattr_insert_statement(
        inode: u64,
        key: Seq<char>,
        value: Seq<u8>,
    ) -> StatementView {
        crate::sql::statement(
            "insert into xattr (inode_id, name, value) values (?, ?, ?)",
            seq![crate::sql::int_param(inode), SqlView::Text(key), SqlView::Blob(value)],
        )
    }

    /// Adds the extended attribute if none was changed.
    pub fn xattr_insert(&self, updated: usize, key: &str, value: &[u8]) -> (r: Result<
        Option<Statement>,
        Error,
    >)
        ensures
            if updated != 0 {
                r matches Ok(s) && s is None
            } else if crate::sql::bindable(self.attrs().st_ino) {
                r matches Ok(Some(s)) && s@ == Self::xattr_insert_statement(
                    self.attrs().st_ino,
                    key@,
                    value@,
                )
            } else {
                r matches Err(e) && e@ == crate::sql::unbindable()
            },
    {
        if updated != 0 {
            return Ok(None);
        }
        let inode_param = match crate::sql::bind_u64(self.inode.id) {
            Ok(v) => v,
            Err(e) => return Err(e),
        };
        let r = Statement::new(
            "insert into xattr (inode_id, name, value) values (?, ?, ?)",
            vec![inode_param, crate::sql::bind_text(key), crate::sql::bind_blob(value)],
        );
        assert(r@ =~= Self::xattr_insert_statement(self.attrs().st_ino, key@, value@));
        Ok(Some(r))
    }

    /// Tells where the value of an extended attribute comes from.
    pub fn xattr_get(key: &str) -> (r: XattrSource)
        ensures
            r == xattr_source(key@),
    {
        if crate::text::same_text(key, "flocon.image") {
            XattrSource::Image
        } else if crate::text::same_text(key, "flocon") || crate::text::starts_with(
            key,
            "flocon.",
        ) {
            XattrSource::Nowhere
        } else {
            XattrSource::Table
        }
    }

    /// The query for a stored extended attribute.
    pub open spec fn xattr_query_statement(inode: u64, key: Seq<char>) -> StatementView {
        crate::sql::statement(
            "select value from xattr where inode_id = ? and name = ?",
            seq![crate::sql::int_param(inode), SqlView::Text(key)],
        )
    }

    /// Asks for a stored extended attribute.
    pub fn xattr_query(&self, key: &str) -> (r: Result<Statement, Error>)
        ensures
            if crate::sql::bindable(self.attrs().st_ino) {
                r matches Ok(s) && s@ == Self::xattr_query_statement(self.attrs().st_ino, key@)
            } else {
                r matches Err(e) && e@ == crate::sql::unbindable()
            },
    {
        let inode_param = match crate::sql::bind_u64(self.inode.id) {
            Ok(v) => v,
            Err(e) => return Err(e),
        };
        let r = Statement::new(
            "select value from xattr where inode_id = ? and name = ?",
            vec![inode_param, crate::sql::bind_text(key)],
        );
        assert(r@ =~= Self::xattr_query_statement(self.attrs().st_ino, key@));
        Ok(r)
    }

    /// What an extended attribute is, given the rows under its key.
    pub open spec fn xattr_of_rows(
        key: Seq<char>,
        image: Seq<char>,
        rows: Seq<Seq<SqlView>>,
    ) -> Result<Seq<u8>, ErrorView> {
        match xattr_source(key) {
            XattrSource::Image => Ok(vstd::utf8::encode_utf8(image)),
            XattrSource::Nowhere => Err(no_data()),
            XattrSource::Table => if rows.len() == 0 {
                Err(no_data())
            } else {
                crate::sql::as_blob(rows[0], 0, "value"@)
            },
        }
    }

    /// Reads an extended attribute, given the rows under its key.
    pub fn read_xattr(&self, key: &str, rows: &Vec<Vec<SqlValue>>) -> (r: Result<Vec<u8>, Error>)
        ensures
            match Self::xattr_of_rows(key@, self.image(), crate::sql::rows(rows@)) {
                Ok(value) => r matches Ok(v) && v@ == value,
                Err(error) => r matches Err(e) && e@ == error,
            },
    {
        match Self::xattr_get(key) {
            XattrSource::Image => Ok(
                crate::sql::copy_bytes(self.image_name.as_str().as_bytes()),
            ),
            XattrSource::Nowhere => Err(Error::new(ErrorKind::NotFound, "No data available")),
            XattrSource::Table => {
                if rows.len() == 0 {
                    return Err(Error::new(ErrorKind::NotFound, "No data available"));
                }
                assert(crate::sql::rows(rows@)[0] == crate::sql::values(rows[0]@));
                crate::sql::get_blob(&rows[0], 0, "value")
            },
        }
    }

    /// The statement that removes an extended attribute.
    pub open spec fn xattr_delete_statement(inode: u64, key: Seq<char>) -> StatementView {
        crate::sql::statement(
            "delete from xattr where inode_id = ? and name = ?",
            seq![crate::sql::int_param(inode), SqlView::Text(key)],
        )
    }

    /// Removes an extended attribute. Those of the file system itself are
    /// refused.
    pub fn xattr_remove(&self, key: &str) -> (r: Result<Statement, Error>)
        ensures
            if is_reserved(key@) {
                r matches Err(e) && e@ == crate::error::message(
                    ErrorKind::PermissionDenied,
                    "Cannot remove flocon.* attributes",
                )
            } else if crate::sql::bindable(self.attrs().st_ino) {
                r matches Ok(s) && s@ == Self::xattr_delete_statement(self.attrs().st_ino, key@)
            } else {
                r matches Err(e) && e@ == crate::sql::unbindable()
            },
    {
        if crate::text::starts_with(key, "flocon.") {
            return Err(
                Error::new(ErrorKind::PermissionDenied, "Cannot remove flocon.* attributes"),
            );
        }
        let inode_param = match crate::sql::bind_u64(self.inode.id) {
            Ok(v) => v,
            Err(e) => return Err(e),
        };
        let r = Statement::new(
            "delete from xattr where inode_id = ? and name = ?",
            vec![inode_param, crate::sql::bind_text(key)],
        );
        assert(r@ =~= Self::xattr_delete_statement(self.attrs().st_ino, key@));
        Ok(r)
    }

    /// What removing an extended attribute comes to, given how many rows it
    /// took out.
    pub fn xattr_removed(deleted: usize) -> (r: Result<(), Error>)
        ensures
            if deleted == 0 {
                r matches Err(e) && e@ == no_data()
            } else {
                r is Ok
            },
    {
        if deleted == 0 {
            Err(Error::new(ErrorKind::NotFound, "No data available"))
        } else {
            Ok(())
        }
    }

    /// The query for the keys of the stored extended attributes.
    pub open spec fn xattr_keys_statement(inode: u64) -> StatementView {
        crate::sql::statement(
            "select name from xattr where inode_id = ?",
            seq![crate::sql::int_param(inode)],
        )
    }

    /// Asks for the keys of the stored extended attributes.
    pub fn xattr_list(&self) -> (r: Result<Statement, Error>)
        ensures
            if crate::sql::bindable(self.attrs().st_ino) {
                r matches Ok(s) && s@ == Self::xattr_keys_statement(self.attrs().st_ino)
            } else {
                r matches Err(e) && e@ == crate::sql::unbindable()
            },
    {
        Statement::by_id("select name from xattr where inode_id = ?", self.inode.id)
    }

    /// The keys of all the extended attributes, given those that are stored.
    pub open spec fn all_keys(stored: Seq<Seq<char>>) -> Seq<Seq<char>> {
        stored.push("flocon.image"@)
    }

    /// Reads the keys of the extended attributes: those that are stored, and
    /// that of the image.
    pub fn read_xattr_keys(rows: &Vec<Vec<SqlValue>>) -> (r: Result<Vec<String>, Error>)
        ensures
            match texts_of_rows(crate::sql::rows(rows@)) {
                Ok(keys) => r matches Ok(x) && crate::winter::texts(x@) == Self::all_keys(keys),
                Err(error) => r matches Err(e) && e@ == error,
            },
    {
        match read_texts(rows) {
            Ok(mut names) => {
                let ghost before = crate::winter::texts(names@);
                names.push("flocon.image".to_string());
                assert(crate::winter::texts(names@) =~= before.push("flocon.image"@));
                Ok(names)
            },
            Err(e) => Err(e),
        }
    }
}

/// An extended attribute that may be set is read from where it is stored,
/// unless its key is `flocon`; one that may not be set never is.
pub proof fn settable_xattrs_are_read_from_storage(key: Seq<char>)
    ensures
        !is_reserved(key) && key != "flocon"@ ==> xattr_source(key) == XattrSource::Table,
        is_reserved(key) ==> xattr_source(key) != XattrSource::Table,
{
    reveal_strlit("flocon.image");
    reveal_strlit("flocon.");
    assert("flocon.image"@.take(7) =~= "flocon."@);
}

/// An extended attribute that was stored under a key that may be set is read
/// back, unless the key is `flocon`.
pub proof fn stored_xattr_is_read_back(
    key: Seq<char>,
    value: Seq<u8>,
    image: Seq<char>,
    rows: Seq<Seq<SqlView>>,
)
    requires
        !is_reserved(key),
        key != "flocon"@,
        rows.len() > 0,
        rows[0] == seq![SqlView::Blob(value)],
    ensures
        FloconHandle::xattr_of_rows(key, image, rows) == Ok::<Seq<u8>, ErrorView>(value),
{
    settable_xattrs_are_read_from_storage(key);
}

/// The keys that are listed are those that are stored and one more, which gives
/// the name of the image whatever is stored; what else has its prefix gives
/// nothing, and can neither be set nor removed.
pub proof fn image_xattr_gives_the_image(
    stored: Seq<Seq<char>>,
    image: Seq<char>,
    rows: Seq<Seq<SqlView>>,
    key: Seq<char>,
)
    ensures
        ({
            let keys = FloconHandle::all_keys(stored);
            &&& keys.len() == stored.len() + 1
            &&& keys.take(stored.len() as int) == stored
            &&& FloconHandle::xattr_of_rows(keys.last(), image, rows) == Ok::<Seq<u8>, ErrorView>(
                vstd::utf8::encode_utf8(image),
            )
            &&& is_reserved(keys.last())
            &&& is_reserved(key) <==> exists|rest: Seq<char>| key == #[trigger] ("flocon."@ + rest)
            &&& (is_reserved(key) && key != keys.last()) || key == "flocon"@
                ==> FloconHandle::xattr_of_rows(key, image, rows) == Err::<Seq<u8>, ErrorView>(
                no_data(),
            )
            &&& !is_reserved(key) && key != "flocon"@ && rows.len() == 0
                ==> FloconHandle::xattr_of_rows(key, image, rows) == Err::<Seq<u8>, ErrorView>(
                no_data(),
            )
            &&& no_data().kind() == ErrorKind::NotFound
        }),
{
    let keys = FloconHandle::all_keys(stored);
    assert(keys.take(stored.len() as int) =~= stored);
    settable_xattrs_are_read_from_storage(key);
    reveal_strlit("flocon");
    reveal_strlit("flocon.image");
    reveal_strlit("flocon.");
    assert("flocon.image"@.take(7) =~= "flocon."@);
    if is_reserved(key) {
        assert(key =~= "flocon."@ + key.skip(7));
    }
    if exists|rest: Seq<char>| key == #[trigger] ("flocon."@ + rest) {
        let rest = choose|rest: Seq<char>| key == #[trigger] ("flocon."@ + rest);
        assert(key.take(7) =~= "flocon."@);
    }
}

/// What the database gives for an extended attribute of an inode, if its table
/// holds these.
pub open spec fn xattr_rows(
    table: Map<(u64, Seq<char>), Seq<u8>>,
    inode: u64,
    key: Seq<char>,
) -> Seq<Seq<SqlView>> {
    if table.contains_key((inode, key)) {
        seq![seq![SqlView::Blob(table[(inode, key)])]]
    } else {
        seq![]
    }
}

/// Getting an extended attribute that may be set, unless its key is `flocon`,
/// gives the value that was set last, and after it was removed it is not found.
/// No other one changes.
pub proof fn xattr_get_gives_the_last_value(
    table: Map<(u64, Seq<char>), Seq<u8>>,
    inode: u64,
    key: Seq<char>,
    value: Seq<u8>,
    image: Seq<char>,
    other: Seq<char>,
)
    requires
        !is_reserved(key),
        key != "flocon"@,
    ensures
        ({
            let set = table.insert((inode, key), value);
            let removed = table.remove((inode, key));
            &&& FloconHandle::xattr_of_rows(key, image, xattr_rows(set, inode, key)) == Ok::<
                Seq<u8>,
                ErrorView,
            >(value)
            &&& FloconHandle::xattr_of_rows(key, image, xattr_rows(removed, inode, key)) == Err::<
                Seq<u8>,
                ErrorView,
            >(no_data())
            &&& other != key ==> {
                &&& xattr_rows(set, inode, other) == xattr_rows(table, inode, other)
                &&& xattr_rows(removed, inode, other) == xattr_rows(table, inode, other)
            }
        }),
{
    settable_xattrs_are_read_from_storage(key);
}

/// Whether one text comes before another: in the first byte in which they
/// differ, or because it ends there.
pub open spec fn comes_before(a: Seq<u8>, b: Seq<u8>) -> bool {
    exists|k: int|
        {
            &&& 0 <= k <= a.len()
            &&& k < b.len()
            &&& #[trigger] a.take(k) == b.take(k)
            &&& k < a.len() ==> a[k] < b[k]
        }
}

/// Whether children are in the order of their names.
pub open spec fn by_name(children: Seq<(Seq<char>, u64)>) -> bool {
    forall|i: int, j: int|
        0 <= i < j < children.len() ==> comes_before(
            vstd::utf8::encode_utf8((#[trigger] children[i]).0),
            vstd::utf8::encode_utf8((#[trigger] children[j]).0),
        )
}

/// What the database gives for children.
pub open spec fn rows_of_children(children: Seq<(Seq<char>, u64)>) -> Seq<Seq<SqlView>> {
    children.map_values(
        |c: (Seq<char>, u64)| seq![SqlView::Text(c.0), crate::sql::int_param(c.1)],
    )
}

/// Children are read out of their rows.
proof fn lemma_children_read_back(children: Seq<(Seq<char>, u64)>)
    requires
        forall|i: int| 0 <= i < children.len() ==> (#[trigger] children[i]).1 <= i64::MAX,
    ensures
        children_of_rows(rows_of_children(children)) == Ok::<Seq<(Seq<char>, u64)>, ErrorView>(
            children,
        ),
    decreases children.len(),
{
    let rows = rows_of_children(children);
    if children.len() == 0 {
        assert(children =~= seq![]);
    } else {
        let head = children.drop_last();
        lemma_children_read_back(head);
        assert(rows.drop_last() =~= rows_of_children(head));
        assert(head.push(children.last()) =~= children);
    }
}

/// The children of a directory are listed in the order of their names, and the
/// pages of the list add up: `all` are the children that the query goes
/// through, in its order, and each page of them that it gives is read as it
/// is, has at most `size` of them, and goes on where the one before it ended.
pub proof fn pages_of_children_add_up(
    state: crate::winter::FsState,
    parent: u64,
    all: Seq<(Seq<char>, u64)>,
    size: usize,
    n: nat,
    offset: usize,
)
    requires
        crate::winter::lists_children(all, state, parent),
        by_name(all),
        forall|i: int| 0 <= i < all.len() ==> (#[trigger] all[i]).1 <= i64::MAX,
        size > 0,
        n * size >= all.len(),
    ensures
        ({
            let page = crate::winter::page(all, size as int, offset as int);
            let together = crate::tree_laws::pages(all, size as int, n);
            &&& children_of_rows(rows_of_children(page)) == Ok::<
                Seq<(Seq<char>, u64)>,
                ErrorView,
            >(page)
            &&& page.len() <= size
            &&& together == all
            &&& crate::winter::lists_children(together, state, parent)
            &&& by_name(together)
        }),
{
    let page = crate::winter::page(all, size as int, offset as int);
    assert forall|i: int| 0 <= i < page.len() implies (#[trigger] page[i]).1 <= i64::MAX by {
        assert(page[i] == all[offset + i]);
    }
    lemma_children_read_back(page);
    crate::tree_laws::pages_add_up_to_all_children(all, state, parent, size, n, offset);
}

/// The storage as a whole.
pub struct Flocon;

impl Flocon {
    /// How many bytes a block holds.
    pub fn block_size() -> (r: i64)
        ensures
            r == BLOCK_SIZE,
            r > 0,
    {
        BLOCK_SIZE
    }

    /// The name under which the image shows: that of its file, if it has one.
    pub fn image_name(file_name: Option<String>) -> (r: String)
        ensures
            r@ == match file_name {
                Some(name) => name@,
                None => "unknown"@,
            },
    {
        match file_name {
            Some(name) => name,
            None => "unknown".to_string(),
        }
    }

    /// How many bytes are free on the supporting media: so many blocks of so
    /// many bytes, in the arithmetic of 64-bit numbers.
    pub fn free_storage(blocks: u64, block_bytes: u64) -> (r: u64)
        ensures
            r == (blocks * block_bytes) % 0x1_0000_0000_0000_0000,
    {
        blocks.wrapping_mul(block_bytes)
    }

    /// The query for the number of inodes.
    pub open spec fn files_count_statement() -> StatementView {
        crate::sql::statement("select count(*) from inode", seq![])
    }

    /// Asks for the number of inodes.
    pub fn estimate_files_count() -> (r: Statement)
        ensures
            r@ == Self::files_count_statement(),
    {
        Statement::bare("select count(*) from inode")
    }

    /// The statement that begins a transaction.
    pub open spec fn begin_statement() -> StatementView {
        crate::sql::statement("begin", seq![])
    }

    /// Begins a transaction.
    pub fn create_context() -> (r: Statement)
        ensures
            r@ == Self::begin_statement(),
    {
        Statement::bare("begin")
    }

    /// The statement that commits a transaction.
    pub open spec fn commit_statement() -> StatementView {
        crate::sql::statement("commit", seq![])
    }

    /// Commits a transaction.
    pub fn sync_context() -> (r: Statement)
        ensures
            r@ == Self::commit_statement(),
    {
        Statement::bare("commit")
    }

    /// The statement that rolls a transaction back.
    pub open spec fn rollback_statement() -> StatementView {
        crate::sql::statement("rollback", seq![])
    }

    /// Rolls a transaction back.
    pub fn rollback_context() -> (r: Statement)
        ensures
            r@ == Self::rollback_statement(),
    {
        Statement::bare("rollback")
    }

    /// Forces all data to be written onto the disk.
    pub fn fsync_data() -> (r: Statement)
        ensures
            r@ == crate::sql::statement("pragma wal_checkpoint(truncate)", seq![]),
    {
        Statement::bare("pragma wal_checkpoint(truncate)")
    }

    /// Same as `fsync_data` but slightly less aggressive.
    pub fn fsync_metadata() -> (r: Statement)
        ensures
            r@ == crate::sql::statement("pragma wal_checkpoint(passive)", seq![]),
    {
        Statement::bare("pragma wal_checkpoint(passive)")
    }
}

} // verus!
