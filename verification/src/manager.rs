//! How an image is set up: the settings of each connection and the root
//! directory.

use vstd::prelude::*;
use crate::error::Error;
use crate::modes::{S_IFDIR, S_IFMT};
use crate::sql::{SqlValue, SqlView, Statement, StatementView};
use crate::timestamp::Timestamp;

verus! {

/// What is decided about an image as a whole.
pub struct FileSystemManager;

impl FileSystemManager {
    /// The settings of each new connection. Our goal here is to configure
    /// properly the database features for our needs, especially in terms of
    /// guarantees and performance. Everything is static so far, maybe some
    /// values ought to be fine-tuned in the future.
    pub fn on_acquire() -> (r: Statement)
        ensures
            r@ == crate::sql::statement(
                "PRAGMA journal_mode = WAL; PRAGMA foreign_keys = ON; PRAGMA auto_vacuum = INCREMENTAL; PRAGMA synchronous = NORMAL; PRAGMA temp_store = MEMORY; PRAGMA mmap_size = 30000000000; PRAGMA page_size = 4096;",
                seq![],
            ),
    {
        Statement::bare(
            "PRAGMA journal_mode = WAL; PRAGMA foreign_keys = ON; PRAGMA auto_vacuum = INCREMENTAL; PRAGMA synchronous = NORMAL; PRAGMA temp_store = MEMORY; PRAGMA mmap_size = 30000000000; PRAGMA page_size = 4096;",
        )
    }

    /// The path of an image as the database takes it: it has to be text.
    pub fn image_url(image_path: Option<String>) -> (r: Result<String, String>)
        ensures
            match image_path {
                Some(path) => r matches Ok(p) && p@ == path@,
                None => r matches Err(e) && e@ == "Invalid image path (not UTF-8)"@,
            },
    {
        match image_path {
            Some(path) => Ok(path),
            None => Err("Invalid image path (not UTF-8)".to_string()),
        }
    }

    /// The query for whether the root inode exists.
    pub open spec fn has_root_statement() -> StatementView {
        crate::sql::statement(
            "SELECT EXISTS(SELECT 1 FROM inode WHERE id = ?1)",
            seq![SqlView::Integer(1)],
        )
    }

    /// Asks whether the root inode exists.
    pub fn has_root_inode() -> (r: Statement)
        ensures
            r@ == Self::has_root_statement(),
    {
        let r = Statement::new(
            "SELECT EXISTS(SELECT 1 FROM inode WHERE id = ?1)",
            vec![SqlValue::Integer(1)],
        );
        assert(r@ =~= Self::has_root_statement());
        r
    }

    /// The statement that stores the root inode: a directory with these
    /// permissions, all of whose times are `now`.
    pub open spec fn root_inode_statement(
        mode: u32,
        uid: u32,
        gid: u32,
        now: (i64, u32),
    ) -> StatementView {
        let time = SqlView::Text(crate::timestamp::rfc3339_nanos(now.0, now.1));
        crate::sql::statement(
            "INSERT INTO inode (id, mode, uid, gid, size, rdev, atime, mtime, ctime, btime) VALUES (?1, ?2, ?3, ?4, ?5, ?6, ?7, ?8, ?9, ?10)",
            seq![
                SqlView::Integer(1),
                SqlView::Integer((S_IFDIR | mode) as i64),
                SqlView::Integer(uid as i64),
                SqlView::Integer(gid as i64),
                SqlView::Integer(0),
                SqlView::Integer(0),
                time,
                time,
                time,
                time,
            ],
        )
    }

    /// The statement that stores the root inode, all of whose times are `now`.
    pub fn create_root_inode_at(mode: u32, uid: u32, gid: u32, now: Timestamp) -> (r: Statement)
        ensures
            r@ == Self::root_inode_statement(mode, uid, gid, now@),
            crate::timestamp::has_four_digit_year(now@.0) ==> crate::timestamp::reads_as(
                crate::timestamp::rfc3339_nanos(now@.0, now@.1),
                now@,
            ),
    {
        let now_str = now.to_rfc3339_nanos();
        let full_mode: u32 = S_IFDIR | mode;
        let r = Statement::new(
            "INSERT INTO inode (id, mode, uid, gid, size, rdev, atime, mtime, ctime, btime) VALUES (?1, ?2, ?3, ?4, ?5, ?6, ?7, ?8, ?9, ?10)",
            vec![
                SqlValue::Integer(1),
                SqlValue::Integer(full_mode as i64),
                SqlValue::Integer(uid as i64),
                SqlValue::Integer(gid as i64),
                SqlValue::Integer(0),
                SqlValue::Integer(0),
                crate::sql::bind_text(now_str.as_str()),
                crate::sql::bind_text(now_str.as_str()),
                crate::sql::bind_text(now_str.as_str()),
                crate::sql::bind_text(now_str.as_str()),
            ],
        );
        assert(r@ =~= Self::root_inode_statement(mode, uid, gid, now@));
        r
    }

    /// Whether the root inode exists, given what was asked of the database.
    pub open spec fn root_exists(rows: Seq<Seq<SqlView>>) -> Result<bool, crate::error::ErrorView> {
        if rows.len() == 0 {
            Err(crate::sql::no_rows())
        } else {
            crate::sql::as_bool(rows[0], 0, "EXISTS(SELECT 1 FROM inode WHERE id = ?1)"@)
        }
    }

    /// Ensure that the root inode (ID 1) exists, which is an expected
    /// requirement: the statement that stores it, if it does not.
    pub fn ensure_root_inode(
        rows: &Vec<Vec<SqlValue>>,
        mode: u32,
        uid: u32,
        gid: u32,
        now: Timestamp,
    ) -> (r: Result<Option<Statement>, Error>)
        ensures
            match Self::root_exists(crate::sql::rows(rows@)) {
                Ok(true) => r matches Ok(s) && s is None,
                Ok(false) => r matches Ok(Some(s)) && s@ == Self::root_inode_statement(
                    mode,
                    uid,
                    gid,
                    now@,
                ),
                Err(error) => r matches Err(e) && e@ == error,
            },
    {
        if rows.len() == 0 {
            return Err(Error::new(crate::error::ErrorKind::Other, "Query returned no rows"));
        }
        assert(crate::sql::rows(rows@)[0] == crate::sql::values(rows[0]@));
        match crate::sql::get_bool(&rows[0], 0, "EXISTS(SELECT 1 FROM inode WHERE id = ?1)") {
            Ok(true) => Ok(None),
            Ok(false) => Ok(Some(Self::create_root_inode_at(mode, uid, gid, now))),
            Err(e) => Err(e),
        }
    }
}

/// What the database says to the question whether the root inode exists, if its
/// table of inodes holds these rows.
pub open spec fn root_rows(table: Map<i64, Seq<SqlView>>) -> Seq<Seq<SqlView>> {
    seq![
        seq![
            SqlView::Integer(
                if table.contains_key(1) {
                    1
                } else {
                    0
                },
            ),
        ],
    ]
}

/// The table of inodes after an image has been initialised.
pub open spec fn initialised(
    table: Map<i64, Seq<SqlView>>,
    mode: u32,
    uid: u32,
    gid: u32,
    now: (i64, u32),
) -> Map<i64, Seq<SqlView>> {
    match FileSystemManager::root_exists(root_rows(table)) {
        Ok(false) => table.insert(
            1,
            FileSystemManager::root_inode_statement(mode, uid, gid, now).params,
        ),
        _ => table,
    }
}

/// An image that has been initialised has a root inode, and initialising it once
/// more changes nothing: the owner, the permissions and the times stay those of
/// the first time.
pub proof fn second_initialisation_changes_nothing(
    table: Map<i64, Seq<SqlView>>,
    mode: u32,
    uid: u32,
    gid: u32,
    now: (i64, u32),
    later_mode: u32,
    later_uid: u32,
    later_gid: u32,
    later: (i64, u32),
)
    ensures
        ({
            let first = initialised(table, mode, uid, gid, now);
            &&& first.contains_key(1)
            &&& table.contains_key(1) ==> first == table
            &&& initialised(first, later_mode, later_uid, later_gid, later) == first
        }),
{
}

/// The root inode of an image that had none: a directory with the permissions
/// and the owner that were asked for, which is empty, and all of whose times
/// are the present. Every other inode stays as it is.
pub proof fn initialisation_stores_the_root_inode(
    table: Map<i64, Seq<SqlView>>,
    mode: u32,
    uid: u32,
    gid: u32,
    now: (i64, u32),
)
    requires
        !table.contains_key(1),
    ensures
        ({
            let first = initialised(table, mode, uid, gid, now);
            let time = SqlView::Text(crate::timestamp::rfc3339_nanos(now.0, now.1));
            &&& first.remove(1) == table
            &&& first[1] == seq![
                SqlView::Integer(1),
                SqlView::Integer((S_IFDIR | mode) as i64),
                SqlView::Integer(uid as i64),
                SqlView::Integer(gid as i64),
                SqlView::Integer(0),
                SqlView::Integer(0),
                time,
                time,
                time,
                time,
            ]
        }),
{
    assert(initialised(table, mode, uid, gid, now).remove(1) =~= table);
}

/// The root inode that is stored for a mode of permissions, which names no other
/// kind of file, is a directory.
pub proof fn root_inode_is_a_directory(mode: u32)
    requires
        mode & S_IFMT == 0 || crate::modes::is_dir(mode),
    ensures
        crate::modes::is_dir(S_IFDIR | mode),
{
    assert((0o040000u32 | mode) & 0o170000u32 == 0o040000u32) by (bit_vector)
        requires
            mode & 0o170000u32 == 0 || mode & 0o170000u32 == 0o040000u32,
    ;
}

} // verus!
