use flocon::error::{Error, ErrorKind, EBUSY, ENOENT};
use flocon::flocon::{
    read_children, read_count, read_ids, Flocon, FloconHandle, FloconInode, FloconTree,
    XattrSource, BLOCK_SIZE, ONE_YEAR,
};
use flocon::manager::FileSystemManager;
use flocon::migration::create_tables_sql;
use flocon::modes::{S_IFDIR, S_IFREG};
use flocon::sql::{SqlValue, Statement};
use flocon::timestamp::Timestamp;
use flocon::winter::WinterInode;
use rusqlite::types::Value;
use rusqlite::Connection;

fn to_value(v: &SqlValue) -> Value {
    match v {
        SqlValue::Null => Value::Null,
        SqlValue::Integer(i) => Value::Integer(*i),
        SqlValue::Real => panic!("no real numbers are bound"),
        SqlValue::Text(s) => Value::Text(s.clone()),
        SqlValue::Blob(b) => Value::Blob(b.clone()),
    }
}

fn from_value(v: Value) -> SqlValue {
    match v {
        Value::Null => SqlValue::Null,
        Value::Integer(i) => SqlValue::Integer(i),
        Value::Real(_) => SqlValue::Real,
        Value::Text(s) => SqlValue::Text(s),
        Value::Blob(b) => SqlValue::Blob(b),
    }
}

fn run(conn: &Connection, s: &Statement) -> usize {
    let params: Vec<Value> = s.params.iter().map(to_value).collect();
    conn.execute(&s.sql, rusqlite::params_from_iter(params)).unwrap()
}

fn query(conn: &Connection, s: &Statement) -> Vec<Vec<SqlValue>> {
    let mut stmt = conn.prepare(&s.sql).unwrap();
    let columns = stmt.column_count();
    let params: Vec<Value> = s.params.iter().map(to_value).collect();
    let mut found = stmt.query(rusqlite::params_from_iter(params)).unwrap();
    let mut rows = Vec::new();
    while let Some(row) = found.next().unwrap() {
        let mut values = Vec::new();
        for i in 0..columns {
            values.push(from_value(row.get(i).unwrap()));
        }
        rows.push(values);
    }
    rows
}

fn image() -> Connection {
    let conn = Connection::open_in_memory().unwrap();
    conn.execute_batch(&create_tables_sql()).unwrap();
    let now = Timestamp::from_timestamp(1_700_000_000, 5).unwrap();
    run(&conn, &FileSystemManager::create_root_inode_at(0o755, 0, 0, now));
    conn
}

fn words(e: Error) -> (ErrorKind, String) {
    match e {
        Error::Message { kind, message } => (kind, message),
        Error::Os { code } => panic!("expected words, got code {}", code),
    }
}

fn load_inode(conn: &Connection, id: u64) -> FloconInode {
    FloconTree::read_inode(&query(conn, &FloconTree::get_inode(id).unwrap())).unwrap()
}

fn new_inode(conn: &Connection, mode: u32) -> u64 {
    run(conn, &FloconTree::create_inode(mode, 5, 6, 0).unwrap());
    conn.last_insert_rowid() as u64
}

fn add(conn: &Connection, parent: u64, child: u64, name: &str) {
    run(conn, &FloconTree::add_child(parent, child, name).unwrap());
}

fn lookup(conn: &Connection, parent: u64, name: &str) -> u64 {
    FloconTree::read_child(&query(conn, &FloconTree::lookup(parent, name).unwrap())).unwrap()
}

#[test]
fn root_inode_is_made_once() {
    let conn = Connection::open_in_memory().unwrap();
    conn.execute_batch(&create_tables_sql()).unwrap();
    let now = Timestamp::from_timestamp(1_700_000_000, 5).unwrap();
    let rows = query(&conn, &FileSystemManager::has_root_inode());
    let made = FileSystemManager::ensure_root_inode(&rows, 0o750, 3, 4, now).unwrap();
    run(&conn, &made.unwrap());
    let rows = query(&conn, &FileSystemManager::has_root_inode());
    let later = Timestamp::from_timestamp(1_800_000_000, 6).unwrap();
    let again = FileSystemManager::ensure_root_inode(&rows, 0o777, 5, 6, later).unwrap();
    assert!(again.is_none());
    let core = load_inode(&conn, 1).make_entry().unwrap();
    assert_eq!(core.st_ino, 1);
    assert_eq!(core.st_mode, S_IFDIR | 0o750);
    assert_eq!((core.st_uid, core.st_gid, core.st_size), (3, 4, 0));
    assert_eq!((core.st_mtime, core.st_mtime_nsec), (1_700_000_000, 5));
    let none = FileSystemManager::ensure_root_inode(&vec![], 0o750, 3, 4, now);
    assert_eq!(
        words(none.err().unwrap()),
        (ErrorKind::Other, "Query returned no rows".to_string())
    );
    let odd = vec![vec![SqlValue::Null]];
    let refused = FileSystemManager::ensure_root_inode(&odd, 0o750, 3, 4, now);
    assert_eq!(
        words(refused.err().unwrap()).1,
        "Invalid column type Null at index: 0, name: EXISTS(SELECT 1 FROM inode WHERE id = ?1)"
    );
}

#[test]
fn root_inode_may_have_any_owner() {
    let conn = Connection::open_in_memory().unwrap();
    conn.execute_batch(&create_tables_sql()).unwrap();
    let now = Timestamp::from_timestamp(1_700_000_000, 5).unwrap();
    let owner = u32::MAX - 1;
    run(
        &conn,
        &FileSystemManager::create_root_inode_at(0o750, owner, 0x8000_0000, now),
    );
    let core = load_inode(&conn, 1).make_entry().unwrap();
    assert_eq!((core.st_uid, core.st_gid), (owner, 0x8000_0000));
}

#[test]
fn image_paths_are_text() {
    assert_eq!(
        FileSystemManager::image_url(Some("a.img".to_string())),
        Ok("a.img".to_string())
    );
    assert_eq!(
        FileSystemManager::image_url(None),
        Err("Invalid image path (not UTF-8)".to_string())
    );
}

#[test]
fn connections_are_set_up() {
    let conn = Connection::open_in_memory().unwrap();
    conn.execute_batch(&FileSystemManager::on_acquire().sql).unwrap();
    let on: i64 = conn.query_row("PRAGMA foreign_keys", [], |r| r.get(0)).unwrap();
    let synchronous: i64 = conn.query_row("PRAGMA synchronous", [], |r| r.get(0)).unwrap();
    let page: i64 = conn.query_row("PRAGMA page_size", [], |r| r.get(0)).unwrap();
    assert_eq!((on, synchronous, page), (1, 1, 4096));
}

#[test]
fn new_inodes_are_read_back() {
    let conn = image();
    let now = Timestamp::from_timestamp(1_000_000, 999_999_999).unwrap();
    run(
        &conn,
        &FloconTree::create_inode_at(0o020644, 7, 8, 0x501, now).unwrap(),
    );
    let inode = load_inode(&conn, 2);
    assert_eq!((inode.get_id(), inode.get_mode()), (2, 0o020644));
    let core = inode.make_entry().unwrap();
    assert_eq!((core.st_uid, core.st_gid, core.st_rdev), (7, 8, 0x501));
    assert_eq!((core.st_atime, core.st_atime_nsec), (1_000_000, 999_999_999));
    assert_eq!((core.st_ctime, core.st_ctime_nsec), (1_000_000, 999_999_999));
    let valid = inode.attr_valid_time().unwrap();
    assert_eq!((valid.secs, valid.nanos), (ONE_YEAR, 0));
    assert_eq!(inode.entry_valid_time().unwrap(), valid);
    assert_eq!(ONE_YEAR, 3600 * 24 * 365);
    match FloconTree::create_inode_at(0, 0, 0, u64::MAX, now) {
        Err(e) => assert_eq!(
            words(e).1,
            "out of range integral type conversion attempted"
        ),
        Ok(_) => panic!("expected an error"),
    }
}

#[test]
fn missing_and_broken_inodes_are_refused() {
    let conn = image();
    let rows = query(&conn, &FloconTree::get_inode(99).unwrap());
    assert!(matches!(
        FloconTree::read_inode(&rows),
        Err(Error::Os { code: ENOENT })
    ));
    let sql = "update inode set mtime = 'yesterday' where id = 1";
    conn.execute(sql, []).unwrap();
    let rows = query(&conn, &FloconTree::get_inode(1).unwrap());
    assert_eq!(
        words(FloconTree::read_inode(&rows).err().unwrap()).1,
        "Conversion error from type Text at index: 7, premature end of input"
    );
    let sql = "update inode set uid = -1 where id = 1";
    conn.execute(sql, []).unwrap();
    let rows = query(&conn, &FloconTree::get_inode(1).unwrap());
    assert_eq!(
        words(FloconTree::read_inode(&rows).err().unwrap()).1,
        "Integer -1 out of range at index 2"
    );
    let sql = "update inode set mode = 'odd' where id = 1";
    conn.execute(sql, []).unwrap();
    let rows = query(&conn, &FloconTree::get_inode(1).unwrap());
    assert_eq!(
        words(FloconTree::read_inode(&rows).err().unwrap()).1,
        "Invalid column type Text at index: 1, name: mode"
    );
    let odd = vec![vec![SqlValue::Null]];
    let said = |e: Error| words(e).1;
    assert_eq!(
        said(read_count(&odd).unwrap_err()),
        "Invalid column type Null at index: 0, name: count(*)"
    );
    assert_eq!(
        said(FloconTree::read_child(&odd).unwrap_err()),
        "Invalid column type Null at index: 0, name: child_id"
    );
    assert_eq!(
        said(read_ids(&odd).unwrap_err()),
        "Invalid column type Null at index: 0, name: parent_id"
    );
    assert_eq!(
        said(read_children(&odd).unwrap_err()),
        "Invalid column type Null at index: 0, name: name"
    );
    let core = FloconTree::empty_inode().make_entry().unwrap();
    assert_eq!((core.st_ino, core.st_mode, core.st_atime), (0, 0, 0));
}

#[test]
fn names_lead_to_inodes() {
    let conn = image();
    let dir = new_inode(&conn, S_IFDIR | 0o755);
    let file = new_inode(&conn, S_IFREG | 0o644);
    add(&conn, 1, dir, "dir");
    add(&conn, dir, file, "b");
    add(&conn, dir, file, "a");
    add(&conn, dir, file, "B");
    assert_eq!(lookup(&conn, 1, "dir"), dir);
    assert_eq!(lookup(&conn, 1, "none"), 0);
    let parents = query(&conn, &FloconTree::find_parents_of(file).unwrap());
    assert_eq!(read_ids(&parents).unwrap(), vec![dir, dir, dir]);
    let list = |size: usize, offset: usize| {
        let s = FloconTree::find_children_of(dir, size, offset).unwrap();
        let children = read_children(&query(&conn, &s)).unwrap();
        children.into_iter().map(|c| c.0).collect::<Vec<_>>()
    };
    assert_eq!(list(100, 0), vec!["B", "a", "b"]);
    assert_eq!(list(1, 1), vec!["a"]);
    assert_eq!(list(5, 3), Vec::<String>::new());
    run(&conn, &FloconTree::remove_child(dir, "a").unwrap());
    assert_eq!(list(100, 0), vec!["B", "b"]);
    let count = query(&conn, &FloconTree::count_child_directories(1).unwrap());
    assert_eq!(read_count(&count).unwrap(), 1);
    let count = query(&conn, &FloconTree::count_child_directories(dir).unwrap());
    assert_eq!(read_count(&count).unwrap(), 0);
    let count = query(&conn, &Flocon::estimate_files_count());
    assert_eq!(read_count(&count).unwrap(), 3);
    // A block device and a socket are no directories
    let device = new_inode(&conn, 0o060644);
    let socket = new_inode(&conn, 0o140755);
    add(&conn, dir, device, "device");
    add(&conn, dir, socket, "socket");
    let count = query(&conn, &FloconTree::count_child_directories(dir).unwrap());
    assert_eq!(read_count(&count).unwrap(), 0);
    let pages = [list(3, 0), list(3, 3), list(3, 6)].concat();
    assert_eq!(pages, vec!["B", "b", "device", "socket"]);
    assert_eq!(pages, list(100, 0));
    assert!(FloconTree::lookup(u64::MAX, "x").is_err());
    assert!(FloconTree::add_child(1, u64::MAX, "x").is_err());
    assert!(FloconTree::find_children_of(1, usize::MAX, 0).is_err());
}

#[test]
fn linked_inodes_are_not_deleted() {
    let conn = image();
    let file = new_inode(&conn, S_IFREG | 0o644);
    add(&conn, 1, file, "f");
    let links = |conn: &Connection| {
        read_count(&query(conn, &FloconTree::link_count(file).unwrap())).unwrap()
    };
    assert!(matches!(
        FloconTree::delete_inode(file, links(&conn)),
        Err(Error::Os { code: EBUSY })
    ));
    run(&conn, &FloconTree::remove_child(1, "f").unwrap());
    for s in FloconTree::delete_inode(file, links(&conn)).unwrap() {
        run(&conn, &s);
    }
    assert!(query(&conn, &FloconTree::get_inode(file).unwrap()).is_empty());
}

#[test]
fn names_are_unique_and_lead_somewhere() {
    let conn = image();
    conn.execute_batch(&FileSystemManager::on_acquire().sql).unwrap();
    let file = new_inode(&conn, S_IFREG | 0o644);
    add(&conn, 1, file, "f");
    let twice = FloconTree::add_child(1, file, "f").unwrap();
    assert!(conn.execute(&twice.sql, (1, file as i64, "f")).is_err());
    assert!(conn.execute(&twice.sql, (1, 99, "g")).is_err());
    assert!(conn.execute(&twice.sql, (99, file as i64, "g")).is_err());
}

fn handle(conn: &Connection) -> FloconHandle {
    let id = new_inode(conn, S_IFREG | 0o644);
    FloconHandle::new(load_inode(conn, id), BLOCK_SIZE, "disk.img".to_string())
}

#[test]
fn fields_are_updated() {
    let conn = image();
    let mut h = handle(&conn);
    for (field, value) in [("mode", 0o100600u64), ("uid", 9), ("gid", 10), ("rdev", 11), ("size", 12)] {
        assert_eq!(run(&conn, &h.update_inode_numeric(field, value).unwrap()), 1);
    }
    let t = Timestamp::from_timestamp(77, 88).unwrap();
    for field in ["atime", "mtime", "ctime", "btime"] {
        assert_eq!(run(&conn, &h.update_inode_datetime(field, t).unwrap()), 1);
    }
    h.reload(load_inode(&conn, 2));
    let core = h.get_inode().make_entry().unwrap();
    assert_eq!((core.st_mode, core.st_uid, core.st_gid), (0o100600, 9, 10));
    assert_eq!((core.st_rdev, core.st_size), (11, 12));
    assert_eq!((core.st_atime, core.st_atime_nsec), (77, 88));
    assert_eq!((core.st_mtime, core.st_ctime), (77, 77));
    let bad = (ErrorKind::InvalidInput, "Invalid field name".to_string());
    assert_eq!(words(h.update_inode_numeric("atime", 1).err().unwrap()), bad);
    assert_eq!(words(h.update_inode_numeric("id", 1).err().unwrap()), bad);
    assert_eq!(words(h.update_inode_datetime("mode", t).err().unwrap()), bad);
    assert!(h.update_inode_numeric("size", u64::MAX).is_err());
}

fn set_xattr(conn: &Connection, h: &FloconHandle, key: &str, value: &[u8]) {
    let updated = run(conn, &h.xattr_set(key, value).unwrap());
    if let Some(s) = h.xattr_insert(updated, key, value).unwrap() {
        run(conn, &s);
    }
}

fn get_xattr(conn: &Connection, h: &FloconHandle, key: &str) -> Result<Vec<u8>, Error> {
    h.read_xattr(key, &query(conn, &h.xattr_query(key).unwrap()))
}

#[test]
fn stored_xattrs_are_read_back() {
    let conn = image();
    let h = handle(&conn);
    set_xattr(&conn, &h, "user.a", b"one");
    assert_eq!(get_xattr(&conn, &h, "user.a").unwrap(), b"one");
    set_xattr(&conn, &h, "user.a", b"two");
    set_xattr(&conn, &h, "user.b", b"");
    assert_eq!(get_xattr(&conn, &h, "user.a").unwrap(), b"two");
    assert_eq!(get_xattr(&conn, &h, "user.b").unwrap(), b"");
    let rows = query(&conn, &h.xattr_list().unwrap());
    let mut keys = FloconHandle::read_xattr_keys(&rows).unwrap();
    keys.sort();
    assert_eq!(keys, vec!["flocon.image", "user.a", "user.b"]);
    let deleted = run(&conn, &h.xattr_remove("user.a").unwrap());
    FloconHandle::xattr_removed(deleted).unwrap();
    let none = (ErrorKind::NotFound, "No data available".to_string());
    assert_eq!(words(get_xattr(&conn, &h, "user.a").unwrap_err()), none);
    let deleted = run(&conn, &h.xattr_remove("user.a").unwrap());
    assert_eq!(
        words(FloconHandle::xattr_removed(deleted).unwrap_err()),
        none
    );
}

#[test]
fn reserved_xattrs_are_read_only() {
    let conn = image();
    let h = handle(&conn);
    assert_eq!(get_xattr(&conn, &h, "flocon.image").unwrap(), b"disk.img");
    assert_eq!(
        words(h.xattr_set("flocon.image", b"x").err().unwrap()),
        (
            ErrorKind::PermissionDenied,
            "Cannot set flocon.* attributes".to_string()
        )
    );
    assert_eq!(
        words(h.xattr_remove("flocon.other").err().unwrap()),
        (
            ErrorKind::PermissionDenied,
            "Cannot remove flocon.* attributes".to_string()
        )
    );
    assert_eq!(
        words(get_xattr(&conn, &h, "flocon.other").unwrap_err()).0,
        ErrorKind::NotFound
    );
    // This key can be set, but is never read from storage
    set_xattr(&conn, &h, "flocon", b"x");
    assert_eq!(
        words(get_xattr(&conn, &h, "flocon").unwrap_err()).0,
        ErrorKind::NotFound
    );
    assert_eq!(FloconHandle::xattr_get("flocon"), XattrSource::Nowhere);
    assert_eq!(FloconHandle::xattr_get("flocons"), XattrSource::Table);
    assert_eq!(FloconHandle::xattr_get("flocon."), XattrSource::Nowhere);
}

#[test]
fn contexts_are_transactions() {
    let conn = image();
    run(&conn, &Flocon::create_context());
    new_inode(&conn, S_IFREG);
    run(&conn, &Flocon::rollback_context());
    assert_eq!(
        read_count(&query(&conn, &Flocon::estimate_files_count())).unwrap(),
        1
    );
    run(&conn, &Flocon::create_context());
    new_inode(&conn, S_IFREG);
    run(&conn, &Flocon::sync_context());
    assert_eq!(
        read_count(&query(&conn, &Flocon::estimate_files_count())).unwrap(),
        2
    );
    query(&conn, &Flocon::fsync_data());
    query(&conn, &Flocon::fsync_metadata());
}

#[test]
fn storage_as_a_whole() {
    assert_eq!(Flocon::block_size(), 1024 * 1024);
    assert_eq!(Flocon::image_name(Some("x".to_string())), "x");
    assert_eq!(Flocon::image_name(None), "unknown");
    assert_eq!(Flocon::free_storage(3, 4096), 12288);
    assert_eq!(Flocon::free_storage(u64::MAX, 2), u64::MAX - 1);
}
