use flocon::error::{Error, ErrorKind, EBUSY, EEXIST, ENODATA, ENOENT, ENOSYS, ERANGE};
use flocon::modes;
use flocon::rules::{
    check_directory, check_empty, check_exclusive, check_fallocate_mode, check_free,
    check_linkable, check_parent, check_removed_exists, check_removed_kind, check_rename_flags,
    check_rename_names, check_rename_source, check_rename_target, check_xattr_arguments,
    check_xattr_presence, getxattr_reply, listxattr_reply, negotiate, requested_time,
    statfs_reply, GetxattrReply, ListxattrReply,
};
use flocon::sql::{
    bind_blob, bind_text, bind_u64, copy_bytes, get_blob, get_bool, get_i64, get_text,
    get_u32, get_u64, SqlValue, Statement,
};
use flocon::text::{decimal, same_text, starts_with, to_str};
use flocon::timestamp::Timestamp;
use fuse_backend_rs::abi::fuse_abi::{FsOptions, SetattrValid};

fn words(e: Error) -> (ErrorKind, String) {
    match e {
        Error::Message { kind, message } => (kind, message),
        Error::Os { code } => panic!("expected words, got code {}", code),
    }
}

#[test]
fn times_have_bounds() {
    assert!(Timestamp::from_timestamp(0, 0).is_some());
    assert!(Timestamp::from_timestamp(8_210_266_876_799, 999_999_999).is_some());
    assert!(Timestamp::from_timestamp(8_210_266_876_800, 0).is_none());
    assert!(Timestamp::from_timestamp(-8_334_601_228_800, 0).is_some());
    assert!(Timestamp::from_timestamp(-8_334_601_228_801, 0).is_none());
    assert!(Timestamp::from_timestamp(0, 1_000_000_000).is_none());
    // A leap second
    assert!(Timestamp::from_timestamp(59, 1_500_000_000).is_some());
    assert!(Timestamp::from_timestamp(58, 1_500_000_000).is_none());
    assert!(Timestamp::from_timestamp(59, 2_000_000_000).is_none());
}

#[test]
fn times_are_written_as_rfc3339() {
    let t = Timestamp::from_timestamp(1_700_000_000, 5).unwrap();
    assert_eq!(t.timestamp(), 1_700_000_000);
    assert_eq!(t.timestamp_subsec_nanos(), 5);
    assert_eq!(t.to_rfc3339_nanos(), "2023-11-14T22:13:20.000000005Z");
    assert_eq!(t.to_rfc3339(), "2023-11-14T22:13:20.000000005+00:00");
    let whole = Timestamp::from_timestamp(1_700_000_000, 0).unwrap();
    assert_eq!(whole.to_rfc3339_nanos(), "2023-11-14T22:13:20.000000000Z");
    assert_eq!(whole.to_rfc3339(), "2023-11-14T22:13:20+00:00");
    assert_eq!(
        Timestamp::epoch().to_rfc3339_nanos(),
        "1970-01-01T00:00:00.000000000Z"
    );
}

#[test]
fn times_are_read_back() {
    for (secs, nanos) in [(0, 0), (1_700_000_000, 123_456_789), (-62_135_596_800, 1), (59, 1_500_000_000)] {
        let t = Timestamp::from_timestamp(secs, nanos).unwrap();
        assert_eq!(Timestamp::parse_from_rfc3339(&t.to_rfc3339_nanos()), Ok(t));
        assert_eq!(Timestamp::parse_from_rfc3339(&t.to_rfc3339()), Ok(t));
    }
    // An offset is taken into account
    let t = Timestamp::parse_from_rfc3339("2023-11-15T00:13:20+02:00").unwrap();
    assert_eq!(t.timestamp(), 1_700_000_000);
    assert!(Timestamp::parse_from_rfc3339("2023-11-15").is_err());
    assert_eq!(
        Timestamp::parse_from_rfc3339(""),
        Err("premature end of input".to_string())
    );
    // Years of more than four digits are written, but not read
    let late = Timestamp::from_timestamp(253_402_300_800, 0).unwrap();
    assert!(Timestamp::parse_from_rfc3339(&late.to_rfc3339_nanos()).is_err());
}

#[test]
fn now_is_after_this_was_written() {
    let now = Timestamp::now();
    assert!(now.timestamp() > 1_700_000_000);
    assert!(now.timestamp_subsec_nanos() < 1_000_000_000);
}

#[test]
fn names_are_text() {
    assert_eq!(to_str("dé".as_bytes()).unwrap(), "dé");
    assert_eq!(to_str(b"").unwrap(), "");
    assert_eq!(
        words(to_str(&[b'a', 0xff]).unwrap_err()),
        (ErrorKind::InvalidInput, "Invalid UTF-8".to_string())
    );
    assert!(same_text("flocon", "flocon"));
    assert!(!same_text("flocon", "flocon."));
    assert!(starts_with("flocon.image", "flocon."));
    assert!(!starts_with("flocon", "flocon."));
    assert!(!starts_with("faucon.image", "flocon."));
}

#[test]
fn numbers_are_written_in_decimal() {
    for n in [0, 7, 10, 99, 1_000_203, -1, -40, i64::MIN, i64::MAX] {
        assert_eq!(decimal(n), n.to_string());
    }
}

#[test]
fn values_are_bound() {
    assert!(matches!(bind_u64(7), Ok(SqlValue::Integer(7))));
    assert!(matches!(
        bind_u64(i64::MAX as u64),
        Ok(SqlValue::Integer(i64::MAX))
    ));
    assert_eq!(
        words(bind_u64(i64::MAX as u64 + 1).err().unwrap()),
        (
            ErrorKind::Other,
            "out of range integral type conversion attempted".to_string()
        )
    );
    assert!(matches!(bind_text("a"), SqlValue::Text(s) if s == "a"));
    assert!(matches!(bind_blob(&[1, 2]), SqlValue::Blob(b) if b == [1, 2]));
    assert_eq!(copy_bytes(&[3, 4]), vec![3, 4]);
    let s = Statement::by_id("x = ?", 5).unwrap();
    assert_eq!(s.sql, "x = ?");
    assert!(matches!(s.params[0], SqlValue::Integer(5)));
    assert!(Statement::bare("begin").params.is_empty());
    assert_eq!(Statement::new("y", vec![SqlValue::Null]).params.len(), 1);
}

#[test]
fn values_are_read() {
    let row = vec![
        SqlValue::Integer(-1),
        SqlValue::Integer(0x1_0000_0000),
        SqlValue::Text("t".to_string()),
        SqlValue::Blob(vec![9]),
        SqlValue::Null,
        SqlValue::Real,
        SqlValue::Integer(2),
    ];
    assert_eq!(get_i64(&row, 0, "a").unwrap(), -1);
    assert_eq!(get_u64(&row, 1, "b").unwrap(), 0x1_0000_0000);
    assert_eq!(get_u32(&row, 6, "g").unwrap(), 2);
    assert_eq!(get_text(&row, 2, "c").unwrap(), "t");
    assert_eq!(get_blob(&row, 3, "d").unwrap(), vec![9]);
    assert_eq!(get_bool(&row, 6, "g").unwrap(), true);
    // The errors are those of the database
    let conn = rusqlite::Connection::open_in_memory().unwrap();
    let sql = "select -1 as a, 4294967296 as b, 't' as c, x'09' as d, null as e, 0.5 as f, 2 as g";
    let mut prepared = conn.prepare(sql).unwrap();
    let mut found = prepared.query([]).unwrap();
    let real = found.next().unwrap().unwrap();
    let same = |e: Error, theirs: rusqlite::Error| {
        assert_eq!(words(e), (ErrorKind::Other, theirs.to_string()))
    };
    same(get_u64(&row, 0, "a").unwrap_err(), real.get::<_, u64>(0).unwrap_err());
    same(get_u32(&row, 1, "b").unwrap_err(), real.get::<_, u32>(1).unwrap_err());
    same(get_i64(&row, 2, "c").unwrap_err(), real.get::<_, i64>(2).unwrap_err());
    same(get_text(&row, 3, "d").unwrap_err(), real.get::<_, String>(3).unwrap_err());
    same(get_blob(&row, 4, "e").unwrap_err(), real.get::<_, Vec<u8>>(4).unwrap_err());
    same(get_bool(&row, 5, "f").unwrap_err(), real.get::<_, bool>(5).unwrap_err());
    same(get_text(&row, 6, "g").unwrap_err(), real.get::<_, String>(6).unwrap_err());
    same(get_i64(&row, 7, "h").unwrap_err(), real.get::<_, i64>(7).unwrap_err());
    assert_eq!(
        words(get_i64(&row, 2, "c").unwrap_err()).1,
        "Invalid column type Text at index: 2, name: c"
    );
    assert_eq!(
        words(get_u64(&row, 0, "a").unwrap_err()).1,
        "Integer -1 out of range at index 0"
    );
}

#[test]
fn errors_have_kinds() {
    let kinds = [
        (ENOENT, ErrorKind::NotFound),
        (EBUSY, ErrorKind::ResourceBusy),
        (EEXIST, ErrorKind::AlreadyExists),
        (ENOSYS, ErrorKind::Unsupported),
        (ENODATA, ErrorKind::Uncategorized),
        (ERANGE, ErrorKind::Uncategorized),
    ];
    for (code, kind) in kinds {
        assert_eq!(Error::from_raw_os_error(code).kind(), kind);
    }
    assert_eq!(
        Error::new(ErrorKind::NotADirectory, "x").kind(),
        ErrorKind::NotADirectory
    );
    assert_eq!(ENOENT, libc::ENOENT);
    assert_eq!(EBUSY, libc::EBUSY);
    assert_eq!(EEXIST, libc::EEXIST);
    assert_eq!(ERANGE, libc::ERANGE);
    assert_eq!(ENOSYS, libc::ENOSYS);
    assert_eq!(ENODATA, libc::ENODATA);
}

#[test]
fn constants_are_those_of_the_system() {
    assert_eq!(modes::S_IFMT, libc::S_IFMT);
    assert_eq!(modes::S_IFDIR, libc::S_IFDIR);
    assert_eq!(modes::S_IFREG, libc::S_IFREG);
    assert_eq!(modes::S_IFLNK, libc::S_IFLNK);
    assert_eq!(modes::DT_DIR, libc::DT_DIR as u32);
    assert_eq!(modes::O_RDONLY, libc::O_RDONLY as u32);
    assert_eq!(modes::O_WRONLY, libc::O_WRONLY as u32);
    assert_eq!(modes::O_EXCL, libc::O_EXCL as u32);
    assert_eq!(modes::O_TRUNC, libc::O_TRUNC as u32);
    assert_eq!(modes::O_APPEND, libc::O_APPEND as u32);
    assert_eq!(modes::RENAME_NOREPLACE, libc::RENAME_NOREPLACE);
    assert_eq!(modes::RENAME_EXCHANGE, libc::RENAME_EXCHANGE);
    assert_eq!(modes::XATTR_CREATE, libc::XATTR_CREATE as u32);
    assert_eq!(modes::XATTR_REPLACE, libc::XATTR_REPLACE as u32);
    assert_eq!(modes::SETATTR_MODE, SetattrValid::MODE.bits());
    assert_eq!(modes::SETATTR_UID, SetattrValid::UID.bits());
    assert_eq!(modes::SETATTR_GID, SetattrValid::GID.bits());
    assert_eq!(modes::SETATTR_SIZE, SetattrValid::SIZE.bits());
    assert_eq!(modes::SETATTR_ATIME, SetattrValid::ATIME.bits());
    assert_eq!(modes::SETATTR_MTIME, SetattrValid::MTIME.bits());
    assert_eq!(modes::SETATTR_ATIME_NOW, SetattrValid::ATIME_NOW.bits());
    assert_eq!(modes::SETATTR_MTIME_NOW, SetattrValid::MTIME_NOW.bits());
    assert_eq!(modes::SETATTR_CTIME, SetattrValid::CTIME.bits());
}

#[test]
fn options_are_negotiated() {
    let wanted = FsOptions::MAX_PAGES
        | FsOptions::BIG_WRITES
        | FsOptions::WRITEBACK_CACHE
        | FsOptions::AUTO_INVAL_DATA
        | FsOptions::ATOMIC_O_TRUNC
        | FsOptions::DO_READDIRPLUS
        | FsOptions::READDIRPLUS_AUTO
        | FsOptions::CACHE_SYMLINKS
        | FsOptions::POSIX_ACL;
    assert_eq!(negotiate(u64::MAX), wanted.bits());
    assert_eq!(negotiate(0), 0);
    assert_eq!(
        negotiate(FsOptions::BIG_WRITES.bits() | FsOptions::ASYNC_READ.bits()),
        FsOptions::BIG_WRITES.bits()
    );
}

#[test]
fn each_rule_has_its_error() {
    let says = |r: Result<(), Error>, kind: ErrorKind, message: &str| {
        assert_eq!(words(r.unwrap_err()), (kind, message.to_string()))
    };
    let (dir, file) = (modes::S_IFDIR, modes::S_IFREG);
    check_parent(dir).unwrap();
    says(check_parent(file), ErrorKind::NotADirectory, "Parent is not a directory");
    check_directory(dir).unwrap();
    says(check_directory(file), ErrorKind::NotADirectory, "Not a directory");
    check_removed_exists(3, true).unwrap();
    says(check_removed_exists(0, true), ErrorKind::NotFound, "Directory not found");
    says(check_removed_exists(0, false), ErrorKind::NotFound, "File not found");
    check_removed_kind(dir, true).unwrap();
    check_removed_kind(file, false).unwrap();
    says(check_removed_kind(file, true), ErrorKind::NotADirectory, "Not a directory");
    says(check_removed_kind(dir, false), ErrorKind::IsADirectory, "Is a directory");
    check_empty(0).unwrap();
    says(check_empty(1), ErrorKind::DirectoryNotEmpty, "Directory not empty");
    check_free(0).unwrap();
    says(check_free(2), ErrorKind::AlreadyExists, "File already exists");
    check_exclusive(2, 0).unwrap();
    check_exclusive(0, modes::O_EXCL).unwrap();
    says(check_exclusive(2, modes::O_EXCL), ErrorKind::AlreadyExists, "File already exists");
    check_linkable(file).unwrap();
    // A block device and a socket share bits with a directory
    for other in [0o060644, 0o140755] {
        assert!(!modes::is_directory(other));
        check_removed_kind(other, false).unwrap();
        check_linkable(other).unwrap();
        says(check_parent(other), ErrorKind::NotADirectory, "Parent is not a directory");
        says(check_directory(other), ErrorKind::NotADirectory, "Not a directory");
        says(check_removed_kind(other, true), ErrorKind::NotADirectory, "Not a directory");
    }
    assert!(modes::is_directory(modes::S_IFDIR | 0o755));
    says(check_linkable(dir), ErrorKind::IsADirectory, "Cannot create hard link to directory");
    check_rename_flags(2).unwrap();
    says(check_rename_flags(4), ErrorKind::InvalidInput, "Invalid flags");
    check_rename_names("a", "b").unwrap();
    says(check_rename_names("a", ""), ErrorKind::InvalidInput, "Empty name");
    check_rename_source(1).unwrap();
    says(check_rename_source(0), ErrorKind::NotFound, "Source does not exist");
    check_rename_target(1, 0).unwrap();
    check_rename_target(0, 1).unwrap();
    says(check_rename_target(1, 1), ErrorKind::AlreadyExists, "File already exists");
    says(check_rename_target(0, 2), ErrorKind::NotFound, "Target does not exist");
    check_xattr_arguments("k", 1).unwrap();
    says(check_xattr_arguments("", 9), ErrorKind::InvalidInput, "Empty xattr name");
    says(check_xattr_arguments("k", 9), ErrorKind::InvalidInput, "Invalid flags");
    check_fallocate_mode(0).unwrap();
    says(check_fallocate_mode(2), ErrorKind::InvalidInput, "Unsupported fallocate mode");
}

#[test]
fn presence_of_xattrs_is_judged() {
    let missing = || Err(Error::new(ErrorKind::NotFound, "none"));
    check_xattr_presence(0, Ok(())).unwrap();
    check_xattr_presence(modes::XATTR_REPLACE, Ok(())).unwrap();
    check_xattr_presence(modes::XATTR_CREATE, missing()).unwrap();
    assert!(matches!(
        check_xattr_presence(modes::XATTR_REPLACE, missing()),
        Err(Error::Os { code: ENODATA })
    ));
    assert_eq!(
        words(check_xattr_presence(modes::XATTR_CREATE, Ok(())).unwrap_err()).1,
        "Attribute already exists"
    );
    let broken = Err(Error::new(ErrorKind::Other, "broken"));
    assert_eq!(
        words(check_xattr_presence(modes::XATTR_CREATE, broken).unwrap_err()).1,
        "broken"
    );
}

#[test]
fn xattr_replies() {
    assert!(matches!(
        getxattr_reply(Ok(vec![1, 2]), 0),
        Ok(GetxattrReply::Count(2))
    ));
    assert!(matches!(
        getxattr_reply(Ok(vec![1, 2]), 2),
        Ok(GetxattrReply::Value(v)) if v == [1, 2]
    ));
    assert!(matches!(
        getxattr_reply(Ok(vec![1, 2]), 1),
        Err(Error::Os { code: ERANGE })
    ));
    assert!(matches!(
        getxattr_reply(Err(Error::from_raw_os_error(ENOENT)), 1),
        Err(Error::Os { code: ENODATA })
    ));
    let names = vec!["ab".to_string(), "c".to_string()];
    assert!(matches!(
        listxattr_reply(&names, 0),
        Ok(ListxattrReply::Count(5))
    ));
    assert!(matches!(
        listxattr_reply(&names, 5),
        Ok(ListxattrReply::Names(b)) if b == b"ab\0c\0"
    ));
    assert!(matches!(
        listxattr_reply(&names, 4),
        Err(Error::Os { code: ENODATA })
    ));
}

#[test]
fn statfs_rounds_blocks() {
    let s = statfs_reply(4096, 4097, 8191, 3, 10, 255);
    assert_eq!((s.f_blocks, s.f_bfree, s.f_bavail), (3, 1, 1));
    assert_eq!((s.f_files, s.f_ffree, s.f_namemax), (3, 7, 255));
    let s = statfs_reply(1, u64::MAX, 2, 11, 10, 255);
    assert_eq!((s.f_blocks, s.f_ffree), (1, u64::MAX));
}

#[test]
fn requested_times_are_checked() {
    let t = requested_time("Invalid atime: ", 5, 6).unwrap();
    assert_eq!((t.timestamp(), t.timestamp_subsec_nanos()), (5, 6));
    let e = requested_time("Invalid atime: ", i64::MIN, -7).unwrap_err();
    assert_eq!(
        words(e),
        (
            ErrorKind::InvalidInput,
            "Invalid atime: -9223372036854775808 -7".to_string()
        )
    );
}
