use flocon::cli::{
    ensure_parent_exists, next_action, parse_existing_dir, parse_existing_file, parse_octal,
    ChannelEvent, ServerAction,
};
use flocon::error::{Error, ErrorKind};
use flocon::migration::{create_tables_sql, index_target, Field, Index, Migration, Step, Table};
use flocon::models::{DateTimeUtc, NewInode};
use flocon::timestamp::Timestamp;
use flocon::virtiofs::{
    features, protocol_features, queue_of_event, should_signal, works_again, VirtiofsError,
    NUM_QUEUES, QUEUE_SIZE,
};
use rusqlite::Connection;
use vhost::vhost_user::message::{VhostUserProtocolFeatures, VhostUserVirtioFeatures};
use virtio_bindings::bindings::virtio_config::VIRTIO_F_VERSION_1;
use virtio_bindings::bindings::virtio_ring::{
    VIRTIO_RING_F_EVENT_IDX, VIRTIO_RING_F_INDIRECT_DESC,
};

#[test]
fn modes_are_octal() {
    let bad = Err("MODE must be an octal number, e.g. 755".to_string());
    assert_eq!(parse_octal("755"), Ok(0o755));
    assert_eq!(parse_octal("0"), Ok(0));
    assert_eq!(parse_octal("+17"), Ok(15));
    assert_eq!(parse_octal("00000000000000007"), Ok(7));
    assert_eq!(parse_octal("37777777777"), Ok(u32::MAX));
    assert_eq!(parse_octal("40000000000"), bad);
    assert_eq!(parse_octal("8"), bad);
    assert_eq!(parse_octal(""), bad);
    assert_eq!(parse_octal("+"), bad);
    assert_eq!(parse_octal("-1"), bad);
    assert_eq!(parse_octal("7 "), bad);
    assert_eq!(parse_octal("é"), bad);
}

#[test]
fn paths_are_checked() {
    assert_eq!(ensure_parent_exists("a/b", true, true, false), Ok("a/b".to_string()));
    assert_eq!(ensure_parent_exists("b", true, false, true), Ok("b".to_string()));
    let bad = Err("parent directory of IMAGE does not exist".to_string());
    assert_eq!(ensure_parent_exists("a/b", true, false, false), bad);
    assert_eq!(ensure_parent_exists("/", false, false, false), bad);
    assert_eq!(parse_existing_file("f", true, true), Ok("f".to_string()));
    assert_eq!(
        parse_existing_file("f", false, false),
        Err("Path does not exist: f".to_string())
    );
    assert_eq!(
        parse_existing_file("f", true, false),
        Err("Path is not a file: f".to_string())
    );
    assert_eq!(parse_existing_dir("d", true, true), Ok("d".to_string()));
    assert_eq!(
        parse_existing_dir("d", false, false),
        Err("Path does not exist: d".to_string())
    );
    assert_eq!(
        parse_existing_dir("d", true, false),
        Err("Path is not a directory: d".to_string())
    );
}

#[test]
fn server_stops_with_its_channel() {
    assert_eq!(next_action(ChannelEvent::Request), ServerAction::Serve);
    assert_eq!(next_action(ChannelEvent::Closed), ServerAction::Stop);
    assert_eq!(next_action(ChannelEvent::Failed), ServerAction::Stop);
}

#[test]
fn features_are_those_of_virtio() {
    assert_eq!(
        features(),
        1 << VIRTIO_F_VERSION_1
            | 1 << VIRTIO_RING_F_INDIRECT_DESC
            | 1 << VIRTIO_RING_F_EVENT_IDX
            | VhostUserVirtioFeatures::PROTOCOL_FEATURES.bits()
    );
    assert_eq!(
        protocol_features(),
        (VhostUserProtocolFeatures::MQ | VhostUserProtocolFeatures::BACKEND_REQ).bits()
    );
    assert_eq!((NUM_QUEUES, QUEUE_SIZE), (2, 1024));
}

#[test]
fn events_belong_to_queues() {
    assert_eq!(queue_of_event(true, 0), Ok(0));
    assert_eq!(queue_of_event(true, 1), Ok(1));
    assert_eq!(
        queue_of_event(true, 2),
        Err(VirtiofsError::HandleEventUnknownEvent(2))
    );
    assert_eq!(
        queue_of_event(false, 0),
        Err(VirtiofsError::HandleEventNotEpollIn)
    );
    assert!(should_signal(false, None));
    assert!(should_signal(false, Some(false)));
    assert!(should_signal(true, None));
    assert!(should_signal(true, Some(true)));
    assert!(!should_signal(true, Some(false)));
    assert!(works_again(true, true));
    assert!(!works_again(true, false));
    assert!(!works_again(false, true));
}

#[test]
fn virtiofs_errors_have_words() {
    let all = [
        (VirtiofsError::HandleEventNotEpollIn, "Failed to handle event, not an EPOLLIN event"),
        (
            VirtiofsError::HandleEventUnknownEvent(65535),
            "Failed to handle event, unknown event: 65535",
        ),
        (VirtiofsError::IterateQueue, "Failed to iterate virtio queue"),
        (VirtiofsError::InvalidDescriptorChain, "Invalid descriptor chain"),
        (VirtiofsError::ProcessQueue, "Failed to process virtio queue"),
        (VirtiofsError::QueueMemoryUnset, "Guest memory is not set"),
        (VirtiofsError::EventFdCreate, "Failed to create new EventFd"),
        (VirtiofsError::StartDaemon, "Failed to start vhost-user daemon"),
        (VirtiofsError::CreateListener, "Failed to create vhost-user listener"),
        (VirtiofsError::ThreadSpawn, "Failed to spawn daemon thread"),
    ];
    for (error, text) in all {
        assert_eq!(error.message(), text);
        match error.to_error() {
            Error::Message { kind, message } => {
                assert_eq!((kind, message), (ErrorKind::Other, text.to_string()))
            }
            Error::Os { .. } => panic!("expected words"),
        }
    }
}

fn tables(conn: &Connection) -> Vec<String> {
    let mut stmt = conn
        .prepare("select name from sqlite_master where name not like 'sqlite_%' order by name")
        .unwrap();
    let names = stmt.query_map([], |r| r.get(0)).unwrap();
    names.map(|n| n.unwrap()).collect()
}

#[test]
fn migration_goes_up_and_down() {
    let conn = Connection::open_in_memory().unwrap();
    for step in Migration::up() {
        conn.execute_batch(&step.sql()).unwrap();
    }
    let up = tables(&conn);
    for name in ["inode", "link", "block", "xattr"] {
        assert!(up.contains(&name.to_string()));
    }
    assert_eq!(up.len(), 7);
    for step in Migration::down() {
        conn.execute_batch(&step.sql()).unwrap();
    }
    assert_eq!(tables(&conn), Vec::<String>::new());
}

#[test]
fn tables_have_their_columns() {
    let columns = |conn: &Connection, table: &str| {
        let mut stmt = conn
            .prepare(&format!("select name from pragma_table_info('{}')", table))
            .unwrap();
        let names = stmt.query_map([], |r| r.get::<_, String>(0)).unwrap();
        names.map(|n| n.unwrap()).collect::<Vec<_>>()
    };
    let conn = Connection::open_in_memory().unwrap();
    conn.execute_batch(&create_tables_sql()).unwrap();
    assert_eq!(
        columns(&conn, "inode"),
        ["id", "mode", "uid", "gid", "size", "rdev", "atime", "mtime", "ctime", "btime"]
    );
    assert_eq!(columns(&conn, "link"), ["parent_id", "child_id", "name"]);
    assert_eq!(
        columns(&conn, "block"),
        ["id", "inode_id", "first_byte", "last_byte", "data"]
    );
    assert_eq!(columns(&conn, "xattr"), ["inode_id", "name", "value"]);
    let plain = Connection::open_in_memory().unwrap();
    for step in Migration::up() {
        plain.execute_batch(&step.sql()).unwrap();
    }
    assert_eq!(
        columns(&plain, "inode"),
        ["id", "mode", "uid", "gid", "size", "atime", "mtime", "ctime", "btime"]
    );
}

#[test]
fn blocks_have_ordered_bounds() {
    let conn = Connection::open_in_memory().unwrap();
    conn.execute_batch(&create_tables_sql()).unwrap();
    conn.execute_batch("insert into inode (mode, uid, gid, size, atime, mtime, ctime, btime) values (0, 0, 0, 0, '', '', '', '')")
        .unwrap();
    let sql = "insert into block (inode_id, first_byte, last_byte) values (1, ?, ?)";
    assert!(conn.execute(sql, [3, 3]).is_ok());
    assert!(conn.execute(sql, [3, 2]).is_err());
}

#[test]
fn rows_go_with_their_inode() {
    let conn = Connection::open_in_memory().unwrap();
    conn.execute_batch("pragma foreign_keys = on").unwrap();
    conn.execute_batch(&create_tables_sql()).unwrap();
    conn.execute_batch(
        "insert into inode (id, mode, uid, gid, size, atime, mtime, ctime, btime) values (1, 0, 0, 0, 0, '', '', '', '');
         insert into block (inode_id, first_byte, last_byte) values (1, 0, 0);
         insert into xattr (inode_id, name, value) values (1, 'a', x'00');
         delete from inode;",
    )
    .unwrap();
    let left: i64 = conn
        .query_row("select (select count(*) from block) + (select count(*) from xattr)", [], |r| r.get(0))
        .unwrap();
    assert_eq!(left, 0);
}

#[test]
fn steps_are_named() {
    assert_eq!(Step::DropTable(Table::Xattr).sql(), Migration::down()[0].sql());
    assert_eq!(Table::Inode.name(), "inode");
    assert_eq!(Field::FirstByte.name(), "first_byte");
    let (table, fields) = index_target(Index::BlockRange);
    assert_eq!(table, Table::Block);
    assert_eq!(
        fields,
        vec![Field::InodeId, Field::FirstByte, Field::LastByte]
    );
}

#[test]
fn datetimes_are_stored_as_text() {
    let t = Timestamp::from_timestamp(1_700_000_000, 250_000_000).unwrap();
    let d = DateTimeUtc::from(t);
    assert_eq!(d.to_sql(), "2023-11-14T22:13:20.250+00:00");
    assert_eq!(DateTimeUtc::from_sql(&d.to_sql()), Ok(d));
    assert_eq!(Timestamp::from(d), t);
    assert_eq!(
        DateTimeUtc::from_sql("noon-11-14T22:13:20Z"),
        Err("Invalid datetime: input contains invalid characters".to_string())
    );
    assert_eq!(
        DateTimeUtc::from_sql("2023-11-14T22:13:20"),
        Err("Invalid datetime: premature end of input".to_string())
    );
}

#[test]
fn root_inode_of_the_model() {
    let now = Timestamp::from_timestamp(9, 8).unwrap();
    let root = NewInode::root(0o711, 1, u32::MAX, now);
    assert_eq!(root.mode, 0o040711);
    assert_eq!((root.uid, root.gid, root.size, root.rdev), (1, -1, 0, 0));
    assert_eq!(root.btime, DateTimeUtc(now));
}
