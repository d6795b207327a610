use flocon::blocks::FloconContext;
use flocon::error::{Error, ErrorKind};
use flocon::flocon::{FloconHandle, FloconTree};
use flocon::manager::FileSystemManager;
use flocon::migration::create_tables_sql;
use flocon::sql::{SqlValue, Statement};
use flocon::operations::{Action, AppendFile, ReadFile, Reply, SetSize, WriteFile};
use flocon::storage::{
    can_read_new_blocks, can_trim, delete_blocks, insert_block, overlapping_blocks, plan_append,
    read_blocks, read_window, resize, spanning_blocks, Resize,
};
use flocon::timestamp::Timestamp;
use flocon::winter::WinterInode;
use rusqlite::types::Value;
use rusqlite::Connection;

fn to_value(v: &SqlValue) -> Value {
    match v {
        SqlValue::Null => Value::Null,
        SqlValue::Integer(i) => Value::Integer(*i),
        SqlValue::Real => panic!("no real numbers are bound"),
        SqlValue::Text(s) => Value::Text(s.clone()),
        SqlValue::Blob(b) => Value::Blob(b.clone()),
    }
}

fn from_value(v: Value) -> SqlValue {
    match v {
        Value::Null => SqlValue::Null,
        Value::Integer(i) => SqlValue::Integer(i),
        Value::Real(_) => SqlValue::Real,
        Value::Text(s) => SqlValue::Text(s),
        Value::Blob(b) => SqlValue::Blob(b),
    }
}

fn run(conn: &Connection, s: &Statement) -> usize {
    let params: Vec<Value> = s.params.iter().map(to_value).collect();
    conn.execute(&s.sql, rusqlite::params_from_iter(params)).unwrap()
}

fn query(conn: &Connection, s: &Statement) -> Vec<Vec<SqlValue>> {
    let mut stmt = conn.prepare(&s.sql).unwrap();
    let columns = stmt.column_count();
    let params: Vec<Value> = s.params.iter().map(to_value).collect();
    let mut found = stmt.query(rusqlite::params_from_iter(params)).unwrap();
    let mut rows = Vec::new();
    while let Some(row) = found.next().unwrap() {
        let mut values = Vec::new();
        for i in 0..columns {
            values.push(from_value(row.get(i).unwrap()));
        }
        rows.push(values);
    }
    rows
}

fn image() -> Connection {
    let conn = Connection::open_in_memory().unwrap();
    conn.execute_batch(&create_tables_sql()).unwrap();
    let now = Timestamp::from_timestamp(1_700_000_000, 5).unwrap();
    run(&conn, &FileSystemManager::create_root_inode_at(0o755, 0, 0, now));
    conn
}

fn new_file(conn: &Connection, block_size: i64) -> FloconHandle {
    let now = Timestamp::from_timestamp(1_700_000_000, 5).unwrap();
    run(
        conn,
        &FloconTree::create_inode_at(0o100644, 1, 2, 0, now).unwrap(),
    );
    let id = conn.last_insert_rowid() as u64;
    let inode = load_inode(conn, id);
    FloconHandle::new(inode, block_size, "image.db".to_string())
}

fn load_inode(conn: &Connection, id: u64) -> flocon::flocon::FloconInode {
    FloconTree::read_inode(&query(conn, &FloconTree::get_inode(id).unwrap())).unwrap()
}

/// Loads the data of some blocks
fn load(conn: &Connection, ids: &[u64]) -> FloconContext {
    let mut context = FloconContext::new();
    for id in ids {
        let sql = "select data from block where id = ?";
        let data = conn.query_row(sql, [*id as i64], |r| r.get(0)).unwrap();
        context.add_blob(*id, data);
    }
    context
}

/// Does what an operation asks for
fn answer(conn: &Connection, action: &Action) -> Reply {
    match action {
        Action::Run(statements) => {
            for s in statements {
                run(conn, s);
            }
            Reply::Done
        }
        Action::Find(s) => Reply::Rows(query(conn, s)),
        Action::Load(ids) => Reply::Data(load(conn, ids)),
        Action::Finish => panic!("there is nothing left to do"),
    }
}

fn write(conn: &Connection, file: &mut FloconHandle, offset: i64, data: &[u8]) {
    let start = WriteFile::Start {
        size: data.len(),
        offset,
        data: data.to_vec(),
    };
    let (mut state, mut action) = start.next(file, Reply::Begin).unwrap();
    while !matches!(action, Action::Finish) {
        let reply = answer(conn, &action);
        assert!(state.can_take(&reply));
        (state, action) = state.next(file, reply).unwrap();
    }
    assert!(matches!(state, WriteFile::Over { n } if n == data.len()));
}

fn append(conn: &Connection, file: &mut FloconHandle, data: &[u8]) {
    let start = AppendFile::Start {
        data: data.to_vec(),
    };
    let (mut state, mut action) = start.next(file, Reply::Begin).unwrap();
    while !matches!(action, Action::Finish) {
        let reply = answer(conn, &action);
        (state, action) = state.next(file, reply).unwrap();
    }
    assert!(matches!(state, AppendFile::Over { n } if n == data.len()));
}

fn read(conn: &Connection, file: &FloconHandle, size: usize, offset: i64) -> Vec<u8> {
    let mut out = Vec::new();
    let start = ReadFile::Start { size, offset };
    let (mut state, mut action) = start.next(file, Reply::Begin, &mut out).unwrap();
    while !matches!(action, Action::Finish) {
        let reply = answer(conn, &action);
        (state, action) = state.next(file, reply, &mut out).unwrap();
    }
    assert!(matches!(state, ReadFile::Over { n } if n == out.len()));
    out
}

fn set_size(conn: &Connection, file: &mut FloconHandle, size: i64) {
    let (mut state, mut action) = SetSize::Start { size }.next(file, Reply::Begin).unwrap();
    while !matches!(action, Action::Finish) {
        let reply = answer(conn, &action);
        assert!(state.can_take(&reply));
        (state, action) = state.next(file, reply).unwrap();
    }
    assert!(matches!(state, SetSize::Over));
}

fn id_of(file: &FloconHandle) -> u64 {
    file.get_inode().get_id()
}

fn size_of(file: &FloconHandle) -> i64 {
    file.get_inode().make_entry().unwrap().st_size
}

/// The ranges of the blocks of a file, and whether they hold data
fn layout(conn: &Connection, file: &FloconHandle) -> Vec<(i64, i64, bool)> {
    let mut stmt = conn
        .prepare("select first_byte, last_byte, data is not null from block where inode_id = ? order by first_byte")
        .unwrap();
    let rows = stmt
        .query_map([id_of(file) as i64], |r| {
            Ok((r.get(0)?, r.get(1)?, r.get(2)?))
        })
        .unwrap();
    rows.map(|r| r.unwrap()).collect()
}

#[test]
fn read_gives_back_what_was_written() {
    let conn = image();
    let mut file = new_file(&conn, 4);
    write(&conn, &mut file, 0, b"hello world");
    assert_eq!(read(&conn, &file, 100, 0), b"hello world");
    assert_eq!(read(&conn, &file, 5, 6), b"world");
    assert_eq!(read(&conn, &file, 3, 4), b"o w");
    assert_eq!(layout(&conn, &file), vec![(0, 3, true), (4, 7, true), (8, 10, true)]);
    assert_eq!(size_of(&file), 11);
}

#[test]
fn write_changes_exactly_its_range() {
    let conn = image();
    let mut file = new_file(&conn, 4);
    write(&conn, &mut file, 0, b"abcdefghijkl");
    write(&conn, &mut file, 3, b"XY");
    assert_eq!(read(&conn, &file, 100, 0), b"abcXYfghijkl");
    // The third block was not touched
    assert_eq!(
        layout(&conn, &file),
        vec![(0, 2, true), (3, 4, true), (5, 7, true), (8, 11, true)]
    );
    assert_eq!(size_of(&file), 12);
    // A write that ends before the end of the file leaves its size
    write(&conn, &mut file, 10, b"QRS");
    assert_eq!(read(&conn, &file, 100, 0), b"abcXYfghijQRS");
    assert_eq!(size_of(&file), 13);
}

#[test]
fn many_writes_agree_with_a_plain_buffer() {
    let conn = image();
    let mut file = new_file(&conn, 5);
    let mut model: Vec<u8> = Vec::new();
    let mut seed: u32 = 12345;
    write(&conn, &mut file, 0, b"0123456789abcdefghij");
    model.extend_from_slice(b"0123456789abcdefghij");
    for round in 0..60u8 {
        seed = seed.wrapping_mul(1_103_515_245).wrapping_add(12345);
        let offset = (seed >> 16) as usize % model.len();
        let len = 1 + (seed >> 8) as usize % 9;
        let data = vec![round; len];
        write(&conn, &mut file, offset as i64, &data);
        if model.len() < offset + len {
            model.resize(offset + len, 0);
        }
        model[offset..offset + len].copy_from_slice(&data);
        assert_eq!(read(&conn, &file, 1000, 0), model);
    }
    // No two blocks overlap
    let blocks = layout(&conn, &file);
    for pair in blocks.windows(2) {
        assert!(pair[0].1 < pair[1].0);
    }
}

#[test]
fn holes_inside_a_read_are_zeros() {
    let conn = image();
    let mut file = new_file(&conn, 16);
    write(&conn, &mut file, 0, b"ab");
    write(&conn, &mut file, 6, b"cd");
    assert_eq!(read(&conn, &file, 100, 0), b"ab\0\0\0\0cd");
    assert_eq!(read(&conn, &file, 4, 1), b"b\0\0\0");
    assert_eq!(read(&conn, &file, 2, 3), b"\0\0");
    assert_eq!(read(&conn, &file, 5, 3), b"\0\0\0cd");
}

#[test]
fn holes_at_the_ends_of_a_file_are_zeros() {
    let conn = image();
    let mut file = new_file(&conn, 16);
    write(&conn, &mut file, 3, b"ab");
    assert_eq!(read(&conn, &file, 100, 0), b"\0\0\0ab");
    assert_eq!(read(&conn, &file, 2, 0), b"\0\0");
    let mut file = new_file(&conn, 16);
    set_size(&conn, &mut file, 6);
    assert_eq!(read(&conn, &file, 100, 0), vec![0; 6]);
    write(&conn, &mut file, 1, b"x");
    assert_eq!(read(&conn, &file, 100, 0), b"\0x\0\0\0\0");
    assert_eq!(read(&conn, &file, 100, 4), b"\0\0");
    assert_eq!(read(&conn, &file, 100, 6), b"");
}

#[test]
fn append_goes_to_the_end_of_the_file() {
    let conn = image();
    let mut file = new_file(&conn, 4);
    append(&conn, &mut file, b"first ");
    append(&conn, &mut file, b"second");
    assert_eq!(read(&conn, &file, 100, 0), b"first second");
    assert_eq!(
        layout(&conn, &file),
        vec![(0, 3, true), (4, 5, true), (6, 9, true), (10, 11, true)]
    );
    append(&conn, &mut file, b"");
    assert_eq!(size_of(&file), 12);
}

#[test]
fn append_leaves_holes_before_the_end() {
    let conn = image();
    let mut file = new_file(&conn, 4);
    set_size(&conn, &mut file, 10);
    append(&conn, &mut file, b"abc");
    assert_eq!(layout(&conn, &file), vec![(10, 12, true)]);
    assert_eq!(size_of(&file), 13);
    let stored = load_inode(&conn, id_of(&file)).make_entry().unwrap();
    assert_eq!(stored.st_size, 13);
    assert_eq!(read(&conn, &file, 100, 0), b"\0\0\0\0\0\0\0\0\0\0abc");
}

#[test]
fn sizes_beyond_31_bits_are_kept() {
    let conn = image();
    let mut file = new_file(&conn, 4);
    let edge: i64 = 0x8000_0000;
    write(&conn, &mut file, 0, b"start");
    write(&conn, &mut file, edge - 2, b"abcdef");
    set_size(&conn, &mut file, edge);
    assert_eq!(size_of(&file), edge);
    let stored = load_inode(&conn, id_of(&file)).make_entry().unwrap();
    assert_eq!(stored.st_size, edge);
    assert_eq!(
        layout(&conn, &file),
        vec![(0, 3, true), (4, 4, true), (edge - 2, edge - 1, true)]
    );
    assert_eq!(read(&conn, &file, 100, edge - 3), b"\0ab");
    assert_eq!(read(&conn, &file, 5, 0), b"start");
    set_size(&conn, &mut file, 2 * edge);
    assert_eq!(layout(&conn, &file)[3], (edge, 2 * edge - 1, false));
    assert_eq!(read(&conn, &file, 4, edge - 2), b"ab\0\0");
    set_size(&conn, &mut file, edge - 1);
    assert_eq!(read(&conn, &file, 100, edge - 2), b"a");
}

/// The identifiers and ranges of the blocks of a file
fn rows(conn: &Connection, file: &FloconHandle) -> Vec<(i64, i64, i64)> {
    let mut stmt = conn
        .prepare("select id, first_byte, last_byte from block where inode_id = ? order by first_byte")
        .unwrap();
    let found = stmt
        .query_map([id_of(file) as i64], |r| {
            Ok((r.get(0)?, r.get(1)?, r.get(2)?))
        })
        .unwrap();
    found.map(|r| r.unwrap()).collect()
}

#[test]
fn writes_store_new_blocks() {
    let conn = image();
    let mut file = new_file(&conn, 4);
    write(&conn, &mut file, 0, b"abcdefghijkl");
    let before = rows(&conn, &file);
    let ranges: Vec<(i64, i64)> = before.iter().map(|r| (r.1, r.2)).collect();
    assert_eq!(ranges, vec![(0, 3), (4, 7), (8, 11)]);
    write(&conn, &mut file, 2, b"UVWXY");
    let after = rows(&conn, &file);
    let ranges: Vec<(i64, i64)> = after.iter().map(|r| (r.1, r.2)).collect();
    assert_eq!(ranges, vec![(0, 1), (2, 5), (6, 6), (7, 7), (8, 11)]);
    // The block that was not met stays, the others are stored anew
    assert_eq!(after[4], before[2]);
    assert!(after[..4].iter().all(|r| r.0 > before[2].0));
    assert_eq!(read(&conn, &file, 100, 0), b"abUVWXYhijkl");
}

#[test]
fn shrinking_trims_and_growing_fills_with_zeros() {
    let conn = image();
    let mut file = new_file(&conn, 4);
    write(&conn, &mut file, 0, b"abcdefghij");
    set_size(&conn, &mut file, 6);
    assert_eq!(read(&conn, &file, 100, 0), b"abcdef");
    assert_eq!(layout(&conn, &file), vec![(0, 3, true), (4, 5, true)]);
    set_size(&conn, &mut file, 9);
    assert_eq!(read(&conn, &file, 100, 0), b"abcdef\0\0\0");
    // Zeros are stored implicitly
    assert_eq!(
        layout(&conn, &file),
        vec![(0, 3, true), (4, 5, true), (6, 8, false)]
    );
    // A block of zeros that is trimmed stays implicit
    set_size(&conn, &mut file, 7);
    assert_eq!(read(&conn, &file, 100, 0), b"abcdef\0");
    assert_eq!(
        layout(&conn, &file),
        vec![(0, 3, true), (4, 5, true), (6, 6, false)]
    );
    set_size(&conn, &mut file, 7);
    assert_eq!(size_of(&file), 7);
    set_size(&conn, &mut file, 0);
    assert_eq!(read(&conn, &file, 100, 0), b"");
    assert_eq!(layout(&conn, &file), vec![]);
}

#[test]
fn zero_filled_blocks_are_stored_implicitly() {
    let conn = image();
    let mut file = new_file(&conn, 4);
    write(&conn, &mut file, 0, b"abcd\0\0\0\0ef\0\0");
    assert_eq!(
        layout(&conn, &file),
        vec![(0, 3, true), (4, 7, false), (8, 11, true)]
    );
    assert_eq!(read(&conn, &file, 100, 0), b"abcd\0\0\0\0ef\0\0");
    // What a write leaves of such a block is implicit too
    write(&conn, &mut file, 5, b"X");
    assert_eq!(
        layout(&conn, &file),
        vec![(0, 3, true), (4, 4, false), (5, 5, true), (6, 7, false), (8, 11, true)]
    );
    assert_eq!(read(&conn, &file, 100, 0), b"abcd\0X\0\0ef\0\0");
    append(&conn, &mut file, &[0; 4]);
    assert_eq!(layout(&conn, &file)[5], (12, 15, false));
}

#[test]
fn growing_an_empty_file_stores_no_block() {
    let conn = image();
    let mut file = new_file(&conn, 4);
    set_size(&conn, &mut file, 5);
    assert_eq!(layout(&conn, &file), vec![]);
    assert_eq!(size_of(&file), 5);
    assert_eq!(read(&conn, &file, 100, 0), vec![0; 5]);
    // With a size but no blocks, growing stores one block of zeros
    set_size(&conn, &mut file, 8);
    assert_eq!(layout(&conn, &file), vec![(0, 7, false)]);
    assert_eq!(read(&conn, &file, 100, 0), vec![0; 8]);
}

#[test]
fn truncating_empties_a_file() {
    let conn = image();
    let mut file = new_file(&conn, 4);
    write(&conn, &mut file, 0, b"abcdefghij");
    for s in file.truncate().unwrap() {
        run(&conn, &s);
    }
    file.keep_size(0);
    assert_eq!(read(&conn, &file, 100, 0), b"");
    assert_eq!(layout(&conn, &file), vec![]);
    assert_eq!(
        load_inode(&conn, id_of(&file)).make_entry().unwrap().st_size,
        0
    );
}

fn words(e: Error) -> (ErrorKind, String) {
    match e {
        Error::Message { kind, message } => (kind, message),
        Error::Os { .. } => panic!("expected words"),
    }
}

#[test]
fn resize_tells_what_to_do() {
    assert_eq!(resize(5, 5), Resize::Keep);
    assert_eq!(resize(5, 3), Resize::Shrink { truncate_point: 3 });
    assert_eq!(resize(5, 9), Resize::Grow { fill: true });
    assert_eq!(resize(0, 9), Resize::Grow { fill: false });
    assert_eq!(
        resize(0x2_0000_0000, 0x1_0000_0007),
        Resize::Shrink {
            truncate_point: 0x1_0000_0007
        }
    );
}

#[test]
fn read_windows() {
    assert_eq!(read_window(10, 4, 3).unwrap(), Some((3, 6)));
    assert_eq!(read_window(10, 40, 3).unwrap(), Some((3, 9)));
    assert_eq!(read_window(10, 4, 10).unwrap(), None);
    assert_eq!(read_window(10, 0, 5).unwrap(), None);
    assert_eq!(read_window(10, 9, -5).unwrap(), None);
    assert_eq!(
        words(read_window(10, 0, 0).unwrap_err()).0,
        ErrorKind::Other
    );
    assert_eq!(
        words(read_window(10, 2, -5).unwrap_err()).0,
        ErrorKind::Other
    );
}

#[test]
fn numbers_that_sqlite_cannot_hold_are_refused() {
    assert_eq!(
        words(overlapping_blocks(u64::MAX, 0, 1).unwrap_err()).1,
        "out of range integral type conversion attempted"
    );
    assert!(insert_block(1, u64::MAX, 1, vec![]).is_err());
    assert!(insert_block(1, 0, u64::MAX, vec![]).is_err());
    assert!(insert_block(u64::MAX, 0, 1, vec![]).is_err());
    assert!(insert_block(1, 0, 0, vec![7]).is_ok());
}

#[test]
fn delete_statement_has_one_mark_for_each_block() {
    let s = delete_blocks(&vec![3]);
    assert_eq!(s.sql, "delete from block where id in (?)");
    let s = delete_blocks(&vec![3, 4, 9]);
    assert_eq!(s.sql, "delete from block where id in (?, ?, ?)");
    assert!(matches!(s.params[2], SqlValue::Integer(9)));
}

#[test]
fn bad_rows_are_refused() {
    let row = vec![
        SqlValue::Integer(1),
        SqlValue::Integer(-1),
        SqlValue::Integer(5),
        SqlValue::Integer(1),
    ];
    assert_eq!(
        words(read_blocks(&vec![row], 1).err().unwrap()),
        (
            ErrorKind::Other,
            "Integer -1 out of range at index 1".to_string()
        )
    );
    let short = vec![SqlValue::Integer(1)];
    assert!(read_blocks(&vec![short], 1).is_err());
    assert!(plan_append(1, 3, &vec![1], 4).is_ok());
    assert!(plan_append(1, -1, &vec![1], 4).is_err());
    assert!(plan_append(1, i64::MAX, &vec![1], 4).is_err());
    assert!(plan_append(u64::MAX, 3, &vec![1], 4).is_err());
}

#[test]
fn writes_before_the_start_are_refused() {
    let conn = image();
    let file = new_file(&conn, 4);
    let refused = file.prepare_write(&vec![], -3, &vec![1, 2]);
    assert_eq!(words(refused.err().unwrap()).0, ErrorKind::Other);
    let nothing = file.prepare_write(&vec![], -3, &vec![]).unwrap();
    assert!(nothing.sequence.blocks.is_empty());
    assert_eq!(
        words(FloconHandle::check_incoming(5, 4).unwrap_err()),
        (ErrorKind::Other, "Unexpected EOF".to_string())
    );
    assert!(FloconHandle::check_incoming(5, 5).is_ok());
    assert_eq!(
        words(file.record_size(-1).unwrap_err()).0,
        ErrorKind::Other
    );
}

#[test]
fn blocks_whose_data_is_gone_cannot_be_rewritten() {
    let conn = image();
    let mut file = new_file(&conn, 4);
    write(&conn, &mut file, 0, b"abcd");
    let rows = query(&conn, &file.overlapping_blocks(1, 2).unwrap());
    let prepared = file.prepare_write(&rows, 1, &b"XY".to_vec()).unwrap();
    assert!(!can_read_new_blocks(&prepared.sequence, &FloconContext::new()));
    assert!(can_read_new_blocks(&prepared.sequence, &load(&conn, &[1])));
    let rows = query(&conn, &spanning_blocks(id_of(&file), 2).unwrap());
    let blocks = read_blocks(&rows, 2).unwrap();
    assert!(!can_trim(&blocks, 2, &FloconContext::new()));
    assert!(!can_trim(&blocks, 0, &load(&conn, &[1])));
    assert!(can_trim(&blocks, 2, &load(&conn, &[1])));
}

#[test]
fn operations_ask_for_what_they_need() {
    let conn = image();
    let mut file = new_file(&conn, 4);
    write(&conn, &mut file, 0, b"abcdefgh");
    let start = WriteFile::Start {
        size: 2,
        offset: 1,
        data: b"XY".to_vec(),
    };
    let (state, action) = start.next(&mut file, Reply::Begin).unwrap();
    let (state, action) = state.next(&mut file, answer(&conn, &action)).unwrap();
    // Only what is left of the first block is read
    assert!(matches!(&action, Action::Load(ids) if ids == &[1, 1]));
    assert!(!state.can_take(&Reply::Data(FloconContext::new())));
    assert!(state.can_take(&Reply::Data(load(&conn, &[1]))));
    let start = SetSize::Start { size: 6 };
    let (state, action) = start.next(&mut file, Reply::Begin).unwrap();
    assert!(matches!(&action, Action::Run(s) if s.len() == 1));
    let (state, action) = state.next(&mut file, answer(&conn, &action)).unwrap();
    let (state, action) = state.next(&mut file, answer(&conn, &action)).unwrap();
    assert!(matches!(&action, Action::Load(ids) if ids == &[2]));
    assert!(!state.can_take(&Reply::Data(FloconContext::new())));
}

#[test]
fn unexpected_replies_are_refused() {
    let conn = image();
    let mut file = new_file(&conn, 4);
    let odd = (ErrorKind::Other, "Unexpected reply".to_string());
    let start = SetSize::Start { size: 6 };
    assert_eq!(words(start.next(&mut file, Reply::Done).err().unwrap()), odd);
    let start = AppendFile::Start { data: vec![1] };
    let refused = start.next(&mut file, Reply::Rows(vec![]));
    assert_eq!(words(refused.err().unwrap()), odd);
    let over = WriteFile::Over { n: 3 };
    assert_eq!(words(over.next(&mut file, Reply::Begin).err().unwrap()), odd);
    let start = ReadFile::Start { size: 1, offset: 0 };
    let refused = start.next(&file, Reply::Done, &mut Vec::new());
    assert_eq!(words(refused.err().unwrap()), odd);
}

#[test]
fn short_input_is_refused() {
    let conn = image();
    let mut file = new_file(&conn, 4);
    let start = WriteFile::Start {
        size: 3,
        offset: 0,
        data: vec![1],
    };
    assert_eq!(
        words(start.next(&mut file, Reply::Begin).err().unwrap()),
        (ErrorKind::Other, "Unexpected EOF".to_string())
    );
}

#[test]
fn full_files_leave_no_room() {
    let conn = image();
    let mut file = new_file(&conn, 4);
    write(&conn, &mut file, 0, b"a");
    let (state, _) = SetSize::Start { size: 6 }.next(&mut file, Reply::Begin).unwrap();
    let row = |last: i64| Reply::Rows(vec![vec![SqlValue::Integer(0), SqlValue::Integer(last)]]);
    assert!(!state.can_take(&row(i64::MAX)));
    assert!(state.can_take(&row(i64::MAX - 1)));
}
