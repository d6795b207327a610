use flocon::blocks::{
    DataSource, FloconContext, MemoryDataSource, Sequence, Source, SqliteDataSource, WorkingBlock,
    ZeroDataSource,
};
use flocon::error::{Error, ErrorKind};
use rusqlite::Connection;
use std::sync::Arc;

// Helper to create a test database in memory
fn create_test_database() -> Connection {
    let conn = Connection::open_in_memory().unwrap();

    // Create test table
    conn.execute(
        "CREATE TABLE block (
            id INTEGER PRIMARY KEY,
            data BLOB
        )",
        [],
    )
    .unwrap();

    conn
}

fn create_test_context() -> FloconContext {
    FloconContext::new()
}

/// Inserts a test block with the provided data, loads it into the context and
/// returns the ID of said block
fn insert_test_block(context: &mut FloconContext, data: &[u8]) -> u64 {
    let conn = create_test_database();
    conn.execute("INSERT INTO block (data) VALUES (?1)", [data])
        .unwrap();
    let id = conn.last_insert_rowid();
    let stored: Vec<u8> = conn
        .query_row("SELECT data FROM block WHERE id = ?1", [id], |row| {
            row.get(0)
        })
        .unwrap();
    context.add_blob(id as u64, stored);
    id as u64
}

fn memory(data: &[u8]) -> Source {
    Source::Memory(MemoryDataSource::from_data(data.to_vec()).unwrap())
}

#[test]
fn test_memory_data_source_basic() {
    let data = Arc::new(vec![0, 1, 2, 3, 4, 5, 6, 7, 8, 9]);
    let source = MemoryDataSource::new(data.clone(), 0, 10).unwrap();

    assert_eq!(source.size(), 10);

    let mut context = create_test_context();
    let mut output = Vec::new();
    let bytes_written = source.read_to(&mut context, &mut output).unwrap();

    assert_eq!(bytes_written, 10);
    assert_eq!(output, vec![0, 1, 2, 3, 4, 5, 6, 7, 8, 9]);
}

#[test]
fn test_memory_data_source_slice() {
    let data = Arc::new(vec![0, 1, 2, 3, 4, 5, 6, 7, 8, 9]);
    let source = MemoryDataSource::new(data.clone(), 0, 10).unwrap();

    // Slice from offset 2, length 5
    let sliced = source.slice(2, 5).unwrap();

    let mut context = create_test_context();
    let mut output = Vec::new();
    sliced.read_to(&mut context, &mut output).unwrap();

    assert_eq!(output, vec![2, 3, 4, 5, 6]);
}

#[test]
fn test_memory_data_source_invalid_bounds() {
    let data = Arc::new(vec![0, 1, 2, 3, 4]);

    // Offset out of bounds
    assert!(MemoryDataSource::new(data.clone(), 10, 1).is_err());

    // Size exceeds available data
    assert!(MemoryDataSource::new(data.clone(), 0, 10).is_err());

    // Valid source, invalid slice
    let source = MemoryDataSource::new(data.clone(), 0, 5).unwrap();
    assert!(source.slice(3, 3).is_err()); // Would exceed bounds
}

#[test]
fn test_zero_data_source() {
    let source = ZeroDataSource::new(10);
    assert_eq!(source.size(), 10);

    let mut context = create_test_context();
    let mut output = Vec::new();
    let bytes_written = source.read_to(&mut context, &mut output).unwrap();

    assert_eq!(bytes_written, 10);
    assert_eq!(output, vec![0; 10]);
}

#[test]
fn test_zero_data_source_slice() {
    let source = ZeroDataSource::new(20);
    let sliced = source.slice(5, 10).unwrap();

    let mut context = create_test_context();
    let mut output = Vec::new();
    sliced.read_to(&mut context, &mut output).unwrap();

    assert_eq!(output, vec![0; 10]);
}

#[test]
fn test_sqlite_data_source() {
    let mut context = create_test_context();

    // Insert test data
    let block_id = insert_test_block(&mut context, b"0123456789");

    let source = SqliteDataSource::new(block_id, 0, 10);
    assert_eq!(source.size(), 10);

    let mut output = Vec::new();
    let bytes_written = source.read_to(&mut context, &mut output).unwrap();
    let _output_as_string = String::from_utf8(output.clone()).unwrap();

    assert_eq!(bytes_written, 10);
    assert_eq!(output, b"0123456789");
}

#[test]
fn test_sqlite_data_source_slice() {
    let mut context = create_test_context();

    // Insert test data
    let block_id = insert_test_block(&mut context, b"0123456789");

    let source = SqliteDataSource::new(block_id, 0, 10);
    let sliced = source.slice(3, 4).unwrap();

    let mut output = Vec::new();
    sliced.read_to(&mut context, &mut output).unwrap();

    assert_eq!(output, b"3456");
}

#[test]
fn test_working_block_clip() {
    let mut context = create_test_context();

    // Block before range
    let data = memory(&[0, 1, 2, 3, 4, 5]);
    let block = WorkingBlock::new(None, 0, 5, data);
    let result = block.clip(10, 20);
    assert!(result.is_err());

    // Block cut by range start
    let data = memory(b"0123456789");
    let block = WorkingBlock::new(None, 5, 14, data);
    let clipped = block.clip(10, 20).unwrap();
    assert_eq!(clipped.first_byte, 10);
    assert_eq!(clipped.last_byte, 14);
    assert_eq!(clipped.concrete_data(&mut context), b"56789");

    // Block cut by range end
    let data = memory(b"0123456789");
    let block = WorkingBlock::new(None, 17, 26, data);
    let clipped = block.clip(10, 20).unwrap();
    assert_eq!(clipped.first_byte, 17);
    assert_eq!(clipped.last_byte, 20);
    assert_eq!(clipped.concrete_data(&mut context), b"0123");

    // Block within range
    let data = memory(b"0123456789");
    let block = WorkingBlock::new(None, 10, 19, data);
    let clipped = block.clip(10, 20).unwrap();
    assert_eq!(clipped.first_byte, 10);
    assert_eq!(clipped.last_byte, 19);
    assert_eq!(clipped.concrete_data(&mut context), b"0123456789");

    // Range within block
    let data = memory(b"0123456789");
    let block = WorkingBlock::new(None, 10, 19, data);
    let clipped = block.clip(11, 18).unwrap();
    assert_eq!(clipped.first_byte, 11);
    assert_eq!(clipped.last_byte, 18);
    assert_eq!(clipped.concrete_data(&mut context), b"12345678");
}

#[test]
fn test_working_block_concrete_data() {
    let mut context = create_test_context();

    // Block with zeros
    let source = ZeroDataSource::new(10);
    let block = WorkingBlock::new(None, 10, 19, Source::Zero(source));
    let clipped = block.clip(10, 20).unwrap();
    assert_eq!(clipped.concrete_data(&mut context), vec![0; 10]);

    // Range within block
    let source = ZeroDataSource::new(10);
    let block = WorkingBlock::new(None, 10, 19, Source::Zero(source));
    let clipped = block.clip(11, 18).unwrap();
    assert_eq!(clipped.concrete_data(&mut context), vec![0; 8]);

    // Range within block (with data)
    let data = memory(b"0123456789");
    let block = WorkingBlock::new(None, 10, 19, data);
    let clipped = block.clip(11, 18).unwrap();
    assert_eq!(clipped.concrete_data(&mut context), b"12345678");
}

#[test]
fn test_working_block_remove() {
    let mut context = create_test_context();

    let data = memory(b"0123456789");
    let block = WorkingBlock::new(Some(1), 5, 14, data);

    // No intersect
    let result = block.remove(0, 4);
    assert_eq!(result.len(), 1);
    assert_eq!(result[0].first_byte, 5);
    assert_eq!(result[0].last_byte, 14);

    // Full intersect
    let result = block.remove(5, 14);
    assert_eq!(result.len(), 0);

    // Clip left
    let result = block.remove(3, 7);
    assert_eq!(result.len(), 1);
    assert_eq!(result[0].id, None);
    assert_eq!(result[0].first_byte, 8);
    assert_eq!(result[0].last_byte, 14);
    assert_eq!(result[0].concrete_data(&mut context), b"3456789");

    // Clip right
    let result = block.remove(12, 14);
    assert_eq!(result.len(), 1);
    assert_eq!(result[0].id, None);
    assert_eq!(result[0].first_byte, 5);
    assert_eq!(result[0].last_byte, 11);
    assert_eq!(result[0].concrete_data(&mut context), b"0123456");

    // Punch a hole
    let result = block.remove(7, 10);
    assert_eq!(result.len(), 2);
    assert_eq!(result[0].id, None);
    assert_eq!(result[0].first_byte, 5);
    assert_eq!(result[0].last_byte, 6);
    assert_eq!(result[0].concrete_data(&mut context), b"01");
    assert_eq!(result[1].id, None);
    assert_eq!(result[1].first_byte, 11);
    assert_eq!(result[1].last_byte, 14);
    assert_eq!(result[1].concrete_data(&mut context), b"6789");
}

#[test]
fn test_sequence_clip() {
    let mut context = create_test_context();

    let b1 = WorkingBlock::new(Some(1), 0, 10, memory(b"abcdefghijk"));
    let b2 = WorkingBlock::new(Some(2), 11, 16, memory(b"lmnopq"));
    let b3 = WorkingBlock::new(Some(3), 17, 25, memory(b"rstuvwxyz"));

    let sequence = Sequence::new(vec![b1, b2, b3]);

    let clipped = sequence.clip(10, 20);
    assert_eq!(clipped.blocks.len(), 3);

    assert_eq!(clipped.blocks[0].id, None);
    assert_eq!(clipped.blocks[0].first_byte, 10);
    assert_eq!(clipped.blocks[0].last_byte, 10);
    assert_eq!(clipped.blocks[0].concrete_data(&mut context), b"k");

    assert_eq!(clipped.blocks[1].id, Some(2));
    assert_eq!(clipped.blocks[1].first_byte, 11);
    assert_eq!(clipped.blocks[1].last_byte, 16);
    assert_eq!(clipped.blocks[1].concrete_data(&mut context), b"lmnopq");

    assert_eq!(clipped.blocks[2].id, None);
    assert_eq!(clipped.blocks[2].first_byte, 17);
    assert_eq!(clipped.blocks[2].last_byte, 20);
    assert_eq!(clipped.blocks[2].concrete_data(&mut context), b"rstu");
}

#[test]
fn test_sequence_concrete_data_with_gaps() {
    let mut context = create_test_context();

    let b1 = WorkingBlock::new(None, 0, 2, memory(b"abc"));
    let b2 = WorkingBlock::new(None, 5, 7, memory(b"def"));

    let sequence = Sequence::new(vec![b1, b2]);
    let data = sequence.concrete_data(&mut context);

    // Should be: "abc" + 2 zeros + "def"
    assert_eq!(data, b"abc\0\0def");
}

#[test]
fn test_sequence_replace() {
    let mut context = create_test_context();

    let b1 = WorkingBlock::new(Some(1), 0, 10, memory(b"abcdefghijk"));
    let b2 = WorkingBlock::new(Some(2), 11, 16, memory(b"lmnopq"));

    let sequence = Sequence::new(vec![b1, b2]);

    // Replace overlapping parts
    let new_block = WorkingBlock::new(None, 8, 10, memory(b"XXX"));

    let replaced = sequence.replace(new_block);
    assert_eq!(replaced.blocks.len(), 3);

    // First block should be truncated
    assert_eq!(replaced.blocks[0].first_byte, 0);
    assert_eq!(replaced.blocks[0].last_byte, 7);
    assert_eq!(replaced.blocks[0].concrete_data(&mut context), b"abcdefgh");

    // New block
    assert_eq!(replaced.blocks[1].first_byte, 8);
    assert_eq!(replaced.blocks[1].last_byte, 10);
    assert_eq!(replaced.blocks[1].concrete_data(&mut context), b"XXX");

    // Second original block unchanged
    assert_eq!(replaced.blocks[2].first_byte, 11);
    assert_eq!(replaced.blocks[2].last_byte, 16);
    assert_eq!(replaced.blocks[2].concrete_data(&mut context), b"lmnopq");
}

fn words(result: Result<MemoryDataSource, flocon::error::Error>) -> String {
    match result {
        Err(flocon::error::Error::Message { kind, message }) => {
            assert_eq!(kind, ErrorKind::InvalidInput);
            message
        }
        _ => panic!("expected an error with words"),
    }
}

#[test]
fn memory_source_names_each_fault() {
    let data = Arc::new(vec![0, 1, 2, 3, 4]);
    assert_eq!(
        words(MemoryDataSource::new(data.clone(), 6, 0)),
        "Offset out of bounds"
    );
    assert_eq!(
        words(MemoryDataSource::new(data.clone(), 2, 4)),
        "Size exceeds available data"
    );
    assert_eq!(
        words(MemoryDataSource::new(data.clone(), 2, u64::MAX)),
        "Size exceeds available data"
    );
    let source = MemoryDataSource::new(data.clone(), 2, 3).unwrap();
    assert_eq!(words(source.slice(u64::MAX, 1)), "Offset overflow");
    assert_eq!(words(source.slice(1, 3)), "Slice out of bounds");
    assert_eq!(source.as_slice(), &[2, 3, 4]);
    assert!(MemoryDataSource::new(data, 5, 0).is_ok());
}

#[test]
fn memory_sources_share_their_bytes() {
    let source = MemoryDataSource::from_data(vec![9, 8, 7]).unwrap();
    let twin = DataSource::clone(&source);
    assert_eq!(twin.as_slice().as_ptr(), source.as_slice().as_ptr());
    assert_eq!(twin.as_slice(), &[9, 8, 7]);
}

#[test]
fn sqlite_source_fails_as_the_blob_does() {
    let mut context = create_test_context();
    context.add_blob(7, b"abc".to_vec());
    let mut out = Vec::new();

    let missing = SqliteDataSource::new(8, 0, 1).read_to(&context, &mut out);
    assert_eq!(missing.unwrap_err().kind(), ErrorKind::Other);

    let beyond = SqliteDataSource::new(7, 4, 1).read_to(&context, &mut out);
    assert_eq!(beyond.unwrap_err().kind(), ErrorKind::InvalidInput);

    let huge = SqliteDataSource::new(u64::MAX, 0, 1).read_to(&context, &mut out);
    assert_eq!(huge.unwrap_err().kind(), ErrorKind::InvalidInput);

    let far = SqliteDataSource::new(7, u64::MAX, 1).read_to(&context, &mut out);
    assert_eq!(far.unwrap_err().kind(), ErrorKind::InvalidInput);
    assert!(out.is_empty());

    // A blob that is shorter than what is asked for gives what it has
    assert_eq!(
        SqliteDataSource::new(7, 1, 10).read_to(&context, &mut out).unwrap(),
        2
    );
    assert_eq!(out, b"bc");
    assert_eq!(
        SqliteDataSource::new(7, 3, 10).read_to(&context, &mut out).unwrap(),
        0
    );

    let source = SqliteDataSource::new(7, u64::MAX - 1, 5);
    assert!(source.slice(4, 2).is_err());
    assert!(source.slice(3, 1).is_err());
    assert!(source.slice(1, 1).is_ok());
}

#[test]
fn readable_sources_are_told_apart() {
    let mut context = create_test_context();
    context.add_blob(1, b"abc".to_vec());
    assert!(SqliteDataSource::new(1, 3, 9).is_readable(&context));
    assert!(!SqliteDataSource::new(1, 4, 9).is_readable(&context));
    assert!(!SqliteDataSource::new(2, 0, 1).is_readable(&context));
    assert!(ZeroDataSource::new(12).is_readable(&context));
    assert!(!ZeroDataSource::new(u64::MAX).is_readable(&context));
    assert!(memory(b"x").is_readable(&context));
}

#[test]
fn clip_names_its_fault() {
    let block = WorkingBlock::new(None, 0, 5, memory(&[0, 1, 2, 3, 4, 5]));
    assert_eq!(
        block.clip(10, 20).err().unwrap(),
        "Clipping range does not intersect with block range"
    );
    // A source that is too short for its block
    let short = WorkingBlock::new(None, 0, 5, memory(&[0, 1]));
    assert_eq!(short.clip(0, 3).err().unwrap(), "Slice out of bounds");
}

#[test]
fn clip_keeps_the_id_of_a_whole_block() {
    let block = WorkingBlock::new(Some(4), 3, 5, memory(b"abc"));
    assert_eq!(block.clip(0, 9).unwrap().id, Some(4));
    assert_eq!(block.clip(3, 5).unwrap().id, Some(4));
    assert_eq!(block.clip(3, 4).unwrap().id, None);
    assert_eq!(block.clip(4, 5).unwrap().id, None);
}

#[test]
fn replace_keeps_order_among_equal_starts() {
    // Two blocks that start at the same byte keep their order
    let a = WorkingBlock::new(Some(1), 5, 6, memory(b"aa"));
    let b = WorkingBlock::new(Some(2), 5, 6, memory(b"bb"));
    let c = WorkingBlock::new(Some(3), 1, 2, memory(b"cc"));
    let replaced = Sequence::new(vec![a, b, c]).replace(WorkingBlock::new(
        None,
        9,
        9,
        memory(b"x"),
    ));
    let ids: Vec<Option<u64>> = replaced.blocks.iter().map(|b| b.id).collect();
    assert_eq!(ids, vec![Some(3), Some(1), Some(2), None]);
}

#[test]
fn replace_in_an_empty_sequence() {
    let replaced = Sequence::new(vec![]).replace(WorkingBlock::new(None, 3, 4, memory(b"xy")));
    assert_eq!(replaced.blocks.len(), 1);
    assert_eq!(replaced.concrete_data(&create_test_context()), b"xy");
}

#[test]
fn writing_out_stops_at_the_first_error() {
    let context = create_test_context();
    let sequence = Sequence::new(vec![
        WorkingBlock::new(None, 0, 1, memory(b"ab")),
        WorkingBlock::new(Some(9), 4, 4, Source::Sqlite(SqliteDataSource::new(9, 0, 1))),
        WorkingBlock::new(None, 5, 5, memory(b"z")),
    ]);
    let mut out = Vec::new();
    let error = sequence.concrete_data_to_writer(&context, &mut out).unwrap_err();
    assert_eq!(error.kind(), ErrorKind::Other);
    assert!(matches!(error, Error::Message { message, .. } if message == "no such rowid: 9"));
    assert_eq!(out, b"ab\0\0");
    assert_eq!(
        Sequence::<Source>::new(vec![]).concrete_data_to_writer(&context, &mut out).unwrap(),
        0
    );
}

/// A source of one letter, over and over
struct Letters {
    letter: u8,
    count: u64,
}

impl DataSource for Letters {
    fn size(&self) -> u64 {
        self.count
    }

    fn is_readable(&self, _context: &FloconContext) -> bool {
        true
    }

    fn read_to(&self, _context: &FloconContext, w: &mut Vec<u8>) -> Result<usize, Error> {
        w.extend(vec![self.letter; self.count as usize]);
        Ok(self.count as usize)
    }

    fn slice(&self, offset: u64, size: u64) -> Result<Self, Error> {
        if offset + size > self.count {
            return Err(Error::new(ErrorKind::InvalidInput, "Slice out of bounds"));
        }
        Ok(Letters {
            letter: self.letter,
            count: size,
        })
    }

    fn clone(&self) -> Self {
        Letters {
            letter: self.letter,
            count: self.count,
        }
    }
}

#[test]
fn blocks_take_any_source() {
    let block = |letter: u8, first: u64, last: u64| {
        let source = Letters {
            letter,
            count: last - first + 1,
        };
        WorkingBlock::new(None, first, last, source)
    };
    let sequence = Sequence::new(vec![block(b'a', 0, 4), block(b'b', 7, 9)]);
    let replaced = sequence.replace(block(b'x', 3, 8));
    assert_eq!(replaced.concrete_data(&FloconContext::new()), b"aaaxxxxxxb");
}
