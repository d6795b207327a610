//! How the bytes of a file are kept in rows of the `block` table: which rows a
//! write, an append or a change of size puts in, and which ones it takes out.

use vstd::prelude::*;
use vstd::string::StringExecFns;
use crate::blocks::{
    BlockView, DataSource, FloconContext, MemoryDataSource, Sequence, Source, SourceView,
    SqliteDataSource, WorkingBlock, ZeroDataSource,
};
use crate::error::{Error, ErrorKind, ErrorView};
use crate::sql::{SqlValue, SqlView, Statement, StatementView};

verus! {

/// How many bytes lie from `first_byte` up to and with `last_byte`, in the
/// arithmetic of 64-bit numbers.
pub open spec fn row_size(first_byte: u64, last_byte: u64) -> u64 {
    let n = last_byte - first_byte + 1;
    (if n < 0 {
        n + 0x1_0000_0000_0000_0000
    } else {
        n
    }) as u64
}

/// The stored block that a row stands for, or the error of the first column
/// that does not hold what it should: the columns from `at` on hold its first
/// byte, its last byte and whether it has data. One without data is all zeros.
pub open spec fn block_of_row(row: Seq<SqlView>, at: int) -> Result<BlockView, ErrorView> {
    match crate::sql::as_u64(row, 0, "id"@) {
        Err(error) => Err(error),
        Ok(id) => match crate::sql::as_u64(row, at, "first_byte"@) {
            Err(error) => Err(error),
            Ok(first_byte) => match crate::sql::as_u64(row, at + 1, "last_byte"@) {
                Err(error) => Err(error),
                Ok(last_byte) => match crate::sql::as_bool(row, at + 2, "has_data"@) {
                    Err(error) => Err(error),
                    Ok(has_data) => Ok(stored_block(id, first_byte, last_byte, has_data)),
                },
            },
        },
    }
}

/// The block that is stored under this identifier.
pub open spec fn stored_block(
    id: u64,
    first_byte: u64,
    last_byte: u64,
    has_data: bool,
) -> BlockView {
    let size = row_size(first_byte, last_byte);
    BlockView {
        id: Some(id),
        first_byte,
        last_byte,
        source: if has_data {
            SourceView::Sqlite { block_id: id, offset: 0, size }
        } else {
            SourceView::Zero { size }
        },
    }
}

/// The stored blocks that the rows stand for, or the error of the first row that
/// stands for none.
pub open spec fn blocks_of_rows(rows: Seq<Seq<SqlView>>, at: int) -> Result<
    Seq<BlockView>,
    ErrorView,
>
    decreases rows.len(),
{
    if rows.len() == 0 {
        Ok(seq![])
    } else {
        match blocks_of_rows(rows.drop_last(), at) {
            Err(error) => Err(error),
            Ok(head) => match block_of_row(rows.last(), at) {
                Ok(block) => Ok(head.push(block)),
                Err(error) => Err(error),
            },
        }
    }
}

/// Reads a stored block out of a row.
fn read_block(row: &Vec<SqlValue>, at: usize) -> (r: Result<WorkingBlock, Error>)
    requires
        at <= 2,
    ensures
        match block_of_row(crate::sql::values(row@), at as int) {
            Ok(block) => r matches Ok(b) && b@ == block,
            Err(error) => r matches Err(e) && e@ == error,
        },
{
    let id: u64 = match crate::sql::get_u64(row, 0, "id") {
        Ok(v) => v,
        Err(e) => return Err(e),
    };
    let first_byte: u64 = match crate::sql::get_u64(row, at, "first_byte") {
        Ok(v) => v,
        Err(e) => return Err(e),
    };
    let last_byte: u64 = match crate::sql::get_u64(row, at + 1, "last_byte") {
        Ok(v) => v,
        Err(e) => return Err(e),
    };
    let size: u64 = last_byte.wrapping_sub(first_byte).wrapping_add(1);
    let has_data = match crate::sql::get_bool(row, at + 2, "has_data") {
        Ok(v) => v,
        Err(e) => return Err(e),
    };
    let source = if has_data {
        Source::Sqlite(SqliteDataSource::new(id, 0, size))
    } else {
        Source::Zero(ZeroDataSource::new(size))
    };
    Ok(WorkingBlock::new(Some(id), first_byte, last_byte, source))
}

/// The first row that stands for no block decides, whatever follows it.
proof fn lemma_bad_row(rows: Seq<Seq<SqlView>>, at: int, i: int)
    requires
        0 <= i < rows.len(),
        blocks_of_rows(rows.take(i), at) is Ok,
        block_of_row(rows[i], at) is Err,
    ensures
        blocks_of_rows(rows, at) == Err::<Seq<BlockView>, ErrorView>(
            block_of_row(rows[i], at)->Err_0,
        ),
    decreases rows.len(),
{
    if i < rows.len() - 1 {
        assert(rows.drop_last().take(i) =~= rows.take(i));
        lemma_bad_row(rows.drop_last(), at, i);
    } else {
        assert(rows.drop_last() =~= rows.take(i));
    }
}

/// Reads the stored blocks out of rows.
pub fn read_blocks(rows: &Vec<Vec<SqlValue>>, at: usize) -> (r: Result<Vec<WorkingBlock>, Error>)
    requires
        at <= 2,
    ensures
        match blocks_of_rows(crate::sql::rows(rows@), at as int) {
            Ok(blocks) => r matches Ok(b) && crate::blocks::views(b@) == blocks,
            Err(error) => r matches Err(e) && e@ == error,
        },
{
    let ghost all = crate::sql::rows(rows@);
    let mut blocks: Vec<WorkingBlock> = Vec::new();
    assert(crate::blocks::views(blocks@) =~= seq![]);
    let mut i: usize = 0;
    while i < rows.len()
        invariant
            i <= rows.len(),
            at <= 2,
            all == crate::sql::rows(rows@),
            blocks_of_rows(all.take(i as int), at as int) == Ok::<Seq<BlockView>, ErrorView>(
                crate::blocks::views(blocks@),
            ),
        decreases rows.len() - i,
    {
        assert(all[i as int] == crate::sql::values(rows[i as int]@));
        match read_block(&rows[i], at) {
            Ok(block) => {
                let ghost before = crate::blocks::views(blocks@);
                blocks.push(block);
                proof {
                    assert(all.take(i + 1).drop_last() =~= all.take(i as int));
                    assert(crate::blocks::views(blocks@) =~= before.push(block@));
                }
            },
            Err(e) => {
                proof {
                    lemma_bad_row(all, at as int, i as int);
                }
                return Err(e);
            },
        }
        i = i + 1;
    }
    assert(all.take(i as int) =~= all);
    Ok(blocks)
}

/// How many of `len` bytes the next block takes.
pub open spec fn chunk_len(len: nat, block_size: u64) -> nat {
    if len <= block_size {
        len
    } else {
        block_size as nat
    }
}

/// The new block that holds these bytes from this position on.
pub open spec fn new_block(start: u64, data: Seq<u8>) -> BlockView {
    BlockView {
        id: None,
        first_byte: start,
        last_byte: (start + data.len() - 1) as u64,
        source: SourceView::Memory { data, offset: 0, size: data.len() as u64 },
    }
}

/// The blocks with `data` written over them from `start` on, in new blocks of
/// `block_size` bytes; the last one may be shorter.
pub open spec fn overwrite(
    s: Seq<BlockView>,
    start: u64,
    data: Seq<u8>,
    block_size: u64,
) -> Seq<BlockView>
    decreases data.len(),
{
    if data.len() == 0 || block_size == 0 {
        s
    } else {
        let n = chunk_len(data.len(), block_size);
        overwrite(
            crate::blocks::replace_block(s, new_block(start, data.take(n as int))),
            (start + n) as u64,
            data.skip(n as int),
            block_size,
        )
    }
}

/// The new blocks of `block_size` bytes that hold `data` from `start` on; the
/// last one may be shorter.
pub open spec fn chunks(start: u64, data: Seq<u8>, block_size: u64) -> Seq<BlockView>
    decreases data.len(),
{
    if data.len() == 0 || block_size == 0 {
        seq![]
    } else {
        let n = chunk_len(data.len(), block_size);
        seq![new_block(start, data.take(n as int))] + chunks(
            (start + n) as u64,
            data.skip(n as int),
            block_size,
        )
    }
}

/// Whether a block that runs forward has a source of its own length, out of
/// which any part can be cut.
pub open spec fn sound(b: BlockView) -> bool {
    b.first_byte <= b.last_byte ==> {
        &&& b.source.size() == b.last_byte - b.first_byte + 1
        &&& match b.source {
            SourceView::Memory { offset, size, .. } => offset + size <= u64::MAX,
            SourceView::Zero { .. } => true,
            SourceView::Sqlite { offset, size, .. } => offset + size <= u64::MAX,
        }
    }
}

/// Whether each of the blocks is sound.
pub open spec fn all_sound(s: Seq<BlockView>) -> bool {
    forall|b: BlockView| #[trigger] s.contains(b) ==> sound(b)
}

/// Any range can be removed from a sound block, and what is left is sound. A
/// part that was not cut is the block itself.
proof fn lemma_remove_sound(b: BlockView, first_byte: u64, last_byte: u64)
    requires
        sound(b),
        first_byte <= last_byte,
    ensures
        b.removable(first_byte, last_byte),
        all_sound(b.remove(first_byte, last_byte)),
        forall|p: BlockView| #[trigger]
            b.remove(first_byte, last_byte).contains(p) && p.id is Some ==> p == b,
{
    let pieces = b.remove(first_byte, last_byte);
    assert forall|p: BlockView| #[trigger] pieces.contains(p) implies sound(p) && (p.id is Some
        ==> p == b) by {
        let i = choose|i: int| 0 <= i < pieces.len() && pieces[i] == p;
        assert(i == 0 || i == 1);
    }
}

/// Removing a range from sound blocks leaves sound ones.
proof fn lemma_remove_all_sound(s: Seq<BlockView>, first_byte: u64, last_byte: u64)
    requires
        all_sound(s),
        first_byte <= last_byte,
    ensures
        forall|b: BlockView| #[trigger] s.contains(b) ==> b.removable(first_byte, last_byte),
        all_sound(crate::blocks::remove_all(s, first_byte, last_byte)),
        forall|p: BlockView| #[trigger]
            crate::blocks::remove_all(s, first_byte, last_byte).contains(p) && p.id is Some
                ==> s.contains(p),
    decreases s.len(),
{
    if s.len() > 0 {
        let head = s.drop_last();
        let b = s.last();
        crate::content::lemma_last_contains(s);
        assert(s.contains(b));
        assert forall|x: BlockView| #[trigger] head.contains(x) implies sound(x) by {
            assert(s.contains(x));
        }
        lemma_remove_all_sound(head, first_byte, last_byte);
        lemma_remove_sound(b, first_byte, last_byte);
        crate::content::lemma_add_contains(
            crate::blocks::remove_all(head, first_byte, last_byte),
            b.remove(first_byte, last_byte),
        );
    }
}

/// Replacing a block in sound ones leaves sound ones, and the stored ones among
/// them were there before.
proof fn lemma_replace_sound(s: Seq<BlockView>, b: BlockView)
    requires
        all_sound(s),
        sound(b),
        b.id is None,
        b.first_byte <= b.last_byte,
    ensures
        forall|x: BlockView| #[trigger]
            s.contains(x) ==> x.removable(b.first_byte, b.last_byte),
        all_sound(crate::blocks::replace_block(s, b)),
        forall|p: BlockView| #[trigger]
            crate::blocks::replace_block(s, b).contains(p) && p.id is Some ==> s.contains(p),
{
    let left = crate::blocks::remove_all(s, b.first_byte, b.last_byte);
    lemma_remove_all_sound(s, b.first_byte, b.last_byte);
    crate::content::sort_orders_the_same_blocks(seq![b] + left);
    crate::content::lemma_add_contains(seq![b], left);
    assert forall|p: BlockView| #[trigger]
        crate::blocks::replace_block(s, b).contains(p) implies sound(p) && (p.id is Some
        ==> s.contains(p)) by {
        assert((seq![b] + left).contains(p));
    }
}

/// Stored blocks are sound.
proof fn lemma_rows_sound(rows: Seq<Seq<SqlView>>, at: int)
    requires
        blocks_of_rows(rows, at) is Ok,
    ensures
        all_sound(blocks_of_rows(rows, at)->Ok_0),
        forall|b: BlockView| #[trigger]
            (blocks_of_rows(rows, at)->Ok_0).contains(b) ==> b.id is Some && b.id->0 <= i64::MAX,
    decreases rows.len(),
{
    if rows.len() > 0 {
        lemma_rows_sound(rows.drop_last(), at);
        crate::content::lemma_push_contains(
            blocks_of_rows(rows.drop_last(), at)->Ok_0,
            block_of_row(rows.last(), at)->Ok_0,
        );
    }
}

/// Writes `data` over the blocks from `start` on, in new blocks of
/// `block_size` bytes.
pub fn overwrite_blocks(
    blocks: Vec<WorkingBlock>,
    start: u64,
    data: &Vec<u8>,
    block_size: u64,
) -> (r: Sequence)
    requires
        all_sound(crate::blocks::views(blocks@)),
        block_size > 0,
        start + data@.len() <= i64::MAX,
    ensures
        r@ == overwrite(crate::blocks::views(blocks@), start, data@, block_size),
        all_sound(r@),
{
    let mut sequence = Sequence::new(blocks);
    let ghost before = sequence@;
    let len: u64 = data.len() as u64;
    let mut done: u64 = 0;
    assert(data@.skip(0) =~= data@);
    while done < len
        invariant
            done <= len,
            len == data@.len(),
            block_size > 0,
            start + len <= i64::MAX,
            len <= usize::MAX,
            all_sound(sequence@),
            overwrite(before, start, data@, block_size) == overwrite(
                sequence@,
                (start + done) as u64,
                data@.skip(done as int),
                block_size,
            ),
        decreases len - done,
    {
        let size: u64 = if len - done <= block_size {
            len - done
        } else {
            block_size
        };
        let bytes = vstd::slice::slice_subrange(
            data.as_slice(),
            done as usize,
            (done + size) as usize,
        );
        let chunk = crate::sql::copy_bytes(bytes);
        let ghost rest = data@.skip(done as int);
        assert(chunk@ =~= rest.take(size as int));
        assert(rest.skip(size as int) =~= data@.skip(done + size));
        let first_byte: u64 = start + done;
        let source = match MemoryDataSource::from_data(chunk) {
            Ok(s) => s,
            Err(_) => {
                return sequence;
            },
        };
        let block = WorkingBlock::new(
            None,
            first_byte,
            first_byte + size - 1,
            Source::Memory(source),
        );
        assert(block@ == new_block(first_byte, rest.take(size as int)));
        proof {
            lemma_replace_sound(sequence@, block@);
            assert forall|i: int| 0 <= i < sequence@.len() implies (#[trigger] sequence@[i]).removable(
                block.first_byte,
                block.last_byte,
            ) by {
                assert(sequence@.contains(sequence@[i]));
            }
        }
        sequence = sequence.replace(block);
        done = done + size;
    }
    sequence
}

/// Whether the bytes of a block in this place are all zero.
pub open spec fn zero_filled(first_byte: u64, last_byte: u64, data: Seq<u8>) -> bool {
    &&& data.len() == last_byte - first_byte + 1
    &&& forall|i: int| 0 <= i < data.len() ==> data[i] == 0
}

/// Tells whether the bytes of a block in this place are all zero.
fn is_zero_filled(first_byte: u64, last_byte: u64, data: &Vec<u8>) -> (r: bool)
    ensures
        r == zero_filled(first_byte, last_byte, data@),
{
    let len: usize = data.len();
    if last_byte as i128 - first_byte as i128 + 1 != len as i128 {
        return false;
    }
    let mut i: usize = 0;
    while i < len
        invariant
            i <= len,
            len == data@.len(),
            forall|k: int| 0 <= k < i ==> data@[k] == 0,
        decreases len - i,
    {
        if data[i] != 0 {
            return false;
        }
        i = i + 1;
    }
    true
}

/// The statement that stores a block of a file. One that is filled with zeros
/// is stored without its bytes.
pub open spec fn insert_block_statement(
    inode: u64,
    first_byte: u64,
    last_byte: u64,
    data: Seq<u8>,
) -> StatementView {
    crate::sql::statement(
        "insert into block (inode_id, first_byte, last_byte, data) values (?, ?, ?, ?)",
        seq![
            crate::sql::int_param(inode),
            crate::sql::int_param(first_byte),
            crate::sql::int_param(last_byte),
            if zero_filled(first_byte, last_byte, data) {
                SqlView::Null
            } else {
                SqlView::Blob(data)
            },
        ],
    )
}

/// Whether the block's place in the file can be stored.
pub open spec fn storable(inode: u64, b: BlockView) -> bool {
    crate::sql::bindable(inode) && crate::sql::bindable(b.first_byte) && crate::sql::bindable(
        b.last_byte,
    )
}

/// Whether the bytes of each new block are at hand.
pub open spec fn new_blocks_readable(s: Seq<BlockView>, blobs: Map<u64, Seq<u8>>) -> bool {
    forall|i: int|
        0 <= i < s.len() && (#[trigger] s[i]).id is None ==> s[i].source.fits_in_memory()
            && s[i].source.reads(blobs) is Ok
}

/// Whether the place of each new block can be stored.
pub open spec fn new_blocks_storable(inode: u64, s: Seq<BlockView>) -> bool {
    forall|i: int| 0 <= i < s.len() && (#[trigger] s[i]).id is None ==> storable(inode, s[i])
}

/// The statements that store the new blocks among these, with their bytes and
/// in their order.
pub open spec fn insert_new_blocks(
    inode: u64,
    s: Seq<BlockView>,
    blobs: Map<u64, Seq<u8>>,
) -> Seq<StatementView>
    decreases s.len(),
{
    if s.len() == 0 {
        seq![]
    } else {
        let head = insert_new_blocks(inode, s.drop_last(), blobs);
        if s.last().id is None {
            head.push(
                insert_block_statement(
                    inode,
                    s.last().first_byte,
                    s.last().last_byte,
                    s.last().source.reads(blobs)->Ok_0,
                ),
            )
        } else {
            head
        }
    }
}

/// Tells whether the bytes of each new block are at hand.
pub fn can_read_new_blocks(sequence: &Sequence, context: &FloconContext) -> (r: bool)
    ensures
        r == new_blocks_readable(sequence@, context@),
{
    let mut i: usize = 0;
    while i < sequence.blocks.len()
        invariant
            i <= sequence.blocks.len(),
            forall|k: int|
                0 <= k < i && (#[trigger] sequence@[k]).id is None
                    ==> sequence@[k].source.fits_in_memory() && sequence@[k].source.reads(
                    context@,
                ) is Ok,
        decreases sequence.blocks.len() - i,
    {
        let block = &sequence.blocks[i];
        assert(sequence@[i as int] == block@);
        if block.id.is_none() && !block.source.is_readable(context) {
            return false;
        }
        i = i + 1;
    }
    true
}

/// The statement that stores a block of a file. Zero-filled blocks are stored
/// implicitly to save space.
pub fn insert_block(inode: u64, first_byte: u64, last_byte: u64, data: Vec<u8>) -> (r: Result<
    Statement,
    Error,
>)
    ensures
        if crate::sql::bindable(inode) && crate::sql::bindable(first_byte) && crate::sql::bindable(
            last_byte,
        ) {
            r matches Ok(s) && s@ == insert_block_statement(inode, first_byte, last_byte, data@)
        } else {
            r matches Err(e) && e@ == crate::sql::unbindable()
        },
{
    let inode_param = match crate::sql::bind_u64(inode) {
        Ok(v) => v,
        Err(e) => return Err(e),
    };
    let first_param = match crate::sql::bind_u64(first_byte) {
        Ok(v) => v,
        Err(e) => return Err(e),
    };
    let last_param = match crate::sql::bind_u64(last_byte) {
        Ok(v) => v,
        Err(e) => return Err(e),
    };
    let ghost bytes = data@;
    let data_param = if is_zero_filled(first_byte, last_byte, &data) {
        SqlValue::Null
    } else {
        SqlValue::Blob(data)
    };
    let r = Statement::new(
        "insert into block (inode_id, first_byte, last_byte, data) values (?, ?, ?, ?)",
        vec![inode_param, first_param, last_param, data_param],
    );
    assert(r@ =~= insert_block_statement(inode, first_byte, last_byte, bytes));
    Ok(r)
}

/// The statements that store the new blocks of a sequence.
pub fn insert_blocks(inode: u64, sequence: &Sequence, context: &FloconContext) -> (r: Result<
    Vec<Statement>,
    Error,
>)
    requires
        new_blocks_readable(sequence@, context@),
    ensures
        if new_blocks_storable(inode, sequence@) {
            r matches Ok(s) && crate::sql::statements(s@) == insert_new_blocks(
                inode,
                sequence@,
                context@,
            )
        } else {
            r matches Err(e) && e@ == crate::sql::unbindable()
        },
{
    let mut statements: Vec<Statement> = Vec::new();
    assert(crate::sql::statements(statements@) =~= seq![]);
    let mut i: usize = 0;
    while i < sequence.blocks.len()
        invariant
            i <= sequence.blocks.len(),
            new_blocks_readable(sequence@, context@),
            forall|k: int|
                0 <= k < i && (#[trigger] sequence@[k]).id is None ==> storable(inode, sequence@[k]),
            crate::sql::statements(statements@) == insert_new_blocks(
                inode,
                sequence@.take(i as int),
                context@,
            ),
        decreases sequence.blocks.len() - i,
    {
        let block = &sequence.blocks[i];
        assert(sequence@[i as int] == block@);
        assert(sequence@.take(i + 1).drop_last() =~= sequence@.take(i as int));
        if block.id.is_none() {
            let data = block.concrete_data(context);
            let ghost before = crate::sql::statements(statements@);
            match insert_block(inode, block.first_byte, block.last_byte, data) {
                Ok(s) => {
                    statements.push(s);
                    assert(crate::sql::statements(statements@) =~= before.push(s@));
                },
                Err(e) => {
                    assert(!storable(inode, sequence@[i as int]));
                    return Err(e);
                },
            }
        }
        i = i + 1;
    }
    assert(sequence@.take(i as int) =~= sequence@);
    Ok(statements)
}

/// Whether some block of the list is stored under this identifier.
pub open spec fn has_id(s: Seq<BlockView>, id: u64) -> bool {
    exists|i: int| 0 <= i < s.len() && (#[trigger] s[i]).id == Some(id)
}

/// The identifiers of the stored blocks, in their order.
pub open spec fn ids(s: Seq<BlockView>) -> Seq<u64>
    decreases s.len(),
{
    if s.len() == 0 {
        seq![]
    } else {
        match s.last().id {
            Some(id) => ids(s.drop_last()).push(id),
            None => ids(s.drop_last()),
        }
    }
}

/// Whether no block of the list is stored under this identifier.
pub open spec fn lost(s: Seq<BlockView>) -> spec_fn(u64) -> bool {
    |id: u64| !has_id(s, id)
}

/// `n` question marks with commas between them.
pub open spec fn placeholders(n: nat) -> Seq<char>
    decreases n,
{
    if n == 0 {
        seq![]
    } else if n == 1 {
        "?"@
    } else {
        placeholders((n - 1) as nat) + ", ?"@
    }
}

/// The statement that takes out the blocks with these identifiers.
pub open spec fn delete_blocks_statement(ids: Seq<u64>) -> StatementView {
    StatementView {
        sql: "delete from block where id in ("@ + placeholders(ids.len()) + ")"@,
        params: ids.map_values(|id: u64| crate::sql::int_param(id)),
    }
}

/// The identifiers of the stored blocks.
pub fn stored_ids(blocks: &Vec<WorkingBlock>) -> (r: Vec<u64>)
    ensures
        r@ == ids(crate::blocks::views(blocks@)),
{
    let ghost all = crate::blocks::views(blocks@);
    let mut found: Vec<u64> = Vec::new();
    let mut i: usize = 0;
    while i < blocks.len()
        invariant
            i <= blocks.len(),
            all == crate::blocks::views(blocks@),
            found@ == ids(all.take(i as int)),
        decreases blocks.len() - i,
    {
        assert(all.take(i + 1).drop_last() =~= all.take(i as int));
        assert(all[i as int] == blocks[i as int]@);
        if let Some(id) = blocks[i].id {
            found.push(id);
        }
        i = i + 1;
    }
    assert(all.take(i as int) =~= all);
    found
}

/// Tells whether a block of the sequence is stored under this identifier.
fn keeps_id(sequence: &Sequence, id: u64) -> (r: bool)
    ensures
        r == has_id(sequence@, id),
{
    let mut i: usize = 0;
    while i < sequence.blocks.len()
        invariant
            i <= sequence.blocks.len(),
            forall|k: int| 0 <= k < i ==> (#[trigger] sequence@[k]).id != Some(id),
        decreases sequence.blocks.len() - i,
    {
        assert(sequence@[i as int] == sequence.blocks[i as int]@);
        if let Some(x) = sequence.blocks[i].id {
            if x == id {
                return true;
            }
        }
        i = i + 1;
    }
    false
}

/// The identifiers that the sequence does not keep.
fn lost_ids(ids: &Vec<u64>, sequence: &Sequence) -> (r: Vec<u64>)
    ensures
        r@ == ids@.filter(lost(sequence@)),
{
    let mut gone: Vec<u64> = Vec::new();
    let mut i: usize = 0;
    proof {
        reveal(Seq::filter);
    }
    assert(gone@ =~= ids@.take(0).filter(lost(sequence@)));
    while i < ids.len()
        invariant
            i <= ids.len(),
            gone@ == ids@.take(i as int).filter(lost(sequence@)),
        decreases ids.len() - i,
    {
        proof {
            reveal(Seq::filter);
            assert(ids@.take(i + 1).drop_last() =~= ids@.take(i as int));
        }
        let id: u64 = ids[i];
        if !keeps_id(sequence, id) {
            gone.push(id);
        }
        i = i + 1;
    }
    assert(ids@.take(i as int) =~= ids@);
    gone
}

/// The statement that takes out the blocks with these identifiers.
pub fn delete_blocks(ids: &Vec<u64>) -> (r: Statement)
    requires
        forall|i: int| 0 <= i < ids@.len() ==> #[trigger] ids@[i] <= i64::MAX,
    ensures
        r@ == delete_blocks_statement(ids@),
{
    let mut marks = String::new();
    let mut params: Vec<SqlValue> = Vec::new();
    let mut i: usize = 0;
    while i < ids.len()
        invariant
            i <= ids.len(),
            forall|k: int| 0 <= k < ids@.len() ==> #[trigger] ids@[k] <= i64::MAX,
            marks@ == placeholders(i as nat),
            crate::sql::values(params@) == ids@.take(i as int).map_values(
                |id: u64| crate::sql::int_param(id),
            ),
        decreases ids.len() - i,
    {
        if i == 0 {
            marks.append("?");
            assert(marks@ =~= "?"@);
        } else {
            marks.append(", ?");
        }
        let ghost before = crate::sql::values(params@);
        params.push(SqlValue::Integer(ids[i] as i64));
        proof {
            assert(crate::sql::values(params@) =~= before.push(crate::sql::int_param(ids@[i as int])));
            assert(ids@.take(i + 1) =~= ids@.take(i as int).push(ids@[i as int]));
            assert(ids@.take(i + 1).map_values(|id: u64| crate::sql::int_param(id)) =~= before.push(
                crate::sql::int_param(ids@[i as int]),
            ));
        }
        i = i + 1;
    }
    assert(ids@.take(i as int) =~= ids@);
    let mut sql = "delete from block where id in (".to_string();
    sql.append(marks.as_str());
    sql.append(")");
    Statement { sql, params }
}

/// The identifiers of stored blocks fit SQLite's integers if those of each do.
proof fn lemma_ids_small(s: Seq<BlockView>)
    requires
        forall|b: BlockView| #[trigger] s.contains(b) ==> b.id is Some && b.id->0 <= i64::MAX,
    ensures
        forall|i: int| 0 <= i < ids(s).len() ==> #[trigger] ids(s)[i] <= i64::MAX,
    decreases s.len(),
{
    if s.len() > 0 {
        crate::content::lemma_last_contains(s);
        assert(s.contains(s.last()));
        assert forall|b: BlockView| #[trigger] s.drop_last().contains(b) implies b.id is Some
            && b.id->0 <= i64::MAX by {
            assert(s.contains(b));
        }
        lemma_ids_small(s.drop_last());
        let head = ids(s.drop_last());
        assert forall|i: int| 0 <= i < ids(s).len() implies #[trigger] ids(s)[i] <= i64::MAX by {
            assert(i < head.len() ==> ids(s)[i] == head[i]);
        }
    }
}

/// The blocks that a write touches, with its data written over them.
pub struct Overwrite {
    /// The identifiers of the stored blocks that the write touches.
    pub ids: Vec<u64>,
    /// The blocks with the data written over them.
    pub sequence: Sequence,
}

/// What a write changes: the statements that carry it out, and the size of the
/// file afterwards.
pub struct WritePlan {
    pub statements: Vec<Statement>,
    pub size: i64,
}

/// Works out the blocks that a write leaves: the data is chunked into blocks
/// of the size that we like, and those are inserted among the existing blocks,
/// which come in `rows`.
pub fn prepare_write(
    rows: &Vec<Vec<SqlValue>>,
    offset: i64,
    data: &Vec<u8>,
    block_size: u64,
) -> (r: Result<Overwrite, Error>)
    requires
        block_size > 0,
        offset + data@.len() <= i64::MAX,
        offset >= 0 || offset + data@.len() <= 0,
    ensures
        match blocks_of_rows(crate::sql::rows(rows@), 1) {
            Ok(s) => {
                if offset < 0 && data@.len() > 0 {
                    r matches Err(e) && e@ == crate::sql::unbindable()
                } else {
                    r matches Ok(o) && {
                        &&& o.ids@ == ids(s)
                        &&& o.sequence@ == if offset < 0 {
                            s
                        } else {
                            overwrite(s, offset as u64, data@, block_size)
                        }
                        &&& all_sound(o.sequence@)
                        &&& forall|i: int|
                            0 <= i < o.ids@.len() ==> #[trigger] o.ids@[i] <= i64::MAX
                    }
                }
            },
            Err(error) => r matches Err(e) && e@ == error,
        },
{
    let blocks = match read_blocks(rows, 1) {
        Ok(b) => b,
        Err(e) => return Err(e),
    };
    proof {
        lemma_rows_sound(crate::sql::rows(rows@), 1);
    }
    let ids = stored_ids(&blocks);
    proof {
        lemma_ids_small(crate::blocks::views(blocks@));
    }
    if offset < 0 {
        if data.len() > 0 {
            return Err(
                Error::new(ErrorKind::Other, "out of range integral type conversion attempted"),
            );
        }
        return Ok(Overwrite { ids, sequence: Sequence::new(blocks) });
    }
    Ok(Overwrite { ids, sequence: overwrite_blocks(blocks, offset as u64, data, block_size) })
}

/// The statement that records the size of a file.
pub open spec fn update_size_statement(inode: u64, size: i64) -> StatementView {
    crate::sql::statement(
        "update inode set size = ? where id = ?",
        seq![SqlView::Integer(size), crate::sql::int_param(inode)],
    )
}

/// The statement that records the size of a file.
pub fn update_size(inode: u64, size: i64) -> (r: Result<Statement, Error>)
    ensures
        if crate::sql::bindable(inode) {
            r matches Ok(s) && s@ == update_size_statement(inode, size)
        } else {
            r matches Err(e) && e@ == crate::sql::unbindable()
        },
{
    let inode_param = match crate::sql::bind_u64(inode) {
        Ok(v) => v,
        Err(e) => return Err(e),
    };
    let r = Statement::new(
        "update inode set size = ? where id = ?",
        vec![SqlValue::Integer(size), inode_param],
    );
    assert(r@ =~= update_size_statement(inode, size));
    Ok(r)
}

/// The larger of two numbers.
pub open spec fn larger(a: int, b: int) -> int {
    if a >= b {
        a
    } else {
        b
    }
}

/// The statements that carry out a write: the new blocks go in, the stored
/// ones that are no longer whole go out, and the size is recorded if the file
/// grew.
pub open spec fn write_statements(
    inode: u64,
    file_size: i64,
    end: int,
    old_ids: Seq<u64>,
    after: Seq<BlockView>,
    blobs: Map<u64, Seq<u8>>,
) -> Seq<StatementView> {
    let gone = old_ids.filter(lost(after));
    insert_new_blocks(inode, after, blobs) + (if gone.len() > 0 {
        seq![delete_blocks_statement(gone)]
    } else {
        seq![]
    }) + (if end > file_size {
        seq![update_size_statement(inode, end as i64)]
    } else {
        seq![]
    })
}

/// Plans a write of `len` bytes at `offset` whose blocks have been worked out.
pub fn plan_write(
    inode: u64,
    file_size: i64,
    offset: i64,
    len: usize,
    write: &Overwrite,
    context: &FloconContext,
) -> (r: Result<WritePlan, Error>)
    requires
        len <= i64::MAX,
        offset + len <= i64::MAX,
        new_blocks_readable(write.sequence@, context@),
        forall|i: int| 0 <= i < write.ids@.len() ==> #[trigger] write.ids@[i] <= i64::MAX,
    ensures
        if new_blocks_storable(inode, write.sequence@) && (offset + len > file_size
            ==> crate::sql::bindable(inode)) {
            r matches Ok(plan) && {
                &&& crate::sql::statements(plan.statements@) == write_statements(
                    inode,
                    file_size,
                    offset + len,
                    write.ids@,
                    write.sequence@,
                    context@,
                )
                &&& plan.size == larger(offset + len, file_size as int)
            }
        } else {
            r matches Err(e) && e@ == crate::sql::unbindable()
        },
{
    let mut statements = match insert_blocks(inode, &write.sequence, context) {
        Ok(s) => s,
        Err(e) => return Err(e),
    };
    let ghost inserted = crate::sql::statements(statements@);
    let deleted_ids = lost_ids(&write.ids, &write.sequence);
    if deleted_ids.len() > 0 {
        proof {
            assert forall|i: int| 0 <= i < deleted_ids@.len() implies #[trigger] deleted_ids@[i]
                <= i64::MAX by {
                write.ids@.lemma_filter_contains_rev(lost(write.sequence@), deleted_ids@[i]);
            }
        }
        statements.push(delete_blocks(&deleted_ids));
    }
    let ghost deleted = crate::sql::statements(statements@);
    assert(deleted =~= inserted + (if deleted_ids@.len() > 0 {
        seq![delete_blocks_statement(deleted_ids@)]
    } else {
        seq![]
    }));
    let end: i64 = offset + len as i64;
    if end > file_size {
        match update_size(inode, end) {
            Ok(s) => {
                statements.push(s);
                assert(crate::sql::statements(statements@) =~= deleted + seq![s@]);
            },
            Err(e) => return Err(e),
        }
        return Ok(WritePlan { statements, size: end });
    }
    assert(crate::sql::statements(statements@) =~= deleted + seq![]);
    Ok(WritePlan { statements, size: file_size })
}

/// The unsigned number with the same 64 bits.
pub open spec fn unsigned(x: int) -> int {
    if x < 0 {
        x + 0x1_0000_0000_0000_0000
    } else {
        x
    }
}

/// The smaller of two numbers.
pub open spec fn smaller(a: int, b: int) -> int {
    if a <= b {
        a
    } else {
        b
    }
}

/// The range that a read touches: what was asked for, up to the end of the
/// file; `None` if there is nothing to read.
pub open spec fn window(file_size: i64, size: nat, offset: i64) -> Result<
    Option<(u64, u64)>,
    ErrorView,
> {
    let last = smaller(offset + size - 1, file_size - 1);
    if offset >= file_size || unsigned(offset as int) > unsigned(last) {
        Ok(None)
    } else if offset < 0 || last < 0 {
        Err(crate::sql::unbindable())
    } else {
        Ok(Some((offset as u64, last as u64)))
    }
}

/// The range that a read touches.
pub fn read_window(file_size: i64, size: usize, offset: i64) -> (r: Result<
    Option<(u64, u64)>,
    Error,
>)
    requires
        size <= i64::MAX,
        i64::MIN < offset + size <= i64::MAX,
    ensures
        match window(file_size, size as nat, offset) {
            Ok(w) => r matches Ok(x) && x == w,
            Err(error) => r matches Err(e) && e@ == error,
        },
{
    if offset >= file_size {
        return Ok(None);
    }
    let end: i64 = offset + size as i64 - 1;
    let last: i64 = if end <= file_size - 1 {
        end
    } else {
        file_size - 1
    };
    if offset >= 0 && last >= 0 {
        if offset > last {
            return Ok(None);
        }
        return Ok(Some((offset as u64, last as u64)));
    }
    if offset < 0 && (last >= 0 || offset > last) {
        return Ok(None);
    }
    Err(Error::new(ErrorKind::Other, "out of range integral type conversion attempted"))
}

/// The query for the stored blocks of a file that meet a range, in order.
pub open spec fn overlapping_blocks_statement(
    inode: u64,
    first_byte: i64,
    last_byte: i64,
) -> StatementView {
    crate::sql::statement(
        "select id, first_byte, last_byte, data is not null as has_data from block where inode_id = ? and last_byte >= ? and first_byte <= ? order by first_byte asc",
        seq![
            crate::sql::int_param(inode),
            SqlView::Integer(first_byte),
            SqlView::Integer(last_byte),
        ],
    )
}

/// The query for the stored blocks of a file that meet a range, in order.
pub fn overlapping_blocks(inode: u64, first_byte: i64, last_byte: i64) -> (r: Result<
    Statement,
    Error,
>)
    ensures
        if crate::sql::bindable(inode) {
            r matches Ok(s) && s@ == overlapping_blocks_statement(inode, first_byte, last_byte)
        } else {
            r matches Err(e) && e@ == crate::sql::unbindable()
        },
{
    let inode_param = match crate::sql::bind_u64(inode) {
        Ok(v) => v,
        Err(e) => return Err(e),
    };
    let r = Statement::new(
        "select id, first_byte, last_byte, data is not null as has_data from block where inode_id = ? and last_byte >= ? and first_byte <= ? order by first_byte asc",
        vec![inode_param, SqlValue::Integer(first_byte), SqlValue::Integer(last_byte)],
    );
    assert(r@ =~= overlapping_blocks_statement(inode, first_byte, last_byte));
    Ok(r)
}

/// Blocks that were cut to a range lie within it, each with as many bytes as it
/// takes.
proof fn lemma_clip_all_within(s: Seq<BlockView>, first_byte: u64, last_byte: u64)
    requires
        all_sound(s),
        first_byte <= last_byte,
    ensures
        forall|i: int|
            #![trigger crate::blocks::clip_all(s, first_byte, last_byte)[i]]
            0 <= i < crate::blocks::clip_all(s, first_byte, last_byte).len() ==> {
                let b = crate::blocks::clip_all(s, first_byte, last_byte)[i];
                &&& first_byte <= b.first_byte <= b.last_byte <= last_byte
                &&& b.source.size() == b.last_byte - b.first_byte + 1
            },
    decreases s.len(),
{
    if s.len() > 0 {
        crate::content::lemma_last_contains(s);
        assert(s.contains(s.last()));
        assert forall|x: BlockView| #[trigger] s.drop_last().contains(x) implies sound(x) by {
            assert(s.contains(x));
        }
        lemma_clip_all_within(s.drop_last(), first_byte, last_byte);
    }
}

/// Bytes with others laid over them from a position on, as far as they reach.
pub open spec fn laid_over(below: Seq<u8>, at: int, bytes: Seq<u8>) -> Seq<u8> {
    Seq::new(
        below.len(),
        |i: int|
            if at <= i < at + bytes.len() {
                bytes[i - at]
            } else {
                below[i]
            },
    )
}

/// The `n` bytes from `first_byte` on: zeros, with what each block reads to laid
/// over them in its place.
pub open spec fn laid_out(
    s: Seq<BlockView>,
    blobs: Map<u64, Seq<u8>>,
    first_byte: u64,
    n: nat,
) -> Seq<u8>
    decreases s.len(),
{
    if s.len() == 0 {
        crate::blocks::zeros(n)
    } else {
        laid_over(
            laid_out(s.drop_last(), blobs, first_byte, n),
            s.last().first_byte - first_byte,
            s.last().source.bytes(blobs),
        )
    }
}

/// The error of the first block that cannot be read, if there is one.
pub open spec fn read_fault(s: Seq<BlockView>, blobs: Map<u64, Seq<u8>>) -> Option<ErrorView>
    decreases s.len(),
{
    if s.len() == 0 {
        None
    } else {
        match read_fault(s.drop_last(), blobs) {
            Some(error) => Some(error),
            None => match s.last().source.reads(blobs) {
                Ok(_) => None,
                Err(error) => Some(error),
            },
        }
    }
}

/// A block that cannot be read stays the first one, whatever follows it.
proof fn lemma_fault_stays(s: Seq<BlockView>, blobs: Map<u64, Seq<u8>>, k: int)
    requires
        0 <= k <= s.len(),
        read_fault(s.take(k), blobs) is Some,
    ensures
        read_fault(s, blobs) == read_fault(s.take(k), blobs),
    decreases s.len(),
{
    if k == s.len() {
        assert(s.take(k) =~= s);
    } else {
        assert(s.drop_last().take(k) =~= s.take(k));
        lemma_fault_stays(s.drop_last(), blobs, k);
    }
}

/// Lays bytes over others.
fn lay_over(below: &mut Vec<u8>, at: usize, bytes: &Vec<u8>)
    ensures
        final(below)@ == laid_over(old(below)@, at as int, bytes@),
{
    let len: usize = below.len();
    let mut i: usize = 0;
    while i < bytes.len() && at < len && i < len - at
        invariant
            i <= bytes@.len(),
            at < len ==> i <= len - at,
            at >= len ==> i == 0,
            len == old(below)@.len(),
            below@ =~= laid_over(old(below)@, at as int, bytes@.take(i as int)),
        decreases bytes.len() - i,
    {
        below.set(at + i, bytes[i]);
        i = i + 1;
    }
    assert(below@ =~= laid_over(old(below)@, at as int, bytes@));
}

/// Throws the bytes of the given range into `w`: what the blocks that meet it
/// hold, and zeros where there is none.
pub fn read_data(
    rows: &Vec<Vec<SqlValue>>,
    context: &FloconContext,
    first_byte: u64,
    last_byte: u64,
    w: &mut Vec<u8>,
) -> (r: Result<usize, Error>)
    requires
        first_byte <= last_byte < i64::MAX,
        last_byte - first_byte < isize::MAX,
    ensures
        match blocks_of_rows(crate::sql::rows(rows@), 1) {
            Ok(s) => {
                let found = crate::blocks::clip_all(s, first_byte, last_byte);
                let len = (last_byte - first_byte + 1) as nat;
                match read_fault(found, context@) {
                    None => {
                        &&& r matches Ok(n) && n == len
                        &&& final(w)@ == old(w)@ + laid_out(found, context@, first_byte, len)
                    },
                    Some(error) => r matches Err(e) && e@ == error && final(w)@ == old(w)@,
                }
            },
            Err(error) => r matches Err(e) && e@ == error && final(w)@ == old(w)@,
        },
{
    let blocks = match read_blocks(rows, 1) {
        Ok(b) => b,
        Err(e) => return Err(e),
    };
    let ghost all = crate::blocks::views(blocks@);
    proof {
        lemma_rows_sound(crate::sql::rows(rows@), 1);
        lemma_clip_all_within(all, first_byte, last_byte);
    }
    let sequence = Sequence::new(blocks).clip(first_byte, last_byte);
    let ghost found = sequence@;
    let count: u64 = last_byte - first_byte + 1;
    let mut bytes: Vec<u8> = Vec::new();
    crate::blocks::write_zeros(&mut bytes, count);
    assert(bytes@ =~= crate::blocks::zeros(count as nat));
    let mut i: usize = 0;
    while i < sequence.blocks.len()
        invariant
            i <= sequence.blocks.len(),
            first_byte <= last_byte < i64::MAX,
            last_byte - first_byte < isize::MAX,
            count == last_byte - first_byte + 1,
            found == sequence@,
            found == crate::blocks::clip_all(all, first_byte, last_byte),
            blocks_of_rows(crate::sql::rows(rows@), 1) == Ok::<Seq<BlockView>, ErrorView>(all),
            w@ == old(w)@,
            forall|k: int|
                #![trigger found[k]]
                0 <= k < found.len() ==> {
                    &&& first_byte <= found[k].first_byte <= found[k].last_byte <= last_byte
                    &&& found[k].source.size() == found[k].last_byte - found[k].first_byte + 1
                },
            read_fault(found.take(i as int), context@) is None,
            bytes@ == laid_out(found.take(i as int), context@, first_byte, count as nat),
        decreases sequence.blocks.len() - i,
    {
        let block = &sequence.blocks[i];
        let ghost next = found.take(i + 1);
        assert(found[i as int] == block@);
        assert(next.drop_last() =~= found.take(i as int));
        assert(next.last() == block@);
        let mut piece: Vec<u8> = Vec::new();
        match block.concrete_data_to_writer(context, &mut piece) {
            Ok(_) => {},
            Err(e) => {
                proof {
                    lemma_fault_stays(found, context@, i + 1);
                }
                return Err(e);
            },
        }
        assert(piece@ =~= block@.source.bytes(context@));
        lay_over(&mut bytes, (block.first_byte - first_byte) as usize, &piece);
        i = i + 1;
    }
    assert(found.take(i as int) =~= found);
    w.append(&mut bytes);
    Ok(count as usize)
}

/// Chunks `data` into new blocks from `start` on.
fn chunk_blocks(start: u64, data: &Vec<u8>, block_size: u64) -> (r: Sequence)
    requires
        block_size > 0,
        start + data@.len() <= u64::MAX,
    ensures
        r@ == chunks(start, data@, block_size),
{
    let mut blocks: Vec<WorkingBlock> = Vec::new();
    let len: u64 = data.len() as u64;
    let mut done: u64 = 0;
    proof {
        assert(data@.skip(0) =~= data@);
        assert(crate::blocks::views(blocks@) + chunks(start, data@, block_size) =~= chunks(
            start,
            data@,
            block_size,
        ));
    }
    while done < len
        invariant
            done <= len,
            len == data@.len(),
            len <= usize::MAX,
            block_size > 0,
            start + len <= u64::MAX,
            chunks(start, data@, block_size) == crate::blocks::views(blocks@) + chunks(
                (start + done) as u64,
                data@.skip(done as int),
                block_size,
            ),
        decreases len - done,
    {
        let size: u64 = if len - done <= block_size {
            len - done
        } else {
            block_size
        };
        let bytes = vstd::slice::slice_subrange(
            data.as_slice(),
            done as usize,
            (done + size) as usize,
        );
        let chunk = crate::sql::copy_bytes(bytes);
        let ghost rest = data@.skip(done as int);
        assert(chunk@ =~= rest.take(size as int));
        assert(rest.skip(size as int) =~= data@.skip(done + size));
        let first_byte: u64 = start + done;
        if let Ok(source) = MemoryDataSource::from_data(chunk) {
            let ghost before = crate::blocks::views(blocks@);
            let block = WorkingBlock::new(
                None,
                first_byte,
                first_byte + (size - 1),
                Source::Memory(source),
            );
            blocks.push(block);
            proof {
                assert(block@ == new_block(first_byte, rest.take(size as int)));
                let more = chunks((first_byte + size) as u64, rest.skip(size as int), block_size);
                assert(crate::blocks::views(blocks@) =~= before.push(block@));
                assert(before + (seq![block@] + more) =~= before.push(block@) + more);
            }
        }
        done = done + size;
    }
    assert(crate::blocks::views(blocks@) + chunks(
        (start + done) as u64,
        data@.skip(done as int),
        block_size,
    ) =~= crate::blocks::views(blocks@));
    Sequence::new(blocks)
}

/// Appended blocks are new ones that are held in memory.
proof fn lemma_chunks_new(start: u64, data: Seq<u8>, block_size: u64)
    ensures
        forall|i: int|
            0 <= i < chunks(start, data, block_size).len() ==> {
                &&& (#[trigger] chunks(start, data, block_size)[i]).id is None
                &&& chunks(start, data, block_size)[i].source is Memory
            },
    decreases data.len(),
{
    if data.len() > 0 && block_size > 0 {
        let n = chunk_len(data.len(), block_size);
        lemma_chunks_new((start + n) as u64, data.skip(n as int), block_size);
    }
}

/// The statements of an append to a file of this size: the data goes into new
/// blocks from the end of the file on, and the size is recorded.
pub open spec fn append_statements(
    inode: u64,
    file_size: i64,
    data: Seq<u8>,
    block_size: u64,
) -> Seq<StatementView> {
    insert_new_blocks(inode, chunks(file_size as u64, data, block_size), Map::empty()).push(
        update_size_statement(inode, (file_size + data.len()) as i64),
    )
}

/// Whether the blocks and the size that an append leaves can be stored.
pub open spec fn appendable(inode: u64, file_size: i64, data: Seq<u8>, block_size: u64) -> bool {
    &&& crate::sql::bindable(inode)
    &&& file_size >= 0
    &&& file_size + data.len() <= i64::MAX
    &&& new_blocks_storable(inode, chunks(file_size as u64, data, block_size))
}

/// Plans an append to a file of this size.
pub fn plan_append(inode: u64, file_size: i64, data: &Vec<u8>, block_size: u64) -> (r: Result<
    WritePlan,
    Error,
>)
    requires
        block_size > 0,
        data@.len() <= i64::MAX,
    ensures
        if appendable(inode, file_size, data@, block_size) {
            r matches Ok(plan) && {
                &&& crate::sql::statements(plan.statements@) == append_statements(
                    inode,
                    file_size,
                    data@,
                    block_size,
                )
                &&& plan.size == file_size + data@.len()
            }
        } else {
            r matches Err(e) && e@ == crate::sql::unbindable()
        },
{
    if file_size < 0 {
        return Err(
            Error::new(ErrorKind::Other, "out of range integral type conversion attempted"),
        );
    }
    let start: u64 = file_size as u64;
    let sequence = chunk_blocks(start, data, block_size);
    proof {
        lemma_chunks_new(start, data@, block_size);
    }
    let context = FloconContext::new();
    let mut statements = match insert_blocks(inode, &sequence, &context) {
        Ok(s) => s,
        Err(e) => return Err(e),
    };
    let size: u64 = start + data.len() as u64;
    if size > i64::MAX as u64 {
        return Err(
            Error::new(ErrorKind::Other, "out of range integral type conversion attempted"),
        );
    }
    match update_size(inode, size as i64) {
        Ok(s) => {
            let ghost before = crate::sql::statements(statements@);
            statements.push(s);
            assert(crate::sql::statements(statements@) =~= before.push(s@));
        },
        Err(e) => return Err(e),
    }
    Ok(WritePlan { statements, size: size as i64 })
}

/// What a change of size asks for.
#[derive(Clone, Copy, Debug, PartialEq, Eq, Structural)]
pub enum Resize {
    /// The size stays as it is.
    Keep,
    /// The blocks from this byte on go.
    Shrink { truncate_point: i64 },
    /// The file grows; if it was empty, its blocks stay as they are.
    Grow { fill: bool },
}

/// What a change from one size to another asks for.
pub fn resize(current_size: i64, size: i64) -> (r: Resize)
    ensures
        r == if size == current_size {
            Resize::Keep
        } else if size < current_size {
            Resize::Shrink { truncate_point: size }
        } else {
            Resize::Grow { fill: current_size > 0 }
        },
{
    if size == current_size {
        Resize::Keep
    } else if size < current_size {
        Resize::Shrink { truncate_point: size }
    } else {
        Resize::Grow { fill: current_size > 0 }
    }
}

/// The statement that takes out the blocks that start at or after a byte.
pub open spec fn delete_blocks_from_statement(inode: u64, truncate_point: i64) -> StatementView {
    crate::sql::statement(
        "delete from block where inode_id = ? and first_byte >= ?",
        seq![crate::sql::int_param(inode), SqlView::Integer(truncate_point)],
    )
}

/// The statement that takes out the blocks that are entirely beyond the new
/// size.
pub fn delete_blocks_from(inode: u64, truncate_point: i64) -> (r: Result<Statement, Error>)
    ensures
        if crate::sql::bindable(inode) {
            r matches Ok(s) && s@ == delete_blocks_from_statement(inode, truncate_point)
        } else {
            r matches Err(e) && e@ == crate::sql::unbindable()
        },
{
    let inode_param = match crate::sql::bind_u64(inode) {
        Ok(v) => v,
        Err(e) => return Err(e),
    };
    let r = Statement::new(
        "delete from block where inode_id = ? and first_byte >= ?",
        vec![inode_param, SqlValue::Integer(truncate_point)],
    );
    assert(r@ =~= delete_blocks_from_statement(inode, truncate_point));
    Ok(r)
}

/// The query for the blocks that span a byte.
pub open spec fn spanning_blocks_statement(inode: u64, truncate_point: i64) -> StatementView {
    crate::sql::statement(
        "select id, inode_id, first_byte, last_byte, data is not null as has_data from block where inode_id = ? and first_byte < ? and last_byte >= ?",
        seq![
            crate::sql::int_param(inode),
            SqlView::Integer(truncate_point),
            SqlView::Integer(truncate_point),
        ],
    )
}

/// The query for the blocks that span the truncation point.
pub fn spanning_blocks(inode: u64, truncate_point: i64) -> (r: Result<Statement, Error>)
    ensures
        if crate::sql::bindable(inode) {
            r matches Ok(s) && s@ == spanning_blocks_statement(inode, truncate_point)
        } else {
            r matches Err(e) && e@ == crate::sql::unbindable()
        },
{
    let inode_param = match crate::sql::bind_u64(inode) {
        Ok(v) => v,
        Err(e) => return Err(e),
    };
    let r = Statement::new(
        "select id, inode_id, first_byte, last_byte, data is not null as has_data from block where inode_id = ? and first_byte < ? and last_byte >= ?",
        vec![
            inode_param,
            SqlValue::Integer(truncate_point),
            SqlValue::Integer(truncate_point),
        ],
    );
    assert(r@ =~= spanning_blocks_statement(inode, truncate_point));
    Ok(r)
}

/// The statement that takes out one block.
pub open spec fn delete_block_statement(id: u64) -> StatementView {
    crate::sql::statement("delete from block where id = ?", seq![crate::sql::int_param(id)])
}

/// The statement that takes out one block.
pub fn delete_block(id: u64) -> (r: Result<Statement, Error>)
    ensures
        if crate::sql::bindable(id) {
            r matches Ok(s) && s@ == delete_block_statement(id)
        } else {
            r matches Err(e) && e@ == crate::sql::unbindable()
        },
{
    Statement::by_id("delete from block where id = ?", id)
}

/// The part of a block before the truncation point.
pub open spec fn trimmed(b: BlockView, truncate_point: i64) -> Result<BlockView, Seq<char>> {
    b.clip(b.first_byte, (truncate_point - 1) as u64)
}

/// Whether the block starts before the truncation point, is stored, and the
/// bytes that are kept of it are at hand.
pub open spec fn trimmable(b: BlockView, truncate_point: i64, blobs: Map<u64, Seq<u8>>) -> bool {
    &&& b.first_byte < truncate_point
    &&& b.id matches Some(id) && id <= i64::MAX
    &&& trimmed(b, truncate_point) matches Ok(t) ==> t.source.fits_in_memory() && t.source.reads(
        blobs,
    ) is Ok
}

/// Whether each of the blocks can be trimmed.
pub open spec fn all_trimmable(
    s: Seq<BlockView>,
    truncate_point: i64,
    blobs: Map<u64, Seq<u8>>,
) -> bool {
    forall|i: int| 0 <= i < s.len() ==> trimmable(#[trigger] s[i], truncate_point, blobs)
}

/// The statements that put in place of each block what lies before the
/// truncation point.
pub open spec fn trim_statements(
    inode: u64,
    s: Seq<BlockView>,
    truncate_point: i64,
    blobs: Map<u64, Seq<u8>>,
) -> Seq<StatementView>
    decreases s.len(),
{
    if s.len() == 0 {
        seq![]
    } else {
        let head = trim_statements(inode, s.drop_last(), truncate_point, blobs);
        match trimmed(s.last(), truncate_point) {
            Ok(t) => head + seq![
                delete_block_statement(s.last().id->0),
                insert_block_statement(
                    inode,
                    t.first_byte,
                    t.last_byte,
                    t.source.reads(blobs)->Ok_0,
                ),
            ],
            Err(_) => head,
        }
    }
}

/// Tells whether each of the blocks can be trimmed.
pub fn can_trim(blocks: &Vec<WorkingBlock>, truncate_point: i64, context: &FloconContext) -> (r:
    bool)
    ensures
        r == all_trimmable(crate::blocks::views(blocks@), truncate_point, context@),
{
    let ghost all = crate::blocks::views(blocks@);
    let mut i: usize = 0;
    while i < blocks.len()
        invariant
            i <= blocks.len(),
            all == crate::blocks::views(blocks@),
            forall|k: int| 0 <= k < i ==> trimmable(#[trigger] all[k], truncate_point, context@),
        decreases blocks.len() - i,
    {
        let block = &blocks[i];
        assert(all[i as int] == block@);
        if truncate_point <= 0 || block.first_byte >= truncate_point as u64 {
            return false;
        }
        match block.id {
            Some(id) if id <= i64::MAX as u64 => {},
            _ => return false,
        }
        if let Ok(t) = block.clip(block.first_byte, (truncate_point - 1) as u64) {
            if !t.source.is_readable(context) {
                return false;
            }
        }
        i = i + 1;
    }
    true
}

/// More blocks take at least as many statements.
proof fn lemma_trim_grows(
    inode: u64,
    s: Seq<BlockView>,
    truncate_point: i64,
    blobs: Map<u64, Seq<u8>>,
    k: int,
)
    requires
        0 <= k <= s.len(),
    ensures
        trim_statements(inode, s.take(k), truncate_point, blobs).len() <= trim_statements(
            inode,
            s,
            truncate_point,
            blobs,
        ).len(),
    decreases s.len(),
{
    if k == s.len() {
        assert(s.take(k) =~= s);
    } else {
        assert(s.drop_last().take(k) =~= s.take(k));
        lemma_trim_grows(inode, s.drop_last(), truncate_point, blobs, k);
    }
}

/// Trims the blocks that span the truncation point.
pub fn trim_blocks(
    inode: u64,
    blocks: &Vec<WorkingBlock>,
    truncate_point: i64,
    context: &FloconContext,
) -> (r: Result<Vec<Statement>, Error>)
    requires
        all_trimmable(crate::blocks::views(blocks@), truncate_point, context@),
    ensures
        ({
            let trim = trim_statements(
                inode,
                crate::blocks::views(blocks@),
                truncate_point,
                context@,
            );
            if crate::sql::bindable(inode) || trim.len() == 0 {
                r matches Ok(s) && crate::sql::statements(s@) == trim
            } else {
                r matches Err(e) && e@ == crate::sql::unbindable()
            }
        }),
{
    let ghost all = crate::blocks::views(blocks@);
    let mut statements: Vec<Statement> = Vec::new();
    assert(crate::sql::statements(statements@) =~= seq![]);
    let mut i: usize = 0;
    while i < blocks.len()
        invariant
            i <= blocks.len(),
            all == crate::blocks::views(blocks@),
            all_trimmable(all, truncate_point, context@),
            crate::sql::bindable(inode) || statements@.len() == 0,
            crate::sql::statements(statements@) == trim_statements(
                inode,
                all.take(i as int),
                truncate_point,
                context@,
            ),
        decreases blocks.len() - i,
    {
        let block = &blocks[i];
        assert(all[i as int] == block@);
        assert(trimmable(all[i as int], truncate_point, context@));
        assert(all.take(i + 1).drop_last() =~= all.take(i as int));
        if let Ok(t) = block.clip(block.first_byte, (truncate_point - 1) as u64) {
            let data = t.concrete_data(context);
            let ghost before = crate::sql::statements(statements@);
            if let Some(id) = block.id {
                let deletion = match delete_block(id) {
                    Ok(s) => s,
                    Err(e) => return Err(e),
                };
                let insertion = match insert_block(inode, t.first_byte, t.last_byte, data) {
                    Ok(s) => s,
                    Err(e) => {
                        proof {
                            lemma_trim_grows(inode, all, truncate_point, context@, i + 1);
                        }
                        return Err(e);
                    },
                };
                statements.push(deletion);
                statements.push(insertion);
                assert(crate::sql::statements(statements@) =~= before + seq![
                    deletion@,
                    insertion@,
                ]);
            }
        }
        i = i + 1;
    }
    assert(all.take(i as int) =~= all);
    Ok(statements)
}

/// The query for the block that ends last.
pub open spec fn last_block_statement(inode: u64) -> StatementView {
    crate::sql::statement(
        "select first_byte, last_byte from block where inode_id = ? order by last_byte desc limit 1",
        seq![crate::sql::int_param(inode)],
    )
}

/// The query for the last block, to see if there is a gap to fill.
pub fn last_block(inode: u64) -> (r: Result<Statement, Error>)
    ensures
        if crate::sql::bindable(inode) {
            r matches Ok(s) && s@ == last_block_statement(inode)
        } else {
            r matches Err(e) && e@ == crate::sql::unbindable()
        },
{
    Statement::by_id(
        "select first_byte, last_byte from block where inode_id = ? order by last_byte desc limit 1",
        inode,
    )
}

/// The last byte of the block that ends last, if there is a block.
pub open spec fn last_block_end(rows: Seq<Seq<SqlView>>) -> Result<Option<i64>, ErrorView> {
    if rows.len() == 0 {
        Ok(None)
    } else {
        match crate::sql::as_i64(rows[0], 0, "first_byte"@) {
            Err(error) => Err(error),
            Ok(_) => match crate::sql::as_i64(rows[0], 1, "last_byte"@) {
                Ok(last) => Ok(Some(last)),
                Err(error) => Err(error),
            },
        }
    }
}

/// Reads the last byte of the block that ends last.
pub fn read_last_block(rows: &Vec<Vec<SqlValue>>) -> (r: Result<Option<i64>, Error>)
    ensures
        match last_block_end(crate::sql::rows(rows@)) {
            Ok(last) => r matches Ok(l) && l == last,
            Err(error) => r matches Err(e) && e@ == error,
        },
{
    if rows.len() == 0 {
        return Ok(None);
    }
    assert(crate::sql::rows(rows@)[0] == crate::sql::values(rows[0]@));
    match crate::sql::get_i64(&rows[0], 0, "first_byte") {
        Ok(_) => {},
        Err(e) => return Err(e),
    }
    match crate::sql::get_i64(&rows[0], 1, "last_byte") {
        Ok(last) => Ok(Some(last)),
        Err(e) => Err(e),
    }
}

/// The zeros that a file of this size needs after its last block: none if the
/// block reaches that far.
pub open spec fn gap_to_fill(last: Option<i64>, size: i64) -> Option<(i64, i64)> {
    let gap_end = (size - 1) as i64;
    match last {
        Some(last) => if last + 1 <= gap_end {
            Some(((last + 1) as i64, gap_end))
        } else {
            None
        },
        None => Some((0, gap_end)),
    }
}

/// The statement that stores a run of zeros.
pub open spec fn insert_zeros_statement(
    inode: u64,
    first_byte: i64,
    last_byte: i64,
) -> StatementView {
    crate::sql::statement(
        "insert into block (inode_id, first_byte, last_byte, data) values (?, ?, ?, ?)",
        seq![
            crate::sql::int_param(inode),
            SqlView::Integer(first_byte),
            SqlView::Integer(last_byte),
            SqlView::Null,
        ],
    )
}

/// The statement that fills the gap between the last block and the new end of
/// the file with zeros, if there is one.
pub fn fill_gap(inode: u64, last: Option<i64>, size: i64) -> (r: Result<Option<Statement>, Error>)
    requires
        size > 0,
        last matches Some(l) ==> l < i64::MAX,
    ensures
        match gap_to_fill(last, size) {
            Some((first, end)) => if crate::sql::bindable(inode) {
                r matches Ok(Some(s)) && s@ == insert_zeros_statement(inode, first, end)
            } else {
                r matches Err(e) && e@ == crate::sql::unbindable()
            },
            None => r matches Ok(s) && s is None,
        },
{
    let gap_end: i64 = size - 1;
    let gap_start: i64 = match last {
        Some(last) => {
            if last + 1 > gap_end {
                return Ok(None);
            }
            last + 1
        },
        None => 0,
    };
    let inode_param = match crate::sql::bind_u64(inode) {
        Ok(v) => v,
        Err(e) => return Err(e),
    };
    let r = Statement::new(
        "insert into block (inode_id, first_byte, last_byte, data) values (?, ?, ?, ?)",
        vec![
            inode_param,
            SqlValue::Integer(gap_start),
            SqlValue::Integer(gap_end),
            SqlValue::Null,
        ],
    );
    assert(r@ =~= insert_zeros_statement(inode, gap_start, gap_end));
    Ok(Some(r))
}

} // verus!
