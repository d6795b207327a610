//! Operations on the content of a file, carried out step by step on the
//! database from their beginning to their end.

use vstd::prelude::*;
use crate::database::{Database, Row, Tables};
use crate::error::Error;
use crate::flocon::FloconHandle;
use crate::migration::Table;
use crate::operations::{Action, ActionView, AppendFile, ReadFile, Reply, SetSize, WriteFile};
use crate::sql::SqlValue;
use crate::winter::EntryCore;

verus! {

/// The state that a step went to.
pub open spec fn went<S>(r: Result<(S, Action), Error>) -> S {
    let (s, _) = r->Ok_0;
    s
}

/// What a step says is to be done.
pub open spec fn asks<S>(r: Result<(S, Action), Error>) -> ActionView {
    let (_, a) = r->Ok_0;
    a@
}

/// Whether these rows are what a step asks the database for.
pub open spec fn found<S>(
    database: Database,
    tables: Tables,
    r: Result<(S, Action), Error>,
    rows: &Vec<Vec<SqlValue>>,
) -> bool {
    asks(r) matches ActionView::Find(q) && crate::sql::rows(rows@) == database.rows(q, tables)
}

/// Whether the database is like this after it has run what a step asks for.
pub open spec fn ran<S>(
    database: Database,
    before: Tables,
    r: Result<(S, Action), Error>,
    after: Tables,
) -> bool {
    asks(r) matches ActionView::Run(all) && database.after_all(all, before) == Some(after)
}

/// A read of a file, carried out step by step, gives the bytes of this file from
/// the offset on, as many as are asked for or as the file has, with zeros where
/// nothing is stored. At the end of the file it gives nothing.
pub proof fn reading_gives_the_bytes_of_the_file(
    database: Database,
    tables: Tables,
    handle: &FloconHandle,
    size: usize,
    offset: i64,
    start: Seq<u8>,
    out1: Seq<u8>,
    r1: Result<(ReadFile, Action), Error>,
    rows: Vec<Vec<SqlValue>>,
    out2: Seq<u8>,
    r2: Result<(ReadFile, Action), Error>,
    data: crate::blocks::FloconContext,
    out3: Seq<u8>,
    r3: Result<(ReadFile, Action), Error>,
)
    requires
        database.understands_sql(),
        crate::block_laws::holds_blocks(tables[Table::Block]),
        crate::block_laws::holds_data(tables[Table::Block], data@),
        handle.attrs().st_ino <= i64::MAX,
        handle.attrs().st_size >= 0,
        offset >= 0,
        size > 0 || offset > 0 || handle.attrs().st_size == 0,
        size <= isize::MAX,
        offset + size <= i64::MAX,
        (exists|w: &mut Vec<u8>| #[trigger]
            call_ensures(ReadFile::next, (ReadFile::Start { size, offset }, handle, Reply::Begin, w), r1)
                && w@ == start && final(w)@ == out1),
        r1 is Ok && asks(r1) is Find ==> {
            &&& found(database, tables, r1, &rows)
            &&& (exists|w: &mut Vec<u8>| #[trigger]
            call_ensures(ReadFile::next, (went(r1), handle, Reply::Rows(rows), w), r2)
                && w@ == out1 && final(w)@ == out2)
            &&& r2 is Ok ==> (exists|w: &mut Vec<u8>| #[trigger]
            call_ensures(ReadFile::next, (went(r2), handle, Reply::Data(data), w), r3)
                && w@ == out2 && final(w)@ == out3)
        },
    ensures
        r1 is Ok,
        offset >= handle.attrs().st_size || (size == 0 && offset > 0) ==> asks(r1) is Finish && out1 == start
            && went(r1) == (ReadFile::Over { n: 0 }),
        size > 0 && offset < handle.attrs().st_size ==> {
            let n = if offset + size <= handle.attrs().st_size {
                size as int
            } else {
                handle.attrs().st_size - offset
            };
            &&& asks(r1) is Find
            &&& r2 is Ok && asks(r2) is Load
            &&& r3 is Ok && asks(r3) is Finish
            &&& went(r3) == (ReadFile::Over { n: n as usize })
            &&& out3.len() == start.len() + n
            &&& out3.take(start.len() as int) == start
            &&& forall|k: int|
                0 <= k < n ==> {
                    ||| crate::block_laws::has_byte(
                        tables[Table::Block],
                        handle.attrs().st_ino,
                        offset + k,
                        #[trigger] out3[start.len() + k],
                    )
                    ||| out3[start.len() + k] == 0 && forall|v: u8|
                        !#[trigger] crate::block_laws::has_byte(
                            tables[Table::Block],
                            handle.attrs().st_ino,
                            offset + k,
                            v,
                        )
                }
        },
{
    let inode = handle.attrs().st_ino;
    let file_size = handle.attrs().st_size;
    if size > 0 && offset < file_size {
        let last = if offset + size <= file_size {
            offset + size - 1
        } else {
            file_size - 1
        };
        crate::block_laws::read_gives_the_bytes_of_the_file(
            database,
            tables,
            data@,
            inode,
            offset,
            last as i64,
        );
        let q = crate::storage::overlapping_blocks_statement(inode, offset, last as i64);
        let blocks = crate::storage::blocks_of_rows(database.rows(q, tables), 1)->Ok_0;
        let s = crate::blocks::clip_all(blocks, offset as u64, last as u64);
        let out = crate::storage::laid_out(s, data@, offset as u64, (last - offset + 1) as nat);
        assert(out3 == start + out);
        assert forall|k: int| 0 <= k <= last - offset implies {
            ||| crate::block_laws::has_byte(
                tables[Table::Block],
                inode,
                offset + k,
                #[trigger] out3[start.len() + k],
            )
            ||| out3[start.len() + k] == 0 && forall|v: u8|
                !#[trigger] crate::block_laws::has_byte(tables[Table::Block], inode, offset + k, v)
        } by {
            let at = offset + k;
            assert(out3[start.len() + k] == out[at - offset]);
        }
    }
}

/// A write to a file, carried out step by step, leaves its data in this file
/// where it was to go, and every other byte of every file as it was. If the file
/// was shorter, its size is then where the data ends, in the database as well as
/// in the handle.
pub proof fn writing_puts_the_data_in_the_file(
    database: Database,
    before: Tables,
    inodes: Map<u64, EntryCore>,
    handle: FloconHandle,
    offset: i64,
    data: Vec<u8>,
    r1: Result<(WriteFile, Action), Error>,
    rows: Vec<Vec<SqlValue>>,
    r2: Result<(WriteFile, Action), Error>,
    loaded: crate::blocks::FloconContext,
    r3: Result<(WriteFile, Action), Error>,
    after: Tables,
    last: FloconHandle,
    r4: Result<(WriteFile, Action), Error>,
)
    requires
        database.understands_sql(),
        crate::block_laws::holds_blocks(before[Table::Block]),
        crate::file_laws::blocks_apart(before[Table::Block]),
        crate::block_laws::holds_data(before[Table::Block], loaded@),
        crate::table_laws::holds_inodes(before[Table::Inode], inodes),
        inodes.contains_key(handle.attrs().st_ino),
        handle.attrs().st_ino <= i64::MAX,
        handle.block_bytes() > 0,
        offset >= 0,
        data@.len() > 0,
        offset + data@.len() <= i64::MAX,
        (exists|h: &mut FloconHandle| #[trigger]
            call_ensures(WriteFile::next, (WriteFile::Start { size: data.len(), offset, data }, h, Reply::Begin), r1)
                && *h == handle && *final(h) == handle),
        r1 is Ok ==> found(database, before, r1, &rows) && (exists|h: &mut FloconHandle| #[trigger]
            call_ensures(WriteFile::next, (went(r1), h, Reply::Rows(rows)), r2)
                && *h == handle && *final(h) == handle),
        r1 is Ok && r2 is Ok ==> (exists|h: &mut FloconHandle| #[trigger]
            call_ensures(WriteFile::next, (went(r2), h, Reply::Data(loaded)), r3)
                && *h == handle && *final(h) == handle),
        r1 is Ok && r2 is Ok && r3 is Ok ==> ran(database, before, r3, after) && (exists|h: &mut FloconHandle| #[trigger]
            call_ensures(WriteFile::next, (went(r3), h, Reply::Done), r4)
                && *h == handle && *final(h) == last),
    ensures
        r1 is Ok && r2 is Ok && r3 is Ok && r4 is Ok,
        went(r4) == (WriteFile::Over { n: data.len() }),
        asks(r4) is Finish,
        forall|at: int, v: u8| #[trigger]
            crate::block_laws::has_byte(after[Table::Block], handle.attrs().st_ino, at, v)
                <==> if offset <= at < offset + data@.len() {
                v == data@[at - offset]
            } else {
                crate::block_laws::has_byte(before[Table::Block], handle.attrs().st_ino, at, v)
            },
        forall|other: u64, at: int, v: u8|
            other != handle.attrs().st_ino && other <= i64::MAX ==> (
            #[trigger] crate::block_laws::has_byte(after[Table::Block], other, at, v)
                <==> crate::block_laws::has_byte(before[Table::Block], other, at, v)),
        ({
            let end = offset + data@.len();
            let grown = if end > handle.attrs().st_size {
                end as i64
            } else {
                handle.attrs().st_size
            };
            &&& last.attrs() == EntryCore { st_size: grown, ..handle.attrs() }
            &&& crate::table_laws::holds_inodes(
                after[Table::Inode],
                if end > handle.attrs().st_size {
                    inodes.insert(
                        handle.attrs().st_ino,
                        EntryCore { st_size: grown, ..inodes[handle.attrs().st_ino] },
                    )
                } else {
                    inodes
                },
            )
        }),
        after[Table::Link] == before[Table::Link],
        after[Table::Xattr] == before[Table::Xattr],
{
    let inode = handle.attrs().st_ino;
    let block_size = handle.block_bytes() as u64;
    crate::file_laws::written_blocks_can_be_stored(
        database,
        before,
        inode,
        offset as u64,
        data@,
        block_size,
        loaded@,
    );
    crate::file_laws::write_puts_the_data_in_the_file(
        database,
        before,
        inodes,
        inode,
        offset as u64,
        data@,
        block_size,
        handle.attrs().st_size,
        loaded@,
        after,
    );
}

/// An append to a file none of whose blocks reaches beyond its end, carried out
/// step by step, leaves its data at the end of this file, and every other byte of
/// every file as it was. The size of the file grows by that of the data.
pub proof fn appending_puts_the_data_at_the_end(
    database: Database,
    before: Tables,
    inodes: Map<u64, EntryCore>,
    handle: FloconHandle,
    data: Vec<u8>,
    blobs: Map<u64, Seq<u8>>,
    r1: Result<(AppendFile, Action), Error>,
    after: Tables,
    last: FloconHandle,
    r2: Result<(AppendFile, Action), Error>,
)
    requires
        database.understands_sql(),
        crate::block_laws::holds_blocks(before[Table::Block]),
        crate::file_laws::blocks_apart(before[Table::Block]),
        crate::block_laws::holds_data(before[Table::Block], blobs),
        crate::table_laws::holds_inodes(before[Table::Inode], inodes),
        inodes.contains_key(handle.attrs().st_ino),
        handle.attrs().st_ino <= i64::MAX,
        handle.attrs().st_size >= 0,
        handle.block_bytes() > 0,
        data@.len() > 0,
        handle.attrs().st_size + data@.len() <= i64::MAX,
        forall|row: Row| #[trigger]
            before[Table::Block].contains(row) && crate::block_laws::is_of(
                row,
                handle.attrs().st_ino,
            ) ==> crate::block_laws::last_of(row) < handle.attrs().st_size,
        (exists|h: &mut FloconHandle| #[trigger]
            call_ensures(AppendFile::next, (AppendFile::Start { data }, h, Reply::Begin), r1)
                && *h == handle && *final(h) == handle),
        r1 is Ok,
        ran(database, before, r1, after),
        (exists|h: &mut FloconHandle| #[trigger]
            call_ensures(AppendFile::next, (went(r1), h, Reply::Done), r2)
                && *h == handle && *final(h) == last),
    ensures
        r2 is Ok,
        went(r2) == (AppendFile::Over { n: data.len() }),
        asks(r2) is Finish,
        forall|at: int, v: u8| #[trigger]
            crate::block_laws::has_byte(after[Table::Block], handle.attrs().st_ino, at, v)
                <==> if handle.attrs().st_size <= at < handle.attrs().st_size + data@.len() {
                v == data@[at - handle.attrs().st_size]
            } else {
                crate::block_laws::has_byte(before[Table::Block], handle.attrs().st_ino, at, v)
            },
        forall|other: u64, at: int, v: u8|
            other != handle.attrs().st_ino && other <= i64::MAX ==> (
            #[trigger] crate::block_laws::has_byte(after[Table::Block], other, at, v)
                <==> crate::block_laws::has_byte(before[Table::Block], other, at, v)),
        ({
            let grown = (handle.attrs().st_size + data@.len()) as i64;
            &&& last.attrs() == EntryCore { st_size: grown, ..handle.attrs() }
            &&& crate::table_laws::holds_inodes(
                after[Table::Inode],
                inodes.insert(
                    handle.attrs().st_ino,
                    EntryCore { st_size: grown, ..inodes[handle.attrs().st_ino] },
                ),
            )
        }),
{
    crate::file_laws::append_puts_the_data_at_the_end(
        database,
        before,
        inodes,
        handle.attrs().st_ino,
        handle.attrs().st_size,
        data@,
        handle.block_bytes() as u64,
        blobs,
        after,
    );
}

/// The end of a change of the size: the new size is recorded, and the inode is
/// read back, so that the handle shows what is stored.
proof fn lemma_size_recorded(
    database: Database,
    after: Tables,
    inodes: Map<u64, EntryCore>,
    handle: FloconHandle,
    rows: Vec<Vec<SqlValue>>,
    r1: Result<(SetSize, Action), Error>,
    last: FloconHandle,
    r2: Result<(SetSize, Action), Error>,
)
    requires
        database.understands_sql(),
        handle.attrs().st_ino <= i64::MAX,
        crate::table_laws::holds_inodes(after[Table::Inode], inodes),
        inodes.contains_key(handle.attrs().st_ino),
        (exists|h: &mut FloconHandle| #[trigger]
            call_ensures(SetSize::next, (SetSize::Recorded, h, Reply::Done), r1)
                && *h == handle && *final(h) == handle),
        r1 is Ok ==> found(database, after, r1, &rows) && (exists|h: &mut FloconHandle| #[trigger]
            call_ensures(SetSize::next, (went(r1), h, Reply::Rows(rows)), r2)
                && *h == handle && *final(h) == last),
    ensures
        r1 is Ok && r2 is Ok,
        went(r2) is Over,
        asks(r2) is Finish,
        last.attrs() == inodes[handle.attrs().st_ino],
{
    crate::table_laws::get_inode_reads_what_is_stored(
        database,
        after,
        inodes,
        handle.attrs().st_ino,
    );
}

/// Making a file smaller, carried out step by step, keeps the bytes of this file
/// before its new end, drops those behind, and leaves every other file as it was.
/// The new size is recorded and shown.
pub proof fn shrinking_keeps_the_beginning(
    database: Database,
    before: Tables,
    inodes: Map<u64, EntryCore>,
    handle: FloconHandle,
    size: i64,
    r1: Result<(SetSize, Action), Error>,
    between: Tables,
    r2: Result<(SetSize, Action), Error>,
    spanning: Vec<Vec<SqlValue>>,
    r3: Result<(SetSize, Action), Error>,
    loaded: crate::blocks::FloconContext,
    r4: Result<(SetSize, Action), Error>,
    after: Tables,
    r5: Result<(SetSize, Action), Error>,
    rows: Vec<Vec<SqlValue>>,
    last: FloconHandle,
    r6: Result<(SetSize, Action), Error>,
)
    requires
        database.understands_sql(),
        crate::block_laws::holds_blocks(before[Table::Block]),
        crate::file_laws::blocks_apart(before[Table::Block]),
        crate::block_laws::holds_data(before[Table::Block], loaded@),
        crate::table_laws::holds_inodes(before[Table::Inode], inodes),
        inodes.contains_key(handle.attrs().st_ino),
        handle.attrs().st_ino <= i64::MAX,
        0 <= size < handle.attrs().st_size,
        (exists|h: &mut FloconHandle| #[trigger]
            call_ensures(SetSize::next, (SetSize::Start { size }, h, Reply::Begin), r1)
                && *h == handle && *final(h) == handle),
        r1 is Ok ==> ran(database, before, r1, between) && (exists|h: &mut FloconHandle| #[trigger]
            call_ensures(SetSize::next, (went(r1), h, Reply::Done), r2)
                && *h == handle && *final(h) == handle),
        r1 is Ok && r2 is Ok ==> found(database, between, r2, &spanning) && (exists|h: &mut FloconHandle| #[trigger]
            call_ensures(SetSize::next, (went(r2), h, Reply::Rows(spanning)), r3)
                && *h == handle && *final(h) == handle),
        r1 is Ok && r2 is Ok && r3 is Ok ==> (exists|h: &mut FloconHandle| #[trigger]
            call_ensures(SetSize::next, (went(r3), h, Reply::Data(loaded)), r4)
                && *h == handle && *final(h) == handle),
        r1 is Ok && r2 is Ok && r3 is Ok && r4 is Ok ==> ran(database, between, r4, after)
            && (exists|h: &mut FloconHandle| #[trigger]
            call_ensures(SetSize::next, (went(r4), h, Reply::Done), r5)
                && *h == handle && *final(h) == handle),
        r1 is Ok && r2 is Ok && r3 is Ok && r4 is Ok && r5 is Ok ==> found(
            database,
            after,
            r5,
            &rows,
        ) && (exists|h: &mut FloconHandle| #[trigger]
            call_ensures(SetSize::next, (went(r5), h, Reply::Rows(rows)), r6)
                && *h == handle && *final(h) == last),
    ensures
        r1 is Ok && r2 is Ok && r3 is Ok && r4 is Ok && r5 is Ok && r6 is Ok,
        asks(r6) is Finish,
        forall|at: int, v: u8| #[trigger]
            crate::block_laws::has_byte(after[Table::Block], handle.attrs().st_ino, at, v) <==> at
                < size && crate::block_laws::has_byte(
                before[Table::Block],
                handle.attrs().st_ino,
                at,
                v,
            ),
        forall|other: u64, at: int, v: u8|
            other != handle.attrs().st_ino && other <= i64::MAX ==> (
            #[trigger] crate::block_laws::has_byte(after[Table::Block], other, at, v)
                <==> crate::block_laws::has_byte(before[Table::Block], other, at, v)),
        last.attrs() == (EntryCore { st_size: size, ..inodes[handle.attrs().st_ino] }),
        crate::table_laws::holds_inodes(
            after[Table::Inode],
            inodes.insert(handle.attrs().st_ino, last.attrs()),
        ),
{
    let inode = handle.attrs().st_ino;
    reveal_with_fuel(Database::after_all, 2);
    let q = crate::storage::delete_blocks_from_statement(inode, size);
    assert(seq![q].drop_last() =~= seq![]);
    assert(database.after(q, before) == Some(between));
    crate::block_laws::delete_blocks_from_takes_out_what_starts_there(
        database,
        before,
        inode,
        size,
    );
    crate::block_laws::spanning_blocks_are_those_of_the_file(database, between, inode, size);
    crate::file_laws::shrinking_keeps_what_is_before_the_end(
        database,
        before,
        inodes,
        inode,
        size,
        loaded@,
        between,
        after,
    );
    let stored = EntryCore { st_size: size, ..inodes[inode] };
    lemma_size_recorded(
        database,
        after,
        inodes.insert(inode, stored),
        handle,
        rows,
        r5,
        last,
        r6,
    );
}

/// Making a file larger, carried out step by step, keeps all bytes, puts zeros
/// behind the last block of a file that was not empty, up to its new end, and
/// leaves every other file as it was. The new size is recorded and shown.
pub proof fn growing_puts_zeros_at_the_end(
    database: Database,
    before: Tables,
    inodes: Map<u64, EntryCore>,
    blobs: Map<u64, Seq<u8>>,
    handle: FloconHandle,
    size: i64,
    r1: Result<(SetSize, Action), Error>,
    found_last: Vec<Vec<SqlValue>>,
    r2: Result<(SetSize, Action), Error>,
    after: Tables,
    r3: Result<(SetSize, Action), Error>,
    rows: Vec<Vec<SqlValue>>,
    last: FloconHandle,
    r4: Result<(SetSize, Action), Error>,
)
    requires
        database.understands_sql(),
        crate::block_laws::holds_blocks(before[Table::Block]),
        crate::file_laws::blocks_apart(before[Table::Block]),
        crate::block_laws::holds_data(before[Table::Block], blobs),
        crate::table_laws::holds_inodes(before[Table::Inode], inodes),
        inodes.contains_key(handle.attrs().st_ino),
        handle.attrs().st_ino <= i64::MAX,
        0 < handle.attrs().st_size < size,
        (exists|h: &mut FloconHandle| #[trigger]
            call_ensures(SetSize::next, (SetSize::Start { size }, h, Reply::Begin), r1)
                && *h == handle && *final(h) == handle),
        r1 is Ok ==> found(database, before, r1, &found_last) && (exists|h: &mut FloconHandle| #[trigger]
            call_ensures(SetSize::next, (went(r1), h, Reply::Rows(found_last)), r2)
                && *h == handle && *final(h) == handle),
        r1 is Ok && r2 is Ok ==> ran(database, before, r2, after) && (exists|h: &mut FloconHandle| #[trigger]
            call_ensures(SetSize::next, (went(r2), h, Reply::Done), r3)
                && *h == handle && *final(h) == handle),
        r1 is Ok && r2 is Ok && r3 is Ok ==> found(database, after, r3, &rows) && (exists|h: &mut FloconHandle| #[trigger]
            call_ensures(SetSize::next, (went(r3), h, Reply::Rows(rows)), r4)
                && *h == handle && *final(h) == last),
    ensures
        r1 is Ok && r2 is Ok && r3 is Ok && r4 is Ok,
        asks(r4) is Finish,
        forall|at: int, v: u8| #[trigger]
            crate::block_laws::has_byte(after[Table::Block], handle.attrs().st_ino, at, v) ==> {
                ||| crate::block_laws::has_byte(
                    before[Table::Block],
                    handle.attrs().st_ino,
                    at,
                    v,
                )
                ||| v == 0 && 0 <= at < size && crate::file_laws::beyond(
                    before[Table::Block],
                    handle.attrs().st_ino,
                    at,
                )
            },
        forall|at: int, v: u8|
            crate::block_laws::has_byte(before[Table::Block], handle.attrs().st_ino, at, v)
                ==> #[trigger] crate::block_laws::has_byte(
                after[Table::Block],
                handle.attrs().st_ino,
                at,
                v,
            ),
        forall|at: int|
            0 <= at < size && #[trigger] crate::file_laws::beyond(
                before[Table::Block],
                handle.attrs().st_ino,
                at,
            ) ==> crate::block_laws::has_byte(
                after[Table::Block],
                handle.attrs().st_ino,
                at,
                0,
            ),
        forall|other: u64, at: int, v: u8|
            other != handle.attrs().st_ino && other <= i64::MAX ==> (
            #[trigger] crate::block_laws::has_byte(after[Table::Block], other, at, v)
                <==> crate::block_laws::has_byte(before[Table::Block], other, at, v)),
        last.attrs() == (EntryCore { st_size: size, ..inodes[handle.attrs().st_ino] }),
        crate::table_laws::holds_inodes(
            after[Table::Inode],
            inodes.insert(handle.attrs().st_ino, last.attrs()),
        ),
{
    let inode = handle.attrs().st_ino;
    crate::block_laws::last_block_is_the_one_that_ends_last(database, before, inode);
    crate::file_laws::growing_adds_zeros(database, before, inodes, inode, size, blobs, after);
    let stored = EntryCore { st_size: size, ..inodes[inode] };
    lemma_size_recorded(
        database,
        after,
        inodes.insert(inode, stored),
        handle,
        rows,
        r3,
        last,
        r4,
    );
}

/// A file that already has the size that is asked for is left alone.
pub proof fn same_size_changes_nothing(
    handle: FloconHandle,
    after: FloconHandle,
    r: Result<(SetSize, Action), Error>,
)
    requires
        (exists|h: &mut FloconHandle| #[trigger]
            call_ensures(SetSize::next, (SetSize::Start { size: handle.attrs().st_size }, h, Reply::Begin), r)
                && *h == handle && *final(h) == after),
    ensures
        r is Ok && asks(r) is Finish && after == handle,
{
}

} // verus!
