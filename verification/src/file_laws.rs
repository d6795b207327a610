//! What writing, appending and changing the size do to the bytes of the files
//! in the database.

use vstd::prelude::*;
use crate::block_laws::{
    block_of, byte_of, first_of, has_byte, holds_blocks, holds_data, id_of, is_block, is_of,
    last_of,
};
use crate::blocks::BlockView;
use crate::database::{Database, Row, Tables};
use crate::migration::{Field, Table};
use crate::sql::StatementView;
use crate::winter::EntryCore;

verus! {

/// Whether no two blocks of a file share a position.
pub open spec fn blocks_apart(rows: Seq<Row>) -> bool {
    forall|a: Row, b: Row| #[trigger]
        rows.contains(a) && #[trigger] rows.contains(b) && a != b && a[Field::InodeId]
            == b[Field::InodeId] ==> last_of(a) < first_of(b) || last_of(b) < first_of(a)
}

/// The rows of one file.
spec fn of_file(inode: u64) -> spec_fn(Row) -> bool {
    |row: Row| is_of(row, inode)
}

/// The block of each row.
spec fn to_block() -> spec_fn(Row) -> BlockView {
    |row: Row| block_of(row)
}

/// The stored blocks of a file.
spec fn file_blocks(rows: Seq<Row>, inode: u64) -> Seq<BlockView> {
    rows.filter(of_file(inode)).map_values(to_block())
}

/// What the blocks of a file contain.
proof fn lemma_file_contains(rows: Seq<Row>, inode: u64)
    ensures
        forall|b: BlockView| #[trigger]
            file_blocks(rows, inode).contains(b) <==> exists|row: Row| #[trigger]
                rows.contains(row) && is_of(row, inode) && block_of(row) == b,
{
    let mine = rows.filter(of_file(inode));
    let table = file_blocks(rows, inode);
    crate::database::lemma_filter(rows, of_file(inode));
    assert forall|b: BlockView| #[trigger] table.contains(b) <==> exists|row: Row| #[trigger]
        rows.contains(row) && is_of(row, inode) && block_of(row) == b by {
        if table.contains(b) {
            let i = choose|i: int| 0 <= i < table.len() && table[i] == b;
            assert(mine.contains(mine[i]));
        }
        if exists|row: Row| #[trigger]
            rows.contains(row) && is_of(row, inode) && block_of(row) == b {
            let row = choose|row: Row| #[trigger]
                rows.contains(row) && is_of(row, inode) && block_of(row) == b;
            assert(mine.contains(row));
            let i = choose|i: int| 0 <= i < mine.len() && mine[i] == row;
            assert(table[i] == b);
        }
    }
}

/// The blocks of a file hold exactly its bytes, and show what the table has.
proof fn lemma_file(rows: Seq<Row>, inode: u64, blobs: Map<u64, Seq<u8>>)
    requires
        holds_blocks(rows),
        holds_data(rows, blobs),
        blocks_apart(rows),
    ensures
        crate::content::all_wf(file_blocks(rows, inode), blobs),
        crate::content::no_overlap(file_blocks(rows, inode)),
        crate::laws::distinct_ids(file_blocks(rows, inode)),
        forall|b: BlockView| #[trigger]
            file_blocks(rows, inode).contains(b) ==> b.last_byte < i64::MAX,
        forall|at: int, v: u8| #[trigger]
            crate::content::shows(file_blocks(rows, inode), blobs, at, v) <==> has_byte(
                rows,
                inode,
                at,
                v,
            ),
{
    let mine = rows.filter(of_file(inode));
    let table = file_blocks(rows, inode);
    lemma_file_contains(rows, inode);
    crate::database::lemma_filter(rows, of_file(inode));
    assert forall|b: BlockView| #[trigger] table.contains(b) implies b.wf(blobs) && b.last_byte
        < i64::MAX && b.id is Some by {
        let row = choose|row: Row| #[trigger]
            rows.contains(row) && is_of(row, inode) && block_of(row) == b;
        crate::block_laws::lemma_block_wf(rows, blobs, row);
        assert(is_block(row));
    }
    assert forall|i: int, j: int| 0 <= i < j < table.len() implies crate::content::apart(
        #[trigger] table[i],
        #[trigger] table[j],
    ) by {
        assert(mine.contains(mine[i]) && mine.contains(mine[j]));
        assert(rows.contains(mine[i]) && rows.contains(mine[j]));
        assert(mine[i] != mine[j]);
        assert(is_block(mine[i]) && is_block(mine[j]));
    }
    assert forall|a: BlockView, b: BlockView| #[trigger]
        table.contains(a) && #[trigger] table.contains(b) && a.id == b.id implies a == b by {
        let x = choose|row: Row| #[trigger]
            rows.contains(row) && is_of(row, inode) && block_of(row) == a;
        let y = choose|row: Row| #[trigger]
            rows.contains(row) && is_of(row, inode) && block_of(row) == b;
        assert(id_of(x) == id_of(y));
    }
    assert forall|at: int, v: u8| #[trigger]
        crate::content::shows(table, blobs, at, v) <==> has_byte(rows, inode, at, v) by {
        if crate::content::shows(table, blobs, at, v) {
            let b = choose|b: BlockView| #[trigger] table.contains(b) && b.says(blobs, at, v);
            let row = choose|row: Row| #[trigger]
                rows.contains(row) && is_of(row, inode) && block_of(row) == b;
            crate::block_laws::lemma_block_wf(rows, blobs, row);
            assert(is_block(row));
            assert(byte_of(row, at) == v);
        }
        if has_byte(rows, inode, at, v) {
            let row = choose|row: Row| #[trigger]
                rows.contains(row) && is_of(row, inode) && first_of(row) <= at <= last_of(row)
                    && byte_of(row, at) == v;
            crate::block_laws::lemma_block_wf(rows, blobs, row);
            assert(is_block(row));
            let b = block_of(row);
            assert(b.byte(blobs, at) == v);
            assert(table.contains(b));
            assert(b.says(blobs, at, v));
        }
    }
}

/// Statements one after the other.
proof fn lemma_after_both(
    database: Database,
    first: Seq<StatementView>,
    second: Seq<StatementView>,
    tables: Tables,
)
    ensures
        database.after_all(first + second, tables) == match database.after_all(first, tables) {
            Some(between) => database.after_all(second, between),
            None => None,
        },
    decreases second.len(),
{
    if second.len() == 0 {
        assert(first + second =~= first);
    } else {
        lemma_after_both(database, first, second.drop_last(), tables);
        assert((first + second).drop_last() =~= first + second.drop_last());
        assert((first + second).last() == second.last());
    }
}

/// Whether a row is a block of this file with the place and the bytes of a block.
spec fn stands_for(row: Row, inode: u64, b: BlockView, blobs: Map<u64, Seq<u8>>) -> bool {
    &&& is_of(row, inode)
    &&& first_of(row) == b.first_byte
    &&& last_of(row) == b.last_byte
    &&& forall|at: int| b.covers(at) ==> #[trigger] byte_of(row, at) == b.byte(blobs, at)
}

/// The rows that the statements that store blocks add.
proof fn lemma_stored(
    database: Database,
    before: Tables,
    inode: u64,
    s: Seq<BlockView>,
    blobs: Map<u64, Seq<u8>>,
) -> (added: Seq<Row>)
    requires
        database.understands_sql(),
        holds_blocks(before[Table::Block]),
        crate::sql::bindable(inode),
        forall|i: int|
            0 <= i < s.len() ==> (#[trigger] s[i]).wf(blobs) && s[i].last_byte < i64::MAX,
        database.after_all(crate::laws::storing(inode, s, blobs), before) is Some,
    ensures
        ({
            let after = database.after_all(crate::laws::storing(inode, s, blobs), before)->Some_0;
            &&& added.len() == s.len()
            &&& after[Table::Block] == before[Table::Block] + added
            &&& holds_blocks(after[Table::Block])
            &&& forall|i: int|
                0 <= i < s.len() ==> stands_for(#[trigger] added[i], inode, s[i], blobs)
            &&& forall|t: Table| t != Table::Block ==> #[trigger] after[t] == before[t]
        }),
    decreases s.len(),
{
    let all = crate::laws::storing(inode, s, blobs);
    if s.len() == 0 {
        assert(all =~= seq![]);
        assert(before[Table::Block] + Seq::<Row>::empty() =~= before[Table::Block]);
        Seq::empty()
    } else {
        let head = s.drop_last();
        let b = s.last();
        assert(all.drop_last() =~= crate::laws::storing(inode, head, blobs));
        assert forall|i: int| 0 <= i < head.len() implies (#[trigger] head[i]).wf(blobs)
            && head[i].last_byte < i64::MAX by {
            assert(head[i] == s[i]);
        }
        let added = lemma_stored(database, before, inode, head, blobs);
        let between = database.after_all(all.drop_last(), before)->Some_0;
        assert(s[s.len() - 1] == b);
        crate::content::complete_source_reads_its_size(b.source, blobs);
        let bytes = b.source.bytes(blobs);
        crate::block_laws::insert_block_adds_its_bytes(
            database,
            between,
            inode,
            b.first_byte,
            b.last_byte,
            bytes,
        );
        let after = database.after_all(all, before)->Some_0;
        let row = choose|row: Row|
            {
                &&& #[trigger] after[Table::Block].contains(row)
                &&& is_of(row, inode)
                &&& first_of(row) == b.first_byte
                &&& last_of(row) == b.last_byte
                &&& forall|at: int|
                    b.first_byte <= at <= b.last_byte ==> #[trigger] byte_of(row, at) == bytes[at
                        - b.first_byte]
                &&& after[Table::Block] == between[Table::Block].push(row)
            };
        assert(after[Table::Block] =~= before[Table::Block] + added.push(row));
        added.push(row)
    }
}

/// What the rows of two lists contain.
proof fn lemma_rows_add(a: Seq<Row>, b: Seq<Row>)
    ensures
        forall|row: Row| #[trigger] (a + b).contains(row) <==> a.contains(row) || b.contains(row),
{
    assert forall|row: Row| #[trigger] (a + b).contains(row) <==> a.contains(row) || b.contains(
        row,
    ) by {
        if (a + b).contains(row) {
            let i = choose|i: int| 0 <= i < (a + b).len() && (a + b)[i] == row;
            if i < a.len() {
                assert(a[i] == row);
            } else {
                assert(b[i - a.len()] == row);
            }
        }
        if a.contains(row) {
            let i = choose|i: int| 0 <= i < a.len() && a[i] == row;
            assert((a + b)[i] == row);
        }
        if b.contains(row) {
            let i = choose|i: int| 0 <= i < b.len() && b[i] == row;
            assert((a + b)[a.len() + i] == row);
        }
    }
}

/// Two inodes that can be bound are bound differently.
proof fn lemma_files_differ(row: Row, inode: u64, other: u64)
    requires
        crate::sql::bindable(inode),
        crate::sql::bindable(other),
        is_of(row, inode),
        is_of(row, other),
    ensures
        inode == other,
{
}

/// Rows that were added stay if others are taken out by their identifiers.
proof fn lemma_added_stay(
    before: Seq<Row>,
    added: Seq<Row>,
    after: Seq<Row>,
    gone: Seq<u64>,
    inode: u64,
)
    requires
        holds_blocks(before + added),
        forall|id: u64| #[trigger]
            gone.contains(id) ==> exists|row: Row| #[trigger]
                before.contains(row) && is_of(row, inode) && id_of(row) == id,
        forall|row: Row| #[trigger]
            after.contains(row) <==> (before + added).contains(row) && !gone.contains(id_of(row)),
    ensures
        forall|row: Row| #[trigger]
            after.contains(row) <==> before.contains(row) && !gone.contains(id_of(row))
                || added.contains(row),
{
    let both = before + added;
    lemma_rows_add(before, added);
    assert forall|row: Row| #[trigger] added.contains(row) implies !gone.contains(id_of(row)) by {
        if gone.contains(id_of(row)) {
            let r = choose|r: Row| #[trigger]
                before.contains(r) && is_of(r, inode) && id_of(r) == id_of(row);
            assert(both.contains(r) && both.contains(row));
            assert(r == row);
            let i = choose|i: int| 0 <= i < before.len() && before[i] == r;
            let j = choose|j: int| 0 <= j < added.len() && added[j] == row;
            assert(both[i] == both[before.len() + j]);
        }
    }
}

/// Rows of a file that were taken out by their identifiers and others that were
/// added in their place.
proof fn lemma_replaced(
    before: Seq<Row>,
    added: Seq<Row>,
    after: Seq<Row>,
    gone: Seq<u64>,
    inode: u64,
    s: Seq<BlockView>,
    blobs: Map<u64, Seq<u8>>,
)
    requires
        holds_blocks(before),
        holds_data(before, blobs),
        blocks_apart(before),
        crate::sql::bindable(inode),
        added.len() == s.len(),
        forall|i: int| 0 <= i < s.len() ==> stands_for(#[trigger] added[i], inode, s[i], blobs),
        forall|id: u64| #[trigger]
            gone.contains(id) ==> exists|row: Row| #[trigger]
                before.contains(row) && is_of(row, inode) && id_of(row) == id,
        forall|row: Row| #[trigger]
            after.contains(row) <==> before.contains(row) && !gone.contains(id_of(row))
                || added.contains(row),
        crate::content::no_overlap(
            crate::laws::table_after(file_blocks(before, inode), gone, s),
        ),
    ensures
        forall|at: int, v: u8| #[trigger]
            has_byte(after, inode, at, v) <==> crate::content::shows(
                crate::laws::table_after(file_blocks(before, inode), gone, s),
                blobs,
                at,
                v,
            ),
        forall|other: u64, at: int, v: u8|
            other != inode && crate::sql::bindable(other) ==> (#[trigger] has_byte(
                after,
                other,
                at,
                v,
            ) <==> has_byte(before, other, at, v)),
        blocks_apart(after),
{
    let table = file_blocks(before, inode);
    let kept = table.filter(crate::laws::outside(gone));
    let result = crate::laws::table_after(table, gone, s);
    lemma_file_contains(before, inode);
    crate::database::lemma_filter(table, crate::laws::outside(gone));
    assert forall|at: int, v: u8| #[trigger]
        has_byte(after, inode, at, v) <==> crate::content::shows(result, blobs, at, v) by {
        crate::content::lemma_shows_add(kept, s, blobs, at, v);
        if has_byte(after, inode, at, v) {
            let row = choose|row: Row| #[trigger]
                after.contains(row) && is_of(row, inode) && first_of(row) <= at <= last_of(row)
                    && byte_of(row, at) == v;
            if added.contains(row) {
                let j = choose|j: int| 0 <= j < added.len() && added[j] == row;
                assert(stands_for(added[j], inode, s[j], blobs));
                assert(s[j].covers(at));
                assert(s.contains(s[j]));
                assert(s[j].says(blobs, at, v));
                assert(crate::content::shows(s, blobs, at, v));
            } else {
                crate::block_laws::lemma_block_wf(before, blobs, row);
                assert(is_block(row));
                assert(table.contains(block_of(row)));
                assert(kept.contains(block_of(row)));
                assert(block_of(row).byte(blobs, at) == v);
                assert(block_of(row).says(blobs, at, v));
                assert(crate::content::shows(kept, blobs, at, v));
            }
        }
        if crate::content::shows(s, blobs, at, v) {
            let b = choose|b: BlockView| #[trigger] s.contains(b) && b.says(blobs, at, v);
            let j = choose|j: int| 0 <= j < s.len() && s[j] == b;
            assert(stands_for(added[j], inode, s[j], blobs));
            assert(added.contains(added[j]));
            assert(after.contains(added[j]));
            assert(byte_of(added[j], at) == v);
        }
        if crate::content::shows(kept, blobs, at, v) {
            let b = choose|b: BlockView| #[trigger] kept.contains(b) && b.says(blobs, at, v);
            assert(table.contains(b));
            let row = choose|row: Row| #[trigger]
                before.contains(row) && is_of(row, inode) && block_of(row) == b;
            crate::block_laws::lemma_block_wf(before, blobs, row);
            assert(is_block(row));
            assert(after.contains(row));
            assert(byte_of(row, at) == v);
        }
    }
    assert forall|other: u64, at: int, v: u8|
        other != inode && crate::sql::bindable(other) implies (#[trigger] has_byte(
        after,
        other,
        at,
        v,
    ) <==> has_byte(before, other, at, v)) by {
        if has_byte(after, other, at, v) {
            let row = choose|row: Row| #[trigger]
                after.contains(row) && is_of(row, other) && first_of(row) <= at <= last_of(row)
                    && byte_of(row, at) == v;
            if added.contains(row) {
                let j = choose|j: int| 0 <= j < added.len() && added[j] == row;
                assert(stands_for(added[j], inode, s[j], blobs));
                lemma_files_differ(row, inode, other);
            }
            assert(before.contains(row));
        }
        if has_byte(before, other, at, v) {
            let row = choose|row: Row| #[trigger]
                before.contains(row) && is_of(row, other) && first_of(row) <= at <= last_of(row)
                    && byte_of(row, at) == v;
            if gone.contains(id_of(row)) {
                let r = choose|r: Row| #[trigger]
                    before.contains(r) && is_of(r, inode) && id_of(r) == id_of(row);
                assert(r == row);
                lemma_files_differ(row, inode, other);
            }
            assert(after.contains(row));
        }
    }
    lemma_replaced_apart(before, added, after, gone, inode, s, blobs);
}

/// What was added in the place of rows of a file does not overlap with what
/// stayed.
proof fn lemma_replaced_apart(
    before: Seq<Row>,
    added: Seq<Row>,
    after: Seq<Row>,
    gone: Seq<u64>,
    inode: u64,
    s: Seq<BlockView>,
    blobs: Map<u64, Seq<u8>>,
)
    requires
        holds_blocks(before),
        blocks_apart(before),
        added.len() == s.len(),
        forall|i: int| 0 <= i < s.len() ==> stands_for(#[trigger] added[i], inode, s[i], blobs),
        forall|row: Row| #[trigger]
            after.contains(row) <==> before.contains(row) && !gone.contains(id_of(row))
                || added.contains(row),
        crate::content::no_overlap(
            crate::laws::table_after(file_blocks(before, inode), gone, s),
        ),
    ensures
        blocks_apart(after),
{
    let table = file_blocks(before, inode);
    let kept = table.filter(crate::laws::outside(gone));
    let result = crate::laws::table_after(table, gone, s);
    lemma_file_contains(before, inode);
    crate::database::lemma_filter(table, crate::laws::outside(gone));
    assert forall|row: Row, j: int|
        #![trigger before.contains(row), added[j]]
        before.contains(row) && !gone.contains(id_of(row)) && is_of(row, inode) && 0 <= j
            < added.len() implies last_of(row) < first_of(added[j]) || last_of(added[j])
        < first_of(row) by {
        let b = block_of(row);
        assert(is_block(row));
        assert(table.contains(b));
        assert(kept.contains(b));
        let k = choose|k: int| 0 <= k < kept.len() && kept[k] == b;
        assert(result[k] == b);
        assert(result[kept.len() + j] == s[j]);
        assert(crate::content::apart(result[k], result[kept.len() + j]));
        assert(stands_for(added[j], inode, s[j], blobs));
    }
    assert forall|a: Row, b: Row| #[trigger]
        after.contains(a) && #[trigger] after.contains(b) && a != b && a[Field::InodeId]
            == b[Field::InodeId] implies last_of(a) < first_of(b) || last_of(b) < first_of(a) by {
        let old_a = before.contains(a) && !gone.contains(id_of(a));
        let old_b = before.contains(b) && !gone.contains(id_of(b));
        if old_a && old_b {
        } else if old_a {
            let j = choose|j: int| 0 <= j < added.len() && added[j] == b;
            assert(stands_for(added[j], inode, s[j], blobs));
        } else if old_b {
            let j = choose|j: int| 0 <= j < added.len() && added[j] == a;
            assert(stands_for(added[j], inode, s[j], blobs));
        } else {
            let i = choose|i: int| 0 <= i < added.len() && added[i] == a;
            let j = choose|j: int| 0 <= j < added.len() && added[j] == b;
            assert(stands_for(added[i], inode, s[i], blobs));
            assert(stands_for(added[j], inode, s[j], blobs));
            assert(result[kept.len() + i] == s[i]);
            assert(result[kept.len() + j] == s[j]);
            if i < j {
                assert(crate::content::apart(result[kept.len() + i], result[kept.len() + j]));
            } else {
                assert(crate::content::apart(result[kept.len() + j], result[kept.len() + i]));
            }
        }
    }
}

/// Rows of a table of blocks make up one.
proof fn lemma_part_holds(rows: Seq<Row>, part: Seq<Row>)
    requires
        holds_blocks(rows),
        part.no_duplicates(),
        forall|row: Row| #[trigger] part.contains(row) ==> rows.contains(row),
    ensures
        holds_blocks(part),
{
}

/// The blocks that a query for a range gives, as the blocks of the file.
proof fn lemma_touched(
    database: Database,
    tables: Tables,
    inode: u64,
    first_byte: i64,
    last_byte: i64,
    blobs: Map<u64, Seq<u8>>,
)
    requires
        database.understands_sql(),
        holds_blocks(tables[Table::Block]),
        holds_data(tables[Table::Block], blobs),
        blocks_apart(tables[Table::Block]),
        crate::sql::bindable(inode),
        0 <= first_byte <= last_byte,
    ensures
        crate::storage::blocks_of_rows(
            database.rows(
                crate::storage::overlapping_blocks_statement(inode, first_byte, last_byte),
                tables,
            ),
            1,
        ) matches Ok(touched) && {
            &&& crate::laws::rows_meeting(
                touched,
                file_blocks(tables[Table::Block], inode),
                first_byte as u64,
                last_byte as u64,
            )
            &&& crate::content::no_overlap(touched)
        },
{
    let rows = tables[Table::Block];
    let table = file_blocks(rows, inode);
    let s = crate::storage::overlapping_blocks_statement(inode, first_byte, last_byte);
    crate::block_laws::overlapping_blocks_are_those_of_the_file(
        database,
        tables,
        inode,
        first_byte,
        last_byte,
    );
    let touched = crate::storage::blocks_of_rows(database.rows(s, tables), 1)->Ok_0;
    lemma_file_contains(rows, inode);
    lemma_file(rows, inode, blobs);
    assert forall|b: BlockView| #[trigger] touched.contains(b) <==> table.contains(b) && b.meets(
        first_byte as u64,
        last_byte as u64,
    ) by {
        if touched.contains(b) {
            let row = choose|row: Row| #[trigger]
                rows.contains(row) && is_of(row, inode) && first_of(row) <= last_byte && first_byte
                    <= last_of(row) && block_of(row) == b;
            assert(is_block(row));
        }
        if table.contains(b) && b.meets(first_byte as u64, last_byte as u64) {
            let row = choose|row: Row| #[trigger]
                rows.contains(row) && is_of(row, inode) && block_of(row) == b;
            assert(is_block(row));
        }
    }
    lemma_part_apart(table, touched);
}

/// Different blocks out of a list without overlap do not overlap.
proof fn lemma_part_apart(table: Seq<BlockView>, part: Seq<BlockView>)
    requires
        crate::content::no_overlap(table),
        part.no_duplicates(),
        forall|b: BlockView| #[trigger] part.contains(b) ==> table.contains(b),
    ensures
        crate::content::no_overlap(part),
{
    assert forall|i: int, j: int| 0 <= i < j < part.len() implies crate::content::apart(
        #[trigger] part[i],
        #[trigger] part[j],
    ) by {
        assert(part.contains(part[i]) && part.contains(part[j]));
        let k = choose|k: int| 0 <= k < table.len() && table[k] == part[i];
        let m = choose|m: int| 0 <= m < table.len() && table[m] == part[j];
        assert(part[i] != part[j]);
        if k < m {
            assert(crate::content::apart(table[k], table[m]));
        } else {
            assert(crate::content::apart(table[m], table[k]));
        }
    }
}

/// The identifiers of blocks of a file are identifiers of its rows.
proof fn lemma_gone_ids(rows: Seq<Row>, inode: u64, part: Seq<BlockView>)
    requires
        holds_blocks(rows),
        forall|b: BlockView| #[trigger]
            part.contains(b) ==> file_blocks(rows, inode).contains(b),
    ensures
        forall|id: u64| #[trigger]
            crate::storage::ids(part).contains(id) ==> crate::sql::bindable(id) && exists|row: Row|
                #[trigger]
                rows.contains(row) && is_of(row, inode) && id_of(row) == id,
{
    crate::laws::lemma_ids(part);
    lemma_file_contains(rows, inode);
    assert forall|id: u64| #[trigger] crate::storage::ids(part).contains(
        id,
    ) implies crate::sql::bindable(id) && exists|row: Row| #[trigger]
        rows.contains(row) && is_of(row, inode) && id_of(row) == id by {
        let i = choose|i: int| 0 <= i < part.len() && (#[trigger] part[i]).id == Some(id);
        assert(part.contains(part[i]));
        let row = choose|row: Row| #[trigger]
            rows.contains(row) && is_of(row, inode) && block_of(row) == part[i];
        assert(is_block(row));
    }
}

/// A write puts its data where it was asked to: afterwards the file has exactly
/// these bytes there, and everywhere else the bytes that it had. No other file
/// changes. If the file grew, its size is recorded.
pub proof fn write_puts_the_data_in_the_file(
    database: Database,
    before: Tables,
    inodes: Map<u64, EntryCore>,
    inode: u64,
    start: u64,
    data: Seq<u8>,
    block_size: u64,
    file_size: i64,
    blobs: Map<u64, Seq<u8>>,
    after: Tables,
)
    requires
        database.understands_sql(),
        holds_blocks(before[Table::Block]),
        holds_data(before[Table::Block], blobs),
        blocks_apart(before[Table::Block]),
        crate::table_laws::holds_inodes(before[Table::Inode], inodes),
        inodes.contains_key(inode),
        crate::sql::bindable(inode),
        data.len() > 0,
        start + data.len() <= i64::MAX,
        block_size > 0,
        ({
            let touched = crate::storage::blocks_of_rows(
                database.rows(
                    crate::storage::overlapping_blocks_statement(
                        inode,
                        start as i64,
                        (start + data.len() - 1) as i64,
                    ),
                    before,
                ),
                1,
            )->Ok_0;
            database.after_all(
                crate::storage::write_statements(
                    inode,
                    file_size,
                    start + data.len(),
                    crate::storage::ids(touched),
                    crate::storage::overwrite(touched, start, data, block_size),
                    blobs,
                ),
                before,
            ) == Some(after)
        }),
    ensures
        forall|at: int, v: u8| #[trigger]
            has_byte(after[Table::Block], inode, at, v) <==> if start <= at < start + data.len() {
                v == data[at - start]
            } else {
                has_byte(before[Table::Block], inode, at, v)
            },
        forall|other: u64, at: int, v: u8|
            other != inode && crate::sql::bindable(other) ==> (#[trigger] has_byte(
                after[Table::Block],
                other,
                at,
                v,
            ) <==> has_byte(before[Table::Block], other, at, v)),
        crate::table_laws::holds_inodes(
            after[Table::Inode],
            if start + data.len() > file_size {
                inodes.insert(
                    inode,
                    EntryCore { st_size: (start + data.len()) as i64, ..inodes[inode] },
                )
            } else {
                inodes
            },
        ),
        after[Table::Link] == before[Table::Link],
        after[Table::Xattr] == before[Table::Xattr],
        holds_blocks(after[Table::Block]),
        blocks_apart(after[Table::Block]),
{
    let rows = before[Table::Block];
    let end = start + data.len();
    let first = start as i64;
    let last = (end - 1) as i64;
    let table = file_blocks(rows, inode);
    let query = crate::storage::overlapping_blocks_statement(inode, first, last);
    let touched = crate::storage::blocks_of_rows(database.rows(query, before), 1)->Ok_0;
    lemma_touched(database, before, inode, first, last, blobs);
    lemma_file(rows, inode, blobs);
    let sequence = crate::storage::overwrite(touched, start, data, block_size);
    let gone = crate::storage::ids(touched).filter(crate::storage::lost(sequence));
    crate::laws::write_statements_change_the_table(
        table,
        touched,
        start,
        data,
        block_size,
        blobs,
        inode,
        file_size,
        blobs,
    );
    crate::laws::write_changes_exactly_its_range(table, touched, start, data, block_size, blobs);
    crate::laws::write_keeps_blocks_within_the_file(
        table,
        touched,
        start,
        data,
        block_size,
        blobs,
        i64::MAX,
    );
    let fresh = crate::laws::new_blocks(sequence);
    let result = crate::laws::table_after(table, gone, fresh);
    let insert = crate::laws::storing(inode, fresh, blobs);
    let remove = if gone.len() > 0 {
        seq![crate::storage::delete_blocks_statement(gone)]
    } else {
        seq![]
    };
    let record = if end > file_size {
        seq![crate::storage::update_size_statement(inode, end as i64)]
    } else {
        seq![]
    };
    lemma_after_both(database, insert + remove, record, before);
    lemma_after_both(database, insert, remove, before);
    crate::content::lemma_add_contains(table.filter(crate::laws::outside(gone)), fresh);
    assert forall|i: int| 0 <= i < fresh.len() implies (#[trigger] fresh[i]).wf(blobs)
        && fresh[i].last_byte < i64::MAX by {
        assert(fresh.contains(fresh[i]));
        assert(result.contains(fresh[i]));
    }
    let added = lemma_stored(database, before, inode, fresh, blobs);
    let one = database.after_all(insert, before)->Some_0;
    let two = database.after_all(remove, one)->Some_0;
    reveal_with_fuel(Database::after_all, 2);
    lemma_gone_ids(rows, inode, touched);
    assert forall|i: int| 0 <= i < gone.len() implies crate::sql::bindable(#[trigger] gone[i]) by {
        assert(gone.contains(gone[i]));
        assert(crate::storage::ids(touched).contains(gone[i]));
    }
    if gone.len() > 0 {
        assert(remove.drop_last() =~= seq![]);
        assert(two == database.after(remove[0], one)->Some_0);
        crate::block_laws::delete_blocks_takes_out_these_blocks(database, one, gone);
    }
    assert forall|row: Row| #[trigger] two[Table::Block].contains(row) <==> (rows + added).contains(
        row,
    ) && !gone.contains(id_of(row)) by {}
    lemma_added_stay(rows, added, two[Table::Block], gone, inode);
    lemma_replaced(rows, added, two[Table::Block], gone, inode, fresh, blobs);
    lemma_part_holds(rows + added, two[Table::Block]);
    if end > file_size {
        assert(record.drop_last() =~= seq![]);
        assert(after == database.after(record[0], two)->Some_0);
        crate::table_laws::recorded_size_is_the_size(database, two, inodes, inode, end as i64);
    }
    assert(after[Table::Block] == two[Table::Block]);
}

/// Wherever a write begins and ends in reach, the blocks that it makes have
/// places that can be stored.
pub proof fn written_blocks_can_be_stored(
    database: Database,
    before: Tables,
    inode: u64,
    start: u64,
    data: Seq<u8>,
    block_size: u64,
    blobs: Map<u64, Seq<u8>>,
)
    requires
        database.understands_sql(),
        holds_blocks(before[Table::Block]),
        holds_data(before[Table::Block], blobs),
        blocks_apart(before[Table::Block]),
        crate::sql::bindable(inode),
        data.len() > 0,
        start + data.len() <= i64::MAX,
        block_size > 0,
    ensures
        crate::storage::blocks_of_rows(
            database.rows(
                crate::storage::overlapping_blocks_statement(
                    inode,
                    start as i64,
                    (start + data.len() - 1) as i64,
                ),
                before,
            ),
            1,
        ) matches Ok(touched) && crate::storage::new_blocks_storable(
            inode,
            crate::storage::overwrite(touched, start, data, block_size),
        ),
{
    let rows = before[Table::Block];
    let first = start as i64;
    let last = (start + data.len() - 1) as i64;
    let table = file_blocks(rows, inode);
    let query = crate::storage::overlapping_blocks_statement(inode, first, last);
    let touched = crate::storage::blocks_of_rows(database.rows(query, before), 1)->Ok_0;
    lemma_touched(database, before, inode, first, last, blobs);
    lemma_file(rows, inode, blobs);
    let sequence = crate::storage::overwrite(touched, start, data, block_size);
    let gone = crate::storage::ids(touched).filter(crate::storage::lost(sequence));
    crate::laws::write_changes_exactly_its_range(table, touched, start, data, block_size, blobs);
    crate::laws::write_keeps_blocks_within_the_file(
        table,
        touched,
        start,
        data,
        block_size,
        blobs,
        i64::MAX,
    );
    let fresh = crate::laws::new_blocks(sequence);
    let result = crate::laws::table_after(table, gone, fresh);
    crate::content::lemma_add_contains(table.filter(crate::laws::outside(gone)), fresh);
    crate::block_laws::overlapping_blocks_are_those_of_the_file(
        database,
        before,
        inode,
        first,
        last,
    );
    assert forall|i: int| 0 <= i < sequence.len() && (
    #[trigger] sequence[i]).id is None implies crate::storage::storable(inode, sequence[i]) by {
        crate::laws::lemma_filter(sequence, |b: BlockView| b.id is None);
        assert(sequence.contains(sequence[i]));
        assert(fresh.contains(sequence[i]));
        assert(result.contains(sequence[i]));
        assert(sequence[i].wf(blobs));
    }
}

/// An append to a file none of whose blocks reaches beyond its end puts its data
/// right behind that end: afterwards the file has exactly these bytes there, and
/// everywhere else the bytes that it had. No other file changes, and the size
/// that is recorded is that of both together.
pub proof fn append_puts_the_data_at_the_end(
    database: Database,
    before: Tables,
    inodes: Map<u64, EntryCore>,
    inode: u64,
    file_size: i64,
    data: Seq<u8>,
    block_size: u64,
    blobs: Map<u64, Seq<u8>>,
    after: Tables,
)
    requires
        database.understands_sql(),
        holds_blocks(before[Table::Block]),
        holds_data(before[Table::Block], blobs),
        blocks_apart(before[Table::Block]),
        crate::table_laws::holds_inodes(before[Table::Inode], inodes),
        inodes.contains_key(inode),
        crate::sql::bindable(inode),
        file_size >= 0,
        file_size + data.len() <= i64::MAX,
        block_size > 0,
        forall|row: Row| #[trigger]
            before[Table::Block].contains(row) && is_of(row, inode) ==> last_of(row) < file_size,
        database.after_all(
            crate::storage::append_statements(inode, file_size, data, block_size),
            before,
        ) == Some(after),
    ensures
        forall|at: int, v: u8| #[trigger]
            has_byte(after[Table::Block], inode, at, v) <==> if file_size <= at < file_size
                + data.len() {
                v == data[at - file_size]
            } else {
                has_byte(before[Table::Block], inode, at, v)
            },
        forall|other: u64, at: int, v: u8|
            other != inode && crate::sql::bindable(other) ==> (#[trigger] has_byte(
                after[Table::Block],
                other,
                at,
                v,
            ) <==> has_byte(before[Table::Block], other, at, v)),
        crate::table_laws::holds_inodes(
            after[Table::Inode],
            inodes.insert(
                inode,
                EntryCore { st_size: (file_size + data.len()) as i64, ..inodes[inode] },
            ),
        ),
        after[Table::Link] == before[Table::Link],
        after[Table::Xattr] == before[Table::Xattr],
        holds_blocks(after[Table::Block]),
        blocks_apart(after[Table::Block]),
{
    let rows = before[Table::Block];
    let start = file_size as u64;
    let size = (file_size + data.len()) as i64;
    let table = file_blocks(rows, inode);
    let fresh = crate::storage::chunks(start, data, block_size);
    let none = Map::<u64, Seq<u8>>::empty();
    lemma_file(rows, inode, blobs);
    lemma_file_contains(rows, inode);
    crate::laws::append_statements_add_to_the_table(inode, file_size, data, block_size);
    crate::laws::chunks_show_the_data(start, data, block_size, none);
    crate::laws::chunks_show_the_data(start, data, block_size, blobs);
    assert forall|b: BlockView| #[trigger] table.contains(b) implies b.last_byte < file_size by {
        let row = choose|row: Row| #[trigger]
            rows.contains(row) && is_of(row, inode) && block_of(row) == b;
        assert(is_block(row));
    }
    crate::laws::append_adds_data_at_the_end(table, file_size, data, block_size, blobs);
    let insert = crate::laws::storing(inode, fresh, none);
    let record = crate::storage::update_size_statement(inode, size);
    let all = insert.push(record);
    assert(all.drop_last() =~= insert);
    let one = database.after_all(insert, before)->Some_0;
    assert forall|i: int| 0 <= i < fresh.len() implies (#[trigger] fresh[i]).wf(none)
        && fresh[i].last_byte < i64::MAX by {
        assert(fresh.contains(fresh[i]));
    }
    let added = lemma_stored(database, before, inode, fresh, none);
    assert forall|i: int| 0 <= i < fresh.len() implies stands_for(
        #[trigger] added[i],
        inode,
        fresh[i],
        blobs,
    ) by {
        assert(stands_for(added[i], inode, fresh[i], none));
        crate::laws::new_blocks_are_consecutive(start, data, block_size, i);
        assert(fresh[i].source.bytes(none) == fresh[i].source.bytes(blobs));
    }
    let gone = Seq::<u64>::empty();
    lemma_rows_add(rows, added);
    assert(table.filter(crate::laws::outside(gone)) == table) by {
        assert forall|b: BlockView| #[trigger] table.contains(b) implies crate::laws::outside(
            gone,
        )(b) by {}
        crate::table_laws::lemma_filter_all(table, crate::laws::outside(gone));
    }
    lemma_replaced(rows, added, one[Table::Block], gone, inode, fresh, blobs);
    crate::table_laws::recorded_size_is_the_size(database, one, inodes, inode, size);
    assert(after == database.after(record, one)->Some_0);
}

/// Whether a position lies behind all blocks of a file.
pub open spec fn beyond(rows: Seq<Row>, inode: u64, at: int) -> bool {
    forall|row: Row| #[trigger]
        rows.contains(row) && is_of(row, inode) ==> last_of(row) < at
}

/// Making a file larger keeps all of its bytes and puts zeros behind its last
/// block, up to the new end. No other file changes, and the new size is
/// recorded.
pub proof fn growing_adds_zeros(
    database: Database,
    before: Tables,
    inodes: Map<u64, EntryCore>,
    inode: u64,
    size: i64,
    blobs: Map<u64, Seq<u8>>,
    after: Tables,
)
    requires
        database.understands_sql(),
        holds_blocks(before[Table::Block]),
        holds_data(before[Table::Block], blobs),
        blocks_apart(before[Table::Block]),
        crate::table_laws::holds_inodes(before[Table::Inode], inodes),
        inodes.contains_key(inode),
        crate::sql::bindable(inode),
        size > 0,
        ({
            let last = crate::storage::last_block_end(
                database.rows(crate::storage::last_block_statement(inode), before),
            )->Ok_0;
            database.after_all(
                crate::operations::fill_statements(inode, last, size).push(
                    crate::operations::record_size_statement(inode, size),
                ),
                before,
            ) == Some(after)
        }),
    ensures
        forall|at: int, v: u8| #[trigger]
            has_byte(after[Table::Block], inode, at, v) ==> has_byte(
                before[Table::Block],
                inode,
                at,
                v,
            ) || (v == 0 && 0 <= at < size && beyond(before[Table::Block], inode, at)),
        forall|at: int, v: u8|
            has_byte(before[Table::Block], inode, at, v) ==> #[trigger] has_byte(
                after[Table::Block],
                inode,
                at,
                v,
            ),
        forall|at: int|
            0 <= at < size && #[trigger] beyond(before[Table::Block], inode, at) ==> has_byte(
                after[Table::Block],
                inode,
                at,
                0,
            ),
        forall|other: u64, at: int, v: u8|
            other != inode && crate::sql::bindable(other) ==> (#[trigger] has_byte(
                after[Table::Block],
                other,
                at,
                v,
            ) <==> has_byte(before[Table::Block], other, at, v)),
        crate::table_laws::holds_inodes(
            after[Table::Inode],
            inodes.insert(inode, EntryCore { st_size: size, ..inodes[inode] }),
        ),
        after[Table::Link] == before[Table::Link],
        after[Table::Xattr] == before[Table::Xattr],
        holds_blocks(after[Table::Block]),
        blocks_apart(after[Table::Block]),
{
    let rows = before[Table::Block];
    crate::block_laws::last_block_is_the_one_that_ends_last(database, before, inode);
    let last = crate::storage::last_block_end(
        database.rows(crate::storage::last_block_statement(inode), before),
    )->Ok_0;
    let fill = crate::operations::fill_statements(inode, last, size);
    let record = crate::operations::record_size_statement(inode, size);
    let all = fill.push(record);
    assert(all.drop_last() =~= fill);
    let one = database.after_all(fill, before)->Some_0;
    crate::table_laws::recorded_size_is_the_size(database, before, inodes, inode, size);
    let from = match last {
        Some(l) => l + 1,
        None => 0,
    };
    assert forall|row: Row| #[trigger] rows.contains(row) && is_of(row, inode) implies last_of(row)
        < from by {
        assert(is_block(row));
    }
    assert forall|at: int| #[trigger] beyond(rows, inode, at) && 0 <= at implies at >= from by {
        match last {
            Some(l) => {
                let row = choose|row: Row| #[trigger]
                    rows.contains(row) && is_of(row, inode) && last_of(row) == l;
                assert(last_of(row) < at);
            },
            None => {},
        }
    }
    reveal_with_fuel(Database::after_all, 2);
    if from <= size - 1 {
        let first = from as i64;
        let end = (size - 1) as i64;
        match last {
            Some(l) => {
                let row = choose|row: Row| #[trigger]
                    rows.contains(row) && is_of(row, inode) && last_of(row) == l;
                assert(is_block(row));
            },
            None => {},
        }
        let zeros = crate::storage::insert_zeros_statement(inode, first, end);
        assert(fill =~= seq![zeros]);
        assert(fill.drop_last() =~= seq![]);
        assert(database.after(zeros, before) == Some(one));
        crate::block_laws::insert_zeros_adds_zeros(database, before, inode, first, end);
        let row = choose|row: Row|
            {
                &&& #[trigger] one[Table::Block].contains(row)
                &&& is_of(row, inode)
                &&& first_of(row) == first
                &&& last_of(row) == end
                &&& forall|at: int| #[trigger] byte_of(row, at) == 0
                &&& one[Table::Block] == rows.push(row)
            };
        lemma_one_added(rows, row, one[Table::Block], inode, first as int);
        assert forall|at: int| first <= at <= end implies #[trigger] has_byte(
            one[Table::Block],
            inode,
            at,
            0,
        ) by {
            assert(byte_of(row, at) == 0);
            assert(one[Table::Block].contains(row));
        }
        assert forall|at: int, v: u8| #[trigger]
            has_byte(one[Table::Block], inode, at, v) implies has_byte(rows, inode, at, v) || (v
            == 0 && first <= at <= end) by {
            let r = choose|r: Row| #[trigger]
                one[Table::Block].contains(r) && is_of(r, inode) && first_of(r) <= at <= last_of(r)
                    && byte_of(r, at) == v;
            if r == row {
                assert(byte_of(row, at) == 0);
            } else {
                assert(rows.contains(r));
            }
        }
        assert forall|other: u64, at: int, v: u8|
            other != inode && crate::sql::bindable(other) implies (#[trigger] has_byte(
            one[Table::Block],
            other,
            at,
            v,
        ) <==> has_byte(rows, other, at, v)) by {
            if has_byte(one[Table::Block], other, at, v) {
                let r = choose|r: Row| #[trigger]
                    one[Table::Block].contains(r) && is_of(r, other) && first_of(r) <= at
                        <= last_of(r) && byte_of(r, at) == v;
                if r == row {
                    lemma_files_differ(row, inode, other);
                }
                assert(rows.contains(r));
            }
            if has_byte(rows, other, at, v) {
                let r = choose|r: Row| #[trigger]
                    rows.contains(r) && is_of(r, other) && first_of(r) <= at <= last_of(r)
                        && byte_of(r, at) == v;
                assert(one[Table::Block].contains(r));
            }
        }
    } else {
        assert(fill =~= seq![]);
        assert(one == before);
    }
    crate::table_laws::recorded_size_is_the_size(database, one, inodes, inode, size);
    assert(after == database.after(record, one)->Some_0);
}

/// Adding one row behind all rows of its file.
proof fn lemma_one_added(rows: Seq<Row>, row: Row, after: Seq<Row>, inode: u64, first: int)
    requires
        holds_blocks(rows),
        blocks_apart(rows),
        after == rows.push(row),
        is_of(row, inode),
        first_of(row) == first,
        forall|r: Row| #[trigger] rows.contains(r) && is_of(r, inode) ==> last_of(r) < first,
    ensures
        forall|r: Row| #[trigger] after.contains(r) <==> rows.contains(r) || r == row,
        blocks_apart(after),
        forall|at: int, v: u8|
            has_byte(rows, inode, at, v) ==> #[trigger] has_byte(after, inode, at, v),
{
    assert forall|r: Row| #[trigger] after.contains(r) <==> rows.contains(r) || r == row by {
        lemma_rows_add(rows, seq![row]);
        assert(after =~= rows + seq![row]);
        if seq![row].contains(r) {
            let i = choose|i: int| 0 <= i < seq![row].len() && seq![row][i] == r;
        }
        assert(seq![row][0] == row);
    }
    assert forall|at: int, v: u8| has_byte(rows, inode, at, v) implies #[trigger] has_byte(
        after,
        inode,
        at,
        v,
    ) by {
        let r = choose|r: Row| #[trigger]
            rows.contains(r) && is_of(r, inode) && first_of(r) <= at <= last_of(r) && byte_of(
                r,
                at,
            ) == v;
        assert(after.contains(r));
    }
}

/// The rows after blocks were trimmed one by one.
proof fn lemma_trimmed_rows(
    database: Database,
    before: Tables,
    inode: u64,
    spanning: Seq<BlockView>,
    truncate_point: i64,
    blobs: Map<u64, Seq<u8>>,
) -> (added: Seq<Row>)
    requires
        database.understands_sql(),
        holds_blocks(before[Table::Block]),
        holds_data(before[Table::Block], blobs),
        crate::sql::bindable(inode),
        truncate_point > 0,
        spanning.no_duplicates(),
        forall|b: BlockView| #[trigger]
            spanning.contains(b) ==> b.wf(blobs) && b.first_byte < truncate_point && b.last_byte
                >= truncate_point && exists|row: Row| #[trigger]
                before[Table::Block].contains(row) && is_of(row, inode) && block_of(row) == b,
        database.after_all(
            crate::storage::trim_statements(inode, spanning, truncate_point, blobs),
            before,
        ) is Some,
    ensures
        ({
            let after = database.after_all(
                crate::storage::trim_statements(inode, spanning, truncate_point, blobs),
                before,
            )->Some_0;
            let trims = crate::laws::trimmed_all(spanning, truncate_point);
            let gone = crate::storage::ids(spanning);
            &&& holds_blocks(after[Table::Block])
            &&& added.len() == trims.len()
            &&& forall|i: int|
                0 <= i < trims.len() ==> stands_for(#[trigger] added[i], inode, trims[i], blobs)
            &&& forall|row: Row| #[trigger]
                after[Table::Block].contains(row) <==> before[Table::Block].contains(row)
                    && !gone.contains(id_of(row)) || added.contains(row)
            &&& forall|t: Table| t != Table::Block ==> #[trigger] after[t] == before[t]
        }),
    decreases spanning.len(),
{
    let all = crate::storage::trim_statements(inode, spanning, truncate_point, blobs);
    let rows = before[Table::Block];
    if spanning.len() == 0 {
        assert(all =~= seq![]);
        assert(crate::storage::ids(spanning) =~= seq![]);
        Seq::empty()
    } else {
        let head = spanning.drop_last();
        let b = spanning.last();
        let earlier = crate::storage::trim_statements(inode, head, truncate_point, blobs);
        assert(spanning[spanning.len() - 1] == b);
        assert(spanning.contains(b));
        assert forall|x: BlockView| #[trigger] head.contains(x) implies spanning.contains(x) && x
            != b by {
            let i = choose|i: int| 0 <= i < head.len() && head[i] == x;
            assert(spanning[i] == x);
        }
        assert(crate::content::all_wf(spanning, blobs));
        assert forall|x: BlockView| #[trigger] spanning.contains(x) implies x.id is Some by {
            let row = choose|row: Row| #[trigger]
                rows.contains(row) && is_of(row, inode) && block_of(row) == x;
        }
        crate::content::clip_keeps_bytes_in_range(
            b,
            blobs,
            b.first_byte,
            (truncate_point - 1) as u64,
        );
        let id = b.id->0;
        let t = crate::storage::trimmed(b, truncate_point)->Ok_0;
        let delete = crate::storage::delete_block_statement(id);
        let bytes = t.source.bytes(blobs);
        let insert = crate::storage::insert_block_statement(
            inode,
            t.first_byte,
            t.last_byte,
            bytes,
        );
        assert(all =~= earlier.push(delete).push(insert));
        assert(all.drop_last() =~= earlier.push(delete));
        assert(all.drop_last().drop_last() =~= earlier);
        reveal_with_fuel(Database::after_all, 3);
        let added = lemma_trimmed_rows(database, before, inode, head, truncate_point, blobs);
        let one = database.after_all(earlier, before)->Some_0;
        let two = database.after(delete, one)->Some_0;
        let after = database.after(insert, two)->Some_0;
        assert(database.after_all(all, before) == Some(after));
        let own = choose|row: Row| #[trigger]
            rows.contains(row) && is_of(row, inode) && block_of(row) == b;
        assert(is_block(own));
        assert(id_of(own) == id);
        crate::laws::lemma_ids(head);
        crate::laws::lemma_ids(spanning);
        assert(!crate::storage::ids(head).contains(id)) by {
            if crate::storage::ids(head).contains(id) {
                let i = choose|i: int| 0 <= i < head.len() && (#[trigger] head[i]).id == Some(id);
                assert(head.contains(head[i]));
                let other = choose|row: Row| #[trigger]
                    rows.contains(row) && is_of(row, inode) && block_of(row) == head[i];
                assert(id_of(other) == id_of(own));
            }
        }
        assert(one[Table::Block].contains(own));
        crate::block_laws::delete_block_takes_out_one_block(database, one, id);
        lemma_part_holds(one[Table::Block], two[Table::Block]);
        crate::content::complete_source_reads_its_size(t.source, blobs);
        crate::block_laws::insert_block_adds_its_bytes(
            database,
            two,
            inode,
            t.first_byte,
            t.last_byte,
            bytes,
        );
        let row = choose|row: Row|
            {
                &&& #[trigger] after[Table::Block].contains(row)
                &&& is_of(row, inode)
                &&& first_of(row) == t.first_byte
                &&& last_of(row) == t.last_byte
                &&& forall|at: int|
                    t.first_byte <= at <= t.last_byte ==> #[trigger] byte_of(row, at) == bytes[at
                        - t.first_byte]
                &&& after[Table::Block] == two[Table::Block].push(row)
            };
        let more = added.push(row);
        let trims = crate::laws::trimmed_all(spanning, truncate_point);
        assert(trims == crate::laws::trimmed_all(head, truncate_point).push(t));
        lemma_rows_add(two[Table::Block], seq![row]);
        lemma_rows_add(added, seq![row]);
        assert(two[Table::Block].push(row) =~= two[Table::Block] + seq![row]);
        assert(more =~= added + seq![row]);
        let gone = crate::storage::ids(spanning);
        assert(gone == crate::storage::ids(head).push(id));
        assert forall|x: u64| #[trigger] gone.contains(x) <==> crate::storage::ids(head).contains(x)
            || x == id by {
            if crate::storage::ids(head).contains(x) {
                let k = choose|k: int|
                    0 <= k < crate::storage::ids(head).len() && crate::storage::ids(head)[k] == x;
                assert(gone[k] == x);
            }
            assert(gone[gone.len() - 1] == id);
        }
        assert forall|r: Row| #[trigger] after[Table::Block].contains(r) <==> rows.contains(r)
            && !gone.contains(id_of(r)) || more.contains(r) by {
            assert(seq![row].contains(r) <==> r == row) by {
                assert(seq![row][0] == row);
            }
            if added.contains(r) {
                assert(one[Table::Block].contains(r));
                if id_of(r) == id {
                    assert(r == own);
                    assert(false) by {
                        let k = choose|k: int| 0 <= k < added.len() && added[k] == r;
                        lemma_trim_is_shorter(head, truncate_point, k, blobs);
                        let trimmed_head = crate::laws::trimmed_all(head, truncate_point);
                        assert(stands_for(added[k], inode, trimmed_head[k], blobs));
                    }
                }
            }
        }
        more
    }
}

/// A trimmed block ends before the truncation point.
proof fn lemma_trim_is_shorter(
    s: Seq<BlockView>,
    truncate_point: i64,
    k: int,
    blobs: Map<u64, Seq<u8>>,
)
    requires
        truncate_point > 0,
        forall|b: BlockView| #[trigger]
            s.contains(b) ==> b.wf(blobs) && b.first_byte < truncate_point && b.last_byte
                >= truncate_point,
        0 <= k < crate::laws::trimmed_all(s, truncate_point).len(),
    ensures
        crate::laws::trimmed_all(s, truncate_point)[k].last_byte < truncate_point,
    decreases s.len(),
{
    if s.len() > 0 {
        let head = s.drop_last();
        assert(s[s.len() - 1] == s.last());
        assert(s.contains(s.last()));
        assert forall|b: BlockView| #[trigger] head.contains(b) implies s.contains(b) by {
            let i = choose|i: int| 0 <= i < head.len() && head[i] == b;
            assert(s[i] == b);
        }
        if k < crate::laws::trimmed_all(head, truncate_point).len() {
            lemma_trim_is_shorter(head, truncate_point, k, blobs);
        }
    }
}

/// Making a file smaller keeps exactly the bytes before its new end. No other
/// file changes, and the new size is recorded.
pub proof fn shrinking_keeps_what_is_before_the_end(
    database: Database,
    before: Tables,
    inodes: Map<u64, EntryCore>,
    inode: u64,
    size: i64,
    blobs: Map<u64, Seq<u8>>,
    between: Tables,
    after: Tables,
)
    requires
        database.understands_sql(),
        holds_blocks(before[Table::Block]),
        holds_data(before[Table::Block], blobs),
        blocks_apart(before[Table::Block]),
        crate::table_laws::holds_inodes(before[Table::Inode], inodes),
        inodes.contains_key(inode),
        crate::sql::bindable(inode),
        size >= 0,
        database.after(crate::storage::delete_blocks_from_statement(inode, size), before) == Some(
            between,
        ),
        ({
            let spanning = crate::storage::blocks_of_rows(
                database.rows(crate::storage::spanning_blocks_statement(inode, size), between),
                2,
            )->Ok_0;
            database.after_all(
                crate::storage::trim_statements(inode, spanning, size, blobs).push(
                    crate::operations::record_size_statement(inode, size),
                ),
                between,
            ) == Some(after)
        }),
    ensures
        forall|at: int, v: u8| #[trigger]
            has_byte(after[Table::Block], inode, at, v) <==> at < size && has_byte(
                before[Table::Block],
                inode,
                at,
                v,
            ),
        forall|other: u64, at: int, v: u8|
            other != inode && crate::sql::bindable(other) ==> (#[trigger] has_byte(
                after[Table::Block],
                other,
                at,
                v,
            ) <==> has_byte(before[Table::Block], other, at, v)),
        crate::table_laws::holds_inodes(
            after[Table::Inode],
            inodes.insert(inode, EntryCore { st_size: size, ..inodes[inode] }),
        ),
        after[Table::Link] == before[Table::Link],
        after[Table::Xattr] == before[Table::Xattr],
        holds_blocks(after[Table::Block]),
        blocks_apart(after[Table::Block]),
{
    let rows = before[Table::Block];
    let left_rows = between[Table::Block];
    let table = file_blocks(rows, inode);
    let left = table.filter(crate::laws::starts_before(size as int));
    crate::block_laws::delete_blocks_from_takes_out_what_starts_there(
        database,
        before,
        inode,
        size,
    );
    lemma_part_holds(rows, left_rows);
    lemma_file(rows, inode, blobs);
    lemma_file(left_rows, inode, blobs);
    lemma_file_contains(rows, inode);
    lemma_file_contains(left_rows, inode);
    crate::block_laws::spanning_blocks_are_those_of_the_file(database, between, inode, size);
    let spanning = crate::storage::blocks_of_rows(
        database.rows(crate::storage::spanning_blocks_statement(inode, size), between),
        2,
    )->Ok_0;
    let middle = file_blocks(left_rows, inode);
    assert forall|b: BlockView| #[trigger] middle.contains(b) <==> table.contains(b) && b.first_byte
        < size by {
        if middle.contains(b) {
            let row = choose|row: Row| #[trigger]
                left_rows.contains(row) && is_of(row, inode) && block_of(row) == b;
            assert(is_block(row));
        }
        if table.contains(b) && b.first_byte < size {
            let row = choose|row: Row| #[trigger]
                rows.contains(row) && is_of(row, inode) && block_of(row) == b;
            assert(is_block(row));
            assert(left_rows.contains(row));
        }
    }
    assert forall|b: BlockView| #[trigger] spanning.contains(b) <==> table.contains(b)
        && b.first_byte < size && b.last_byte >= size by {
        if spanning.contains(b) {
            let row = choose|row: Row| #[trigger]
                left_rows.contains(row) && is_of(row, inode) && first_of(row) <= size - 1 && size
                    <= last_of(row) && block_of(row) == b;
            assert(is_block(row));
            assert(middle.contains(b));
        }
        if table.contains(b) && b.first_byte < size && b.last_byte >= size {
            assert(middle.contains(b));
            let row = choose|row: Row| #[trigger]
                left_rows.contains(row) && is_of(row, inode) && block_of(row) == b;
            assert(is_block(row));
        }
    }
    lemma_part_apart(table, spanning);
    crate::laws::shrink_keeps_exactly_what_is_before_the_end(table, spanning, size, blobs);
    let trim = crate::storage::trim_statements(inode, spanning, size, blobs);
    let record = crate::operations::record_size_statement(inode, size);
    assert(trim.push(record).drop_last() =~= trim);
    let one = database.after_all(trim, between)->Some_0;
    let gone = crate::storage::ids(spanning);
    let trims = crate::laws::trimmed_all(spanning, size);
    let added = if size > 0 {
        assert forall|b: BlockView| #[trigger] spanning.contains(b) implies b.wf(blobs)
            && b.first_byte < size && b.last_byte >= size && exists|row: Row| #[trigger]
            left_rows.contains(row) && is_of(row, inode) && block_of(row) == b by {
            assert(middle.contains(b));
        }
        lemma_trimmed_rows(database, between, inode, spanning, size, blobs)
    } else {
        assert(spanning.len() == 0) by {
            if spanning.len() > 0 {
                assert(spanning.contains(spanning[0]));
            }
        }
        assert(trim =~= seq![]);
        assert(gone =~= seq![]);
        assert(trims =~= seq![]);
        Seq::empty()
    };
    lemma_gone_ids(left_rows, inode, spanning);
    // The blocks that are left are the same, in whatever order.
    let here = crate::laws::table_after(middle, gone, trims);
    let there = crate::laws::table_after(left, gone, trims);
    let kept_here = middle.filter(crate::laws::outside(gone));
    let kept_there = left.filter(crate::laws::outside(gone));
    crate::database::lemma_filter(table, crate::laws::starts_before(size as int));
    crate::laws::lemma_filter(middle, crate::laws::outside(gone));
    crate::database::lemma_filter(left, crate::laws::outside(gone));
    assert forall|at: int, v: u8| #[trigger]
        crate::content::shows(here, blobs, at, v) <==> crate::content::shows(
            there,
            blobs,
            at,
            v,
        ) by {
        crate::content::lemma_shows_add(kept_here, trims, blobs, at, v);
        crate::content::lemma_shows_add(kept_there, trims, blobs, at, v);
        if crate::content::shows(kept_here, blobs, at, v) {
            let b = choose|b: BlockView| #[trigger] kept_here.contains(b) && b.says(blobs, at, v);
            assert(middle.contains(b));
            assert(left.contains(b));
            assert(kept_there.contains(b));
        }
        if crate::content::shows(kept_there, blobs, at, v) {
            let b = choose|b: BlockView| #[trigger] kept_there.contains(b) && b.says(blobs, at, v);
            assert(left.contains(b));
            assert(middle.contains(b));
            assert(kept_here.contains(b));
        }
    }
    lemma_same_apart(kept_here, kept_there, trims);
    lemma_replaced(left_rows, added, one[Table::Block], gone, inode, trims, blobs);
    assert forall|other: u64, at: int, v: u8|
        other != inode && crate::sql::bindable(other) implies (#[trigger] has_byte(
        one[Table::Block],
        other,
        at,
        v,
    ) <==> has_byte(rows, other, at, v)) by {
        assert(has_byte(one[Table::Block], other, at, v) <==> has_byte(left_rows, other, at, v));
        if has_byte(rows, other, at, v) {
            let row = choose|row: Row| #[trigger]
                rows.contains(row) && is_of(row, other) && first_of(row) <= at <= last_of(row)
                    && byte_of(row, at) == v;
            if is_of(row, inode) {
                lemma_files_differ(row, inode, other);
            }
            assert(left_rows.contains(row));
        }
        if has_byte(left_rows, other, at, v) {
            let row = choose|row: Row| #[trigger]
                left_rows.contains(row) && is_of(row, other) && first_of(row) <= at <= last_of(row)
                    && byte_of(row, at) == v;
            assert(rows.contains(row));
        }
    }
    crate::table_laws::recorded_size_is_the_size(database, one, inodes, inode, size);
    assert(after == database.after(record, one)->Some_0);
}

/// A list of blocks with the same blocks as another, which does not overlap with
/// others, does not overlap with them either.
proof fn lemma_same_apart(
    here: Seq<BlockView>,
    there: Seq<BlockView>,
    more: Seq<BlockView>,
)
    requires
        crate::content::no_overlap(there + more),
        crate::content::no_overlap(here),
        forall|b: BlockView| #[trigger] here.contains(b) <==> there.contains(b),
    ensures
        crate::content::no_overlap(here + more),
{
    let r = here + more;
    assert forall|i: int, j: int| 0 <= i < j < r.len() implies crate::content::apart(
        #[trigger] r[i],
        #[trigger] r[j],
    ) by {
        if j < here.len() {
            assert(crate::content::apart(here[i], here[j]));
        } else if i < here.len() {
            assert(here.contains(here[i]));
            let k = choose|k: int| 0 <= k < there.len() && there[k] == here[i];
            assert((there + more)[k] == r[i]);
            assert((there + more)[there.len() + (j - here.len())] == r[j]);
        } else {
            assert((there + more)[there.len() + (i - here.len())] == r[i]);
            assert((there + more)[there.len() + (j - here.len())] == r[j]);
        }
    }
}

} // verus!
