//! The table of blocks holds the bytes of the files, and the statements ask for
//! the blocks of one file and change them.

use vstd::prelude::*;
use crate::blocks::{BlockView, SourceView};
use crate::database::{
    Change, Comparison, Condition, Database, Item, Part, Query, Row, Sorting, Tables, Wanted,
};
use crate::error::ErrorView;
use crate::migration::{Field, Table};
use crate::sql::SqlView;

verus! {

/// Whether a row of the table of blocks holds what it should: it covers at least
/// one byte, and has as many bytes of data as it covers, if it has any.
pub open spec fn is_block(row: Row) -> bool {
    &&& row[Field::Id] matches SqlView::Integer(id) && id >= 0
    &&& row[Field::InodeId] matches SqlView::Integer(inode) && inode >= 0
    &&& row[Field::FirstByte] is Integer
    &&& row[Field::LastByte] is Integer
    &&& 0 <= first_of(row) <= last_of(row) < i64::MAX
    &&& row[Field::Data] matches SqlView::Blob(data) ==> data.len() == last_of(row) - first_of(row)
        + 1
    &&& row[Field::Data] is Null || row[Field::Data] is Blob
}

/// The first byte that a block covers.
pub open spec fn first_of(row: Row) -> int {
    row[Field::FirstByte]->Integer_0 as int
}

/// The last byte that a block covers.
pub open spec fn last_of(row: Row) -> int {
    row[Field::LastByte]->Integer_0 as int
}

/// The identifier of a block.
pub open spec fn id_of(row: Row) -> u64 {
    row[Field::Id]->Integer_0 as u64
}

/// Whether a block is one of this file.
pub open spec fn is_of(row: Row, inode: u64) -> bool {
    row[Field::InodeId] == crate::sql::int_param(inode)
}

/// The byte of a block at a position that it covers: one without data is all
/// zeros.
pub open spec fn byte_of(row: Row, at: int) -> u8 {
    match row[Field::Data] {
        SqlView::Blob(data) => data[at - first_of(row)],
        _ => 0,
    }
}

/// Whether a block of the file has this byte at a position.
pub open spec fn has_byte(rows: Seq<Row>, inode: u64, at: int, value: u8) -> bool {
    exists|row: Row| #[trigger]
        rows.contains(row) && is_of(row, inode) && first_of(row) <= at <= last_of(row) && byte_of(
            row,
            at,
        ) == value
}

/// Whether the table holds blocks, each under an identifier of its own.
pub open spec fn holds_blocks(rows: Seq<Row>) -> bool {
    &&& rows.no_duplicates()
    &&& forall|row: Row| #[trigger] rows.contains(row) ==> is_block(row)
    &&& forall|a: Row, b: Row| #[trigger]
        rows.contains(a) && #[trigger] rows.contains(b) && id_of(a) == id_of(b) ==> a == b
}

/// Whether these are the data of the blocks.
pub open spec fn holds_data(rows: Seq<Row>, blobs: Map<u64, Seq<u8>>) -> bool {
    forall|row: Row| #[trigger]
        rows.contains(row) && row[Field::Data] is Blob ==> blobs.contains_key(id_of(row))
            && blobs[id_of(row)] == row[Field::Data]->Blob_0
}

/// The stored block of a row.
pub open spec fn block_of(row: Row) -> BlockView {
    let size = (last_of(row) - first_of(row) + 1) as u64;
    BlockView {
        id: Some(id_of(row)),
        first_byte: first_of(row) as u64,
        last_byte: last_of(row) as u64,
        source: if row[Field::Data] is Null {
            SourceView::Zero { size }
        } else {
            SourceView::Sqlite { block_id: id_of(row), offset: 0, size }
        },
    }
}

/// Whether the list holds, each once, exactly those blocks of the file that meet
/// the range.
pub open spec fn are_those_meeting(
    blocks: Seq<BlockView>,
    rows: Seq<Row>,
    inode: u64,
    first_byte: int,
    last_byte: int,
) -> bool {
    &&& blocks.no_duplicates()
    &&& forall|b: BlockView| #[trigger]
        blocks.contains(b) <==> exists|row: Row| #[trigger]
            rows.contains(row) && is_of(row, inode) && first_of(row) <= last_byte && first_byte
                <= last_of(row) && block_of(row) == b
}

/// What is read out of rows of blocks.
proof fn lemma_blocks(rows: Seq<Seq<SqlView>>, at: int, picked: Seq<Row>)
    requires
        rows.len() == picked.len(),
        at == 1 || at == 2,
        forall|i: int|
            #![trigger rows[i]]
            0 <= i < rows.len() ==> {
                &&& is_block(picked[i])
                &&& rows[i].len() == at + 3
                &&& rows[i][0] == picked[i][Field::Id]
                &&& rows[i][at] == picked[i][Field::FirstByte]
                &&& rows[i][at + 1] == picked[i][Field::LastByte]
                &&& rows[i][at + 2] == Item::Presence(Field::Data).of(picked[i])
            },
    ensures
        crate::storage::blocks_of_rows(rows, at) == Ok::<Seq<BlockView>, ErrorView>(
            picked.map_values(|row: Row| block_of(row)),
        ),
    decreases rows.len(),
{
    let f = |row: Row| block_of(row);
    if rows.len() > 0 {
        let head = rows.drop_last();
        let before = picked.drop_last();
        assert forall|i: int|
            #![trigger head[i]]
            0 <= i < head.len() implies {
            &&& is_block(before[i])
            &&& head[i].len() == at + 3
            &&& head[i][0] == before[i][Field::Id]
            &&& head[i][at] == before[i][Field::FirstByte]
            &&& head[i][at + 1] == before[i][Field::LastByte]
            &&& head[i][at + 2] == Item::Presence(Field::Data).of(before[i])
        } by {
            assert(head[i] == rows[i]);
        }
        lemma_blocks(head, at, before);
        assert(rows[rows.len() - 1] == rows.last());
        assert(before.map_values(f).push(block_of(picked.last())) =~= picked.map_values(f));
    } else {
        assert(picked.map_values(f) =~= seq![]);
    }
}

/// The query for the blocks of a file that meet a range.
spec fn overlapping_query() -> Query {
    Query {
        aliased: false,
        wanted: Wanted::Items(seq![Item::Column(Field::Id), Item::Column(Field::FirstByte), Item::Column(Field::LastByte), Item::Presence(Field::Data)]),
        table: Table::Block,
        conditions: seq![crate::database::equal(Field::InodeId), Condition { field: Field::LastByte, comparison: Comparison::AtLeast }, Condition { field: Field::FirstByte, comparison: Comparison::AtMost }],
        sorting: Sorting::Rising(Field::FirstByte),
        part: Part::Whole,
    }
}

#[verifier::rlimit(60)]
proof fn lemma_overlapping_text(inode: u64, first_byte: i64, last_byte: i64)
    ensures
        crate::storage::overlapping_blocks_statement(inode, first_byte, last_byte).sql == overlapping_query().text(),
{
    reveal_with_fuel(crate::database::conditions_text, 4);
    reveal_with_fuel(crate::database::items_text, 5);
    reveal_strlit("select ");
    reveal_strlit("id");
    reveal_strlit(", ");
    reveal_strlit("first_byte");
    reveal_strlit("last_byte");
    reveal_strlit("data");
    reveal_strlit(" is not null as has_");
    reveal_strlit(" from ");
    reveal_strlit("block");
    reveal_strlit(" where ");
    reveal_strlit("inode_id");
    reveal_strlit(" = ?");
    reveal_strlit(" and ");
    reveal_strlit(" >= ?");
    reveal_strlit(" <= ?");
    reveal_strlit(" order by ");
    reveal_strlit(" asc");
    reveal_strlit("select id, first_byte, last_byte, data is not null as has_data from block where inode_id = ? and last_byte >= ? and first_byte <= ? order by first_byte asc");
    let c = overlapping_query().conditions;
    assert(c.drop_last() =~= seq![crate::database::equal(Field::InodeId), Condition { field: Field::LastByte, comparison: Comparison::AtLeast }]);
    assert(c.drop_last().drop_last() =~= seq![crate::database::equal(Field::InodeId)]);
    assert(overlapping_query().wanted->Items_0.drop_last() =~= seq![Item::Column(Field::Id), Item::Column(Field::FirstByte), Item::Column(Field::LastByte)]);
    assert(overlapping_query().wanted->Items_0.drop_last().drop_last() =~= seq![Item::Column(Field::Id), Item::Column(Field::FirstByte)]);
    assert(overlapping_query().wanted->Items_0.drop_last().drop_last().drop_last() =~= seq![Item::Column(Field::Id)]);
    assert(crate::storage::overlapping_blocks_statement(inode, first_byte, last_byte).sql =~= overlapping_query().text());
}

/// The query for the blocks of a file that span a byte.
spec fn spanning_query() -> Query {
    Query {
        aliased: false,
        wanted: Wanted::Items(seq![Item::Column(Field::Id), Item::Column(Field::InodeId), Item::Column(Field::FirstByte), Item::Column(Field::LastByte), Item::Presence(Field::Data)]),
        table: Table::Block,
        conditions: seq![crate::database::equal(Field::InodeId), Condition { field: Field::FirstByte, comparison: Comparison::Below }, Condition { field: Field::LastByte, comparison: Comparison::AtLeast }],
        sorting: Sorting::Unsorted,
        part: Part::Whole,
    }
}

#[verifier::rlimit(60)]
proof fn lemma_spanning_text(inode: u64, truncate_point: i64)
    ensures
        crate::storage::spanning_blocks_statement(inode, truncate_point).sql == spanning_query().text(),
{
    reveal_with_fuel(crate::database::conditions_text, 4);
    reveal_with_fuel(crate::database::items_text, 6);
    reveal_strlit("select ");
    reveal_strlit("id");
    reveal_strlit(", ");
    reveal_strlit("inode_id");
    reveal_strlit("first_byte");
    reveal_strlit("last_byte");
    reveal_strlit("data");
    reveal_strlit(" is not null as has_");
    reveal_strlit(" from ");
    reveal_strlit("block");
    reveal_strlit(" where ");
    reveal_strlit(" = ?");
    reveal_strlit(" and ");
    reveal_strlit(" < ?");
    reveal_strlit(" >= ?");
    reveal_strlit("select id, inode_id, first_byte, last_byte, data is not null as has_data from block where inode_id = ? and first_byte < ? and last_byte >= ?");
    let c = spanning_query().conditions;
    assert(c.drop_last() =~= seq![crate::database::equal(Field::InodeId), Condition { field: Field::FirstByte, comparison: Comparison::Below }]);
    assert(c.drop_last().drop_last() =~= seq![crate::database::equal(Field::InodeId)]);
    assert(spanning_query().wanted->Items_0.drop_last() =~= seq![Item::Column(Field::Id), Item::Column(Field::InodeId), Item::Column(Field::FirstByte), Item::Column(Field::LastByte)]);
    assert(spanning_query().wanted->Items_0.drop_last().drop_last() =~= seq![Item::Column(Field::Id), Item::Column(Field::InodeId), Item::Column(Field::FirstByte)]);
    assert(spanning_query().wanted->Items_0.drop_last().drop_last().drop_last() =~= seq![Item::Column(Field::Id), Item::Column(Field::InodeId)]);
    assert(spanning_query().wanted->Items_0.drop_last().drop_last().drop_last().drop_last() =~= seq![Item::Column(Field::Id)]);
    assert(crate::storage::spanning_blocks_statement(inode, truncate_point).sql =~= spanning_query().text());
}

/// The query for the block of a file that ends last.
spec fn last_block_query() -> Query {
    Query {
        aliased: false,
        wanted: Wanted::Items(seq![Item::Column(Field::FirstByte), Item::Column(Field::LastByte)]),
        table: Table::Block,
        conditions: seq![crate::database::equal(Field::InodeId)],
        sorting: Sorting::Falling(Field::LastByte),
        part: Part::First,
    }
}

#[verifier::rlimit(60)]
proof fn lemma_last_block_text(inode: u64)
    ensures
        crate::storage::last_block_statement(inode).sql == last_block_query().text(),
{
    reveal_with_fuel(crate::database::conditions_text, 2);
    reveal_with_fuel(crate::database::items_text, 3);
    reveal_strlit("select ");
    reveal_strlit("first_byte");
    reveal_strlit(", ");
    reveal_strlit("last_byte");
    reveal_strlit(" from ");
    reveal_strlit("block");
    reveal_strlit(" where ");
    reveal_strlit("inode_id");
    reveal_strlit(" = ?");
    reveal_strlit(" order by ");
    reveal_strlit(" desc");
    reveal_strlit(" limit 1");
    reveal_strlit("select first_byte, last_byte from block where inode_id = ? order by last_byte desc limit 1");
    assert(last_block_query().wanted->Items_0.drop_last() =~= seq![Item::Column(Field::FirstByte)]);
    assert(crate::storage::last_block_statement(inode).sql =~= last_block_query().text());
}

/// The statement that adds a block.
spec fn insert_block_change() -> Change {
    Change::Insert { table: Table::Block, fields: seq![Field::InodeId, Field::FirstByte, Field::LastByte, Field::Data], numbered: false }
}

#[verifier::rlimit(60)]
proof fn lemma_insert_block_text(inode: u64, first_byte: u64, last_byte: u64, data: Seq<u8>)
    ensures
        crate::storage::insert_block_statement(inode, first_byte, last_byte, data).sql == insert_block_change().text(),
{
    reveal_with_fuel(crate::database::fields_text, 5);
    reveal_with_fuel(crate::database::marks_text, 5);
    reveal_strlit("insert into ");
    reveal_strlit("block");
    reveal_strlit(" (");
    reveal_strlit("inode_id");
    reveal_strlit(", ");
    reveal_strlit("first_byte");
    reveal_strlit("last_byte");
    reveal_strlit("data");
    reveal_strlit(") values (");
    reveal_strlit("?");
    reveal_strlit(")");
    reveal_strlit("insert into block (inode_id, first_byte, last_byte, data) values (?, ?, ?, ?)");
    let f = insert_block_change()->fields;
    assert(f.drop_last() =~= seq![Field::InodeId, Field::FirstByte, Field::LastByte]);
    assert(f.drop_last().drop_last() =~= seq![Field::InodeId, Field::FirstByte]);
    assert(f.drop_last().drop_last().drop_last() =~= seq![Field::InodeId]);
    assert(crate::storage::insert_block_statement(inode, first_byte, last_byte, data).sql =~= insert_block_change().text());
}

/// The statement that takes out the blocks of a file that start at or after a byte.
spec fn delete_from_change() -> Change {
    Change::Delete { table: Table::Block, conditions: seq![crate::database::equal(Field::InodeId), Condition { field: Field::FirstByte, comparison: Comparison::AtLeast }] }
}

#[verifier::rlimit(60)]
proof fn lemma_delete_from_text(inode: u64, truncate_point: i64)
    ensures
        crate::storage::delete_blocks_from_statement(inode, truncate_point).sql == delete_from_change().text(),
{
    reveal_with_fuel(crate::database::conditions_text, 3);
    reveal_strlit("delete from ");
    reveal_strlit("block");
    reveal_strlit(" where ");
    reveal_strlit("inode_id");
    reveal_strlit(" = ?");
    reveal_strlit(" and ");
    reveal_strlit("first_byte");
    reveal_strlit(" >= ?");
    reveal_strlit("delete from block where inode_id = ? and first_byte >= ?");
    let c = delete_from_change()->Delete_conditions;
    assert(c.drop_last() =~= seq![crate::database::equal(Field::InodeId)]);
    assert(crate::storage::delete_blocks_from_statement(inode, truncate_point).sql =~= delete_from_change().text());
}

/// The statement that takes out one block.
spec fn delete_block_change() -> Change {
    Change::Delete { table: Table::Block, conditions: seq![crate::database::equal(Field::Id)] }
}

#[verifier::rlimit(60)]
proof fn lemma_delete_block_text(id: u64)
    ensures
        crate::storage::delete_block_statement(id).sql == delete_block_change().text(),
{
    reveal_with_fuel(crate::database::conditions_text, 2);
    reveal_strlit("delete from ");
    reveal_strlit("block");
    reveal_strlit(" where ");
    reveal_strlit("id");
    reveal_strlit(" = ?");
    reveal_strlit("delete from block where id = ?");
    assert(crate::storage::delete_block_statement(id).sql =~= delete_block_change().text());
}

/// The blocks that are picked are different ones.
proof fn lemma_blocks_differ(rows: Seq<Row>, picked: Seq<Row>)
    requires
        holds_blocks(rows),
        picked.no_duplicates(),
        forall|row: Row| #[trigger] picked.contains(row) ==> rows.contains(row),
    ensures
        picked.map_values(|row: Row| block_of(row)).no_duplicates(),
{
    let f = |row: Row| block_of(row);
    let blocks = picked.map_values(f);
    assert forall|i: int, j: int| 0 <= i < blocks.len() && 0 <= j < blocks.len() && i
        != j implies blocks[i] != blocks[j] by {
        assert(picked.contains(picked[i]) && picked.contains(picked[j]));
        assert(is_block(picked[i]) && is_block(picked[j]));
        assert(picked[i] != picked[j]);
    }
}

/// The query for the blocks that meet a range gives exactly those blocks of that
/// file that meet it, in the order of their first bytes, whatever blocks other
/// files have.
pub proof fn overlapping_blocks_are_those_of_the_file(
    database: Database,
    tables: Tables,
    inode: u64,
    first_byte: i64,
    last_byte: i64,
)
    requires
        database.understands_sql(),
        holds_blocks(tables[Table::Block]),
        crate::sql::bindable(inode),
    ensures
        crate::storage::blocks_of_rows(
            database.rows(
                crate::storage::overlapping_blocks_statement(inode, first_byte, last_byte),
                tables,
            ),
            1,
        ) matches Ok(blocks) && are_those_meeting(
            blocks,
            tables[Table::Block],
            inode,
            first_byte as int,
            last_byte as int,
        ) && crate::content::sorted(blocks),
{
    let q = overlapping_query();
    let s = crate::storage::overlapping_blocks_statement(inode, first_byte, last_byte);
    let all = tables[Table::Block];
    lemma_overlapping_text(inode, first_byte, last_byte);
    let rows = database.rows(s, tables);
    let (picked, part) = crate::database::lemma_query(database, q, s, tables);
    crate::database::lemma_picked(q, tables, s.params, picked);
    let f = |row: Row| block_of(row);
    let blocks = picked.map_values(f);
    assert forall|row: Row| #[trigger] all.contains(row) implies (crate::database::meets(
        row,
        q.conditions,
        s.params,
    ) <==> is_of(row, inode) && first_byte <= last_of(row) && first_of(row) <= last_byte) by {
        assert(is_block(row));
        assert(q.conditions[0].met(row, s.params[0]) <==> row[Field::InodeId] == s.params[0]);
        assert(q.conditions[1].met(row, s.params[1]) <==> last_of(row) >= first_byte);
        assert(q.conditions[2].met(row, s.params[2]) <==> first_of(row) <= last_byte);
    }
    assert forall|i: int|
        #![trigger rows[i]]
        0 <= i < rows.len() implies {
        &&& is_block(picked[i])
        &&& rows[i].len() == 4
        &&& rows[i][0] == picked[i][Field::Id]
        &&& rows[i][1] == picked[i][Field::FirstByte]
        &&& rows[i][2] == picked[i][Field::LastByte]
        &&& rows[i][3] == Item::Presence(Field::Data).of(picked[i])
    } by {
        assert(picked.contains(picked[i]));
    }
    lemma_blocks(rows, 1, picked);
    lemma_blocks_differ(all, picked);
    assert forall|b: BlockView| #[trigger] blocks.contains(b) <==> exists|row: Row| #[trigger]
        all.contains(row) && is_of(row, inode) && first_of(row) <= last_byte && first_byte
            <= last_of(row) && block_of(row) == b by {
        if blocks.contains(b) {
            let i = choose|i: int| 0 <= i < blocks.len() && blocks[i] == b;
            assert(picked.contains(picked[i]));
        }
        if exists|row: Row| #[trigger]
            all.contains(row) && is_of(row, inode) && first_of(row) <= last_byte && first_byte
                <= last_of(row) && block_of(row) == b {
            let row = choose|row: Row| #[trigger]
                all.contains(row) && is_of(row, inode) && first_of(row) <= last_byte && first_byte
                    <= last_of(row) && block_of(row) == b;
            assert(picked.contains(row));
            let i = choose|i: int| 0 <= i < picked.len() && picked[i] == row;
            assert(blocks[i] == b);
        }
    }
    assert forall|i: int, j: int| 0 <= i <= j < blocks.len() implies (#[trigger] blocks[i]).first_byte
        <= (#[trigger] blocks[j]).first_byte by {
        assert(picked.contains(picked[i]) && picked.contains(picked[j]));
        assert(is_block(picked[i]) && is_block(picked[j]));
        if i < j {
            assert(crate::database::may_precede(
                picked[i][Field::FirstByte],
                picked[j][Field::FirstByte],
            ));
        }
    }
}

/// A read of a file gives the bytes that the blocks of that file have, and zeros
/// where it has none. Blocks of other files have no part in it.
pub proof fn read_gives_the_bytes_of_the_file(
    database: Database,
    tables: Tables,
    blobs: Map<u64, Seq<u8>>,
    inode: u64,
    first_byte: i64,
    last_byte: i64,
)
    requires
        database.understands_sql(),
        holds_blocks(tables[Table::Block]),
        holds_data(tables[Table::Block], blobs),
        crate::sql::bindable(inode),
        0 <= first_byte <= last_byte < i64::MAX,
    ensures
        crate::storage::blocks_of_rows(
            database.rows(
                crate::storage::overlapping_blocks_statement(inode, first_byte, last_byte),
                tables,
            ),
            1,
        ) matches Ok(blocks) && ({
            let s = crate::blocks::clip_all(blocks, first_byte as u64, last_byte as u64);
            let len = (last_byte - first_byte + 1) as nat;
            let out = crate::storage::laid_out(s, blobs, first_byte as u64, len);
            &&& crate::storage::read_fault(s, blobs) is None
            &&& out.len() == len
            &&& forall|at: int|
                first_byte <= at <= last_byte ==> has_byte(
                    tables[Table::Block],
                    inode,
                    at,
                    #[trigger] out[at - first_byte],
                ) || (out[at - first_byte] == 0 && forall|v: u8|
                    !#[trigger] has_byte(tables[Table::Block], inode, at, v))
        }),
{
    let all = tables[Table::Block];
    overlapping_blocks_are_those_of_the_file(database, tables, inode, first_byte, last_byte);
    let s = crate::storage::overlapping_blocks_statement(inode, first_byte, last_byte);
    let blocks = crate::storage::blocks_of_rows(database.rows(s, tables), 1)->Ok_0;
    assert forall|b: BlockView| #[trigger] blocks.contains(b) implies b.wf(blobs) by {
        let row = choose|row: Row| #[trigger]
            all.contains(row) && is_of(row, inode) && first_of(row) <= last_byte && first_byte
                <= last_of(row) && block_of(row) == b;
        lemma_block_wf(all, blobs, row);
    }
    let first = first_byte as u64;
    let last = last_byte as u64;
    crate::laws::read_fills_holes_with_zeros(blocks, blobs, first, last);
    let clipped = crate::blocks::clip_all(blocks, first, last);
    let len = (last_byte - first_byte + 1) as nat;
    let out = crate::storage::laid_out(clipped, blobs, first, len);
    assert forall|at: int| first_byte <= at <= last_byte implies has_byte(
        all,
        inode,
        at,
        #[trigger] out[at - first_byte],
    ) || (out[at - first_byte] == 0 && forall|v: u8| !#[trigger] has_byte(all, inode, at, v)) by {
        let v = out[at - first];
        if crate::content::covered(blocks, at) {
            assert(crate::content::shows(blocks, blobs, at, v));
            let b = choose|b: BlockView| #[trigger] blocks.contains(b) && b.says(blobs, at, v);
            let row = choose|row: Row| #[trigger]
                all.contains(row) && is_of(row, inode) && first_of(row) <= last_byte && first_byte
                    <= last_of(row) && block_of(row) == b;
            lemma_block_wf(all, blobs, row);
            assert(byte_of(row, at) == v);
            assert(has_byte(all, inode, at, v));
        } else {
            assert forall|w: u8| !#[trigger] has_byte(all, inode, at, w) by {
                if has_byte(all, inode, at, w) {
                    let row = choose|row: Row| #[trigger]
                        all.contains(row) && is_of(row, inode) && first_of(row) <= at <= last_of(
                            row,
                        ) && byte_of(row, at) == w;
                    assert(is_block(row));
                    assert(blocks.contains(block_of(row)));
                    assert(block_of(row).covers(at));
                }
            }
        }
    }
}

/// The block of a row has the bytes of the row.
pub proof fn lemma_block_wf(rows: Seq<Row>, blobs: Map<u64, Seq<u8>>, row: Row)
    requires
        holds_blocks(rows),
        holds_data(rows, blobs),
        rows.contains(row),
    ensures
        block_of(row).wf(blobs),
        forall|at: int|
            first_of(row) <= at <= last_of(row) ==> #[trigger] block_of(row).byte(blobs, at)
                == byte_of(row, at),
{
    let b = block_of(row);
    assert(is_block(row));
    match row[Field::Data] {
        SqlView::Blob(data) => {
            assert(blobs[id_of(row)] == data);
            assert(b.source.bytes(blobs) =~= data);
        },
        _ => {},
    }
}

/// The query for the blocks that span a byte gives exactly those blocks of that
/// file that cover it and the byte before it.
pub proof fn spanning_blocks_are_those_of_the_file(
    database: Database,
    tables: Tables,
    inode: u64,
    truncate_point: i64,
)
    requires
        database.understands_sql(),
        holds_blocks(tables[Table::Block]),
        crate::sql::bindable(inode),
    ensures
        crate::storage::blocks_of_rows(
            database.rows(
                crate::storage::spanning_blocks_statement(inode, truncate_point),
                tables,
            ),
            2,
        ) matches Ok(blocks) && {
            &&& blocks.no_duplicates()
            &&& forall|b: BlockView| #[trigger]
                blocks.contains(b) <==> exists|row: Row| #[trigger]
                    tables[Table::Block].contains(row) && is_of(row, inode) && first_of(row)
                        <= truncate_point - 1 && truncate_point <= last_of(row) && block_of(row)
                        == b
        },
{
    let q = spanning_query();
    let s = crate::storage::spanning_blocks_statement(inode, truncate_point);
    let all = tables[Table::Block];
    lemma_spanning_text(inode, truncate_point);
    let rows = database.rows(s, tables);
    let (picked, part) = crate::database::lemma_query(database, q, s, tables);
    crate::database::lemma_picked(q, tables, s.params, picked);
    let f = |row: Row| block_of(row);
    let blocks = picked.map_values(f);
    assert forall|row: Row| #[trigger] all.contains(row) implies (crate::database::meets(
        row,
        q.conditions,
        s.params,
    ) <==> is_of(row, inode) && first_of(row) < truncate_point && truncate_point <= last_of(
        row,
    )) by {
        assert(is_block(row));
        assert(q.conditions[0].met(row, s.params[0]) <==> row[Field::InodeId] == s.params[0]);
        assert(q.conditions[1].met(row, s.params[1]) <==> first_of(row) < truncate_point);
        assert(q.conditions[2].met(row, s.params[2]) <==> last_of(row) >= truncate_point);
    }
    assert forall|i: int|
        #![trigger rows[i]]
        0 <= i < rows.len() implies {
        &&& is_block(picked[i])
        &&& rows[i].len() == 5
        &&& rows[i][0] == picked[i][Field::Id]
        &&& rows[i][2] == picked[i][Field::FirstByte]
        &&& rows[i][3] == picked[i][Field::LastByte]
        &&& rows[i][4] == Item::Presence(Field::Data).of(picked[i])
    } by {
        assert(picked.contains(picked[i]));
    }
    lemma_blocks(rows, 2, picked);
    lemma_blocks_differ(all, picked);
    assert forall|b: BlockView| #[trigger] blocks.contains(b) <==> exists|row: Row| #[trigger]
        all.contains(row) && is_of(row, inode) && first_of(row) <= truncate_point - 1
            && truncate_point <= last_of(row) && block_of(row) == b by {
        if blocks.contains(b) {
            let i = choose|i: int| 0 <= i < blocks.len() && blocks[i] == b;
            assert(picked.contains(picked[i]));
        }
        if exists|row: Row| #[trigger]
            all.contains(row) && is_of(row, inode) && first_of(row) <= truncate_point - 1
                && truncate_point <= last_of(row) && block_of(row) == b {
            let row = choose|row: Row| #[trigger]
                all.contains(row) && is_of(row, inode) && first_of(row) <= truncate_point - 1
                    && truncate_point <= last_of(row) && block_of(row) == b;
            assert(picked.contains(row));
            let i = choose|i: int| 0 <= i < picked.len() && picked[i] == row;
            assert(blocks[i] == b);
        }
    }
}

/// The end of the last block of a file is the largest position that a block of
/// that file covers, and there is none exactly if the file has no block.
pub proof fn last_block_is_the_one_that_ends_last(
    database: Database,
    tables: Tables,
    inode: u64,
)
    requires
        database.understands_sql(),
        holds_blocks(tables[Table::Block]),
        crate::sql::bindable(inode),
    ensures
        crate::storage::last_block_end(
            database.rows(crate::storage::last_block_statement(inode), tables),
        ) matches Ok(end) && match end {
            Some(end) => {
                &&& exists|row: Row| #[trigger]
                    tables[Table::Block].contains(row) && is_of(row, inode) && last_of(row) == end
                &&& forall|row: Row| #[trigger]
                    tables[Table::Block].contains(row) && is_of(row, inode) ==> last_of(row)
                        <= end
            },
            None => forall|row: Row| #[trigger]
                tables[Table::Block].contains(row) ==> !is_of(row, inode),
        },
{
    let q = last_block_query();
    let s = crate::storage::last_block_statement(inode);
    let all = tables[Table::Block];
    lemma_last_block_text(inode);
    let rows = database.rows(s, tables);
    let (picked, part) = crate::database::lemma_query(database, q, s, tables);
    crate::database::lemma_picked(q, tables, s.params, picked);
    assert forall|row: Row| #[trigger] all.contains(row) implies (crate::database::meets(
        row,
        q.conditions,
        s.params,
    ) <==> is_of(row, inode)) by {
        assert(q.conditions[0].met(row, s.params[0]) <==> row[Field::InodeId] == s.params[0]);
    }
    if picked.len() > 0 {
        assert(picked.contains(picked[0]));
        assert(is_block(picked[0]));
        assert(part[0] == picked[0]);
        assert(rows[0][0] == picked[0][Field::FirstByte]);
        assert(rows[0][1] == picked[0][Field::LastByte]);
        assert forall|row: Row| #[trigger] all.contains(row) && is_of(row, inode) implies last_of(
            row,
        ) <= last_of(picked[0]) by {
            assert(picked.contains(row));
            let i = choose|i: int| 0 <= i < picked.len() && picked[i] == row;
            assert(is_block(row));
            if i > 0 {
                assert(crate::database::may_precede(
                    picked[i][Field::LastByte],
                    picked[0][Field::LastByte],
                ));
            }
        }
    } else {
        assert forall|row: Row| #[trigger] all.contains(row) implies !is_of(row, inode) by {
            if is_of(row, inode) {
                assert(picked.contains(row));
            }
        }
    }
}

/// A block that was stored adds its bytes to that file, each at its position:
/// also where it is stored without data because all of them are zero. No other
/// block changes, and no other table.
pub proof fn insert_block_adds_its_bytes(
    database: Database,
    before: Tables,
    inode: u64,
    first_byte: u64,
    last_byte: u64,
    data: Seq<u8>,
)
    requires
        database.understands_sql(),
        holds_blocks(before[Table::Block]),
        crate::sql::bindable(inode),
        first_byte <= last_byte < i64::MAX,
        data.len() == last_byte - first_byte + 1,
        database.after(
            crate::storage::insert_block_statement(inode, first_byte, last_byte, data),
            before,
        ) is Some,
    ensures
        ({
            let after = database.after(
                crate::storage::insert_block_statement(inode, first_byte, last_byte, data),
                before,
            )->Some_0;
            &&& holds_blocks(after[Table::Block])
            &&& exists|added: Row|
                {
                    &&& #[trigger] after[Table::Block].contains(added)
                    &&& is_of(added, inode)
                    &&& first_of(added) == first_byte
                    &&& last_of(added) == last_byte
                    &&& forall|at: int|
                        first_byte <= at <= last_byte ==> #[trigger] byte_of(added, at)
                            == data[at - first_byte]
                    &&& after[Table::Block] == before[Table::Block].push(added)
                }
            &&& forall|t: Table| t != Table::Block ==> #[trigger] after[t] == before[t]
        }),
{
    let c = insert_block_change();
    let s = crate::storage::insert_block_statement(inode, first_byte, last_byte, data);
    let after = database.after(s, before)->Some_0;
    lemma_insert_block_text(inode, first_byte, last_byte, data);
    assert(c.does(before, s.params, after));
    lemma_inserted(c, s.params, before, after);
}

/// Adding a row to the table of blocks.
proof fn lemma_inserted(c: Change, params: Seq<SqlView>, before: Tables, after: Tables) -> (r: Row)
    requires
        c == insert_block_change(),
        c.does(before, params, after),
        holds_blocks(before[Table::Block]),
        params.len() == 4,
        params[0] matches SqlView::Integer(inode) && inode >= 0,
        params[1] matches SqlView::Integer(first) && params[2] matches SqlView::Integer(last) && 0
            <= first <= last < i64::MAX,
        params[3] is Null || (params[3] is Blob && params[3]->Blob_0.len() == params[2]->Integer_0
            - params[1]->Integer_0 + 1),
    ensures
        after[Table::Block] == before[Table::Block].push(r),
        after[Table::Block].contains(r),
        holds_blocks(after[Table::Block]),
        r[Field::InodeId] == params[0],
        r[Field::FirstByte] == params[1],
        r[Field::LastByte] == params[2],
        r[Field::Data] == params[3],
        forall|t: Table| t != Table::Block ==> #[trigger] after[t] == before[t],
{
    let rows = before[Table::Block];
    let f = c->fields;
    assert(!f.contains(Field::Id));
    let row = choose|row: Row|
        {
            &&& after == #[trigger] before.insert(Table::Block, rows.push(row))
            &&& forall|i: int| 0 <= i < f.len() ==> row[#[trigger] f[i]] == params[i]
            &&& row[Field::Id] matches SqlView::Integer(id) && id > 0
            &&& forall|i: int|
                0 <= i < rows.len() ==> (#[trigger] rows[i])[Field::Id] != row[Field::Id]
        };
    assert(row[f[0]] == params[0]);
    assert(row[f[1]] == params[1]);
    assert(row[f[2]] == params[2]);
    assert(row[f[3]] == params[3]);
    let more = rows.push(row);
    assert(more[rows.len() as int] == row);
    assert forall|r: Row| #[trigger] more.contains(r) implies r == row || (rows.contains(r)
        && id_of(r) != id_of(row)) by {
        let i = choose|i: int| 0 <= i < more.len() && more[i] == r;
        if i < rows.len() {
            assert(rows.contains(rows[i]));
            assert(is_block(rows[i]));
            assert(rows[i][Field::Id] != row[Field::Id]);
        }
    }
    assert(is_block(row));
    assert forall|i: int, j: int| 0 <= i < more.len() && 0 <= j < more.len() && i != j implies more[i]
        != more[j] by {
        if i < rows.len() && j < rows.len() {
            assert(rows[i] != rows[j]);
        } else if i < rows.len() {
            assert(rows[i][Field::Id] != row[Field::Id]);
        } else {
            assert(rows[j][Field::Id] != row[Field::Id]);
        }
    }
    row
}

/// Zeros that were stored add to that file a block that covers exactly their
/// range and is all zeros. No other block changes, and no other table.
pub proof fn insert_zeros_adds_zeros(
    database: Database,
    before: Tables,
    inode: u64,
    first_byte: i64,
    last_byte: i64,
)
    requires
        database.understands_sql(),
        holds_blocks(before[Table::Block]),
        crate::sql::bindable(inode),
        0 <= first_byte <= last_byte < i64::MAX,
        database.after(
            crate::storage::insert_zeros_statement(inode, first_byte, last_byte),
            before,
        ) is Some,
    ensures
        ({
            let after = database.after(
                crate::storage::insert_zeros_statement(inode, first_byte, last_byte),
                before,
            )->Some_0;
            &&& holds_blocks(after[Table::Block])
            &&& exists|added: Row|
                {
                    &&& #[trigger] after[Table::Block].contains(added)
                    &&& is_of(added, inode)
                    &&& first_of(added) == first_byte
                    &&& last_of(added) == last_byte
                    &&& forall|at: int| #[trigger] byte_of(added, at) == 0
                    &&& after[Table::Block] == before[Table::Block].push(added)
                }
            &&& forall|t: Table| t != Table::Block ==> #[trigger] after[t] == before[t]
        }),
{
    let c = insert_block_change();
    let s = crate::storage::insert_zeros_statement(inode, first_byte, last_byte);
    let after = database.after(s, before)->Some_0;
    lemma_insert_block_text(inode, first_byte as u64, last_byte as u64, seq![]);
    assert(c.does(before, s.params, after));
    lemma_inserted(c, s.params, before, after);
}

/// Taking out what is beyond the end of a file takes out exactly the blocks of
/// that file that start there or later, and nothing else.
pub proof fn delete_blocks_from_takes_out_what_starts_there(
    database: Database,
    before: Tables,
    inode: u64,
    truncate_point: i64,
)
    requires
        database.understands_sql(),
        holds_blocks(before[Table::Block]),
        crate::sql::bindable(inode),
        database.after(
            crate::storage::delete_blocks_from_statement(inode, truncate_point),
            before,
        ) is Some,
    ensures
        ({
            let after = database.after(
                crate::storage::delete_blocks_from_statement(inode, truncate_point),
                before,
            )->Some_0;
            &&& after[Table::Block].no_duplicates()
            &&& forall|row: Row| #[trigger]
                after[Table::Block].contains(row) <==> before[Table::Block].contains(row) && !(is_of(
                    row,
                    inode,
                ) && first_of(row) >= truncate_point)
            &&& forall|t: Table| t != Table::Block ==> #[trigger] after[t] == before[t]
        }),
{
    let c = delete_from_change();
    let s = crate::storage::delete_blocks_from_statement(inode, truncate_point);
    let after = database.after(s, before)->Some_0;
    let rows = before[Table::Block];
    lemma_delete_from_text(inode, truncate_point);
    assert(c.does(before, s.params, after));
    let conditions = c->Delete_conditions;
    let gone = |row: Row| crate::database::meets(row, conditions, s.params);
    let keep = |row: Row| !gone(row);
    assert(after[Table::Block] == rows.filter(keep));
    crate::database::lemma_filter(rows, keep);
    assert forall|row: Row| #[trigger] rows.contains(row) implies (gone(row) <==> is_of(row, inode)
        && first_of(row) >= truncate_point) by {
        assert(is_block(row));
        assert(conditions[0].met(row, s.params[0]) <==> row[Field::InodeId] == s.params[0]);
        assert(conditions[1].met(row, s.params[1]) <==> first_of(row) >= truncate_point);
    }
}

/// Taking out one block takes out exactly the block with that identifier.
pub proof fn delete_block_takes_out_one_block(database: Database, before: Tables, id: u64)
    requires
        database.understands_sql(),
        holds_blocks(before[Table::Block]),
        crate::sql::bindable(id),
        database.after(crate::storage::delete_block_statement(id), before) is Some,
    ensures
        ({
            let after = database.after(crate::storage::delete_block_statement(id), before)->Some_0;
            &&& after[Table::Block].no_duplicates()
            &&& forall|row: Row| #[trigger]
                after[Table::Block].contains(row) <==> before[Table::Block].contains(row) && id_of(
                    row,
                ) != id
            &&& forall|t: Table| t != Table::Block ==> #[trigger] after[t] == before[t]
        }),
{
    let c = delete_block_change();
    let s = crate::storage::delete_block_statement(id);
    let after = database.after(s, before)->Some_0;
    let rows = before[Table::Block];
    lemma_delete_block_text(id);
    assert(c.does(before, s.params, after));
    let conditions = c->Delete_conditions;
    let gone = |row: Row| crate::database::meets(row, conditions, s.params);
    let keep = |row: Row| !gone(row);
    assert(after[Table::Block] == rows.filter(keep));
    crate::database::lemma_filter(rows, keep);
    assert forall|row: Row| #[trigger] rows.contains(row) implies (gone(row) <==> id_of(row)
        == id) by {
        assert(is_block(row));
        assert(conditions[0].met(row, s.params[0]) <==> row[Field::Id] == s.params[0]);
    }
}

/// The statement that takes out blocks.
spec fn delete_blocks_change(n: nat) -> Change {
    Change::DeleteAny { table: Table::Block, field: Field::Id, n }
}

/// The question marks for parameters.
proof fn lemma_marks(n: nat)
    ensures
        crate::storage::placeholders(n) == crate::database::marks_text(n),
    decreases n,
{
    reveal_strlit("?");
    reveal_strlit(", ");
    reveal_strlit(", ?");
    if n > 1 {
        lemma_marks((n - 1) as nat);
        assert(", ?"@ =~= ", "@ + "?"@);
        let head = crate::database::marks_text((n - 1) as nat);
        assert(head + ", ?"@ =~= head + ", "@ + "?"@);
    }
}

#[verifier::rlimit(60)]
proof fn lemma_delete_blocks_text(ids: Seq<u64>)
    ensures
        crate::storage::delete_blocks_statement(ids).sql == delete_blocks_change(
            ids.len(),
        ).text(),
{
    reveal_strlit("delete from ");
    reveal_strlit("block");
    reveal_strlit(" where ");
    reveal_strlit("id");
    reveal_strlit(" in (");
    reveal_strlit(")");
    reveal_strlit("delete from block where id in (");
    lemma_marks(ids.len());
    assert(crate::storage::delete_blocks_statement(ids).sql =~= delete_blocks_change(
        ids.len(),
    ).text());
}

/// Taking out blocks takes out exactly those with these identifiers.
pub proof fn delete_blocks_takes_out_these_blocks(
    database: Database,
    before: Tables,
    ids: Seq<u64>,
)
    requires
        database.understands_sql(),
        holds_blocks(before[Table::Block]),
        forall|i: int| 0 <= i < ids.len() ==> crate::sql::bindable(#[trigger] ids[i]),
        database.after(crate::storage::delete_blocks_statement(ids), before) is Some,
    ensures
        ({
            let after = database.after(
                crate::storage::delete_blocks_statement(ids),
                before,
            )->Some_0;
            &&& after[Table::Block].no_duplicates()
            &&& forall|row: Row| #[trigger]
                after[Table::Block].contains(row) <==> before[Table::Block].contains(row)
                    && !ids.contains(id_of(row))
            &&& forall|t: Table| t != Table::Block ==> #[trigger] after[t] == before[t]
        }),
{
    let c = delete_blocks_change(ids.len());
    let s = crate::storage::delete_blocks_statement(ids);
    let after = database.after(s, before)->Some_0;
    let rows = before[Table::Block];
    lemma_delete_blocks_text(ids);
    assert(c.does(before, s.params, after));
    let gone = |row: Row| crate::database::is_any(row, Field::Id, s.params);
    let keep = |row: Row| !gone(row);
    assert(after[Table::Block] == rows.filter(keep));
    crate::database::lemma_filter(rows, keep);
    assert forall|row: Row| #[trigger] rows.contains(row) implies (gone(row) <==> ids.contains(
        id_of(row),
    )) by {
        assert(is_block(row));
        if gone(row) {
            let i = choose|i: int| 0 <= i < s.params.len() && s.params[i] == row[Field::Id];
            assert(ids[i] == id_of(row));
        }
        if ids.contains(id_of(row)) {
            let i = choose|i: int| 0 <= i < ids.len() && ids[i] == id_of(row);
            assert(s.params[i] == row[Field::Id]);
        }
    }
}

} // verus!
