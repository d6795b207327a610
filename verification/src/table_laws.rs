//! The tables of an image hold a file tree, and the statements ask for it and
//! change it.

use vstd::prelude::*;
use crate::database::{
    Change, Control, Database, Existence, Item, Part, PartnerCount, Query, Row, Session, Setting,
    Sorting, Tables, Wanted,
};
use crate::error::ErrorView;
use crate::flocon::{FloconHandle, FloconTree};
use crate::manager::FileSystemManager;
use crate::migration::{Field, Table};
use crate::sql::SqlView;
use crate::winter::{EntryCore, FsState};

verus! {

/// Whether a row of the table of links holds what it should.
pub open spec fn is_link(row: Row) -> bool {
    &&& row[Field::ParentId] matches SqlView::Integer(parent) && parent >= 0
    &&& row[Field::ChildId] matches SqlView::Integer(child) && child >= 0
    &&& row[Field::Name] is Text
}

/// The place in the tree that a link is at: a name in a directory.
pub open spec fn link_place(row: Row) -> (u64, Seq<char>) {
    (row[Field::ParentId]->Integer_0 as u64, row[Field::Name]->Text_0)
}

/// The inode that a link leads to.
pub open spec fn link_child(row: Row) -> u64 {
    row[Field::ChildId]->Integer_0 as u64
}

/// Whether there is one row for each key, and no other row.
pub open spec fn keyed<K>(rows: Seq<Row>, key: spec_fn(Row) -> K, keys: Set<K>) -> bool {
    &&& rows.no_duplicates()
    &&& forall|row: Row| #[trigger] rows.contains(row) ==> keys.contains(key(row))
    &&& forall|k: K| #[trigger]
        keys.contains(k) ==> exists|row: Row| #[trigger] rows.contains(row) && key(row) == k
    &&& forall|a: Row, b: Row| #[trigger]
        rows.contains(a) && #[trigger] rows.contains(b) && key(a) == key(b) ==> a == b
}

/// What a query for one key picks.
proof fn lemma_picks_one<K>(
    q: Query,
    tables: Tables,
    params: Seq<SqlView>,
    picked: Seq<Row>,
    key: spec_fn(Row) -> K,
    keys: Set<K>,
    k: K,
)
    requires
        q.picks(tables, params, picked),
        keyed(tables[q.table], key, keys),
        forall|row: Row| #[trigger]
            tables[q.table].contains(row) ==> (crate::database::meets(row, q.conditions, params)
                <==> key(row) == k),
    ensures
        keys.contains(k) ==> picked.len() == 1 && tables[q.table].contains(picked[0]) && key(
            picked[0],
        ) == k,
        !keys.contains(k) ==> picked.len() == 0,
{
    crate::database::lemma_picked(q, tables, params, picked);
    if picked.len() > 0 {
        assert(picked.contains(picked[0]));
    }
    if picked.len() > 1 {
        assert(picked.contains(picked[1]));
        assert(picked[0] == picked[1]);
    }
    if keys.contains(k) {
        let row = choose|row: Row| #[trigger] tables[q.table].contains(row) && key(row) == k;
        assert(picked.contains(row));
    }
}

/// Taking out the row of one key.
proof fn lemma_without_key<K>(
    rows: Seq<Row>,
    key: spec_fn(Row) -> K,
    keys: Set<K>,
    gone: Set<K>,
    keep: spec_fn(Row) -> bool,
)
    requires
        keyed(rows, key, keys),
        forall|row: Row| #[trigger] rows.contains(row) ==> (keep(row) <==> !gone.contains(key(row))),
    ensures
        keyed(rows.filter(keep), key, keys.difference(gone)),
        forall|row: Row| #[trigger] rows.filter(keep).contains(row) ==> rows.contains(row),
{
    crate::database::lemma_filter(rows, keep);
    let kept = rows.filter(keep);
    assert forall|k: K| #[trigger] keys.difference(gone).contains(k) implies exists|row: Row|
        #[trigger] kept.contains(row) && key(row) == k by {
        let row = choose|row: Row| #[trigger] rows.contains(row) && key(row) == k;
        assert(kept.contains(row));
    }
}

/// Adding a row with a new key.
proof fn lemma_with_key<K>(rows: Seq<Row>, key: spec_fn(Row) -> K, keys: Set<K>, added: Row)
    requires
        keyed(rows, key, keys),
        !keys.contains(key(added)),
    ensures
        keyed(rows.push(added), key, keys.insert(key(added))),
        forall|row: Row| #[trigger]
            rows.push(added).contains(row) <==> rows.contains(row) || row == added,
{
    let more = rows.push(added);
    assert forall|row: Row| #[trigger] more.contains(row) <==> rows.contains(row) || row == added by {
        if more.contains(row) {
            let i = choose|i: int| 0 <= i < more.len() && more[i] == row;
            if i < rows.len() {
                assert(rows[i] == row);
            }
        }
        if rows.contains(row) {
            let i = choose|i: int| 0 <= i < rows.len() && rows[i] == row;
            assert(more[i] == row);
        }
        assert(more[rows.len() as int] == added);
    }
    assert forall|i: int, j: int| 0 <= i < more.len() && 0 <= j < more.len() && i != j implies more[i]
        != more[j] by {
        if i < rows.len() {
            assert(rows.contains(rows[i]));
        }
        if j < rows.len() {
            assert(rows.contains(rows[j]));
        }
    }
    assert forall|k: K| #[trigger] keys.insert(key(added)).contains(k) implies exists|row: Row|
        #[trigger] more.contains(row) && key(row) == k by {
        if k == key(added) {
            assert(more.contains(added));
        } else {
            let row = choose|row: Row| #[trigger] rows.contains(row) && key(row) == k;
            assert(more.contains(row));
        }
    }
}

/// Changing rows without changing their keys.
proof fn lemma_changed_rows<K>(
    rows: Seq<Row>,
    key: spec_fn(Row) -> K,
    keys: Set<K>,
    change: spec_fn(Row) -> Row,
)
    requires
        keyed(rows, key, keys),
        forall|row: Row| #[trigger] rows.contains(row) ==> key(change(row)) == key(row),
    ensures
        keyed(rows.map_values(change), key, keys),
        forall|row: Row| #[trigger]
            rows.map_values(change).contains(row) <==> exists|r: Row| #[trigger]
                rows.contains(r) && change(r) == row,
{
    let after = rows.map_values(change);
    assert forall|row: Row| #[trigger] after.contains(row) <==> exists|r: Row| #[trigger]
        rows.contains(r) && change(r) == row by {
        if after.contains(row) {
            let i = choose|i: int| 0 <= i < after.len() && after[i] == row;
            assert(rows.contains(rows[i]) && change(rows[i]) == row);
        }
        if exists|r: Row| #[trigger] rows.contains(r) && change(r) == row {
            let r = choose|r: Row| #[trigger] rows.contains(r) && change(r) == row;
            let i = choose|i: int| 0 <= i < rows.len() && rows[i] == r;
            assert(after[i] == row);
        }
    }
    assert forall|i: int, j: int| 0 <= i < after.len() && 0 <= j < after.len() && i
        != j implies after[i] != after[j] by {
        assert(rows.contains(rows[i]) && rows.contains(rows[j]));
        assert(rows[i] != rows[j]);
    }
    assert forall|k: K| #[trigger] keys.contains(k) implies exists|row: Row| #[trigger]
        after.contains(row) && key(row) == k by {
        let r = choose|r: Row| #[trigger] rows.contains(r) && key(r) == k;
        assert(after.contains(change(r)));
    }
}

/// The place of each link.
pub open spec fn by_place() -> spec_fn(Row) -> (u64, Seq<char>) {
    |row: Row| link_place(row)
}

/// Whether the table of links holds these: one row for each place.
pub open spec fn holds_links(rows: Seq<Row>, links: Map<(u64, Seq<char>), u64>) -> bool {
    &&& keyed(rows, by_place(), links.dom())
    &&& forall|row: Row| #[trigger]
        rows.contains(row) ==> is_link(row) && links[link_place(row)] == link_child(row)
}

/// The query for the child under a name.
spec fn lookup_query() -> Query {
    Query {
        aliased: true,
        wanted: Wanted::Items(seq![Item::Column(Field::ChildId)]),
        table: Table::Link,
        conditions: seq![crate::database::equal(Field::ParentId), crate::database::equal(Field::Name)],
        sorting: Sorting::Unsorted,
        part: Part::Whole,
    }
}

#[verifier::rlimit(60)]
proof fn lemma_lookup_text(parent: u64, name: Seq<char>)
    ensures
        FloconTree::lookup_statement(parent, name).sql == lookup_query().text(),
{
    reveal_with_fuel(crate::database::conditions_text, 3);
    reveal_with_fuel(crate::database::items_text, 3);
    reveal_strlit("select ");
    reveal_strlit("l");
    reveal_strlit(".");
    reveal_strlit("child_id");
    reveal_strlit(" from ");
    reveal_strlit("link");
    reveal_strlit(" ");
    reveal_strlit(" where ");
    reveal_strlit("parent_id");
    reveal_strlit(" = ?");
    reveal_strlit(" and ");
    reveal_strlit("name");
    reveal_strlit("select l.child_id from link l where l.parent_id = ? and l.name = ?");
    let c = lookup_query().conditions;
    assert(c.drop_last() =~= seq![crate::database::equal(Field::ParentId)]);
    assert(FloconTree::lookup_statement(parent, name).sql =~= lookup_query().text());
}

/// The query for a page of the children of a directory.
spec fn children_query() -> Query {
    Query {
        aliased: false,
        wanted: Wanted::Items(seq![Item::Column(Field::Name), Item::Column(Field::ChildId)]),
        table: Table::Link,
        conditions: seq![crate::database::equal(Field::ParentId)],
        sorting: Sorting::Rising(Field::Name),
        part: Part::Page,
    }
}

#[verifier::rlimit(60)]
proof fn lemma_children_text(parent: u64, size: u64, offset: u64)
    ensures
        FloconTree::find_children_of_statement(parent, size, offset).sql == children_query().text(),
{
    reveal_with_fuel(crate::database::conditions_text, 2);
    reveal_with_fuel(crate::database::items_text, 3);
    reveal_strlit("select ");
    reveal_strlit("name");
    reveal_strlit(", ");
    reveal_strlit("child_id");
    reveal_strlit(" from ");
    reveal_strlit("link");
    reveal_strlit(" where ");
    reveal_strlit("parent_id");
    reveal_strlit(" = ?");
    reveal_strlit(" order by ");
    reveal_strlit(" asc");
    reveal_strlit(" limit ? offset ?");
    reveal_strlit("select name, child_id from link where parent_id = ? order by name asc limit ? offset ?");
    assert(children_query().wanted->Items_0.drop_last() =~= seq![Item::Column(Field::Name)]);
    assert(FloconTree::find_children_of_statement(parent, size, offset).sql =~= children_query().text());
}

/// The query for the parents of an inode.
spec fn parents_query() -> Query {
    Query {
        aliased: false,
        wanted: Wanted::Items(seq![Item::Column(Field::ParentId)]),
        table: Table::Link,
        conditions: seq![crate::database::equal(Field::ChildId)],
        sorting: Sorting::Unsorted,
        part: Part::Whole,
    }
}

#[verifier::rlimit(60)]
proof fn lemma_parents_text(inode: u64)
    ensures
        FloconTree::find_parents_of_statement(inode).sql == parents_query().text(),
{
    reveal_with_fuel(crate::database::conditions_text, 2);
    reveal_with_fuel(crate::database::items_text, 2);
    reveal_strlit("select ");
    reveal_strlit("parent_id");
    reveal_strlit(" from ");
    reveal_strlit("link");
    reveal_strlit(" where ");
    reveal_strlit("child_id");
    reveal_strlit(" = ?");
    reveal_strlit("select parent_id from link where child_id = ?");
    assert(FloconTree::find_parents_of_statement(inode).sql =~= parents_query().text());
}

/// The query for the number of names that lead to an inode.
spec fn link_count_query() -> Query {
    Query {
        aliased: false,
        wanted: Wanted::Count,
        table: Table::Link,
        conditions: seq![crate::database::equal(Field::ChildId)],
        sorting: Sorting::Unsorted,
        part: Part::Whole,
    }
}

#[verifier::rlimit(60)]
proof fn lemma_link_count_text(inode: u64)
    ensures
        FloconTree::link_count_statement(inode).sql == link_count_query().text(),
{
    reveal_with_fuel(crate::database::conditions_text, 2);
    reveal_strlit("select ");
    reveal_strlit("count(*)");
    reveal_strlit(" from ");
    reveal_strlit("link");
    reveal_strlit(" where ");
    reveal_strlit("child_id");
    reveal_strlit(" = ?");
    reveal_strlit("select count(*) from link where child_id = ?");
    assert(FloconTree::link_count_statement(inode).sql =~= link_count_query().text());
}

/// The query for an inode.
spec fn inode_query() -> Query {
    Query {
        aliased: false,
        wanted: Wanted::Items(seq![Item::Column(Field::Id), Item::Column(Field::Mode), Item::Column(Field::Uid), Item::Column(Field::Gid), Item::Column(Field::Size), Item::Column(Field::Rdev), Item::Column(Field::Atime), Item::Column(Field::Mtime), Item::Column(Field::Ctime)]),
        table: Table::Inode,
        conditions: seq![crate::database::equal(Field::Id)],
        sorting: Sorting::Unsorted,
        part: Part::Whole,
    }
}

#[verifier::rlimit(60)]
proof fn lemma_inode_text(inode: u64)
    ensures
        FloconTree::get_inode_statement(inode).sql == inode_query().text(),
{
    reveal_with_fuel(crate::database::conditions_text, 2);
    reveal_with_fuel(crate::database::items_text, 10);
    reveal_strlit("select ");
    reveal_strlit("id");
    reveal_strlit(", ");
    reveal_strlit("mode");
    reveal_strlit("uid");
    reveal_strlit("gid");
    reveal_strlit("size");
    reveal_strlit("rdev");
    reveal_strlit("atime");
    reveal_strlit("mtime");
    reveal_strlit("ctime");
    reveal_strlit(" from ");
    reveal_strlit("inode");
    reveal_strlit(" where ");
    reveal_strlit(" = ?");
    reveal_strlit("select id, mode, uid, gid, size, rdev, atime, mtime, ctime from inode where id = ?");
    assert(inode_query().wanted->Items_0.drop_last() =~= seq![Item::Column(Field::Id), Item::Column(Field::Mode), Item::Column(Field::Uid), Item::Column(Field::Gid), Item::Column(Field::Size), Item::Column(Field::Rdev), Item::Column(Field::Atime), Item::Column(Field::Mtime)]);
    assert(inode_query().wanted->Items_0.drop_last().drop_last() =~= seq![Item::Column(Field::Id), Item::Column(Field::Mode), Item::Column(Field::Uid), Item::Column(Field::Gid), Item::Column(Field::Size), Item::Column(Field::Rdev), Item::Column(Field::Atime)]);
    assert(inode_query().wanted->Items_0.drop_last().drop_last().drop_last() =~= seq![Item::Column(Field::Id), Item::Column(Field::Mode), Item::Column(Field::Uid), Item::Column(Field::Gid), Item::Column(Field::Size), Item::Column(Field::Rdev)]);
    assert(inode_query().wanted->Items_0.drop_last().drop_last().drop_last().drop_last() =~= seq![Item::Column(Field::Id), Item::Column(Field::Mode), Item::Column(Field::Uid), Item::Column(Field::Gid), Item::Column(Field::Size)]);
    assert(inode_query().wanted->Items_0.drop_last().drop_last().drop_last().drop_last().drop_last() =~= seq![Item::Column(Field::Id), Item::Column(Field::Mode), Item::Column(Field::Uid), Item::Column(Field::Gid)]);
    assert(inode_query().wanted->Items_0.drop_last().drop_last().drop_last().drop_last().drop_last().drop_last() =~= seq![Item::Column(Field::Id), Item::Column(Field::Mode), Item::Column(Field::Uid)]);
    assert(inode_query().wanted->Items_0.drop_last().drop_last().drop_last().drop_last().drop_last().drop_last().drop_last() =~= seq![Item::Column(Field::Id), Item::Column(Field::Mode)]);
    assert(inode_query().wanted->Items_0.drop_last().drop_last().drop_last().drop_last().drop_last().drop_last().drop_last().drop_last() =~= seq![Item::Column(Field::Id)]);
    assert(FloconTree::get_inode_statement(inode).sql =~= inode_query().text());
}

/// The query for an extended attribute.
spec fn xattr_query() -> Query {
    Query {
        aliased: false,
        wanted: Wanted::Items(seq![Item::Column(Field::Value)]),
        table: Table::Xattr,
        conditions: seq![crate::database::equal(Field::InodeId), crate::database::equal(Field::Name)],
        sorting: Sorting::Unsorted,
        part: Part::Whole,
    }
}

#[verifier::rlimit(60)]
proof fn lemma_xattr_text(inode: u64, key: Seq<char>)
    ensures
        FloconHandle::xattr_query_statement(inode, key).sql == xattr_query().text(),
{
    reveal_with_fuel(crate::database::conditions_text, 3);
    reveal_with_fuel(crate::database::items_text, 2);
    reveal_strlit("select ");
    reveal_strlit("value");
    reveal_strlit(" from ");
    reveal_strlit("xattr");
    reveal_strlit(" where ");
    reveal_strlit("inode_id");
    reveal_strlit(" = ?");
    reveal_strlit(" and ");
    reveal_strlit("name");
    reveal_strlit("select value from xattr where inode_id = ? and name = ?");
    let c = xattr_query().conditions;
    assert(c.drop_last() =~= seq![crate::database::equal(Field::InodeId)]);
    assert(FloconHandle::xattr_query_statement(inode, key).sql =~= xattr_query().text());
}

/// The query for the keys of the extended attributes of an inode.
spec fn xattr_keys_query() -> Query {
    Query {
        aliased: false,
        wanted: Wanted::Items(seq![Item::Column(Field::Name)]),
        table: Table::Xattr,
        conditions: seq![crate::database::equal(Field::InodeId)],
        sorting: Sorting::Unsorted,
        part: Part::Whole,
    }
}

#[verifier::rlimit(60)]
proof fn lemma_xattr_keys_text(inode: u64)
    ensures
        FloconHandle::xattr_keys_statement(inode).sql == xattr_keys_query().text(),
{
    reveal_with_fuel(crate::database::conditions_text, 2);
    reveal_with_fuel(crate::database::items_text, 2);
    reveal_strlit("select ");
    reveal_strlit("name");
    reveal_strlit(" from ");
    reveal_strlit("xattr");
    reveal_strlit(" where ");
    reveal_strlit("inode_id");
    reveal_strlit(" = ?");
    reveal_strlit("select name from xattr where inode_id = ?");
    assert(FloconHandle::xattr_keys_statement(inode).sql =~= xattr_keys_query().text());
}

/// The statement that adds a link.
spec fn add_child_change() -> Change {
    Change::Insert { table: Table::Link, fields: seq![Field::ParentId, Field::ChildId, Field::Name], numbered: false }
}

#[verifier::rlimit(60)]
proof fn lemma_add_child_text(parent: u64, child: u64, name: Seq<char>)
    ensures
        FloconTree::add_child_statement(parent, child, name).sql == add_child_change().text(),
{
    reveal_with_fuel(crate::database::fields_text, 4);
    reveal_with_fuel(crate::database::marks_text, 4);
    reveal_strlit("insert into ");
    reveal_strlit("link");
    reveal_strlit(" (");
    reveal_strlit("parent_id");
    reveal_strlit(", ");
    reveal_strlit("child_id");
    reveal_strlit("name");
    reveal_strlit(") values (");
    reveal_strlit("?");
    reveal_strlit(")");
    reveal_strlit("insert into link (parent_id, child_id, name) values (?, ?, ?)");
    let f = add_child_change()->fields;
    assert(f.drop_last() =~= seq![Field::ParentId, Field::ChildId]);
    assert(f.drop_last().drop_last() =~= seq![Field::ParentId]);
    assert(FloconTree::add_child_statement(parent, child, name).sql =~= add_child_change().text());
}

/// The statement that takes out a link.
spec fn remove_child_change() -> Change {
    Change::Delete { table: Table::Link, conditions: seq![crate::database::equal(Field::ParentId), crate::database::equal(Field::Name)] }
}

#[verifier::rlimit(60)]
proof fn lemma_remove_child_text(parent: u64, name: Seq<char>)
    ensures
        FloconTree::remove_child_statement(parent, name).sql == remove_child_change().text(),
{
    reveal_with_fuel(crate::database::conditions_text, 3);
    reveal_strlit("delete from ");
    reveal_strlit("link");
    reveal_strlit(" where ");
    reveal_strlit("parent_id");
    reveal_strlit(" = ?");
    reveal_strlit(" and ");
    reveal_strlit("name");
    reveal_strlit("delete from link where parent_id = ? and name = ?");
    let c = remove_child_change()->Delete_conditions;
    assert(c.drop_last() =~= seq![crate::database::equal(Field::ParentId)]);
    assert(FloconTree::remove_child_statement(parent, name).sql =~= remove_child_change().text());
}

/// The statement that adds an inode.
spec fn create_inode_change() -> Change {
    Change::Insert { table: Table::Inode, fields: seq![Field::Mode, Field::Uid, Field::Gid, Field::Size, Field::Rdev, Field::Atime, Field::Mtime, Field::Ctime, Field::Btime], numbered: false }
}

#[verifier::rlimit(60)]
proof fn lemma_create_inode_text(mode: u32, uid: u32, gid: u32, rdev: u64, now: (i64, u32))
    ensures
        FloconTree::create_inode_statement(mode, uid, gid, rdev, now).sql == create_inode_change().text(),
{
    reveal_with_fuel(crate::database::fields_text, 10);
    reveal_with_fuel(crate::database::marks_text, 10);
    reveal_strlit("insert into ");
    reveal_strlit("inode");
    reveal_strlit(" (");
    reveal_strlit("mode");
    reveal_strlit(", ");
    reveal_strlit("uid");
    reveal_strlit("gid");
    reveal_strlit("size");
    reveal_strlit("rdev");
    reveal_strlit("atime");
    reveal_strlit("mtime");
    reveal_strlit("ctime");
    reveal_strlit("btime");
    reveal_strlit(") values (");
    reveal_strlit("?");
    reveal_strlit(")");
    reveal_strlit("insert into inode (mode, uid, gid, size, rdev, atime, mtime, ctime, btime) values (?, ?, ?, ?, ?, ?, ?, ?, ?)");
    let f = create_inode_change()->fields;
    assert(f.drop_last() =~= seq![Field::Mode, Field::Uid, Field::Gid, Field::Size, Field::Rdev, Field::Atime, Field::Mtime, Field::Ctime]);
    assert(f.drop_last().drop_last() =~= seq![Field::Mode, Field::Uid, Field::Gid, Field::Size, Field::Rdev, Field::Atime, Field::Mtime]);
    assert(f.drop_last().drop_last().drop_last() =~= seq![Field::Mode, Field::Uid, Field::Gid, Field::Size, Field::Rdev, Field::Atime]);
    assert(f.drop_last().drop_last().drop_last().drop_last() =~= seq![Field::Mode, Field::Uid, Field::Gid, Field::Size, Field::Rdev]);
    assert(f.drop_last().drop_last().drop_last().drop_last().drop_last() =~= seq![Field::Mode, Field::Uid, Field::Gid, Field::Size]);
    assert(f.drop_last().drop_last().drop_last().drop_last().drop_last().drop_last() =~= seq![Field::Mode, Field::Uid, Field::Gid]);
    assert(f.drop_last().drop_last().drop_last().drop_last().drop_last().drop_last().drop_last() =~= seq![Field::Mode, Field::Uid]);
    assert(f.drop_last().drop_last().drop_last().drop_last().drop_last().drop_last().drop_last().drop_last() =~= seq![Field::Mode]);
    assert(FloconTree::create_inode_statement(mode, uid, gid, rdev, now).sql =~= create_inode_change().text());
}

/// The statement that changes an extended attribute.
spec fn xattr_update_change() -> Change {
    Change::Update { table: Table::Xattr, field: Field::Value, setting: Setting::Param, conditions: seq![crate::database::equal(Field::InodeId), crate::database::equal(Field::Name)] }
}

#[verifier::rlimit(60)]
proof fn lemma_xattr_update_text(inode: u64, key: Seq<char>, value: Seq<u8>)
    ensures
        FloconHandle::xattr_update_statement(inode, key, value).sql == xattr_update_change().text(),
{
    reveal_with_fuel(crate::database::conditions_text, 3);
    reveal_strlit("update ");
    reveal_strlit("xattr");
    reveal_strlit(" set ");
    reveal_strlit("value");
    reveal_strlit(" = ?");
    reveal_strlit(" where ");
    reveal_strlit("inode_id");
    reveal_strlit(" and ");
    reveal_strlit("name");
    reveal_strlit("update xattr set value = ? where inode_id = ? and name = ?");
    let c = xattr_update_change()->Update_conditions;
    assert(c.drop_last() =~= seq![crate::database::equal(Field::InodeId)]);
    assert(FloconHandle::xattr_update_statement(inode, key, value).sql =~= xattr_update_change().text());
}

/// The statement that adds an extended attribute.
spec fn xattr_insert_change() -> Change {
    Change::Insert { table: Table::Xattr, fields: seq![Field::InodeId, Field::Name, Field::Value], numbered: false }
}

#[verifier::rlimit(60)]
proof fn lemma_xattr_insert_text(inode: u64, key: Seq<char>, value: Seq<u8>)
    ensures
        FloconHandle::xattr_insert_statement(inode, key, value).sql == xattr_insert_change().text(),
{
    reveal_with_fuel(crate::database::fields_text, 4);
    reveal_with_fuel(crate::database::marks_text, 4);
    reveal_strlit("insert into ");
    reveal_strlit("xattr");
    reveal_strlit(" (");
    reveal_strlit("inode_id");
    reveal_strlit(", ");
    reveal_strlit("name");
    reveal_strlit("value");
    reveal_strlit(") values (");
    reveal_strlit("?");
    reveal_strlit(")");
    reveal_strlit("insert into xattr (inode_id, name, value) values (?, ?, ?)");
    let f = xattr_insert_change()->fields;
    assert(f.drop_last() =~= seq![Field::InodeId, Field::Name]);
    assert(f.drop_last().drop_last() =~= seq![Field::InodeId]);
    assert(FloconHandle::xattr_insert_statement(inode, key, value).sql =~= xattr_insert_change().text());
}

/// The statement that takes out an extended attribute.
spec fn xattr_delete_change() -> Change {
    Change::Delete { table: Table::Xattr, conditions: seq![crate::database::equal(Field::InodeId), crate::database::equal(Field::Name)] }
}

#[verifier::rlimit(60)]
proof fn lemma_xattr_delete_text(inode: u64, key: Seq<char>)
    ensures
        FloconHandle::xattr_delete_statement(inode, key).sql == xattr_delete_change().text(),
{
    reveal_with_fuel(crate::database::conditions_text, 3);
    reveal_strlit("delete from ");
    reveal_strlit("xattr");
    reveal_strlit(" where ");
    reveal_strlit("inode_id");
    reveal_strlit(" = ?");
    reveal_strlit(" and ");
    reveal_strlit("name");
    reveal_strlit("delete from xattr where inode_id = ? and name = ?");
    let c = xattr_delete_change()->Delete_conditions;
    assert(c.drop_last() =~= seq![crate::database::equal(Field::InodeId)]);
    assert(FloconHandle::xattr_delete_statement(inode, key).sql =~= xattr_delete_change().text());
}

/// The statement that takes out all blocks of an inode.
spec fn delete_blocks_change() -> Change {
    Change::Delete { table: Table::Block, conditions: seq![crate::database::equal(Field::InodeId)] }
}

#[verifier::rlimit(60)]
proof fn lemma_delete_blocks_text(inode: u64)
    ensures
        FloconTree::delete_inode_statements(inode)[0].sql == delete_blocks_change().text(),
{
    reveal_with_fuel(crate::database::conditions_text, 2);
    reveal_strlit("delete from ");
    reveal_strlit("block");
    reveal_strlit(" where ");
    reveal_strlit("inode_id");
    reveal_strlit(" = ?");
    reveal_strlit("delete from block where inode_id = ?");
    assert(FloconTree::delete_inode_statements(inode)[0].sql =~= delete_blocks_change().text());
}

/// The statement that takes out all extended attributes of an inode.
spec fn delete_xattrs_change() -> Change {
    Change::Delete { table: Table::Xattr, conditions: seq![crate::database::equal(Field::InodeId)] }
}

#[verifier::rlimit(60)]
proof fn lemma_delete_xattrs_text(inode: u64)
    ensures
        FloconTree::delete_inode_statements(inode)[1].sql == delete_xattrs_change().text(),
{
    reveal_with_fuel(crate::database::conditions_text, 2);
    reveal_strlit("delete from ");
    reveal_strlit("xattr");
    reveal_strlit(" where ");
    reveal_strlit("inode_id");
    reveal_strlit(" = ?");
    reveal_strlit("delete from xattr where inode_id = ?");
    assert(FloconTree::delete_inode_statements(inode)[1].sql =~= delete_xattrs_change().text());
}

/// The statement that takes out an inode.
spec fn delete_inode_change() -> Change {
    Change::Delete { table: Table::Inode, conditions: seq![crate::database::equal(Field::Id)] }
}

#[verifier::rlimit(60)]
proof fn lemma_delete_inode_text(inode: u64)
    ensures
        FloconTree::delete_inode_statements(inode)[2].sql == delete_inode_change().text(),
{
    reveal_with_fuel(crate::database::conditions_text, 2);
    reveal_strlit("delete from ");
    reveal_strlit("inode");
    reveal_strlit(" where ");
    reveal_strlit("id");
    reveal_strlit(" = ?");
    reveal_strlit("delete from inode where id = ?");
    assert(FloconTree::delete_inode_statements(inode)[2].sql =~= delete_inode_change().text());
}

/// The statement that sets the size of an inode to zero.
spec fn empty_size_change() -> Change {
    Change::Update { table: Table::Inode, field: Field::Size, setting: Setting::Zero, conditions: seq![crate::database::equal(Field::Id)] }
}

#[verifier::rlimit(60)]
proof fn lemma_empty_size_text(inode: u64)
    ensures
        FloconHandle::truncate_statements(inode)[1].sql == empty_size_change().text(),
{
    reveal_with_fuel(crate::database::conditions_text, 2);
    reveal_strlit("update ");
    reveal_strlit("inode");
    reveal_strlit(" set ");
    reveal_strlit("size");
    reveal_strlit(" = 0");
    reveal_strlit(" where ");
    reveal_strlit("id");
    reveal_strlit(" = ?");
    reveal_strlit("update inode set size = 0 where id = ?");
    assert(FloconHandle::truncate_statements(inode)[1].sql =~= empty_size_change().text());
}

/// Looking a name up in a directory gives the child that the name leads to there
/// and 0 if it leads nowhere, whatever other directories hold.
pub proof fn lookup_finds_the_child_of_that_name(
    database: Database,
    tables: Tables,
    state: FsState,
    parent: u64,
    name: Seq<char>,
)
    requires
        database.understands_sql(),
        holds_links(tables[Table::Link], state.links),
        crate::sql::bindable(parent),
    ensures
        FloconTree::child_of_rows(
            database.rows(FloconTree::lookup_statement(parent, name), tables),
        ) == Ok::<u64, ErrorView>(state.child(parent, name)),
{
    let q = lookup_query();
    let s = FloconTree::lookup_statement(parent, name);
    let all = tables[Table::Link];
    lemma_lookup_text(parent, name);
    let rows = database.rows(s, tables);
    let (picked, part) = crate::database::lemma_query(database, q, s, tables);
    assert forall|row: Row| #[trigger] all.contains(row) implies (crate::database::meets(
        row,
        q.conditions,
        s.params,
    ) <==> by_place()(row) == (parent, name)) by {
        assert(is_link(row));
        assert(q.conditions[0].met(row, s.params[0]) <==> row[Field::ParentId] == s.params[0]);
        assert(q.conditions[1].met(row, s.params[1]) <==> row[Field::Name] == s.params[1]);
    }
    lemma_picks_one(q, tables, s.params, picked, by_place(), state.links.dom(), (parent, name));
    if picked.len() > 0 {
        assert(rows[0][0] == picked[0][Field::ChildId]);
    }
}

/// A name that was added to a directory leads to its inode, every other name
/// leads where it did, and no other table changes.
pub proof fn add_child_adds_one_link(
    database: Database,
    before: Tables,
    links: Map<(u64, Seq<char>), u64>,
    parent: u64,
    child: u64,
    name: Seq<char>,
)
    requires
        database.understands_sql(),
        holds_links(before[Table::Link], links),
        !links.contains_key((parent, name)),
        crate::sql::bindable(parent),
        crate::sql::bindable(child),
        database.after(FloconTree::add_child_statement(parent, child, name), before) is Some,
    ensures
        ({
            let after = database.after(
                FloconTree::add_child_statement(parent, child, name),
                before,
            )->Some_0;
            &&& holds_links(after[Table::Link], links.insert((parent, name), child))
            &&& forall|t: Table| t != Table::Link ==> #[trigger] after[t] == before[t]
        }),
{
    let c = add_child_change();
    let s = FloconTree::add_child_statement(parent, child, name);
    let after = database.after(s, before)->Some_0;
    lemma_add_child_text(parent, child, name);
    assert(c.does(before, s.params, after));
    let rows = before[Table::Link];
    let f = c->fields;
    let row = choose|row: Row|
        {
            &&& after == #[trigger] before.insert(Table::Link, rows.push(row))
            &&& forall|i: int| 0 <= i < f.len() ==> row[#[trigger] f[i]] == s.params[i]
        };
    assert(row[f[0]] == s.params[0]);
    assert(row[f[1]] == s.params[1]);
    assert(row[f[2]] == s.params[2]);
    lemma_with_key(rows, by_place(), links.dom(), row);
    assert(links.insert((parent, name), child).dom() =~= links.dom().insert((parent, name)));
}

/// A name that was removed from a directory leads nowhere, every other name
/// leads where it did, and no other table changes.
pub proof fn remove_child_takes_out_one_link(
    database: Database,
    before: Tables,
    links: Map<(u64, Seq<char>), u64>,
    parent: u64,
    name: Seq<char>,
)
    requires
        database.understands_sql(),
        holds_links(before[Table::Link], links),
        crate::sql::bindable(parent),
        database.after(FloconTree::remove_child_statement(parent, name), before) is Some,
    ensures
        ({
            let after = database.after(
                FloconTree::remove_child_statement(parent, name),
                before,
            )->Some_0;
            &&& holds_links(after[Table::Link], links.remove((parent, name)))
            &&& forall|t: Table| t != Table::Link ==> #[trigger] after[t] == before[t]
        }),
{
    let c = remove_child_change();
    let s = FloconTree::remove_child_statement(parent, name);
    let after = database.after(s, before)->Some_0;
    lemma_remove_child_text(parent, name);
    assert(c.does(before, s.params, after));
    let rows = before[Table::Link];
    let conditions = c->Delete_conditions;
    let gone = |row: Row| crate::database::meets(row, conditions, s.params);
    let keep = |row: Row| !gone(row);
    let place = (parent, name);
    assert forall|row: Row| #[trigger] rows.contains(row) implies (keep(row) <==> !set![place].contains(
        by_place()(row),
    )) by {
        assert(is_link(row));
        assert(conditions[0].met(row, s.params[0]) <==> row[Field::ParentId] == s.params[0]);
        assert(conditions[1].met(row, s.params[1]) <==> row[Field::Name] == s.params[1]);
    }
    lemma_without_key(rows, by_place(), links.dom(), set![place], keep);
    assert(links.remove(place).dom() =~= links.dom().difference(set![place]));
}

/// Whether a value is the text of this point in time.
pub open spec fn is_time(value: SqlView, secs: i64, nsec: i64) -> bool {
    exists|text: Seq<char>, t: (i64, u32)| #[trigger]
        crate::timestamp::reads_as(text, t) && value == SqlView::Text(text) && secs == t.0 && nsec
            == t.1 as i64
}

/// Whether a row of the table of inodes holds these attributes, each in the
/// column of its name.
pub open spec fn is_inode(row: Row, attrs: EntryCore) -> bool {
    &&& row[Field::Id] == SqlView::Integer(attrs.st_ino as i64) && attrs.st_ino <= i64::MAX
    &&& row[Field::Mode] == SqlView::Integer(attrs.st_mode as i64)
    &&& row[Field::Uid] == SqlView::Integer(attrs.st_uid as i64)
    &&& row[Field::Gid] == SqlView::Integer(attrs.st_gid as i64)
    &&& row[Field::Size] == SqlView::Integer(attrs.st_size)
    &&& row[Field::Rdev] == SqlView::Integer(attrs.st_rdev as i64) && attrs.st_rdev <= i64::MAX
    &&& is_time(row[Field::Atime], attrs.st_atime, attrs.st_atime_nsec)
    &&& is_time(row[Field::Mtime], attrs.st_mtime, attrs.st_mtime_nsec)
    &&& is_time(row[Field::Ctime], attrs.st_ctime, attrs.st_ctime_nsec)
}

/// The identifier of each inode.
pub open spec fn by_id() -> spec_fn(Row) -> u64 {
    |row: Row| row[Field::Id]->Integer_0 as u64
}

/// Whether the table of inodes holds these: one row for each of them.
pub open spec fn holds_inodes(rows: Seq<Row>, inodes: Map<u64, EntryCore>) -> bool {
    &&& keyed(rows, by_id(), inodes.dom())
    &&& forall|row: Row| #[trigger]
        rows.contains(row) ==> is_inode(row, inodes[by_id()(row)]) && inodes[by_id()(row)].st_ino
            == by_id()(row)
}

/// A condition on the identifier holds of the row with that identifier.
proof fn lemma_by_id(rows: Seq<Row>, inodes: Map<u64, EntryCore>, inode: u64, params: Seq<SqlView>)
    requires
        holds_inodes(rows, inodes),
        crate::sql::bindable(inode),
        params.len() == 1,
        params[0] == crate::sql::int_param(inode),
    ensures
        forall|row: Row| #[trigger]
            rows.contains(row) ==> (crate::database::meets(
                row,
                seq![crate::database::equal(Field::Id)],
                params,
            ) <==> by_id()(row) == inode),
{
    let conditions = seq![crate::database::equal(Field::Id)];
    assert forall|row: Row| #[trigger] rows.contains(row) implies (crate::database::meets(
        row,
        conditions,
        params,
    ) <==> by_id()(row) == inode) by {
        assert(conditions[0].met(row, params[0]) <==> row[Field::Id] == params[0]);
    }
}

/// Reading an inode gives its attributes as they are stored, each out of the
/// column of its name, and it is not found exactly if there is none.
pub proof fn get_inode_reads_what_is_stored(
    database: Database,
    tables: Tables,
    inodes: Map<u64, EntryCore>,
    inode: u64,
)
    requires
        database.understands_sql(),
        holds_inodes(tables[Table::Inode], inodes),
        crate::sql::bindable(inode),
    ensures
        crate::flocon::inode_of_rows(
            database.rows(FloconTree::get_inode_statement(inode), tables),
        ) == if inodes.contains_key(inode) {
            Ok(inodes[inode])
        } else {
            Err(crate::error::os(crate::error::ENOENT))
        },
{
    let q = inode_query();
    let s = FloconTree::get_inode_statement(inode);
    lemma_inode_text(inode);
    let rows = database.rows(s, tables);
    let (picked, part) = crate::database::lemma_query(database, q, s, tables);
    lemma_by_id(tables[Table::Inode], inodes, inode, s.params);
    lemma_picks_one(q, tables, s.params, picked, by_id(), inodes.dom(), inode);
    if picked.len() > 0 {
        let items = q.wanted->Items_0;
        let row = picked[0];
        let given = rows[0];
        assert(given == items.map_values(|item: Item| item.of(row)));
        assert(given[0] == row[Field::Id]);
        assert(given[1] == row[Field::Mode]);
        assert(given[2] == row[Field::Uid]);
        assert(given[3] == row[Field::Gid]);
        assert(given[4] == row[Field::Size]);
        assert(given[5] == row[Field::Rdev]);
        assert(given[6] == row[Field::Atime]);
        assert(given[7] == row[Field::Mtime]);
        assert(given[8] == row[Field::Ctime]);
    }
}

/// Setting a column of one inode.
proof fn lemma_inode_changed(
    before: Tables,
    after: Tables,
    inodes: Map<u64, EntryCore>,
    inode: u64,
    field: Field,
    value: SqlView,
    params: Seq<SqlView>,
    attrs: EntryCore,
)
    requires
        holds_inodes(before[Table::Inode], inodes),
        crate::sql::bindable(inode),
        params.len() == 1,
        params[0] == crate::sql::int_param(inode),
        inodes.contains_key(inode),
        field != Field::Id,
        attrs.st_ino == inode,
        forall|row: Row|
            is_inode(row, inodes[inode]) ==> #[trigger] is_inode(row.insert(field, value), attrs),
        after == before.insert(
            Table::Inode,
            before[Table::Inode].map_values(
                |row: Row|
                    if crate::database::meets(
                        row,
                        seq![crate::database::equal(Field::Id)],
                        params,
                    ) {
                        row.insert(field, value)
                    } else {
                        row
                    },
            ),
        ),
    ensures
        holds_inodes(after[Table::Inode], inodes.insert(inode, attrs)),
        forall|t: Table| t != Table::Inode ==> #[trigger] after[t] == before[t],
{
    let rows = before[Table::Inode];
    let conditions = seq![crate::database::equal(Field::Id)];
    let change = |row: Row|
        if crate::database::meets(row, conditions, params) {
            row.insert(field, value)
        } else {
            row
        };
    lemma_by_id(rows, inodes, inode, params);
    lemma_changed_rows(rows, by_id(), inodes.dom(), change);
    assert(inodes.insert(inode, attrs).dom() =~= inodes.dom());
    assert forall|row: Row| #[trigger] after[Table::Inode].contains(row) implies is_inode(
        row,
        inodes.insert(inode, attrs)[by_id()(row)],
    ) && inodes.insert(inode, attrs)[by_id()(row)].st_ino == by_id()(row) by {
        let r = choose|r: Row| #[trigger] rows.contains(r) && change(r) == row;
        if by_id()(r) == inode {
            assert(is_inode(r.insert(field, value), attrs));
        }
    }
}

/// The attributes of an inode after one of the columns that hold numbers was
/// set.
pub open spec fn with_number(attrs: EntryCore, field: Field, value: u64) -> EntryCore {
    match field {
        Field::Mode => EntryCore { st_mode: value as u32, ..attrs },
        Field::Uid => EntryCore { st_uid: value as u32, ..attrs },
        Field::Gid => EntryCore { st_gid: value as u32, ..attrs },
        Field::Size => EntryCore { st_size: value as i64, ..attrs },
        Field::Rdev => EntryCore { st_rdev: value, ..attrs },
        _ => attrs,
    }
}

/// The attributes of an inode after one of the columns that hold times was set.
pub open spec fn with_time(attrs: EntryCore, field: Field, t: (i64, u32)) -> EntryCore {
    match field {
        Field::Atime => EntryCore { st_atime: t.0, st_atime_nsec: t.1 as i64, ..attrs },
        Field::Mtime => EntryCore { st_mtime: t.0, st_mtime_nsec: t.1 as i64, ..attrs },
        Field::Ctime => EntryCore { st_ctime: t.0, st_ctime_nsec: t.1 as i64, ..attrs },
        _ => attrs,
    }
}

/// The statement that sets a column of an inode.
spec fn update_inode_change(field: Field) -> Change {
    Change::Update {
        table: Table::Inode,
        field,
        setting: Setting::Param,
        conditions: seq![crate::database::equal(Field::Id)],
    }
}

#[verifier::rlimit(60)]
proof fn lemma_update_inode_text(field: Field, value: SqlView, inode: u64)
    ensures
        crate::flocon::update_inode_statement(field.text(), value, inode).sql
            == update_inode_change(field).text(),
{
    reveal_with_fuel(crate::database::conditions_text, 2);
    reveal_strlit("update ");
    reveal_strlit("inode");
    reveal_strlit(" set ");
    reveal_strlit(" = ?");
    reveal_strlit(" where ");
    reveal_strlit("id");
    reveal_strlit("update inode set ");
    reveal_strlit(" = ? where id = ?");
    assert(crate::flocon::update_inode_statement(field.text(), value, inode).sql
        =~= update_inode_change(field).text());
}

/// A number that was set in a column of an inode is that attribute from there on,
/// every other attribute and every other inode stays as it is, and no other
/// table changes.
pub proof fn update_inode_numeric_sets_one_attribute(
    database: Database,
    before: Tables,
    inodes: Map<u64, EntryCore>,
    inode: u64,
    field: Field,
    value: u64,
)
    requires
        database.understands_sql(),
        holds_inodes(before[Table::Inode], inodes),
        inodes.contains_key(inode),
        crate::sql::bindable(inode),
        crate::sql::bindable(value),
        field == Field::Mode || field == Field::Uid || field == Field::Gid ==> value <= u32::MAX,
        field == Field::Mode || field == Field::Uid || field == Field::Gid || field == Field::Size
            || field == Field::Rdev,
        database.after(
            crate::flocon::update_inode_statement(
                field.text(),
                crate::sql::int_param(value),
                inode,
            ),
            before,
        ) is Some,
    ensures
        ({
            let after = database.after(
                crate::flocon::update_inode_statement(
                    field.text(),
                    crate::sql::int_param(value),
                    inode,
                ),
                before,
            )->Some_0;
            &&& holds_inodes(
                after[Table::Inode],
                inodes.insert(inode, with_number(inodes[inode], field, value)),
            )
            &&& forall|t: Table| t != Table::Inode ==> #[trigger] after[t] == before[t]
        }),
{
    let c = update_inode_change(field);
    let param = crate::sql::int_param(value);
    let s = crate::flocon::update_inode_statement(field.text(), param, inode);
    let after = database.after(s, before)->Some_0;
    lemma_update_inode_text(field, param, inode);
    assert(c.does(before, s.params, after));
    lemma_inode_changed(
        before,
        after,
        inodes,
        inode,
        field,
        param,
        s.params.skip(1),
        with_number(inodes[inode], field, value),
    );
}

/// Of the columns exactly those of an inode but its identifier can be set, each
/// to what it holds: a number or a point in time.
pub proof fn columns_of_an_inode_can_be_set(field: Field)
    ensures
        crate::flocon::is_numeric_field(field.text()) <==> field == Field::Mode || field
            == Field::Uid || field == Field::Gid || field == Field::Size || field == Field::Rdev,
        crate::flocon::is_datetime_field(field.text()) <==> field == Field::Atime || field
            == Field::Mtime || field == Field::Ctime || field == Field::Btime,
{
    reveal_strlit("mode");
    reveal_strlit("uid");
    reveal_strlit("gid");
    reveal_strlit("size");
    reveal_strlit("rdev");
    reveal_strlit("id");
    reveal_strlit("atime");
    reveal_strlit("mtime");
    reveal_strlit("ctime");
    reveal_strlit("btime");
    reveal_strlit("parent_id");
    reveal_strlit("child_id");
    reveal_strlit("name");
    reveal_strlit("inode_id");
    reveal_strlit("first_byte");
    reveal_strlit("last_byte");
    reveal_strlit("data");
    reveal_strlit("value");
    assert("mode"@[0] == 'm');
    assert("uid"@[0] == 'u');
    assert("gid"@[0] == 'g');
    assert("size"@[0] == 's');
    assert("rdev"@[0] == 'r');
    assert("atime"@[0] == 'a');
    assert("mtime"@[0] == 'm');
    assert("ctime"@[0] == 'c');
    assert("btime"@[0] == 'b');
    assert("name"@[0] == 'n');
    assert("data"@[0] == 'd');
    assert("value"@[0] == 'v');
    match field {
        Field::Id => assert(field.text() == "id"@),
        Field::Mode => assert(field.text() == "mode"@),
        Field::Uid => assert(field.text() == "uid"@),
        Field::Gid => assert(field.text() == "gid"@),
        Field::Size => assert(field.text() == "size"@),
        Field::Rdev => assert(field.text() == "rdev"@),
        Field::Atime => assert(field.text() == "atime"@),
        Field::Mtime => assert(field.text() == "mtime"@),
        Field::Ctime => assert(field.text() == "ctime"@),
        Field::Btime => assert(field.text() == "btime"@),
        Field::ParentId => assert(field.text() == "parent_id"@),
        Field::ChildId => assert(field.text() == "child_id"@),
        Field::Name => assert(field.text() == "name"@),
        Field::InodeId => assert(field.text() == "inode_id"@),
        Field::FirstByte => assert(field.text() == "first_byte"@),
        Field::LastByte => assert(field.text() == "last_byte"@),
        Field::Data => assert(field.text() == "data"@),
        Field::Value => assert(field.text() == "value"@),
    }
}

/// A time that was set in a column of an inode is that attribute from there on,
/// every other attribute and every other inode stays as it is, and no other
/// table changes.
pub proof fn update_inode_datetime_sets_one_attribute(
    database: Database,
    before: Tables,
    inodes: Map<u64, EntryCore>,
    inode: u64,
    field: Field,
    t: (i64, u32),
)
    requires
        database.understands_sql(),
        holds_inodes(before[Table::Inode], inodes),
        inodes.contains_key(inode),
        crate::sql::bindable(inode),
        field == Field::Atime || field == Field::Mtime || field == Field::Ctime || field
            == Field::Btime,
        crate::timestamp::reads_as(crate::timestamp::rfc3339_nanos(t.0, t.1), t),
        database.after(
            crate::flocon::update_inode_statement(
                field.text(),
                SqlView::Text(crate::timestamp::rfc3339_nanos(t.0, t.1)),
                inode,
            ),
            before,
        ) is Some,
    ensures
        ({
            let after = database.after(
                crate::flocon::update_inode_statement(
                    field.text(),
                    SqlView::Text(crate::timestamp::rfc3339_nanos(t.0, t.1)),
                    inode,
                ),
                before,
            )->Some_0;
            &&& holds_inodes(
                after[Table::Inode],
                inodes.insert(inode, with_time(inodes[inode], field, t)),
            )
            &&& forall|t: Table| t != Table::Inode ==> #[trigger] after[t] == before[t]
        }),
{
    let c = update_inode_change(field);
    let param = SqlView::Text(crate::timestamp::rfc3339_nanos(t.0, t.1));
    let s = crate::flocon::update_inode_statement(field.text(), param, inode);
    let after = database.after(s, before)->Some_0;
    lemma_update_inode_text(field, param, inode);
    assert(c.does(before, s.params, after));
    lemma_inode_changed(
        before,
        after,
        inodes,
        inode,
        field,
        param,
        s.params.skip(1),
        with_time(inodes[inode], field, t),
    );
}

/// An inode that was created is new, has the mode, the owner and the device that
/// were asked for, is empty, and all of its times are the present. Every other
/// inode stays as it is, and no other table changes.
pub proof fn create_inode_adds_one_inode(
    database: Database,
    before: Tables,
    inodes: Map<u64, EntryCore>,
    mode: u32,
    uid: u32,
    gid: u32,
    rdev: u64,
    now: (i64, u32),
)
    requires
        database.understands_sql(),
        holds_inodes(before[Table::Inode], inodes),
        crate::sql::bindable(rdev),
        crate::timestamp::reads_as(crate::timestamp::rfc3339_nanos(now.0, now.1), now),
        database.after(
            FloconTree::create_inode_statement(mode, uid, gid, rdev, now),
            before,
        ) is Some,
    ensures
        ({
            let after = database.after(
                FloconTree::create_inode_statement(mode, uid, gid, rdev, now),
                before,
            )->Some_0;
            &&& exists|id: u64|
                {
                    &&& 0 < id <= i64::MAX
                    &&& !inodes.contains_key(id)
                    &&& holds_inodes(
                        after[Table::Inode],
                        #[trigger] inodes.insert(
                            id,
                            EntryCore {
                                st_ino: id,
                                st_size: 0,
                                st_atime: now.0,
                                st_atime_nsec: now.1 as i64,
                                st_mtime: now.0,
                                st_mtime_nsec: now.1 as i64,
                                st_ctime: now.0,
                                st_ctime_nsec: now.1 as i64,
                                st_mode: mode,
                                st_uid: uid,
                                st_gid: gid,
                                st_rdev: rdev,
                            },
                        ),
                    )
                }
            &&& forall|t: Table| t != Table::Inode ==> #[trigger] after[t] == before[t]
        }),
{
    let c = create_inode_change();
    let s = FloconTree::create_inode_statement(mode, uid, gid, rdev, now);
    let after = database.after(s, before)->Some_0;
    lemma_create_inode_text(mode, uid, gid, rdev, now);
    assert(c.does(before, s.params, after));
    let rows = before[Table::Inode];
    let f = c->fields;
    assert(!f.contains(Field::Id));
    let row = choose|row: Row|
        {
            &&& after == #[trigger] before.insert(Table::Inode, rows.push(row))
            &&& forall|i: int| 0 <= i < f.len() ==> row[#[trigger] f[i]] == s.params[i]
            &&& row[Field::Id] matches SqlView::Integer(id) && id > 0
            &&& forall|i: int|
                0 <= i < rows.len() ==> (#[trigger] rows[i])[Field::Id] != row[Field::Id]
        };
    assert(row[f[0]] == s.params[0]);
    assert(row[f[1]] == s.params[1]);
    assert(row[f[2]] == s.params[2]);
    assert(row[f[3]] == s.params[3]);
    assert(row[f[4]] == s.params[4]);
    assert(row[f[5]] == s.params[5]);
    assert(row[f[6]] == s.params[6]);
    assert(row[f[7]] == s.params[7]);
    let id = by_id()(row);
    assert(!inodes.dom().contains(id)) by {
        if inodes.dom().contains(id) {
            let r = choose|r: Row| #[trigger] rows.contains(r) && by_id()(r) == id;
            assert(is_inode(r, inodes[id]));
            let i = choose|i: int| 0 <= i < rows.len() && rows[i] == r;
            assert(rows[i][Field::Id] != row[Field::Id]);
        }
    }
    lemma_with_key(rows, by_id(), inodes.dom(), row);
    let attrs = EntryCore {
        st_ino: id,
        st_size: 0,
        st_atime: now.0,
        st_atime_nsec: now.1 as i64,
        st_mtime: now.0,
        st_mtime_nsec: now.1 as i64,
        st_ctime: now.0,
        st_ctime_nsec: now.1 as i64,
        st_mode: mode,
        st_uid: uid,
        st_gid: gid,
        st_rdev: rdev,
    };
    assert(is_inode(row, attrs));
    assert(inodes.insert(id, attrs).dom() =~= inodes.dom().insert(id));
    assert(holds_inodes(after[Table::Inode], inodes.insert(id, attrs)));
}

/// Whether a row of the table of extended attributes holds what it should.
pub open spec fn is_xattr(row: Row) -> bool {
    &&& row[Field::InodeId] matches SqlView::Integer(inode) && inode >= 0
    &&& row[Field::Name] is Text
    &&& row[Field::Value] is Blob
}

/// The inode and the key of each extended attribute.
pub open spec fn by_key() -> spec_fn(Row) -> (u64, Seq<char>) {
    |row: Row| (row[Field::InodeId]->Integer_0 as u64, row[Field::Name]->Text_0)
}

/// Whether the table of extended attributes holds these: one row for each of
/// them.
pub open spec fn holds_xattrs(rows: Seq<Row>, xattrs: Map<(u64, Seq<char>), Seq<u8>>) -> bool {
    &&& keyed(rows, by_key(), xattrs.dom())
    &&& forall|row: Row| #[trigger]
        rows.contains(row) ==> is_xattr(row) && row[Field::Value] == SqlView::Blob(
            xattrs[by_key()(row)],
        )
}

/// Conditions on the inode and the key hold of the row with these.
proof fn lemma_by_key(
    rows: Seq<Row>,
    xattrs: Map<(u64, Seq<char>), Seq<u8>>,
    inode: u64,
    key: Seq<char>,
    params: Seq<SqlView>,
)
    requires
        holds_xattrs(rows, xattrs),
        crate::sql::bindable(inode),
        params.len() == 2,
        params[0] == crate::sql::int_param(inode),
        params[1] == SqlView::Text(key),
    ensures
        forall|row: Row| #[trigger]
            rows.contains(row) ==> (crate::database::meets(
                row,
                seq![crate::database::equal(Field::InodeId), crate::database::equal(Field::Name)],
                params,
            ) <==> by_key()(row) == (inode, key)),
{
    let conditions = seq![
        crate::database::equal(Field::InodeId),
        crate::database::equal(Field::Name),
    ];
    assert forall|row: Row| #[trigger] rows.contains(row) implies (crate::database::meets(
        row,
        conditions,
        params,
    ) <==> by_key()(row) == (inode, key)) by {
        assert(is_xattr(row));
        assert(conditions[0].met(row, params[0]) <==> row[Field::InodeId] == params[0]);
        assert(conditions[1].met(row, params[1]) <==> row[Field::Name] == params[1]);
    }
}

/// Getting an extended attribute that may be set, unless its key is `flocon`,
/// gives the value that the inode has under that key, and it is not found
/// exactly if there is none, whatever other inodes and other keys have.
pub proof fn xattr_get_reads_what_is_stored(
    database: Database,
    tables: Tables,
    xattrs: Map<(u64, Seq<char>), Seq<u8>>,
    inode: u64,
    key: Seq<char>,
    image: Seq<char>,
)
    requires
        database.understands_sql(),
        holds_xattrs(tables[Table::Xattr], xattrs),
        crate::sql::bindable(inode),
        !crate::text::begins_with(key, "flocon."@),
        key != "flocon"@,
    ensures
        FloconHandle::xattr_of_rows(
            key,
            image,
            database.rows(FloconHandle::xattr_query_statement(inode, key), tables),
        ) == if xattrs.contains_key((inode, key)) {
            Ok(xattrs[(inode, key)])
        } else {
            Err(crate::flocon::no_data())
        },
{
    let q = xattr_query();
    let s = FloconHandle::xattr_query_statement(inode, key);
    lemma_xattr_text(inode, key);
    crate::flocon::settable_xattrs_are_read_from_storage(key);
    let rows = database.rows(s, tables);
    let (picked, part) = crate::database::lemma_query(database, q, s, tables);
    lemma_by_key(tables[Table::Xattr], xattrs, inode, key, s.params);
    lemma_picks_one(q, tables, s.params, picked, by_key(), xattrs.dom(), (inode, key));
    if picked.len() > 0 {
        assert(rows[0][0] == picked[0][Field::Value]);
    }
}

/// Changing an extended attribute that is stored gives it the new value, and
/// changing one that is not does nothing. Every other one stays as it is, and
/// no other table changes.
pub proof fn xattr_update_changes_one_value(
    database: Database,
    before: Tables,
    xattrs: Map<(u64, Seq<char>), Seq<u8>>,
    inode: u64,
    key: Seq<char>,
    value: Seq<u8>,
)
    requires
        database.understands_sql(),
        holds_xattrs(before[Table::Xattr], xattrs),
        crate::sql::bindable(inode),
        database.after(FloconHandle::xattr_update_statement(inode, key, value), before) is Some,
    ensures
        ({
            let after = database.after(
                FloconHandle::xattr_update_statement(inode, key, value),
                before,
            )->Some_0;
            &&& holds_xattrs(
                after[Table::Xattr],
                if xattrs.contains_key((inode, key)) {
                    xattrs.insert((inode, key), value)
                } else {
                    xattrs
                },
            )
            &&& forall|t: Table| t != Table::Xattr ==> #[trigger] after[t] == before[t]
        }),
{
    let c = xattr_update_change();
    let s = FloconHandle::xattr_update_statement(inode, key, value);
    let after = database.after(s, before)->Some_0;
    lemma_xattr_update_text(inode, key, value);
    assert(c.does(before, s.params, after));
    let rows = before[Table::Xattr];
    let conditions = c->Update_conditions;
    let params = s.params.skip(1);
    let change = |row: Row|
        if crate::database::meets(row, conditions, params) {
            row.insert(Field::Value, s.params[0])
        } else {
            row
        };
    lemma_by_key(rows, xattrs, inode, key, params);
    lemma_changed_rows(rows, by_key(), xattrs.dom(), change);
    let now = if xattrs.contains_key((inode, key)) {
        xattrs.insert((inode, key), value)
    } else {
        xattrs
    };
    assert(now.dom() =~= xattrs.dom());
    assert forall|row: Row| #[trigger] after[Table::Xattr].contains(row) implies is_xattr(row)
        && row[Field::Value] == SqlView::Blob(now[by_key()(row)]) by {
        let r = choose|r: Row| #[trigger] rows.contains(r) && change(r) == row;
        assert(is_xattr(r));
        assert(by_key()(row) == by_key()(r));
    }
}

/// Adding an extended attribute stores it under its inode and its key. Every
/// other one stays as it is, and no other table changes.
pub proof fn xattr_insert_adds_one_value(
    database: Database,
    before: Tables,
    xattrs: Map<(u64, Seq<char>), Seq<u8>>,
    inode: u64,
    key: Seq<char>,
    value: Seq<u8>,
)
    requires
        database.understands_sql(),
        holds_xattrs(before[Table::Xattr], xattrs),
        crate::sql::bindable(inode),
        !xattrs.contains_key((inode, key)),
        database.after(FloconHandle::xattr_insert_statement(inode, key, value), before) is Some,
    ensures
        ({
            let after = database.after(
                FloconHandle::xattr_insert_statement(inode, key, value),
                before,
            )->Some_0;
            &&& holds_xattrs(after[Table::Xattr], xattrs.insert((inode, key), value))
            &&& forall|t: Table| t != Table::Xattr ==> #[trigger] after[t] == before[t]
        }),
{
    let c = xattr_insert_change();
    let s = FloconHandle::xattr_insert_statement(inode, key, value);
    let after = database.after(s, before)->Some_0;
    lemma_xattr_insert_text(inode, key, value);
    assert(c.does(before, s.params, after));
    let rows = before[Table::Xattr];
    let f = c->fields;
    let row = choose|row: Row|
        {
            &&& after == #[trigger] before.insert(Table::Xattr, rows.push(row))
            &&& forall|i: int| 0 <= i < f.len() ==> row[#[trigger] f[i]] == s.params[i]
        };
    assert(row[f[0]] == s.params[0]);
    assert(row[f[1]] == s.params[1]);
    assert(row[f[2]] == s.params[2]);
    assert(by_key()(row) == (inode, key));
    lemma_with_key(rows, by_key(), xattrs.dom(), row);
    assert(xattrs.insert((inode, key), value).dom() =~= xattrs.dom().insert((inode, key)));
}

/// An extended attribute that was removed is gone. Every other one stays as it
/// is, and no other table changes.
pub proof fn xattr_delete_takes_out_one_value(
    database: Database,
    before: Tables,
    xattrs: Map<(u64, Seq<char>), Seq<u8>>,
    inode: u64,
    key: Seq<char>,
)
    requires
        database.understands_sql(),
        holds_xattrs(before[Table::Xattr], xattrs),
        crate::sql::bindable(inode),
        database.after(FloconHandle::xattr_delete_statement(inode, key), before) is Some,
    ensures
        ({
            let after = database.after(
                FloconHandle::xattr_delete_statement(inode, key),
                before,
            )->Some_0;
            &&& holds_xattrs(after[Table::Xattr], xattrs.remove((inode, key)))
            &&& forall|t: Table| t != Table::Xattr ==> #[trigger] after[t] == before[t]
        }),
{
    let c = xattr_delete_change();
    let s = FloconHandle::xattr_delete_statement(inode, key);
    let after = database.after(s, before)->Some_0;
    lemma_xattr_delete_text(inode, key);
    assert(c.does(before, s.params, after));
    let rows = before[Table::Xattr];
    let conditions = c->Delete_conditions;
    let gone = |row: Row| crate::database::meets(row, conditions, s.params);
    let keep = |row: Row| !gone(row);
    lemma_by_key(rows, xattrs, inode, key, s.params);
    lemma_without_key(rows, by_key(), xattrs.dom(), set![(inode, key)], keep);
    assert(xattrs.remove((inode, key)).dom() =~= xattrs.dom().difference(set![(inode, key)]));
}

/// What is read out of rows of one text each.
proof fn lemma_texts(rows: Seq<Seq<SqlView>>, texts: Seq<Seq<char>>)
    requires
        rows.len() == texts.len(),
        forall|i: int|
            0 <= i < rows.len() ==> (#[trigger] rows[i]).len() > 0 && rows[i][0] == SqlView::Text(
                texts[i],
            ),
    ensures
        crate::flocon::texts_of_rows(rows) == Ok::<Seq<Seq<char>>, ErrorView>(texts),
    decreases rows.len(),
{
    if rows.len() > 0 {
        lemma_texts(rows.drop_last(), texts.drop_last());
        assert(texts.drop_last().push(texts.last()) =~= texts);
    } else {
        assert(texts =~= seq![]);
    }
}

/// Listing the extended attributes of an inode gives each key that it has a value
/// under once, and no other.
pub proof fn xattr_keys_are_those_of_the_inode(
    database: Database,
    tables: Tables,
    xattrs: Map<(u64, Seq<char>), Seq<u8>>,
    inode: u64,
)
    requires
        database.understands_sql(),
        holds_xattrs(tables[Table::Xattr], xattrs),
        crate::sql::bindable(inode),
    ensures
        crate::flocon::texts_of_rows(
            database.rows(FloconHandle::xattr_keys_statement(inode), tables),
        ) matches Ok(keys) && keys.no_duplicates() && forall|key: Seq<char>| #[trigger]
            keys.contains(key) <==> xattrs.contains_key((inode, key)),
{
    let q = xattr_keys_query();
    let s = FloconHandle::xattr_keys_statement(inode);
    let all = tables[Table::Xattr];
    lemma_xattr_keys_text(inode);
    let rows = database.rows(s, tables);
    let (picked, part) = crate::database::lemma_query(database, q, s, tables);
    crate::database::lemma_picked(q, tables, s.params, picked);
    let keys = picked.map_values(|row: Row| row[Field::Name]->Text_0);
    assert forall|row: Row| #[trigger] all.contains(row) implies (crate::database::meets(
        row,
        q.conditions,
        s.params,
    ) <==> by_key()(row).0 == inode) by {
        assert(is_xattr(row));
        assert(q.conditions[0].met(row, s.params[0]) <==> row[Field::InodeId] == s.params[0]);
    }
    assert forall|i: int| 0 <= i < rows.len() implies (#[trigger] rows[i]).len() > 0 && rows[i][0]
        == SqlView::Text(keys[i]) by {
        assert(picked.contains(picked[i]));
        assert(is_xattr(picked[i]));
        assert(rows[i][0] == picked[i][Field::Name]);
    }
    lemma_texts(rows, keys);
    assert forall|i: int, j: int| 0 <= i < keys.len() && 0 <= j < keys.len() && i
        != j implies keys[i] != keys[j] by {
        assert(picked.contains(picked[i]) && picked.contains(picked[j]));
        assert(picked[i] != picked[j]);
        assert(by_key()(picked[i]) != by_key()(picked[j]));
    }
    assert forall|key: Seq<char>| #[trigger] keys.contains(key) <==> xattrs.contains_key(
        (inode, key),
    ) by {
        if keys.contains(key) {
            let i = choose|i: int| 0 <= i < keys.len() && keys[i] == key;
            assert(picked.contains(picked[i]));
            assert(by_key()(picked[i]) == (inode, key));
        }
        if xattrs.contains_key((inode, key)) {
            assert(xattrs.dom().contains((inode, key)));
            let row = choose|row: Row| #[trigger] all.contains(row) && by_key()(row) == (inode, key);
            assert(picked.contains(row));
            let i = choose|i: int| 0 <= i < picked.len() && picked[i] == row;
            assert(keys[i] == key);
        }
    }
}

/// Of two texts only one comes before the other.
proof fn lemma_order_is_strict(a: Seq<u8>, b: Seq<u8>)
    ensures
        !(crate::flocon::comes_before(a, b) && crate::flocon::comes_before(b, a)),
{
    if crate::flocon::comes_before(a, b) && crate::flocon::comes_before(b, a) {
        let k = choose|k: int|
            {
                &&& 0 <= k <= a.len()
                &&& k < b.len()
                &&& #[trigger] a.take(k) == b.take(k)
                &&& k < a.len() ==> a[k] < b[k]
            };
        let m = choose|m: int|
            {
                &&& 0 <= m <= b.len()
                &&& m < a.len()
                &&& #[trigger] b.take(m) == a.take(m)
                &&& m < b.len() ==> b[m] < a[m]
            };
        if k < m {
            assert(a.take(m)[k] == b.take(m)[k]);
        } else if m < k {
            assert(a.take(k)[m] == b.take(k)[m]);
        }
    }
}

/// Of two different texts that agree up to a byte one comes before the other.
proof fn lemma_order_is_total(a: Seq<u8>, b: Seq<u8>, k: int)
    requires
        0 <= k <= a.len(),
        k <= b.len(),
        a.take(k) == b.take(k),
    ensures
        a == b || crate::flocon::comes_before(a, b) || crate::flocon::comes_before(b, a),
    decreases a.len() - k,
{
    if k == a.len() && k == b.len() {
        assert(a =~= a.take(k));
        assert(b =~= b.take(k));
    } else if k < a.len() && k < b.len() && a[k] == b[k] {
        assert(a.take(k + 1) =~= a.take(k).push(a[k]));
        assert(b.take(k + 1) =~= b.take(k).push(b[k]));
        lemma_order_is_total(a, b, k + 1);
    } else if k < b.len() && (k == a.len() || a[k] < b[k]) {
        assert(crate::flocon::comes_before(a, b));
    } else {
        assert(b.take(k) == a.take(k));
        assert(crate::flocon::comes_before(b, a));
    }
}

/// Children in the order of their names are in no other order.
proof fn lemma_one_order(a: Seq<(Seq<char>, u64)>, b: Seq<(Seq<char>, u64)>)
    requires
        crate::flocon::by_name(a),
        crate::flocon::by_name(b),
        forall|c: (Seq<char>, u64)| #[trigger] a.contains(c) <==> b.contains(c),
    ensures
        a == b,
    decreases a.len(),
{
    if a.len() == 0 {
        if b.len() > 0 {
            assert(a.contains(b[0]));
        }
        assert(a =~= b);
    } else {
        let x = a.last();
        assert(a.contains(x));
        assert(b.contains(x));
        let y = b.last();
        assert(a.contains(y));
        let i = choose|i: int| 0 <= i < a.len() && a[i] == y;
        let j = choose|j: int| 0 <= j < b.len() && b[j] == x;
        lemma_order_is_strict(
            vstd::utf8::encode_utf8(x.0),
            vstd::utf8::encode_utf8(y.0),
        );
        if x != y {
            assert(i < a.len() - 1);
            assert(j < b.len() - 1);
            assert(crate::flocon::comes_before(
                vstd::utf8::encode_utf8(a[i].0),
                vstd::utf8::encode_utf8(a[a.len() - 1].0),
            ));
            assert(crate::flocon::comes_before(
                vstd::utf8::encode_utf8(b[j].0),
                vstd::utf8::encode_utf8(b[b.len() - 1].0),
            ));
        }
        assert(x == y);
        let ha = a.drop_last();
        let hb = b.drop_last();
        assert forall|c: (Seq<char>, u64)| #[trigger] ha.contains(c) <==> hb.contains(c) by {
            lemma_order_is_strict(
                vstd::utf8::encode_utf8(c.0),
                vstd::utf8::encode_utf8(x.0),
            );
            if ha.contains(c) {
                let k = choose|k: int| 0 <= k < ha.len() && ha[k] == c;
                assert(a[k] == c);
                assert(a.contains(c));
                assert(crate::flocon::comes_before(
                    vstd::utf8::encode_utf8(a[k].0),
                    vstd::utf8::encode_utf8(a[a.len() - 1].0),
                ));
                assert(b.contains(c));
                let m = choose|m: int| 0 <= m < b.len() && b[m] == c;
                assert(hb[m] == c);
            }
            if hb.contains(c) {
                let k = choose|k: int| 0 <= k < hb.len() && hb[k] == c;
                assert(b[k] == c);
                assert(crate::flocon::comes_before(
                    vstd::utf8::encode_utf8(b[k].0),
                    vstd::utf8::encode_utf8(b[b.len() - 1].0),
                ));
                assert(a.contains(c));
                let m = choose|m: int| 0 <= m < a.len() && a[m] == c;
                assert(ha[m] == c);
            }
        }
        lemma_one_order(ha, hb);
        assert(a =~= ha.push(x));
        assert(b =~= hb.push(y));
    }
}

/// What is read out of rows of a name and a number each.
proof fn lemma_children(rows: Seq<Seq<SqlView>>, children: Seq<(Seq<char>, u64)>)
    requires
        rows.len() == children.len(),
        forall|i: int|
            #![trigger rows[i]]
            0 <= i < rows.len() ==> rows[i].len() > 1 && rows[i][0] == SqlView::Text(children[i].0)
                && rows[i][1] == SqlView::Integer(children[i].1 as i64) && children[i].1
                <= i64::MAX,
    ensures
        crate::flocon::children_of_rows(rows) == Ok::<Seq<(Seq<char>, u64)>, ErrorView>(children),
    decreases rows.len(),
{
    if rows.len() > 0 {
        let head = rows.drop_last();
        assert forall|i: int|
            #![trigger head[i]]
            0 <= i < head.len() implies head[i].len() > 1 && head[i][0] == SqlView::Text(
            children.drop_last()[i].0,
        ) && head[i][1] == SqlView::Integer(children.drop_last()[i].1 as i64)
            && children.drop_last()[i].1 <= i64::MAX by {
            assert(head[i] == rows[i]);
        }
        lemma_children(head, children.drop_last());
        assert(rows[rows.len() - 1] == rows.last());
        assert(children.drop_last().push(children.last()) =~= children);
    } else {
        assert(children =~= seq![]);
    }
}

/// The name and the inode of each link.
spec fn as_children(rows: Seq<Row>) -> Seq<(Seq<char>, u64)> {
    rows.map_values(|row: Row| (row[Field::Name]->Text_0, link_child(row)))
}

/// The links that are picked for a directory are its children, in the order of
/// their names.
proof fn lemma_picked_children(
    tables: Tables,
    state: FsState,
    parent: u64,
    params: Seq<SqlView>,
    picked: Seq<Row>,
)
    requires
        holds_links(tables[Table::Link], state.links),
        crate::sql::bindable(parent),
        params.len() > 0,
        params[0] == crate::sql::int_param(parent),
        children_query().picks(tables, params, picked),
    ensures
        crate::winter::lists_children(as_children(picked), state, parent),
        crate::flocon::by_name(as_children(picked)),
        forall|i: int|
            0 <= i < picked.len() ==> is_link(#[trigger] picked[i]) && link_place(picked[i]).0
                == parent,
{
    let q = children_query();
    let all = tables[Table::Link];
    let children = as_children(picked);
    crate::database::lemma_picked(q, tables, params, picked);
    assert forall|row: Row| #[trigger] all.contains(row) implies (crate::database::meets(
        row,
        q.conditions,
        params,
    ) <==> by_place()(row).0 == parent) by {
        assert(is_link(row));
        assert(q.conditions[0].met(row, params[0]) <==> row[Field::ParentId] == params[0]);
    }
    assert forall|i: int| 0 <= i < picked.len() implies is_link(#[trigger] picked[i]) && link_place(
        picked[i],
    ).0 == parent && all.contains(picked[i]) by {
        assert(picked.contains(picked[i]));
    }
    assert forall|i: int| 0 <= i < children.len() implies state.links.contains_key(
        (parent, (#[trigger] children[i]).0),
    ) && state.links[(parent, children[i].0)] == children[i].1 by {
        assert(is_link(picked[i]));
        assert(by_place()(picked[i]) == (parent, children[i].0));
    }
    assert forall|name: Seq<char>| #[trigger]
        state.links.contains_key((parent, name)) implies children.contains(
        (name, state.links[(parent, name)]),
    ) by {
        assert(state.links.dom().contains((parent, name)));
        let row = choose|row: Row| #[trigger] all.contains(row) && by_place()(row) == (parent, name);
        assert(picked.contains(row));
        let i = choose|i: int| 0 <= i < picked.len() && picked[i] == row;
        assert(children[i] == (name, state.links[(parent, name)]));
    }
    assert forall|i: int, j: int| 0 <= i < children.len() && 0 <= j < children.len() && i
        != j implies children[i].0 != children[j].0 by {
        assert(is_link(picked[i]) && is_link(picked[j]));
        assert(picked[i] != picked[j]);
        assert(by_place()(picked[i]) != by_place()(picked[j]));
    }
    assert forall|i: int, j: int| 0 <= i < j < children.len() implies crate::flocon::comes_before(
        vstd::utf8::encode_utf8((#[trigger] children[i]).0),
        vstd::utf8::encode_utf8((#[trigger] children[j]).0),
    ) by {
        let a = vstd::utf8::encode_utf8(children[i].0);
        let b = vstd::utf8::encode_utf8(children[j].0);
        assert(is_link(picked[i]) && is_link(picked[j]));
        assert(crate::database::may_precede(picked[i][Field::Name], picked[j][Field::Name]));
        assert(a.take(0) =~= b.take(0));
        lemma_order_is_total(a, b, 0);
        vstd::utf8::encode_utf8_decode_utf8(children[i].0);
        vstd::utf8::encode_utf8_decode_utf8(children[j].0);
    }
}

/// A page of the children of a directory is a page of the list of exactly those
/// links that are in that directory, in the order of their names. There is one
/// such list, so that all pages are out of the same one.
pub proof fn children_are_those_of_the_directory(
    database: Database,
    tables: Tables,
    state: FsState,
    parent: u64,
    size: u64,
    offset: u64,
)
    requires
        database.understands_sql(),
        holds_links(tables[Table::Link], state.links),
        crate::sql::bindable(parent),
        crate::sql::bindable(size),
        crate::sql::bindable(offset),
    ensures
        exists|all: Seq<(Seq<char>, u64)>| #[trigger]
            crate::winter::lists_children(all, state, parent) && crate::flocon::by_name(all),
        forall|all: Seq<(Seq<char>, u64)>| #[trigger]
            crate::winter::lists_children(all, state, parent) && crate::flocon::by_name(all)
                ==> crate::flocon::children_of_rows(
                database.rows(FloconTree::find_children_of_statement(parent, size, offset), tables),
            ) == Ok::<Seq<(Seq<char>, u64)>, ErrorView>(
                crate::winter::page(all, size as int, offset as int),
            ),
{
    let q = children_query();
    let s = FloconTree::find_children_of_statement(parent, size, offset);
    lemma_children_text(parent, size, offset);
    let rows = database.rows(s, tables);
    let (picked, part) = crate::database::lemma_query(database, q, s, tables);
    lemma_picked_children(tables, state, parent, s.params, picked);
    let children = as_children(picked);
    let page = crate::winter::page(children, size as int, offset as int);
    let more = s.params.skip(1);
    assert(more[0] == crate::sql::int_param(size));
    assert(more[1] == crate::sql::int_param(offset));
    assert(part == crate::database::cut_out(picked, size as int, offset as int));
    assert(page.len() == part.len());
    assert forall|i: int|
        #![trigger rows[i]]
        0 <= i < rows.len() implies rows[i].len() > 1 && rows[i][0] == SqlView::Text(page[i].0)
        && rows[i][1] == SqlView::Integer(page[i].1 as i64) && page[i].1 <= i64::MAX by {
        assert(part[i] == picked[offset + i]);
        assert(page[i] == children[offset + i]);
        assert(is_link(picked[offset + i]));
        assert(rows[i][0] == part[i][Field::Name]);
        assert(rows[i][1] == part[i][Field::ChildId]);
    }
    lemma_children(rows, page);
    assert forall|all: Seq<(Seq<char>, u64)>| #[trigger]
        crate::winter::lists_children(all, state, parent) && crate::flocon::by_name(
            all,
        ) implies all == children by {
        assert forall|c: (Seq<char>, u64)| #[trigger] all.contains(c) <==> children.contains(c) by {
            if all.contains(c) {
                let i = choose|i: int| 0 <= i < all.len() && all[i] == c;
                assert(state.links.contains_key((parent, all[i].0)));
            }
            if children.contains(c) {
                let i = choose|i: int| 0 <= i < children.len() && children[i] == c;
                assert(state.links.contains_key((parent, children[i].0)));
            }
        }
        lemma_one_order(all, children);
    }
}

/// The places of links.
spec fn places(rows: Seq<Row>) -> Seq<(u64, Seq<char>)> {
    rows.map_values(by_place())
}

/// The links that are picked for an inode are the places that lead to it.
proof fn lemma_picked_links_to(
    q: Query,
    tables: Tables,
    state: FsState,
    inode: u64,
    params: Seq<SqlView>,
    picked: Seq<Row>,
)
    requires
        holds_links(tables[Table::Link], state.links),
        crate::sql::bindable(inode),
        params == seq![crate::sql::int_param(inode)],
        q.table == Table::Link,
        q.conditions == seq![crate::database::equal(Field::ChildId)],
        q.picks(tables, params, picked),
    ensures
        places(picked).to_set() == state.links_to(inode),
        state.links_to(inode).finite(),
        state.links_to(inode).len() == picked.len(),
        forall|i: int| 0 <= i < picked.len() ==> is_link(#[trigger] picked[i]),
{
    let all = tables[Table::Link];
    let found = places(picked);
    crate::database::lemma_picked(q, tables, params, picked);
    assert forall|row: Row| #[trigger] all.contains(row) implies (crate::database::meets(
        row,
        q.conditions,
        params,
    ) <==> link_child(row) == inode) by {
        assert(is_link(row));
        assert(q.conditions[0].met(row, params[0]) <==> row[Field::ChildId] == params[0]);
    }
    assert forall|i: int| 0 <= i < picked.len() implies is_link(#[trigger] picked[i]) by {
        assert(picked.contains(picked[i]));
    }
    assert forall|i: int, j: int| 0 <= i < found.len() && 0 <= j < found.len() && i
        != j implies found[i] != found[j] by {
        assert(picked.contains(picked[i]) && picked.contains(picked[j]));
        assert(picked[i] != picked[j]);
    }
    assert forall|l: (u64, Seq<char>)| found.to_set().contains(l) <==> state.links_to(
        inode,
    ).contains(l) by {
        if found.contains(l) {
            let i = choose|i: int| 0 <= i < found.len() && found[i] == l;
            assert(picked.contains(picked[i]));
            assert(by_place()(picked[i]) == l);
        }
        if state.links_to(inode).contains(l) {
            let row = choose|row: Row| #[trigger] all.contains(row) && by_place()(row) == l;
            assert(picked.contains(row));
            let i = choose|i: int| 0 <= i < picked.len() && picked[i] == row;
            assert(found[i] == l);
        }
    }
    assert(found.to_set() =~= state.links_to(inode));
    vstd::seq_lib::seq_to_set_is_finite(found);
    found.unique_seq_to_set();
}

/// What is read out of rows of one number each.
proof fn lemma_ids(rows: Seq<Seq<SqlView>>, ids: Seq<u64>)
    requires
        rows.len() == ids.len(),
        forall|i: int|
            #![trigger rows[i]]
            0 <= i < rows.len() ==> rows[i].len() > 0 && ids[i] <= i64::MAX && rows[i][0]
                == SqlView::Integer(ids[i] as i64),
    ensures
        crate::flocon::ids_of_rows(rows) == Ok::<Seq<u64>, ErrorView>(ids),
    decreases rows.len(),
{
    if rows.len() > 0 {
        let head = rows.drop_last();
        assert forall|i: int|
            #![trigger head[i]]
            0 <= i < head.len() implies head[i].len() > 0 && ids.drop_last()[i] <= i64::MAX
            && head[i][0] == SqlView::Integer(ids.drop_last()[i] as i64) by {
            assert(head[i] == rows[i]);
        }
        lemma_ids(head, ids.drop_last());
        assert(rows[rows.len() - 1] == rows.last());
        assert(ids.drop_last().push(ids.last()) =~= ids);
    } else {
        assert(ids =~= seq![]);
    }
}

/// The parents of an inode are exactly the directories in which a name leads to
/// it, once for each such name.
pub proof fn parents_are_where_names_lead_to_the_inode(
    database: Database,
    tables: Tables,
    state: FsState,
    inode: u64,
)
    requires
        database.understands_sql(),
        holds_links(tables[Table::Link], state.links),
        crate::sql::bindable(inode),
    ensures
        crate::flocon::ids_of_rows(
            database.rows(FloconTree::find_parents_of_statement(inode), tables),
        ) matches Ok(parents) && {
            &&& state.links_to(inode).finite()
            &&& parents.len() == state.links_to(inode).len()
            &&& forall|p: u64| #[trigger]
                parents.contains(p) <==> exists|name: Seq<char>| #[trigger]
                    state.links_to(inode).contains((p, name))
        },
{
    let q = parents_query();
    let s = FloconTree::find_parents_of_statement(inode);
    lemma_parents_text(inode);
    let rows = database.rows(s, tables);
    let (picked, part) = crate::database::lemma_query(database, q, s, tables);
    lemma_picked_links_to(q, tables, state, inode, s.params, picked);
    let found = places(picked);
    let parents = found.map_values(|l: (u64, Seq<char>)| l.0);
    assert forall|i: int|
        #![trigger rows[i]]
        0 <= i < rows.len() implies rows[i].len() > 0 && parents[i] <= i64::MAX && rows[i][0]
        == SqlView::Integer(parents[i] as i64) by {
        assert(is_link(picked[i]));
        assert(rows[i][0] == picked[i][Field::ParentId]);
    }
    lemma_ids(rows, parents);
    assert forall|p: u64| #[trigger] parents.contains(p) <==> exists|name: Seq<char>| #[trigger]
        state.links_to(inode).contains((p, name)) by {
        if parents.contains(p) {
            let i = choose|i: int| 0 <= i < parents.len() && parents[i] == p;
            assert(found.to_set().contains(found[i]));
            assert(found[i] == (p, found[i].1));
            assert(state.links_to(inode).contains((p, found[i].1)));
        }
        if exists|name: Seq<char>| #[trigger] state.links_to(inode).contains((p, name)) {
            let name = choose|name: Seq<char>| #[trigger]
                state.links_to(inode).contains((p, name));
            assert(found.to_set().contains((p, name)));
            let i = choose|i: int| 0 <= i < found.len() && found[i] == (p, name);
            assert(parents[i] == p);
        }
    }
}

/// The number of links of an inode is the number of names that lead to it, as
/// long as it can be counted.
pub proof fn link_count_counts_the_names(
    database: Database,
    tables: Tables,
    state: FsState,
    inode: u64,
)
    requires
        database.understands_sql(),
        holds_links(tables[Table::Link], state.links),
        crate::sql::bindable(inode),
    ensures
        state.links_to(inode).finite(),
        state.links_to(inode).len() <= i64::MAX ==> crate::flocon::count_of_rows(
            database.rows(FloconTree::link_count_statement(inode), tables),
        ) == Ok::<u64, ErrorView>(state.links_to(inode).len() as u64),
{
    let q = link_count_query();
    let s = FloconTree::link_count_statement(inode);
    lemma_link_count_text(inode);
    let (picked, part) = crate::database::lemma_query(database, q, s, tables);
    lemma_picked_links_to(q, tables, state, inode, s.params, picked);
}

/// The query for the number of directories in a directory.
spec fn child_directories_query() -> PartnerCount {
    PartnerCount {
        table: Table::Link,
        key: Field::ChildId,
        partner: Table::Inode,
        partner_key: Field::Id,
        field: Field::ParentId,
        bits: Field::Mode,
    }
}

#[verifier::rlimit(60)]
proof fn lemma_child_directories_text(inode: u64)
    ensures
        FloconTree::count_child_directories_statement(inode).sql
            == child_directories_query().text(),
{
    reveal_strlit("select count(*) from ");
    reveal_strlit("link");
    reveal_strlit(" ");
    reveal_strlit("l");
    reveal_strlit(" inner join ");
    reveal_strlit("inode");
    reveal_strlit("i");
    reveal_strlit(" on ");
    reveal_strlit(".");
    reveal_strlit("child_id");
    reveal_strlit(" = ");
    reveal_strlit("id");
    reveal_strlit(" where ");
    reveal_strlit("parent_id");
    reveal_strlit(" = ? and (");
    reveal_strlit("mode");
    reveal_strlit(" & ?) = ?");
    reveal_strlit(
        "select count(*) from link l inner join inode i on l.child_id = i.id where l.parent_id = ? and (i.mode & ?) = ?",
    );
    assert(FloconTree::count_child_directories_statement(inode).sql
        =~= child_directories_query().text());
}

/// The bits of a mode are the same in a wider number.
proof fn lemma_wide_bits(mode: u32)
    ensures
        (mode as i64) & 0o170000i64 == 0o040000i64 <==> mode & 0o170000u32 == 0o040000u32,
{
    assert((mode as i64) & 0o170000i64 == 0o040000i64 <==> mode & 0o170000u32 == 0o040000u32)
        by (bit_vector);
}

/// The number of directories in a directory is the number of names in it that
/// lead to directories, as long as it can be counted.
pub proof fn child_directories_are_counted(
    database: Database,
    tables: Tables,
    state: FsState,
    inode: u64,
)
    requires
        database.understands_sql(),
        holds_links(tables[Table::Link], state.links),
        holds_inodes(tables[Table::Inode], state.inodes),
        crate::sql::bindable(inode),
    ensures
        state.child_dirs(inode).finite(),
        state.child_dirs(inode).len() <= i64::MAX ==> crate::flocon::count_of_rows(
            database.rows(FloconTree::count_child_directories_statement(inode), tables),
        ) == Ok::<u64, ErrorView>(state.child_dirs(inode).len() as u64),
{
    let q = child_directories_query();
    let s = FloconTree::count_child_directories_statement(inode);
    let links = tables[Table::Link];
    let inodes = tables[Table::Inode];
    lemma_child_directories_text(inode);
    let counted = q.places(tables, s.params);
    let f = |at: (int, int)| link_place(links[at.0]);
    assert forall|a: (int, int)| #[trigger] counted.contains(a) implies {
        let row = links[a.0];
        let partner = inodes[a.1];
        &&& links.contains(row)
        &&& inodes.contains(partner)
        &&& is_link(row)
        &&& by_id()(partner) == link_child(row)
        &&& link_place(row).0 == inode
        &&& crate::modes::is_dir(state.inodes[link_child(row)].st_mode)
    } by {
        let row = links[a.0];
        let partner = inodes[a.1];
        assert(links.contains(row));
        assert(inodes.contains(partner));
        assert(is_inode(partner, state.inodes[by_id()(partner)]));
        lemma_wide_bits(state.inodes[by_id()(partner)].st_mode);
    }
    assert forall|a: (int, int), b: (int, int)|
        counted.contains(a) && counted.contains(b) && #[trigger] f(a) == #[trigger] f(b) implies a
        == b by {
        assert(links[a.0] == links[b.0]);
        assert(by_id()(inodes[a.1]) == by_id()(inodes[b.1]));
        assert(inodes[a.1] == inodes[b.1]);
    }
    let dirs = state.child_dirs(inode);
    assert forall|l: (u64, Seq<char>)| #[trigger] counted.map(f).contains(l) <==> dirs.contains(
        l,
    ) by {
        if counted.map(f).contains(l) {
            let a = choose|a: (int, int)| counted.contains(a) && f(a) == l;
            assert(state.links.dom().contains(by_place()(links[a.0])));
            assert(state.inodes.dom().contains(by_id()(inodes[a.1])));
        }
        if dirs.contains(l) {
            let row = choose|row: Row| #[trigger] links.contains(row) && by_place()(row) == l;
            let i = choose|i: int| 0 <= i < links.len() && links[i] == row;
            let id = state.links[l];
            assert(state.inodes.dom().contains(id));
            let partner = choose|partner: Row| #[trigger]
                inodes.contains(partner) && by_id()(partner) == id;
            let j = choose|j: int| 0 <= j < inodes.len() && inodes[j] == partner;
            lemma_wide_bits(state.inodes[id].st_mode);
            assert(is_inode(partner, state.inodes[id]));
            assert(is_link(row));
            assert(counted.contains((i, j)));
            assert(f((i, j)) == l);
        }
    }
    assert(counted.map(f) =~= dirs);
    lemma_pairs_finite(links.len(), inodes.len());
    vstd::set_lib::lemma_set_subset_finite(pairs(links.len(), inodes.len()), counted);
    vstd::set_lib::lemma_map_size(counted, dirs, f);
}

/// All pairs of numbers below two numbers.
spec fn pairs(n: nat, m: nat) -> Set<(int, int)> {
    Set::new(|at: (int, int)| 0 <= at.0 < n && 0 <= at.1 < m)
}

proof fn lemma_pairs_finite(n: nat, m: nat)
    ensures
        pairs(n, m).finite(),
    decreases n,
{
    if n == 0 {
        assert(pairs(n, m) =~= Set::empty());
    } else {
        let k = (n - 1) as nat;
        lemma_pairs_finite(k, m);
        let line = Seq::new(m, |j: int| (k as int, j));
        vstd::seq_lib::seq_to_set_is_finite(line);
        assert(pairs(n, m) =~= pairs(k, m).union(line.to_set())) by {
            assert forall|at: (int, int)| pairs(n, m).contains(at) implies pairs(k, m).union(
                line.to_set(),
            ).contains(at) by {
                if at.0 == k {
                    assert(line[at.1] == at);
                }
            }
        }
    }
}

/// A condition that an inode is referred to holds of the rows that refer to it.
proof fn lemma_refers(row: Row, inode: u64, params: Seq<SqlView>)
    requires
        params == seq![crate::sql::int_param(inode)],
    ensures
        crate::database::meets(row, seq![crate::database::equal(Field::InodeId)], params)
            <==> row[Field::InodeId] == crate::sql::int_param(inode),
{
    let conditions = seq![crate::database::equal(Field::InodeId)];
    assert(conditions[0].met(row, params[0]) <==> row[Field::InodeId] == params[0]);
}

/// Deleting an inode that no name leads to takes out the inode, its extended
/// attributes, the names in it and its blocks, and nothing else.
pub proof fn delete_inode_takes_out_what_belongs_to_it(
    database: Database,
    before: Tables,
    state: FsState,
    inode: u64,
)
    requires
        database.understands_sql(),
        holds_inodes(before[Table::Inode], state.inodes),
        holds_links(before[Table::Link], state.links),
        holds_xattrs(before[Table::Xattr], state.xattrs),
        crate::sql::bindable(inode),
        forall|l: (u64, Seq<char>)| !#[trigger] state.links_to(inode).contains(l),
        state.consistent(),
        database.after_all(FloconTree::delete_inode_statements(inode), before) is Some,
    ensures
        ({
            let after = database.after_all(
                FloconTree::delete_inode_statements(inode),
                before,
            )->Some_0;
            let left = state.without_inode(inode);
            &&& holds_inodes(after[Table::Inode], left.inodes)
            &&& holds_links(after[Table::Link], left.links)
            &&& holds_xattrs(after[Table::Xattr], left.xattrs)
            &&& forall|row: Row| #[trigger]
                after[Table::Block].contains(row) <==> before[Table::Block].contains(row)
                    && row[Field::InodeId] != crate::sql::int_param(inode)
        }),
{
    let all = FloconTree::delete_inode_statements(inode);
    let left = state.without_inode(inode);
    reveal_with_fuel(Database::after_all, 4);
    assert(all.drop_last().drop_last() =~= seq![all[0]]);
    assert(all.drop_last().drop_last().drop_last() =~= seq![]);
    let one = database.after(all[0], before)->Some_0;
    let two = database.after(all[1], one)->Some_0;
    let after = database.after(all[2], two)->Some_0;
    assert(database.after_all(all, before) == Some(after));
    lemma_delete_blocks_text(inode);
    lemma_delete_xattrs_text(inode);
    lemma_delete_inode_text(inode);
    assert(delete_blocks_change().does(before, all[0].params, one));
    assert(delete_xattrs_change().does(one, all[1].params, two));
    assert(delete_inode_change().does(two, all[2].params, after));
    let of_inode = seq![crate::database::equal(Field::InodeId)];
    let params = seq![crate::sql::int_param(inode)];
    let belongs = |row: Row| crate::database::meets(row, of_inode, params);
    let foreign = |row: Row| !belongs(row);
    assert forall|row: Row| #[trigger] belongs(row) <==> row[Field::InodeId]
        == crate::sql::int_param(inode) by {
        lemma_refers(row, inode, params);
    }
    assert(one[Table::Block] == before[Table::Block].filter(foreign));
    assert(two[Table::Xattr] == one[Table::Xattr].filter(foreign));
    assert(one[Table::Xattr] == before[Table::Xattr]);
    assert(two[Table::Block] == one[Table::Block]);
    assert(two[Table::Inode] == before[Table::Inode]);
    assert(two[Table::Link] == before[Table::Link]);
    crate::database::lemma_filter(before[Table::Block], foreign);
    let other_keys = Set::new(|k: (u64, Seq<char>)| k.0 == inode);
    assert forall|row: Row| #[trigger] before[Table::Xattr].contains(row) implies (foreign(row)
        <==> !other_keys.contains(by_key()(row))) by {
        assert(is_xattr(row));
        assert(belongs(row) <==> row[Field::InodeId] == crate::sql::int_param(inode));
    }
    lemma_without_key(before[Table::Xattr], by_key(), state.xattrs.dom(), other_keys, foreign);
    assert(left.xattrs.dom() =~= state.xattrs.dom().difference(other_keys));
    assert(holds_xattrs(two[Table::Xattr], left.xattrs));
    // The inode itself, and with it what still refers to it.
    let by_it = seq![crate::database::equal(Field::Id)];
    let gone = |row: Row| crate::database::meets(row, by_it, params);
    let kept = |row: Row| !gone(row);
    let inodes = before[Table::Inode];
    lemma_by_id(inodes, state.inodes, inode, params);
    lemma_without_key(inodes, by_id(), state.inodes.dom(), set![inode], kept);
    assert(left.inodes.dom() =~= state.inodes.dom().difference(set![inode]));
    assert(holds_inodes(after[Table::Inode], left.inodes));
    lemma_inode_refers(inodes, state.inodes, inode, gone);
    let links = before[Table::Link];
    let unlinked = |row: Row| !crate::database::refers(Table::Link, row, inodes, gone);
    let in_it = Set::new(|l: (u64, Seq<char>)| l.0 == inode && state.inodes.contains_key(inode));
    assert forall|row: Row| #[trigger] links.contains(row) implies (unlinked(row)
        <==> !in_it.contains(by_place()(row))) by {
        assert(is_link(row));
        assert(!state.links_to(inode).contains(by_place()(row)));
        assert(state.links.dom().contains(by_place()(row)));
    }
    lemma_without_key(links, by_place(), state.links.dom(), in_it, unlinked);
    assert(left.links.dom() =~= state.links.dom().difference(in_it)) by {
        assert forall|l: (u64, Seq<char>)| state.links.contains_key(l) && l.0
            == inode implies state.inodes.contains_key(inode) by {}
    }
    assert(after[Table::Link] == links.filter(unlinked));
    assert(holds_links(after[Table::Link], left.links));
    let free_xattr = |row: Row| !crate::database::refers(Table::Xattr, row, inodes, gone);
    assert forall|row: Row| #[trigger] two[Table::Xattr].contains(row) implies free_xattr(row) by {
        crate::database::lemma_filter(before[Table::Xattr], foreign);
        assert(foreign(row));
    }
    lemma_filter_all(two[Table::Xattr], free_xattr);
    assert(after[Table::Xattr] == two[Table::Xattr].filter(free_xattr));
    let free_block = |row: Row| !crate::database::refers(Table::Block, row, inodes, gone);
    assert forall|row: Row| #[trigger] two[Table::Block].contains(row) implies free_block(row) by {
        assert(foreign(row));
    }
    lemma_filter_all(two[Table::Block], free_block);
    assert(after[Table::Block] == two[Table::Block].filter(free_block));
}

/// Filtering a list all of whose elements are kept.
pub proof fn lemma_filter_all<A>(s: Seq<A>, keep: spec_fn(A) -> bool)
    requires
        forall|a: A| #[trigger] s.contains(a) ==> keep(a),
    ensures
        s.filter(keep) == s,
    decreases s.len(),
{
    reveal(Seq::filter);
    if s.len() > 0 {
        let head = s.drop_last();
        assert forall|a: A| #[trigger] head.contains(a) implies keep(a) by {
            let i = choose|i: int| 0 <= i < head.len() && head[i] == a;
            assert(s[i] == a);
            assert(s.contains(a));
        }
        lemma_filter_all(head, keep);
        assert(s.contains(s.last()));
        assert(head.push(s.last()) =~= s);
    } else {
        assert(s.filter(keep) =~= s);
    }
}

/// What refers to the one inode that is taken out.
proof fn lemma_inode_refers(
    inodes: Seq<Row>,
    stored: Map<u64, EntryCore>,
    inode: u64,
    gone: spec_fn(Row) -> bool,
)
    requires
        holds_inodes(inodes, stored),
        crate::sql::bindable(inode),
        forall|row: Row| #[trigger] inodes.contains(row) ==> (gone(row) <==> by_id()(row) == inode),
    ensures
        forall|table: Table, row: Row| #[trigger]
            crate::database::refers(table, row, inodes, gone) <==> stored.contains_key(inode)
                && exists|k: int|
                0 <= k < crate::database::inode_fields(table).len()
                    && row[#[trigger] crate::database::inode_fields(table)[k]]
                    == crate::sql::int_param(inode),
{
    assert forall|table: Table, row: Row| #[trigger]
        crate::database::refers(table, row, inodes, gone) <==> stored.contains_key(inode)
            && exists|k: int|
            0 <= k < crate::database::inode_fields(table).len()
                && row[#[trigger] crate::database::inode_fields(table)[k]]
                == crate::sql::int_param(inode) by {
        let fields = crate::database::inode_fields(table);
        if crate::database::refers(table, row, inodes, gone) {
            let (i, k) = choose|i: int, k: int|
                {
                    &&& 0 <= i < inodes.len()
                    &&& gone(#[trigger] inodes[i])
                    &&& 0 <= k < crate::database::inode_fields(table).len()
                    &&& row[#[trigger] crate::database::inode_fields(table)[k]]
                        == inodes[i][Field::Id]
                };
            assert(inodes.contains(inodes[i]));
            assert(stored.dom().contains(by_id()(inodes[i])));
            assert(is_inode(inodes[i], stored[inode]));
            assert(row[fields[k]] == crate::sql::int_param(inode));
        }
        if stored.contains_key(inode) && exists|k: int|
            0 <= k < fields.len() && row[#[trigger] fields[k]] == crate::sql::int_param(inode) {
            let k = choose|k: int|
                0 <= k < fields.len() && row[#[trigger] fields[k]] == crate::sql::int_param(inode);
            assert(stored.dom().contains(inode));
            let r = choose|r: Row| #[trigger] inodes.contains(r) && by_id()(r) == inode;
            assert(is_inode(r, stored[inode]));
            let i = choose|i: int| 0 <= i < inodes.len() && inodes[i] == r;
            assert(gone(inodes[i]));
            assert(row[crate::database::inode_fields(table)[k]] == inodes[i][Field::Id]);
        }
    }
}

/// Emptying a file takes out all of its blocks and no other block, and its size
/// is zero. Nothing else changes.
pub proof fn truncate_empties_one_file(
    database: Database,
    before: Tables,
    inodes: Map<u64, EntryCore>,
    inode: u64,
)
    requires
        database.understands_sql(),
        holds_inodes(before[Table::Inode], inodes),
        inodes.contains_key(inode),
        crate::sql::bindable(inode),
        database.after_all(FloconHandle::truncate_statements(inode), before) is Some,
    ensures
        ({
            let after = database.after_all(
                FloconHandle::truncate_statements(inode),
                before,
            )->Some_0;
            &&& holds_inodes(
                after[Table::Inode],
                inodes.insert(inode, EntryCore { st_size: 0, ..inodes[inode] }),
            )
            &&& forall|row: Row| #[trigger]
                after[Table::Block].contains(row) <==> before[Table::Block].contains(row)
                    && row[Field::InodeId] != crate::sql::int_param(inode)
            &&& after[Table::Link] == before[Table::Link]
            &&& after[Table::Xattr] == before[Table::Xattr]
        }),
{
    let all = FloconHandle::truncate_statements(inode);
    reveal_with_fuel(Database::after_all, 3);
    assert(all.drop_last() =~= seq![all[0]]);
    assert(all.drop_last().drop_last() =~= seq![]);
    let one = database.after(all[0], before)->Some_0;
    let after = database.after(all[1], one)->Some_0;
    assert(database.after_all(all, before) == Some(after));
    lemma_delete_blocks_text(inode);
    lemma_empty_size_text(inode);
    assert(all[0] == FloconTree::delete_inode_statements(inode)[0]);
    assert(delete_blocks_change().does(before, all[0].params, one));
    assert(empty_size_change().does(one, all[1].params, after));
    let of_inode = seq![crate::database::equal(Field::InodeId)];
    let params = seq![crate::sql::int_param(inode)];
    let belongs = |row: Row| crate::database::meets(row, of_inode, params);
    let foreign = |row: Row| !belongs(row);
    assert forall|row: Row| #[trigger] belongs(row) <==> row[Field::InodeId]
        == crate::sql::int_param(inode) by {
        lemma_refers(row, inode, params);
    }
    crate::database::lemma_filter(before[Table::Block], foreign);
    assert(one[Table::Block] == before[Table::Block].filter(foreign));
    assert(one[Table::Inode] == before[Table::Inode]);
    assert(one[Table::Link] == before[Table::Link]);
    assert(one[Table::Xattr] == before[Table::Xattr]);
    lemma_inode_changed(
        one,
        after,
        inodes,
        inode,
        Field::Size,
        SqlView::Integer(0),
        params,
        EntryCore { st_size: 0, ..inodes[inode] },
    );
}

/// The query for the number of inodes.
spec fn files_query() -> Query {
    Query {
        aliased: false,
        wanted: Wanted::Count,
        table: Table::Inode,
        conditions: seq![],
        sorting: Sorting::Unsorted,
        part: Part::Whole,
    }
}

#[verifier::rlimit(60)]
proof fn lemma_files_text()
    ensures
        crate::flocon::Flocon::files_count_statement().sql == files_query().text(),
{
    reveal_strlit("select ");
    reveal_strlit("count(*)");
    reveal_strlit(" from ");
    reveal_strlit("inode");
    reveal_strlit("select count(*) from inode");
    assert(crate::flocon::Flocon::files_count_statement().sql =~= files_query().text());
}

/// The statement that adds the root inode.
spec fn root_change() -> Change {
    Change::Insert { table: Table::Inode, fields: seq![Field::Id, Field::Mode, Field::Uid, Field::Gid, Field::Size, Field::Rdev, Field::Atime, Field::Mtime, Field::Ctime, Field::Btime], numbered: true }
}

#[verifier::rlimit(60)]
proof fn lemma_root_text(mode: u32, uid: u32, gid: u32, now: (i64, u32))
    ensures
        FileSystemManager::root_inode_statement(mode, uid, gid, now).sql == root_change().text(),
{
    reveal_with_fuel(crate::database::fields_text, 11);
    reveal_with_fuel(crate::database::numbered_text, 11);
    reveal_strlit("INSERT INTO ");
    reveal_strlit("inode");
    reveal_strlit(" (");
    reveal_strlit("id");
    reveal_strlit(", ");
    reveal_strlit("mode");
    reveal_strlit("uid");
    reveal_strlit("gid");
    reveal_strlit("size");
    reveal_strlit("rdev");
    reveal_strlit("atime");
    reveal_strlit("mtime");
    reveal_strlit("ctime");
    reveal_strlit("btime");
    reveal_strlit(") VALUES (");
    reveal_strlit("?");
    reveal_strlit("1");
    reveal_strlit("2");
    reveal_strlit("3");
    reveal_strlit("4");
    reveal_strlit("5");
    reveal_strlit("6");
    reveal_strlit("7");
    reveal_strlit("8");
    reveal_strlit("9");
    reveal_strlit("10");
    reveal_strlit(")");
    reveal_strlit("INSERT INTO inode (id, mode, uid, gid, size, rdev, atime, mtime, ctime, btime) VALUES (?1, ?2, ?3, ?4, ?5, ?6, ?7, ?8, ?9, ?10)");
    reveal_with_fuel(crate::text::digits, 3);
    assert(crate::text::decimal_text(1) =~= "1"@);
    assert(crate::text::decimal_text(2) =~= "2"@);
    assert(crate::text::decimal_text(3) =~= "3"@);
    assert(crate::text::decimal_text(4) =~= "4"@);
    assert(crate::text::decimal_text(5) =~= "5"@);
    assert(crate::text::decimal_text(6) =~= "6"@);
    assert(crate::text::decimal_text(7) =~= "7"@);
    assert(crate::text::decimal_text(8) =~= "8"@);
    assert(crate::text::decimal_text(9) =~= "9"@);
    assert(crate::text::decimal_text(10) =~= "10"@);
    let f = root_change()->fields;
    assert(f.drop_last() =~= seq![Field::Id, Field::Mode, Field::Uid, Field::Gid, Field::Size, Field::Rdev, Field::Atime, Field::Mtime, Field::Ctime]);
    assert(f.drop_last().drop_last() =~= seq![Field::Id, Field::Mode, Field::Uid, Field::Gid, Field::Size, Field::Rdev, Field::Atime, Field::Mtime]);
    assert(f.drop_last().drop_last().drop_last() =~= seq![Field::Id, Field::Mode, Field::Uid, Field::Gid, Field::Size, Field::Rdev, Field::Atime]);
    assert(f.drop_last().drop_last().drop_last().drop_last() =~= seq![Field::Id, Field::Mode, Field::Uid, Field::Gid, Field::Size, Field::Rdev]);
    assert(f.drop_last().drop_last().drop_last().drop_last().drop_last() =~= seq![Field::Id, Field::Mode, Field::Uid, Field::Gid, Field::Size]);
    assert(f.drop_last().drop_last().drop_last().drop_last().drop_last().drop_last() =~= seq![Field::Id, Field::Mode, Field::Uid, Field::Gid]);
    assert(f.drop_last().drop_last().drop_last().drop_last().drop_last().drop_last().drop_last() =~= seq![Field::Id, Field::Mode, Field::Uid]);
    assert(f.drop_last().drop_last().drop_last().drop_last().drop_last().drop_last().drop_last().drop_last() =~= seq![Field::Id, Field::Mode]);
    assert(f.drop_last().drop_last().drop_last().drop_last().drop_last().drop_last().drop_last().drop_last().drop_last() =~= seq![Field::Id]);
    assert(FileSystemManager::root_inode_statement(mode, uid, gid, now).sql =~= root_change().text());
}

/// The number of files is the number of inodes, as long as it can be counted.
pub proof fn files_are_the_inodes(database: Database, tables: Tables, inodes: Map<u64, EntryCore>)
    requires
        database.understands_sql(),
        holds_inodes(tables[Table::Inode], inodes),
        tables[Table::Inode].len() <= i64::MAX,
    ensures
        inodes.dom().finite(),
        crate::flocon::count_of_rows(
            database.rows(crate::flocon::Flocon::files_count_statement(), tables),
        ) == Ok::<u64, ErrorView>(inodes.dom().len() as u64),
{
    let q = files_query();
    let s = crate::flocon::Flocon::files_count_statement();
    let rows = tables[Table::Inode];
    lemma_files_text();
    let (picked, part) = crate::database::lemma_query(database, q, s, tables);
    let all = crate::database::meeting(q.conditions, s.params);
    lemma_filter_all(rows, all);
    picked.to_multiset_ensures();
    rows.to_multiset_ensures();
    assert(picked.len() == rows.len());
    let ids = rows.map_values(by_id());
    assert forall|i: int, j: int| 0 <= i < ids.len() && 0 <= j < ids.len() && i != j implies ids[i]
        != ids[j] by {
        assert(rows.contains(rows[i]) && rows.contains(rows[j]));
        assert(rows[i] != rows[j]);
    }
    assert forall|id: u64| ids.to_set().contains(id) <==> inodes.dom().contains(id) by {
        if ids.contains(id) {
            let i = choose|i: int| 0 <= i < ids.len() && ids[i] == id;
            assert(rows.contains(rows[i]));
        }
        if inodes.dom().contains(id) {
            let row = choose|row: Row| #[trigger] rows.contains(row) && by_id()(row) == id;
            let i = choose|i: int| 0 <= i < rows.len() && rows[i] == row;
            assert(ids[i] == id);
        }
    }
    assert(ids.to_set() =~= inodes.dom());
    vstd::seq_lib::seq_to_set_is_finite(ids);
    ids.unique_seq_to_set();
}

/// The query for whether the root inode exists.
spec fn root_query() -> Existence {
    Existence { table: Table::Inode, field: Field::Id }
}

#[verifier::rlimit(60)]
proof fn lemma_root_query_text()
    ensures
        FileSystemManager::has_root_statement().sql == root_query().text(),
{
    reveal_strlit("SELECT EXISTS(SELECT 1 FROM ");
    reveal_strlit("inode");
    reveal_strlit(" WHERE ");
    reveal_strlit("id");
    reveal_strlit(" = ?1)");
    reveal_strlit("SELECT EXISTS(SELECT 1 FROM inode WHERE id = ?1)");
    assert(FileSystemManager::has_root_statement().sql =~= root_query().text());
}

/// The root inode is said to exist exactly if there is an inode with the
/// identifier 1.
pub proof fn root_exists_if_it_is_stored(
    database: Database,
    tables: Tables,
    inodes: Map<u64, EntryCore>,
)
    requires
        database.understands_sql(),
        holds_inodes(tables[Table::Inode], inodes),
    ensures
        FileSystemManager::root_exists(
            database.rows(FileSystemManager::has_root_statement(), tables),
        ) == Ok::<bool, ErrorView>(inodes.contains_key(1)),
{
    let q = root_query();
    let s = FileSystemManager::has_root_statement();
    let rows = tables[Table::Inode];
    lemma_root_query_text();
    let found = q.found(tables, s.params);
    assert(database.rows(s, tables) == seq![
        seq![
            SqlView::Integer(
                if found {
                    1
                } else {
                    0
                },
            ),
        ],
    ]);
    if found {
        let i = choose|i: int|
            0 <= i < tables[q.table].len() && (#[trigger] tables[q.table][i])[q.field]
                == s.params[0] && s.params[0] !is Null;
        assert(rows.contains(rows[i]));
        assert(by_id()(rows[i]) == 1);
    }
    if inodes.contains_key(1) {
        assert(inodes.dom().contains(1));
        let row = choose|row: Row| #[trigger] rows.contains(row) && by_id()(row) == 1;
        assert(is_inode(row, inodes[1]));
        let i = choose|i: int| 0 <= i < rows.len() && rows[i] == row;
        assert(tables[q.table][i][q.field] == s.params[0]);
    }
}

/// The root inode that is stored has the identifier 1, is a directory with the
/// permissions and the owner that were asked for and no size, and all of its
/// times are the present. Every other inode stays as it is.
pub proof fn root_inode_is_added(
    database: Database,
    before: Tables,
    inodes: Map<u64, EntryCore>,
    mode: u32,
    uid: u32,
    gid: u32,
    now: (i64, u32),
)
    requires
        database.understands_sql(),
        holds_inodes(before[Table::Inode], inodes),
        !inodes.contains_key(1),
        crate::timestamp::reads_as(crate::timestamp::rfc3339_nanos(now.0, now.1), now),
        database.after(
            FileSystemManager::root_inode_statement(mode, uid, gid, now),
            before,
        ) is Some,
    ensures
        ({
            let after = database.after(
                FileSystemManager::root_inode_statement(mode, uid, gid, now),
                before,
            )->Some_0;
            &&& holds_inodes(
                after[Table::Inode],
                inodes.insert(
                    1,
                    EntryCore {
                        st_ino: 1,
                        st_size: 0,
                        st_atime: now.0,
                        st_atime_nsec: now.1 as i64,
                        st_mtime: now.0,
                        st_mtime_nsec: now.1 as i64,
                        st_ctime: now.0,
                        st_ctime_nsec: now.1 as i64,
                        st_mode: crate::modes::S_IFDIR | mode,
                        st_uid: uid,
                        st_gid: gid,
                        st_rdev: 0,
                    },
                ),
            )
            &&& forall|t: Table| t != Table::Inode ==> #[trigger] after[t] == before[t]
        }),
{
    let c = root_change();
    let s = FileSystemManager::root_inode_statement(mode, uid, gid, now);
    let after = database.after(s, before)->Some_0;
    lemma_root_text(mode, uid, gid, now);
    assert(c.does(before, s.params, after));
    let rows = before[Table::Inode];
    let f = c->fields;
    let row = choose|row: Row|
        {
            &&& after == #[trigger] before.insert(Table::Inode, rows.push(row))
            &&& forall|i: int| 0 <= i < f.len() ==> row[#[trigger] f[i]] == s.params[i]
        };
    assert(row[f[0]] == s.params[0]);
    assert(row[f[1]] == s.params[1]);
    assert(row[f[2]] == s.params[2]);
    assert(row[f[3]] == s.params[3]);
    assert(row[f[4]] == s.params[4]);
    assert(row[f[5]] == s.params[5]);
    assert(row[f[6]] == s.params[6]);
    assert(row[f[7]] == s.params[7]);
    assert(row[f[8]] == s.params[8]);
    lemma_with_key(rows, by_id(), inodes.dom(), row);
    let attrs = EntryCore {
        st_ino: 1,
        st_size: 0,
        st_atime: now.0,
        st_atime_nsec: now.1 as i64,
        st_mtime: now.0,
        st_mtime_nsec: now.1 as i64,
        st_ctime: now.0,
        st_ctime_nsec: now.1 as i64,
        st_mode: crate::modes::S_IFDIR | mode,
        st_uid: uid,
        st_gid: gid,
        st_rdev: 0,
    };
    assert(is_inode(row, attrs));
    assert(inodes.insert(1, attrs).dom() =~= inodes.dom().insert(1));
}

/// The size that is recorded of a file is the size of its inode from there on.
/// Every other attribute and every other inode stays as it is, and no other
/// table changes.
pub proof fn recorded_size_is_the_size(
    database: Database,
    before: Tables,
    inodes: Map<u64, EntryCore>,
    inode: u64,
    size: i64,
)
    requires
        database.understands_sql(),
        holds_inodes(before[Table::Inode], inodes),
        inodes.contains_key(inode),
        crate::sql::bindable(inode),
    ensures
        crate::operations::record_size_statement(inode, size)
            == crate::storage::update_size_statement(inode, size),
        database.after(crate::storage::update_size_statement(inode, size), before) matches Some(
            after,
        ) ==> {
            &&& holds_inodes(
                after[Table::Inode],
                inodes.insert(inode, EntryCore { st_size: size, ..inodes[inode] }),
            )
            &&& forall|t: Table| t != Table::Inode ==> #[trigger] after[t] == before[t]
        },
{
    let c = update_inode_change(Field::Size);
    let s = crate::storage::update_size_statement(inode, size);
    let param = SqlView::Integer(size);
    let same = crate::operations::record_size_statement(inode, size);
    reveal_strlit("size");
    reveal_strlit("update inode set ");
    reveal_strlit(" = ? where id = ?");
    reveal_strlit("update inode set size = ? where id = ?");
    assert(s.sql =~= "update inode set "@ + "size"@ + " = ? where id = ?"@);
    assert(same =~= s);
    lemma_update_inode_text(Field::Size, param, inode);
    assert(s.sql == c.text());
    if let Some(after) = database.after(s, before) {
        assert(c.does(before, s.params, after));
        lemma_inode_changed(
            before,
            after,
            inodes,
            inode,
            Field::Size,
            param,
            s.params.skip(1),
            EntryCore { st_size: size, ..inodes[inode] },
        );
    }
}

/// Whatever is done in a transaction, rolling it back leaves what there was
/// before it began, and committing it leaves what was done. Either way the next
/// one can begin.
pub proof fn transactions_are_all_or_nothing(database: Database, before: Session, done: Tables)
    requires
        database.understands_sql(),
        before.saved is None,
    ensures
        ({
            let begun = database.controlled(crate::flocon::Flocon::begin_statement(), before);
            let inside = Session { tables: done, ..begun };
            let kept = database.controlled(crate::flocon::Flocon::commit_statement(), inside);
            let undone = database.controlled(crate::flocon::Flocon::rollback_statement(), inside);
            &&& begun.tables == before.tables
            &&& kept.tables == done && kept.saved is None
            &&& undone.tables == before.tables && undone.saved is None
        }),
{
    let begun = database.controlled(crate::flocon::Flocon::begin_statement(), before);
    let inside = Session { tables: done, ..begun };
    assert(Control::Begin.does(before, begun));
    assert(Control::Commit.does(
        inside,
        database.controlled(crate::flocon::Flocon::commit_statement(), inside),
    ));
    assert(Control::Rollback.does(
        inside,
        database.controlled(crate::flocon::Flocon::rollback_statement(), inside),
    ));
}

} // verus!
