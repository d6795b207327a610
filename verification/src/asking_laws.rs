//! What the storage asks of the database, and reads out of what it is given:
//! laws of the functions that put the questions together with the ones that
//! read the answers.

use vstd::prelude::*;
use crate::database::{Database, Row, Tables};
use crate::error::{Error, ErrorKind};
use crate::flocon::{FloconHandle, FloconInode, FloconTree};
use crate::migration::{Field, Table};
use crate::sql::{SqlValue, Statement};
use crate::timestamp::Timestamp;
use crate::winter::{EntryCore, FsState, WinterInode};

verus! {

/// Whether these rows are what the database gives for a statement.
pub open spec fn answers(
    database: Database,
    tables: Tables,
    s: Statement,
    rows: &Vec<Vec<SqlValue>>,
) -> bool {
    crate::sql::rows(rows@) == database.rows(s@, tables)
}

/// Asking for a name and reading the answer gives the child that the name leads
/// to in that directory, and 0 if it leads nowhere.
pub proof fn asking_for_a_name_gives_the_child(
    database: Database,
    tables: Tables,
    state: FsState,
    parent: u64,
    name: &str,
    s: Statement,
    rows: &Vec<Vec<SqlValue>>,
    r: Result<u64, Error>,
)
    requires
        database.understands_sql(),
        crate::table_laws::holds_links(tables[Table::Link], state.links),
        parent <= i64::MAX,
        call_ensures(FloconTree::lookup, (parent, name), Ok(s)),
        answers(database, tables, s, rows),
        call_ensures(FloconTree::read_child, (rows,), r),
    ensures
        r matches Ok(id) && id == if state.links.contains_key((parent, name@)) {
            state.links[(parent, name@)]
        } else {
            0
        },
{
    crate::table_laws::lookup_finds_the_child_of_that_name(database, tables, state, parent, name@);
}

/// Asking for an inode and reading the answer gives its attributes as they are
/// stored, and an error that it is not found if there is none.
pub proof fn asking_for_an_inode_gives_its_attributes(
    database: Database,
    tables: Tables,
    inodes: Map<u64, EntryCore>,
    inode: u64,
    s: Statement,
    rows: &Vec<Vec<SqlValue>>,
    r: Result<FloconInode, Error>,
)
    requires
        database.understands_sql(),
        crate::table_laws::holds_inodes(tables[Table::Inode], inodes),
        inode <= i64::MAX,
        call_ensures(FloconTree::get_inode, (inode,), Ok(s)),
        answers(database, tables, s, rows),
        call_ensures(FloconTree::read_inode, (rows,), r),
    ensures
        match r {
            Ok(i) => inodes.contains_key(inode) && i.attrs() == inodes[inode],
            Err(e) => !inodes.contains_key(inode) && e@ == crate::error::os(crate::error::ENOENT),
        },
{
    crate::table_laws::get_inode_reads_what_is_stored(database, tables, inodes, inode);
}

/// Asking for a page of children and reading the answer gives that page of the
/// children of that directory, in the order of their names.
pub proof fn asking_for_children_gives_those_of_the_directory(
    database: Database,
    tables: Tables,
    state: FsState,
    parent: u64,
    size: usize,
    offset: usize,
    s: Statement,
    rows: &Vec<Vec<SqlValue>>,
    r: Result<Vec<(String, u64)>, Error>,
    all: Seq<(Seq<char>, u64)>,
)
    requires
        database.understands_sql(),
        crate::table_laws::holds_links(tables[Table::Link], state.links),
        parent <= i64::MAX,
        size <= i64::MAX,
        offset <= i64::MAX,
        call_ensures(FloconTree::find_children_of, (parent, size, offset), Ok(s)),
        answers(database, tables, s, rows),
        call_ensures(crate::flocon::read_children, (rows,), r),
        crate::winter::lists_children(all, state, parent),
        crate::flocon::by_name(all),
    ensures
        r matches Ok(children) && {
            let shown = crate::winter::named(children@);
            &&& shown.len() <= size
            &&& forall|i: int|
                0 <= i < shown.len() ==> offset + i < all.len() && #[trigger] shown[i]
                    == all[offset + i]
            &&& shown.len() < size ==> offset + shown.len() >= all.len()
        },
{
    crate::table_laws::children_are_those_of_the_directory(
        database,
        tables,
        state,
        parent,
        size as u64,
        offset as u64,
    );
}

/// Asking for parents and reading the answer gives the directories in which a
/// name leads to the inode, once for each such name.
pub proof fn asking_for_parents_gives_where_names_lead_to_it(
    database: Database,
    tables: Tables,
    state: FsState,
    inode: u64,
    s: Statement,
    rows: &Vec<Vec<SqlValue>>,
    r: Result<Vec<u64>, Error>,
)
    requires
        database.understands_sql(),
        crate::table_laws::holds_links(tables[Table::Link], state.links),
        inode <= i64::MAX,
        call_ensures(FloconTree::find_parents_of, (inode,), Ok(s)),
        answers(database, tables, s, rows),
        call_ensures(crate::flocon::read_ids, (rows,), r),
    ensures
        r matches Ok(parents) && {
            &&& parents@.len() == state.links_to(inode).len()
            &&& forall|p: u64| #[trigger]
                parents@.contains(p) <==> exists|name: Seq<char>| #[trigger]
                    state.links_to(inode).contains((p, name))
        },
{
    crate::table_laws::parents_are_where_names_lead_to_the_inode(database, tables, state, inode);
}

/// Asking for the number of directories in a directory, and for the number of
/// names that lead to an inode, and reading the answers gives these numbers.
pub proof fn asking_for_numbers_gives_them(
    database: Database,
    tables: Tables,
    state: FsState,
    inode: u64,
    dirs: Statement,
    dir_rows: &Vec<Vec<SqlValue>>,
    dir_count: Result<u64, Error>,
    names: Statement,
    name_rows: &Vec<Vec<SqlValue>>,
    name_count: Result<u64, Error>,
)
    requires
        database.understands_sql(),
        crate::table_laws::holds_links(tables[Table::Link], state.links),
        crate::table_laws::holds_inodes(tables[Table::Inode], state.inodes),
        inode <= i64::MAX,
        state.child_dirs(inode).len() <= i64::MAX,
        state.links_to(inode).len() <= i64::MAX,
        call_ensures(FloconTree::count_child_directories, (inode,), Ok(dirs)),
        answers(database, tables, dirs, dir_rows),
        call_ensures(crate::flocon::read_count, (dir_rows,), dir_count),
        call_ensures(FloconTree::link_count, (inode,), Ok(names)),
        answers(database, tables, names, name_rows),
        call_ensures(crate::flocon::read_count, (name_rows,), name_count),
    ensures
        dir_count matches Ok(n) && n == state.child_dirs(inode).len(),
        name_count matches Ok(n) && n == state.links_to(inode).len(),
{
    crate::table_laws::child_directories_are_counted(database, tables, state, inode);
    crate::table_laws::link_count_counts_the_names(database, tables, state, inode);
}

/// Questions about inodes are put exactly if their numbers can be stored.
pub proof fn only_storable_numbers_are_asked_for(
    parent: u64,
    inode: u64,
    name: &str,
    looked_up: Result<Statement, Error>,
    got: Result<Statement, Error>,
    counted: Result<Statement, Error>,
    parents: Result<Statement, Error>,
    added: Result<Statement, Error>,
    removed: Result<Statement, Error>,
)
    requires
        call_ensures(FloconTree::lookup, (parent, name), looked_up),
        call_ensures(FloconTree::get_inode, (inode,), got),
        call_ensures(FloconTree::count_child_directories, (inode,), counted),
        call_ensures(FloconTree::find_parents_of, (inode,), parents),
        call_ensures(FloconTree::add_child, (parent, inode, name), added),
        call_ensures(FloconTree::remove_child, (parent, name), removed),
    ensures
        looked_up is Ok <==> parent <= i64::MAX,
        got is Ok <==> inode <= i64::MAX,
        counted is Ok <==> inode <= i64::MAX,
        parents is Ok <==> inode <= i64::MAX,
        added is Ok <==> parent <= i64::MAX && inode <= i64::MAX,
        removed is Ok <==> parent <= i64::MAX,
{
}

/// Adding a name and removing it, as the database carries that out, changes where
/// that name leads and nothing else.
pub proof fn names_are_added_and_removed(
    database: Database,
    before: Tables,
    links: Map<(u64, Seq<char>), u64>,
    parent: u64,
    child: u64,
    name: &str,
    add: Statement,
    with: Tables,
    remove: Statement,
    without: Tables,
)
    requires
        database.understands_sql(),
        crate::table_laws::holds_links(before[Table::Link], links),
        parent <= i64::MAX,
        child <= i64::MAX,
        call_ensures(FloconTree::add_child, (parent, child, name), Ok(add)),
        call_ensures(FloconTree::remove_child, (parent, name), Ok(remove)),
        database.after(remove@, before) == Some(without),
        !links.contains_key((parent, name@)) ==> database.after(add@, before) == Some(with),
    ensures
        crate::table_laws::holds_links(without[Table::Link], links.remove((parent, name@))),
        without[Table::Inode] == before[Table::Inode],
        !links.contains_key((parent, name@)) ==> crate::table_laws::holds_links(
            with[Table::Link],
            links.insert((parent, name@), child),
        ) && with[Table::Inode] == before[Table::Inode],
{
    crate::table_laws::remove_child_takes_out_one_link(database, before, links, parent, name@);
    if !links.contains_key((parent, name@)) {
        crate::table_laws::add_child_adds_one_link(
            database,
            before,
            links,
            parent,
            child,
            name@,
        );
    }
}

/// Creating an inode, as the database carries that out, adds one that has the
/// mode, the owner and the device that were asked for, is empty, and whose times
/// are all the present.
pub proof fn inodes_are_created_as_asked(
    database: Database,
    before: Tables,
    inodes: Map<u64, EntryCore>,
    mode: u32,
    uid: u32,
    gid: u32,
    rdev: u64,
    now: Timestamp,
    s: Statement,
    after: Tables,
)
    requires
        database.understands_sql(),
        crate::table_laws::holds_inodes(before[Table::Inode], inodes),
        crate::timestamp::reads_as(crate::timestamp::rfc3339_nanos(now@.0, now@.1), now@),
        call_ensures(FloconTree::create_inode_at, (mode, uid, gid, rdev, now), Ok(s)),
        rdev <= i64::MAX,
        database.after(s@, before) == Some(after),
    ensures
        exists|id: u64, attrs: EntryCore|
            {
                &&& id > 0
                &&& !inodes.contains_key(id)
                &&& crate::table_laws::holds_inodes(
                    after[Table::Inode],
                    #[trigger] inodes.insert(id, attrs),
                )
                &&& attrs.st_ino == id
                &&& attrs.st_mode == mode && attrs.st_uid == uid && attrs.st_gid == gid
                    && attrs.st_rdev == rdev && attrs.st_size == 0
                &&& attrs.st_atime == now@.0 && attrs.st_mtime == now@.0 && attrs.st_ctime == now@.0
                &&& attrs.st_atime_nsec == now@.1 && attrs.st_mtime_nsec == now@.1
                    && attrs.st_ctime_nsec == now@.1
            },
        after[Table::Link] == before[Table::Link],
{
    crate::table_laws::create_inode_adds_one_inode(
        database,
        before,
        inodes,
        mode,
        uid,
        gid,
        rdev,
        now@,
    );
}

/// Setting a time of an inode through its handle, as the database carries that
/// out, changes that time and no other attribute, so that reading the inode
/// gives the time back.
pub proof fn times_are_set_one_by_one(
    database: Database,
    before: Tables,
    inodes: Map<u64, EntryCore>,
    handle: &FloconHandle,
    field: Field,
    name: &str,
    t: Timestamp,
    s: Statement,
    after: Tables,
)
    requires
        database.understands_sql(),
        crate::table_laws::holds_inodes(before[Table::Inode], inodes),
        inodes.contains_key(handle.attrs().st_ino),
        handle.attrs().st_ino <= i64::MAX,
        field == Field::Atime || field == Field::Mtime || field == Field::Ctime,
        name@ == field.text(),
        crate::timestamp::reads_as(crate::timestamp::rfc3339_nanos(t@.0, t@.1), t@),
        call_ensures(FloconHandle::update_inode_datetime, (handle, name, t), Ok(s)),
        database.after(s@, before) == Some(after),
    ensures
        ({
            let id = handle.attrs().st_ino;
            let old = inodes[id];
            crate::table_laws::holds_inodes(
                after[Table::Inode],
                inodes.insert(
                    id,
                    match field {
                        Field::Atime => EntryCore {
                            st_atime: t@.0,
                            st_atime_nsec: t@.1 as i64,
                            ..old
                        },
                        Field::Mtime => EntryCore {
                            st_mtime: t@.0,
                            st_mtime_nsec: t@.1 as i64,
                            ..old
                        },
                        _ => EntryCore { st_ctime: t@.0, st_ctime_nsec: t@.1 as i64, ..old },
                    },
                ),
            )
        }),
        after[Table::Link] == before[Table::Link],
        after[Table::Block] == before[Table::Block],
{
    crate::table_laws::columns_of_an_inode_can_be_set(field);
    crate::table_laws::update_inode_datetime_sets_one_attribute(
        database,
        before,
        inodes,
        handle.attrs().st_ino,
        field,
        t@,
    );
}

/// Setting a number of an inode through its handle, as the database carries that
/// out, changes that attribute and no other one.
pub proof fn numbers_are_set_one_by_one(
    database: Database,
    before: Tables,
    inodes: Map<u64, EntryCore>,
    handle: &FloconHandle,
    field: Field,
    name: &str,
    value: u64,
    s: Statement,
    after: Tables,
)
    requires
        database.understands_sql(),
        crate::table_laws::holds_inodes(before[Table::Inode], inodes),
        inodes.contains_key(handle.attrs().st_ino),
        handle.attrs().st_ino <= i64::MAX,
        field == Field::Mode || field == Field::Uid || field == Field::Gid || field == Field::Size
            || field == Field::Rdev,
        field == Field::Size || field == Field::Rdev ==> value <= i64::MAX,
        field != Field::Size && field != Field::Rdev ==> value <= u32::MAX,
        name@ == field.text(),
        call_ensures(FloconHandle::update_inode_numeric, (handle, name, value), Ok(s)),
        database.after(s@, before) == Some(after),
    ensures
        ({
            let id = handle.attrs().st_ino;
            let old = inodes[id];
            crate::table_laws::holds_inodes(
                after[Table::Inode],
                inodes.insert(
                    id,
                    match field {
                        Field::Mode => EntryCore { st_mode: value as u32, ..old },
                        Field::Uid => EntryCore { st_uid: value as u32, ..old },
                        Field::Gid => EntryCore { st_gid: value as u32, ..old },
                        Field::Size => EntryCore { st_size: value as i64, ..old },
                        _ => EntryCore { st_rdev: value, ..old },
                    },
                ),
            )
        }),
        after[Table::Link] == before[Table::Link],
        after[Table::Block] == before[Table::Block],
{
    crate::table_laws::columns_of_an_inode_can_be_set(field);
    crate::table_laws::update_inode_numeric_sets_one_attribute(
        database,
        before,
        inodes,
        handle.attrs().st_ino,
        field,
        value,
    );
}

/// An inode is deleted only if it is said that no name leads to it.
pub proof fn linked_inodes_are_not_deleted(
    inode: u64,
    link_count: u64,
    r: Result<Vec<Statement>, Error>,
)
    requires
        call_ensures(FloconTree::delete_inode, (inode, link_count), r),
    ensures
        link_count > 0 ==> (r matches Err(e) && e@ == crate::error::os(crate::error::EBUSY)),
        link_count == 0 ==> (r is Ok <==> inode <= i64::MAX),
{
}

/// Deleting an inode that no name leads to, as the database carries that out,
/// takes out what belongs to it and nothing else.
pub proof fn unlinked_inodes_are_deleted_with_all_they_have(
    database: Database,
    before: Tables,
    state: FsState,
    inode: u64,
    s: Vec<Statement>,
    after: Tables,
)
    requires
        database.understands_sql(),
        crate::table_laws::holds_inodes(before[Table::Inode], state.inodes),
        crate::table_laws::holds_links(before[Table::Link], state.links),
        crate::table_laws::holds_xattrs(before[Table::Xattr], state.xattrs),
        inode <= i64::MAX,
        forall|l: (u64, Seq<char>)| !#[trigger] state.links_to(inode).contains(l),
        state.consistent(),
        call_ensures(FloconTree::delete_inode, (inode, 0), Ok(s)),
        database.after_all(crate::sql::statements(s@), before) == Some(after),
    ensures
        crate::table_laws::holds_inodes(after[Table::Inode], state.inodes.remove(inode)),
        crate::table_laws::holds_xattrs(after[Table::Xattr], state.without_inode(inode).xattrs),
        crate::table_laws::holds_links(after[Table::Link], state.without_inode(inode).links),
        forall|row: Row| #[trigger]
            after[Table::Block].contains(row) <==> before[Table::Block].contains(row)
                && row[Field::InodeId] != crate::sql::int_param(inode),
{
    crate::table_laws::delete_inode_takes_out_what_belongs_to_it(database, before, state, inode);
}

/// Asking for an extended attribute through the handle of a file and reading the
/// answer gives the value that this file has under the key, and that it is not
/// found if it has none.
pub proof fn asking_for_an_xattr_gives_its_value(
    database: Database,
    tables: Tables,
    xattrs: Map<(u64, Seq<char>), Seq<u8>>,
    handle: &FloconHandle,
    key: &str,
    s: Statement,
    rows: &Vec<Vec<SqlValue>>,
    r: Result<Vec<u8>, Error>,
)
    requires
        database.understands_sql(),
        crate::table_laws::holds_xattrs(tables[Table::Xattr], xattrs),
        handle.attrs().st_ino <= i64::MAX,
        !crate::text::begins_with(key@, "flocon."@),
        key@ != "flocon"@,
        call_ensures(FloconHandle::xattr_query, (handle, key), Ok(s)),
        answers(database, tables, s, rows),
        call_ensures(FloconHandle::read_xattr, (handle, key, rows), r),
    ensures
        match r {
            Ok(v) => xattrs.contains_key((handle.attrs().st_ino, key@)) && v@
                == xattrs[(handle.attrs().st_ino, key@)],
            Err(e) => !xattrs.contains_key((handle.attrs().st_ino, key@)) && e@.kind()
                == ErrorKind::NotFound,
        },
{
    crate::table_laws::xattr_get_reads_what_is_stored(
        database,
        tables,
        xattrs,
        handle.attrs().st_ino,
        key@,
        handle.image(),
    );
}

/// Setting an extended attribute through the handle of a file, first as a change
/// and then, where nothing was changed, as an addition, gives this file that
/// value under the key and changes nothing else. Keys of the file system itself
/// are refused, to set and to remove.
pub proof fn xattrs_are_set_and_removed(
    database: Database,
    before: Tables,
    xattrs: Map<(u64, Seq<char>), Seq<u8>>,
    handle: &FloconHandle,
    key: &str,
    value: &[u8],
    change: Result<Statement, Error>,
    changed: Tables,
    added: Tables,
    remove: Result<Statement, Error>,
    removed: Tables,
    add: Result<Option<Statement>, Error>,
)
    requires
        database.understands_sql(),
        crate::table_laws::holds_xattrs(before[Table::Xattr], xattrs),
        handle.attrs().st_ino <= i64::MAX,
        call_ensures(FloconHandle::xattr_set, (handle, key, value), change),
        call_ensures(FloconHandle::xattr_insert, (handle, 0, key, value), add),
        call_ensures(FloconHandle::xattr_remove, (handle, key), remove),
        change matches Ok(s) ==> database.after(s@, before) == Some(changed),
        add matches Ok(Some(s)) ==> database.after(s@, changed) == Some(added),
        remove matches Ok(s) ==> database.after(s@, before) == Some(removed),
    ensures
        ({
            let place = (handle.attrs().st_ino, key@);
            let reserved = crate::text::begins_with(key@, "flocon."@);
            &&& reserved ==> (change matches Err(e) && e@.kind() == ErrorKind::PermissionDenied) && (
            remove is Err)
            &&& !reserved ==> change is Ok && remove is Ok
            &&& !reserved && xattrs.contains_key(place) ==> crate::table_laws::holds_xattrs(
                changed[Table::Xattr],
                xattrs.insert(place, value@),
            )
            &&& !reserved && !xattrs.contains_key(place) ==> crate::table_laws::holds_xattrs(
                changed[Table::Xattr],
                xattrs,
            ) && add is Ok && add->Ok_0 is Some && crate::table_laws::holds_xattrs(
                added[Table::Xattr],
                xattrs.insert(place, value@),
            )
            &&& !reserved ==> crate::table_laws::holds_xattrs(
                removed[Table::Xattr],
                xattrs.remove(place),
            )
        }),
{
    let inode = handle.attrs().st_ino;
    if !crate::text::begins_with(key@, "flocon."@) {
        crate::table_laws::xattr_update_changes_one_value(
            database,
            before,
            xattrs,
            inode,
            key@,
            value@,
        );
        crate::table_laws::xattr_delete_takes_out_one_value(database, before, xattrs, inode, key@);
        if !xattrs.contains_key((inode, key@)) {
            crate::table_laws::xattr_insert_adds_one_value(
                database,
                changed,
                xattrs,
                inode,
                key@,
                value@,
            );
        }
    }
}

/// An extended attribute is added exactly if none was changed.
pub proof fn changed_xattr_is_not_added(
    handle: &FloconHandle,
    updated: usize,
    key: &str,
    value: &[u8],
    r: Result<Option<Statement>, Error>,
)
    requires
        handle.attrs().st_ino <= i64::MAX,
        call_ensures(FloconHandle::xattr_insert, (handle, updated, key, value), r),
    ensures
        r matches Ok(s) && (s is None <==> updated > 0),
{
}

} // verus!
