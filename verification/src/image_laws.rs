//! Laws of an image as a whole: how it is set up, how its transactions go, and
//! what is said of it.

use vstd::prelude::*;
use crate::blocks::{
    DataSource, FloconContext, MemoryDataSource, SqliteDataSource, ZeroDataSource,
};
use crate::database::{Database, Row, Session, Tables};
use crate::error::{Error, ErrorKind};
use crate::flocon::{Flocon, FloconHandle, FloconInode, FloconTree, XattrSource};
use crate::manager::FileSystemManager;
use crate::migration::{Field, Index, Migration, Step, StepView, Table};
use crate::models::{DateTimeUtc, NewInode};
use crate::sql::{SqlValue, Statement};
use crate::timestamp::Timestamp;
use crate::winter::{EntryCore, WinterInode};

verus! {

/// Asking for the number of files and reading the answer gives the number of the
/// inodes that are stored.
pub proof fn asking_for_files_counts_the_inodes(
    database: Database,
    tables: Tables,
    inodes: Map<u64, EntryCore>,
    s: Statement,
    rows: &Vec<Vec<SqlValue>>,
    r: Result<u64, Error>,
)
    requires
        database.understands_sql(),
        crate::table_laws::holds_inodes(tables[Table::Inode], inodes),
        tables[Table::Inode].len() <= i64::MAX,
        call_ensures(Flocon::estimate_files_count, (), s),
        crate::asking_laws::answers(database, tables, s, rows),
        call_ensures(crate::flocon::read_count, (rows,), r),
    ensures
        inodes.dom().finite(),
        r matches Ok(n) && n == inodes.dom().len() as u64,
{
    crate::table_laws::files_are_the_inodes(database, tables, inodes);
}

/// What is done between the beginning of a context and its end is there after it
/// was synced, and gone after it was rolled back.
pub proof fn contexts_are_transactions(
    database: Database,
    before: Session,
    done: Tables,
    create: Statement,
    sync: Statement,
    rollback: Statement,
)
    requires
        database.understands_sql(),
        before.saved is None,
        call_ensures(Flocon::create_context, (), create),
        call_ensures(Flocon::sync_context, (), sync),
        call_ensures(Flocon::rollback_context, (), rollback),
    ensures
        ({
            let begun = database.controlled(create@, before);
            let inside = Session { tables: done, ..begun };
            &&& begun.tables == before.tables
            &&& database.controlled(sync@, inside).tables == done
            &&& database.controlled(sync@, inside).saved is None
            &&& database.controlled(rollback@, inside).tables == before.tables
            &&& database.controlled(rollback@, inside).saved is None
        }),
{
    crate::table_laws::transactions_are_all_or_nothing(database, before, done);
}

/// Asking for the keys of a file and reading the answer gives each key under which
/// this file has a value, once, and then the key of the image.
pub proof fn asking_for_keys_gives_those_of_the_file(
    database: Database,
    tables: Tables,
    xattrs: Map<(u64, Seq<char>), Seq<u8>>,
    handle: &FloconHandle,
    s: Statement,
    rows: &Vec<Vec<SqlValue>>,
    r: Result<Vec<String>, Error>,
)
    requires
        database.understands_sql(),
        crate::table_laws::holds_xattrs(tables[Table::Xattr], xattrs),
        handle.attrs().st_ino <= i64::MAX,
        call_ensures(FloconHandle::xattr_list, (handle,), Ok(s)),
        crate::asking_laws::answers(database, tables, s, rows),
        call_ensures(FloconHandle::read_xattr_keys, (rows,), r),
    ensures
        r matches Ok(names) && {
            let keys = crate::winter::texts(names@);
            &&& keys.len() > 0 && keys.last() == "flocon.image"@
            &&& keys.drop_last().no_duplicates()
            &&& forall|key: Seq<char>| #[trigger]
                keys.drop_last().contains(key) <==> xattrs.contains_key(
                    (handle.attrs().st_ino, key),
                )
        },
{
    let inode = handle.attrs().st_ino;
    crate::table_laws::xattr_keys_are_those_of_the_inode(database, tables, xattrs, inode);
    let stored = crate::flocon::texts_of_rows(database.rows(s@, tables))->Ok_0;
    assert(FloconHandle::all_keys(stored).drop_last() =~= stored);
}

/// The key of the image gives its name, whatever is stored; nothing else that
/// belongs to the file system has a value; and taking out a value that was not
/// there says so.
pub proof fn image_key_gives_the_image(
    handle: &FloconHandle,
    key: &str,
    rows: &Vec<Vec<SqlValue>>,
    source: XattrSource,
    r: Result<Vec<u8>, Error>,
    deleted: usize,
    removed: Result<(), Error>,
)
    requires
        call_ensures(FloconHandle::xattr_get, (key,), source),
        call_ensures(FloconHandle::read_xattr, (handle, key, rows), r),
        call_ensures(FloconHandle::xattr_removed, (deleted,), removed),
    ensures
        key@ == "flocon.image"@ ==> source is Image && (r matches Ok(v) && v@
            == vstd::utf8::encode_utf8(handle.image())),
        key@ != "flocon.image"@ && crate::text::begins_with(key@, "flocon."@) ==> source is Nowhere
            && (r matches Err(e) && e@.kind() == ErrorKind::NotFound),
        source is Table <==> key@ != "flocon"@ && !crate::text::begins_with(key@, "flocon."@),
        removed is Ok <==> deleted > 0,
        removed matches Err(e) ==> e@.kind() == ErrorKind::NotFound,
{
    crate::flocon::image_xattr_gives_the_image(
        seq![],
        handle.image(),
        crate::sql::rows(rows@),
        key@,
    );
    crate::flocon::settable_xattrs_are_read_from_storage(key@);
    assert(FloconHandle::all_keys(seq![]).last() == "flocon.image"@);
    reveal_strlit("flocon");
    reveal_strlit("flocon.");
    reveal_strlit("flocon.image");
    assert("flocon.image"@.take(7) =~= "flocon."@);
}

/// Emptying a file, as the database carries that out, takes out its blocks and
/// those of no other file, and leaves its size at zero.
pub proof fn emptied_file_has_no_blocks(
    database: Database,
    before: Tables,
    inodes: Map<u64, EntryCore>,
    handle: &FloconHandle,
    s: Vec<Statement>,
    after: Tables,
)
    requires
        database.understands_sql(),
        crate::table_laws::holds_inodes(before[Table::Inode], inodes),
        inodes.contains_key(handle.attrs().st_ino),
        handle.attrs().st_ino <= i64::MAX,
        call_ensures(FloconHandle::truncate, (handle,), Ok(s)),
        database.after_all(crate::sql::statements(s@), before) == Some(after),
    ensures
        crate::table_laws::holds_inodes(
            after[Table::Inode],
            inodes.insert(
                handle.attrs().st_ino,
                EntryCore { st_size: 0, ..inodes[handle.attrs().st_ino] },
            ),
        ),
        forall|row: Row| #[trigger]
            after[Table::Block].contains(row) <==> before[Table::Block].contains(row)
                && row[Field::InodeId] != crate::sql::int_param(handle.attrs().st_ino),
        after[Table::Link] == before[Table::Link],
        after[Table::Xattr] == before[Table::Xattr],
{
    crate::table_laws::truncate_empties_one_file(
        database,
        before,
        inodes,
        handle.attrs().st_ino,
    );
}

/// The tables of a new image have a place for each attribute of an inode, the
/// device among them; undoing the migration drops each table that it made, the
/// last one first, and nothing else.
pub proof fn image_is_set_up_with_its_tables(sql: String, up: Vec<Step>, down: Vec<Step>, i: int)
    requires
        call_ensures(crate::migration::create_tables_sql, (), sql),
        call_ensures(Migration::up, (), up),
        call_ensures(Migration::down, (), down),
    ensures
        exists|s: Seq<StepView>|
            {
                &&& sql@ == #[trigger] crate::migration::script(s)
                &&& s.len() > 4
                &&& s[0] matches StepView::CreateTable(t) && t.table == Table::Inode
                    && crate::migration::has_column(t, Field::Rdev)
                    && crate::migration::has_column(t, Field::Size)
                    && crate::migration::has_column(t, Field::Btime)
                &&& crate::migration::created(s[1]) == Some(Table::Link)
                &&& crate::migration::created(s[2]) == Some(Table::Block)
                &&& crate::migration::created(s[3]) == Some(Table::Xattr)
            },
        down@.len() == 4,
        0 <= i < 4 ==> (crate::migration::created(crate::migration::steps(up@)[3 - i]) matches Some(
            t,
        ) && crate::migration::steps(down@)[i] == StepView::DropTable(t)),
        4 <= i < up@.len() ==> crate::migration::created(crate::migration::steps(up@)[i]) is None,
{
    let s = crate::migration::creation(true);
    let t = crate::migration::inode_table(true);
    assert(t.columns[4].field == Field::Size);
    assert(t.columns[5].field == Field::Rdev);
    assert(t.columns[9].field == Field::Btime);
    assert(sql@ == crate::migration::script(s));
    assert(crate::migration::steps(down@).len() == down@.len());
    assert(crate::migration::steps(up@).len() == up@.len());
    if 0 <= i < 4 {
        crate::migration::removal_undoes_creation(false, i);
    } else {
        crate::migration::removal_undoes_creation(false, 0);
    }
}

/// Each connection follows foreign keys, and keeps a log ahead of its writes.
pub proof fn connections_follow_foreign_keys(s: Statement)
    requires
        call_ensures(FileSystemManager::on_acquire, (), s),
    ensures
        exists|before: Seq<char>, after: Seq<char>|
            s@.sql == #[trigger] (before + "PRAGMA foreign_keys = ON;"@ + after),
        exists|before: Seq<char>, after: Seq<char>|
            s@.sql == #[trigger] (before + "PRAGMA journal_mode = WAL;"@ + after),
        exists|before: Seq<char>, after: Seq<char>|
            s@.sql == #[trigger] (before + "PRAGMA synchronous = NORMAL;"@ + after),
{
    reveal_strlit(
        "PRAGMA journal_mode = WAL; PRAGMA foreign_keys = ON; PRAGMA auto_vacuum = INCREMENTAL; PRAGMA synchronous = NORMAL; PRAGMA temp_store = MEMORY; PRAGMA mmap_size = 30000000000; PRAGMA page_size = 4096;",
    );
    reveal_strlit("PRAGMA journal_mode = WAL;");
    reveal_strlit("PRAGMA foreign_keys = ON;");
    reveal_strlit("PRAGMA synchronous = NORMAL;");
    let sql = s@.sql;
    assert(sql =~= sql.take(0) + "PRAGMA journal_mode = WAL;"@ + sql.skip(26));
    assert(sql =~= sql.take(27) + "PRAGMA foreign_keys = ON;"@ + sql.skip(52));
    assert(sql =~= sql.take(87) + "PRAGMA synchronous = NORMAL;"@ + sql.skip(115));
}

/// The name and the path of an image are shown as they are, if there are any, and
/// room that fits in 64 bits is so many blocks of so many bytes.
pub proof fn image_is_named_as_its_file(
    name: String,
    shown: String,
    nameless: String,
    url: Result<String, String>,
    no_url: Result<String, String>,
    blocks: u64,
    block_bytes: u64,
    free: u64,
    block_size: i64,
)
    requires
        call_ensures(Flocon::image_name, (Some(name),), shown),
        call_ensures(Flocon::image_name, (None,), nameless),
        call_ensures(FileSystemManager::image_url, (Some(name),), url),
        call_ensures(FileSystemManager::image_url, (None,), no_url),
        call_ensures(Flocon::free_storage, (blocks, block_bytes), free),
        call_ensures(Flocon::block_size, (), block_size),
        blocks * block_bytes <= u64::MAX,
    ensures
        shown@ == name@,
        nameless@ == "unknown"@,
        url matches Ok(p) && p@ == name@,
        no_url is Err,
        free == blocks * block_bytes,
        block_size == 1024 * 1024,
{
    assert(0 <= blocks * block_bytes) by (nonlinear_arith)
        requires
            0 <= blocks,
            0 <= block_bytes,
    ;
    let n = blocks * block_bytes;
    assert(0 <= n < 0x1_0000_0000_0000_0000int);
    assert(n % 0x1_0000_0000_0000_0000int == n);
}

/// A time of the years 0 to 9999 that is stored is read back as it was.
pub proof fn stored_times_are_read_back(
    t: &DateTimeUtc,
    stored: String,
    text: &str,
    r: Result<DateTimeUtc, String>,
)
    requires
        crate::timestamp::has_four_digit_year(t.0@.0),
        call_ensures(DateTimeUtc::to_sql, (t,), stored),
        text@ == stored@,
        call_ensures(DateTimeUtc::from_sql, (text,), r),
    ensures
        r matches Ok(d) && d.0@ == t.0@,
{
}

/// The root inode of a new image is an empty directory with the permissions and
/// the owner that were asked for, all of whose times are the present.
pub proof fn new_root_is_an_empty_directory(
    mode: u32,
    uid: u32,
    gid: u32,
    now: Timestamp,
    r: NewInode,
)
    requires
        mode & crate::modes::S_IFMT == 0,
        mode <= 0o7777,
        uid <= i32::MAX,
        gid <= i32::MAX,
        call_ensures(NewInode::root, (mode, uid, gid, now), r),
    ensures
        r.mode == 0o040000 + mode,
        r.uid == uid && r.gid == gid,
        r.size == 0 && r.rdev == 0,
        r.atime.0 == now && r.mtime.0 == now && r.ctime.0 == now && r.btime.0 == now,
{
    assert((0o040000u32 | mode) == 0o040000u32 + mode) by (bit_vector)
        requires
            mode & 0o170000u32 == 0,
    ;
}

/// A handle shows the inode that it was made with or given last, and keeping a
/// size changes nothing else of it; an inode that does not exist has no number,
/// and a write for which another number of bytes came than was said is refused.
pub proof fn handles_show_their_inode(
    inode: FloconInode,
    block_size: i64,
    image_name: String,
    made: FloconHandle,
    none: FloconInode,
    size: usize,
    came: usize,
    r: Result<(), Error>,
)
    requires
        call_ensures(FloconHandle::new, (inode, block_size, image_name), made),
        call_ensures(FloconTree::empty_inode, (), none),
        call_ensures(FloconHandle::check_incoming, (size, came), r),
    ensures
        made.attrs() == inode.attrs() && made.image() == image_name@,
        none.attrs().st_ino == 0 && none.attrs().st_mode == 0 && none.attrs().st_size == 0,
        r is Ok <==> came == size,
        forall|h: &mut FloconHandle, u: ()| #[trigger]
            call_ensures(FloconHandle::reload, (h, inode), u) ==> final(h).attrs() == inode.attrs()
                && final(h).image() == h.image() && final(h).block_bytes() == h.block_bytes(),
        forall|h: &mut FloconHandle, n: i64, u: ()| #[trigger]
            call_ensures(FloconHandle::keep_size, (h, n), u) ==> final(h).attrs() == (EntryCore {
                st_size: n,
                ..h.attrs()
            }) && final(h).image() == h.image() && final(h).block_bytes() == h.block_bytes(),
{
}

/// Data that is put in for a block is found under its number, and that of other
/// blocks stays as it was.
pub proof fn loaded_data_is_found(id: u64, data: Vec<u8>, other: u64)
    ensures
        forall|c: &mut FloconContext, u: (), after: &FloconContext, r: Option<&Vec<u8>>|
            #![trigger call_ensures(FloconContext::add_blob, (c, id, data), u),
                call_ensures(FloconContext::blob, (after, other), r)]
            call_ensures(FloconContext::add_blob, (c, id, data), u) && *after == *final(c)
                && call_ensures(FloconContext::blob, (after, other), r) ==> {
                &&& other == id ==> (r matches Some(d) && d@ == data@)
                &&& other != id ==> (r is Some <==> c@.contains_key(other))
                &&& other != id ==> (r matches Some(d) ==> d@ == c@[other])
            },
{
}

/// Each index is named after the table that it is about, and finds by the columns
/// by which rows of that table are looked up: names by the inode to which they
/// lead, blocks by their place in a file, and inodes by their kind.
pub proof fn indexes_find_what_is_looked_up(
    index: Index,
    name: String,
    target: (Table, Vec<Field>),
    table_name: String,
)
    requires
        call_ensures(Index::name, (&index,), name),
        call_ensures(crate::migration::index_target, (index,), target),
        call_ensures(Table::name, (&target.0,), table_name),
    ensures
        crate::text::begins_with(name@, "idx_"@ + table_name@ + "_"@),
        target.0 == Table::Link ==> target.1@.len() == 1 && target.1@[0] == Field::ChildId,
        target.0 == Table::Block ==> target.1@.len() == 3 && target.1@[0] == Field::InodeId
            && target.1@[1] == Field::FirstByte && target.1@[2] == Field::LastByte,
        target.0 == Table::Inode ==> target.1@.len() == 1 && target.1@[0] == Field::Mode,
        target.0 != Table::Xattr,
{
    reveal_strlit("idx_");
    reveal_strlit("_");
    reveal_strlit("link");
    reveal_strlit("block");
    reveal_strlit("inode");
    reveal_strlit("idx_link_child");
    reveal_strlit("idx_block_range");
    reveal_strlit("idx_inode_mode");
    let start = "idx_"@ + table_name@ + "_"@;
    assert(name@.take(start.len() as int) =~= start);
}

/// What is said of a file stays valid for a year, whatever file it is, and what a
/// storage has no limits of its own for is limited to what can be counted with a
/// sign, and to names of one page.
pub proof fn answers_stay_valid_for_a_year(attrs: EntryCore, files: u64, name: u64)
    requires
        call_ensures(crate::winter::default_max_files_count, (), files),
        call_ensures(crate::winter::default_name_max_size, (), name),
    ensures
        FloconInode::attr_validity(attrs).secs == 365 * 24 * 60 * 60,
        FloconInode::entry_validity(attrs) == FloconInode::attr_validity(attrs),
        FloconInode::attr_validity(attrs).nanos == 0,
        files == 0x7fff_ffff_ffff_ffff,
        name == 0x1000,
{
}

/// Sources give the bytes that they are made of: data all of it, a part of data
/// that part if it lies in it, zeros as many as are asked for, and stored blocks
/// the part that was asked for.
pub proof fn sources_give_what_they_are_made_of(
    data: Vec<u8>,
    whole: Result<MemoryDataSource, Error>,
    shared: std::sync::Arc<Vec<u8>>,
    offset: u64,
    size: u64,
    part: Result<MemoryDataSource, Error>,
    zero: ZeroDataSource,
    id: u64,
    stored: SqliteDataSource,
    blobs: Map<u64, Seq<u8>>,
)
    requires
        call_ensures(MemoryDataSource::from_data, (data,), whole),
        call_ensures(MemoryDataSource::new, (shared, offset, size), part),
        call_ensures(ZeroDataSource::new, (size,), zero),
        call_ensures(SqliteDataSource::new, (id, offset, size), stored),
    ensures
        whole matches Ok(s) && (s.source().reads(blobs) matches Ok(bytes) && bytes == data@),
        part is Ok <==> offset + size <= shared@.len(),
        part matches Ok(s) ==> (s.source().reads(blobs) matches Ok(bytes) && bytes.len() == size
            && forall|k: int| 0 <= k < size ==> #[trigger] bytes[k] == shared@[offset + k]),
        zero.source().reads(blobs) matches Ok(bytes) && bytes.len() == size && forall|k: int|
            0 <= k < size ==> #[trigger] bytes[k] == 0,
        id <= i64::MAX && blobs.contains_key(id) && offset + size <= blobs[id].len() && offset
            <= i64::MAX ==> (stored.source().reads(blobs) matches Ok(bytes) && bytes
            == blobs[id].subrange(offset as int, offset + size)),
        !blobs.contains_key(id) ==> stored.source().reads(blobs) is Err,
{
    assert(data@.len() == data.len());
    assert(data@.subrange(0, data@.len() as int) =~= data@);
}

} // verus!
