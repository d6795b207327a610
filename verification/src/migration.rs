//! The tables of an image, and the steps that create and drop them.

use vstd::prelude::*;
use vstd::string::StringExecFns;

verus! {

/// A table.
#[derive(Clone, Copy, Debug, PartialEq, Eq, Structural)]
pub enum Table {
    Inode,
    Link,
    Block,
    Xattr,
}

/// A column of a table.
#[derive(Clone, Copy, Debug, PartialEq, Eq, Structural)]
pub enum Field {
    Id,
    Mode,
    Uid,
    Gid,
    Size,
    Rdev,
    Atime,
    Mtime,
    Ctime,
    Btime,
    ParentId,
    ChildId,
    Name,
    InodeId,
    FirstByte,
    LastByte,
    Data,
    Value,
}

/// What a column holds.
#[derive(Clone, Copy, Debug, PartialEq, Eq, Structural)]
pub enum Kind {
    Integer,
    DateTime,
    Text,
    Blob,
}

/// The definition of a column.
#[derive(Clone, Copy, Debug, PartialEq, Eq, Structural)]
pub struct ColumnDef {
    pub field: Field,
    pub kind: Kind,
    pub not_null: bool,
    /// Whether the column is the key of its table, and counts up by itself.
    pub is_key: bool,
    /// Whether the column is zero if nothing is said of it.
    pub zero_by_default: bool,
}

/// A column that holds the key of a row of another table, and goes with it.
#[derive(Clone, Copy, Debug, PartialEq, Eq, Structural)]
pub struct ForeignKey {
    pub from: Field,
    pub to_table: Table,
    pub to: Field,
}

/// The definition of a table.
#[derive(Debug)]
pub struct TableDef {
    pub table: Table,
    pub columns: Vec<ColumnDef>,
    /// The columns that are the key together, if it takes more than one.
    pub primary_key: Vec<Field>,
    pub foreign_keys: Vec<ForeignKey>,
    /// Two columns the first of which is never larger than the second.
    pub ordered: Option<(Field, Field)>,
}

/// The mathematical content of a [`TableDef`].
#[verifier::ext_equal]
pub struct TableView {
    pub table: Table,
    pub columns: Seq<ColumnDef>,
    pub primary_key: Seq<Field>,
    pub foreign_keys: Seq<ForeignKey>,
    pub ordered: Option<(Field, Field)>,
}

impl View for TableDef {
    type V = TableView;

    open spec fn view(&self) -> TableView {
        TableView {
            table: self.table,
            columns: self.columns@,
            primary_key: self.primary_key@,
            foreign_keys: self.foreign_keys@,
            ordered: self.ordered,
        }
    }
}

/// An index.
#[derive(Clone, Copy, Debug, PartialEq, Eq, Structural)]
pub enum Index {
    LinkChild,
    BlockRange,
    InodeMode,
}

/// A step that changes the tables of an image.
#[derive(Debug)]
pub enum Step {
    CreateTable(TableDef),
    CreateIndex(Index),
    DropTable(Table),
}

/// The mathematical content of a [`Step`].
#[verifier::ext_equal]
pub enum StepView {
    CreateTable(TableView),
    CreateIndex(Index),
    DropTable(Table),
}

impl View for Step {
    type V = StepView;

    open spec fn view(&self) -> StepView {
        match *self {
            Step::CreateTable(t) => StepView::CreateTable(t@),
            Step::CreateIndex(i) => StepView::CreateIndex(i),
            Step::DropTable(t) => StepView::DropTable(t),
        }
    }
}

/// The contents of a list of steps.
pub open spec fn steps(s: Seq<Step>) -> Seq<StepView> {
    s.map_values(|step: Step| step@)
}

/// A column that counts up by itself and is the key.
pub open spec fn key_column() -> ColumnDef {
    ColumnDef {
        field: Field::Id,
        kind: Kind::Integer,
        not_null: true,
        is_key: true,
        zero_by_default: false,
    }
}

/// A column that always holds a value of this kind.
pub open spec fn filled_column(field: Field, kind: Kind) -> ColumnDef {
    ColumnDef { field, kind, not_null: true, is_key: false, zero_by_default: false }
}

/// A foreign key on an inode.
pub open spec fn inode_key(from: Field) -> ForeignKey {
    ForeignKey { from, to_table: Table::Inode, to: Field::Id }
}

/// The table of inodes, with or without the device that an inode stands for.
pub open spec fn inode_table(with_rdev: bool) -> TableView {
    let head = seq![
        key_column(),
        filled_column(Field::Mode, Kind::Integer),
        filled_column(Field::Uid, Kind::Integer),
        filled_column(Field::Gid, Kind::Integer),
        ColumnDef { zero_by_default: true, ..filled_column(Field::Size, Kind::Integer) },
    ];
    let device = if with_rdev {
        seq![ColumnDef { zero_by_default: true, ..filled_column(Field::Rdev, Kind::Integer) }]
    } else {
        seq![]
    };
    let times = seq![
        filled_column(Field::Atime, Kind::DateTime),
        filled_column(Field::Mtime, Kind::DateTime),
        filled_column(Field::Ctime, Kind::DateTime),
        filled_column(Field::Btime, Kind::DateTime),
    ];
    TableView {
        table: Table::Inode,
        columns: head + device + times,
        primary_key: seq![],
        foreign_keys: seq![],
        ordered: None,
    }
}

/// The table of links: each name in a directory leads to one inode.
pub open spec fn link_table() -> TableView {
    TableView {
        table: Table::Link,
        columns: seq![
            filled_column(Field::ParentId, Kind::Integer),
            filled_column(Field::ChildId, Kind::Integer),
            filled_column(Field::Name, Kind::Text),
        ],
        primary_key: seq![Field::ParentId, Field::Name],
        foreign_keys: seq![inode_key(Field::ParentId), inode_key(Field::ChildId)],
        ordered: None,
    }
}

/// The table of blocks: each covers at least one byte, and one without data is
/// all zeros.
pub open spec fn block_table() -> TableView {
    TableView {
        table: Table::Block,
        columns: seq![
            key_column(),
            filled_column(Field::InodeId, Kind::Integer),
            filled_column(Field::FirstByte, Kind::Integer),
            filled_column(Field::LastByte, Kind::Integer),
            ColumnDef { not_null: false, ..filled_column(Field::Data, Kind::Blob) },
        ],
        primary_key: seq![],
        foreign_keys: seq![inode_key(Field::InodeId)],
        ordered: Some((Field::FirstByte, Field::LastByte)),
    }
}

/// The table of extended attributes: each key of an inode has one value.
pub open spec fn xattr_table() -> TableView {
    TableView {
        table: Table::Xattr,
        columns: seq![
            filled_column(Field::InodeId, Kind::Integer),
            filled_column(Field::Name, Kind::Text),
            filled_column(Field::Value, Kind::Blob),
        ],
        primary_key: seq![Field::InodeId, Field::Name],
        foreign_keys: seq![inode_key(Field::InodeId)],
        ordered: None,
    }
}

/// The steps that create the tables and their indexes.
pub open spec fn creation(with_rdev: bool) -> Seq<StepView> {
    seq![
        StepView::CreateTable(inode_table(with_rdev)),
        StepView::CreateTable(link_table()),
        StepView::CreateTable(block_table()),
        StepView::CreateTable(xattr_table()),
        StepView::CreateIndex(Index::LinkChild),
        StepView::CreateIndex(Index::BlockRange),
        StepView::CreateIndex(Index::InodeMode),
    ]
}

/// The steps that drop the tables.
pub open spec fn removal() -> Seq<StepView> {
    seq![
        StepView::DropTable(Table::Xattr),
        StepView::DropTable(Table::Block),
        StepView::DropTable(Table::Link),
        StepView::DropTable(Table::Inode),
    ]
}

/// The table that an index is about.
pub open spec fn index_table(index: Index) -> Table {
    match index {
        Index::LinkChild => Table::Link,
        Index::BlockRange => Table::Block,
        Index::InodeMode => Table::Inode,
    }
}

/// The columns that an index is about.
pub open spec fn index_fields(index: Index) -> Seq<Field> {
    match index {
        Index::LinkChild => seq![Field::ChildId],
        Index::BlockRange => seq![Field::InodeId, Field::FirstByte, Field::LastByte],
        Index::InodeMode => seq![Field::Mode],
    }
}

fn key() -> (r: ColumnDef)
    ensures
        r == key_column(),
{
    ColumnDef {
        field: Field::Id,
        kind: Kind::Integer,
        not_null: true,
        is_key: true,
        zero_by_default: false,
    }
}

fn filled(field: Field, kind: Kind) -> (r: ColumnDef)
    ensures
        r == filled_column(field, kind),
{
    ColumnDef { field, kind, not_null: true, is_key: false, zero_by_default: false }
}

fn on_inode(from: Field) -> (r: ForeignKey)
    ensures
        r == inode_key(from),
{
    ForeignKey { from, to_table: Table::Inode, to: Field::Id }
}

fn inode_def(with_rdev: bool) -> (r: TableDef)
    ensures
        r@ == inode_table(with_rdev),
{
    let mut columns: Vec<ColumnDef> = Vec::new();
    columns.push(key());
    columns.push(filled(Field::Mode, Kind::Integer));
    columns.push(filled(Field::Uid, Kind::Integer));
    columns.push(filled(Field::Gid, Kind::Integer));
    columns.push(ColumnDef { zero_by_default: true, ..filled(Field::Size, Kind::Integer) });
    if with_rdev {
        columns.push(ColumnDef { zero_by_default: true, ..filled(Field::Rdev, Kind::Integer) });
    }
    columns.push(filled(Field::Atime, Kind::DateTime));
    columns.push(filled(Field::Mtime, Kind::DateTime));
    columns.push(filled(Field::Ctime, Kind::DateTime));
    columns.push(filled(Field::Btime, Kind::DateTime));
    let r = TableDef {
        table: Table::Inode,
        columns,
        primary_key: Vec::new(),
        foreign_keys: Vec::new(),
        ordered: None,
    };
    assert(r@.columns =~= inode_table(with_rdev).columns);
    assert(r@ =~= inode_table(with_rdev));
    r
}

fn link_def() -> (r: TableDef)
    ensures
        r@ == link_table(),
{
    let r = TableDef {
        table: Table::Link,
        columns: vec![
            filled(Field::ParentId, Kind::Integer),
            filled(Field::ChildId, Kind::Integer),
            filled(Field::Name, Kind::Text),
        ],
        primary_key: vec![Field::ParentId, Field::Name],
        foreign_keys: vec![on_inode(Field::ParentId), on_inode(Field::ChildId)],
        ordered: None,
    };
    assert(r@ =~= link_table());
    r
}

fn block_def() -> (r: TableDef)
    ensures
        r@ == block_table(),
{
    let r = TableDef {
        table: Table::Block,
        columns: vec![
            key(),
            filled(Field::InodeId, Kind::Integer),
            filled(Field::FirstByte, Kind::Integer),
            filled(Field::LastByte, Kind::Integer),
            ColumnDef { not_null: false, ..filled(Field::Data, Kind::Blob) },
        ],
        primary_key: Vec::new(),
        foreign_keys: vec![on_inode(Field::InodeId)],
        ordered: Some((Field::FirstByte, Field::LastByte)),
    };
    assert(r@ =~= block_table());
    r
}

fn xattr_def() -> (r: TableDef)
    ensures
        r@ == xattr_table(),
{
    let r = TableDef {
        table: Table::Xattr,
        columns: vec![
            filled(Field::InodeId, Kind::Integer),
            filled(Field::Name, Kind::Text),
            filled(Field::Value, Kind::Blob),
        ],
        primary_key: vec![Field::InodeId, Field::Name],
        foreign_keys: vec![on_inode(Field::InodeId)],
        ordered: None,
    };
    assert(r@ =~= xattr_table());
    r
}

/// The migration that creates the tables, and the way back.
pub struct Migration;

impl Migration {
    /// The steps that create the tables and their indexes, with or without the
    /// device that an inode stands for.
    pub fn create(with_rdev: bool) -> (r: Vec<Step>)
        ensures
            steps(r@) == creation(with_rdev),
    {
        let r = vec![
            Step::CreateTable(inode_def(with_rdev)),
            Step::CreateTable(link_def()),
            Step::CreateTable(block_def()),
            Step::CreateTable(xattr_def()),
            Step::CreateIndex(Index::LinkChild),
            Step::CreateIndex(Index::BlockRange),
            Step::CreateIndex(Index::InodeMode),
        ];
        assert(steps(r@) =~= creation(with_rdev));
        r
    }

    /// The steps of the migration.
    pub fn up() -> (r: Vec<Step>)
        ensures
            steps(r@) == creation(false),
    {
        Self::create(false)
    }

    /// The steps that undo the migration.
    pub fn down() -> (r: Vec<Step>)
        ensures
            steps(r@) == removal(),
    {
        let r = vec![
            Step::DropTable(Table::Xattr),
            Step::DropTable(Table::Block),
            Step::DropTable(Table::Link),
            Step::DropTable(Table::Inode),
        ];
        assert(steps(r@) =~= removal());
        r
    }
}

/// The table that a step creates, if it creates one.
pub open spec fn created(step: StepView) -> Option<Table> {
    match step {
        StepView::CreateTable(t) => Some(t.table),
        _ => None,
    }
}

/// Whether a table has a column.
pub open spec fn has_column(table: TableView, field: Field) -> bool {
    exists|i: int| 0 <= i < table.columns.len() && (#[trigger] table.columns[i]).field == field
}

/// Each foreign key of a table is a column of it, and refers to the key of a
/// table that an earlier step creates.
pub proof fn foreign_keys_refer_to_earlier_tables(with_rdev: bool, i: int, k: int)
    requires
        0 <= i < creation(with_rdev).len(),
        creation(with_rdev)[i] is CreateTable,
        0 <= k < (creation(with_rdev)[i]->CreateTable_0).foreign_keys.len(),
    ensures
        ({
            let t = creation(with_rdev)[i]->CreateTable_0;
            &&& has_column(t, t.foreign_keys[k].from)
            &&& exists|j: int|
                0 <= j < i && created(#[trigger] creation(with_rdev)[j]) == Some(
                    t.foreign_keys[k].to_table,
                )
        }),
{
    let t = creation(with_rdev)[i]->CreateTable_0;
    assert(created(creation(with_rdev)[0]) == Some(Table::Inode));
    if i == 1 {
        assert(t.columns[0].field == Field::ParentId);
        assert(t.columns[1].field == Field::ChildId);
    } else if i == 2 {
        assert(t.columns[1].field == Field::InodeId);
    } else {
        assert(i == 3);
        assert(t.columns[0].field == Field::InodeId);
    }
}

/// Undoing the migration drops the tables that it created, the last one first.
pub proof fn removal_undoes_creation(with_rdev: bool, i: int)
    requires
        0 <= i < 4,
    ensures
        removal().len() == 4,
        created(creation(with_rdev)[3 - i]) matches Some(t) && removal()[i]
            == StepView::DropTable(t),
        forall|j: int|
            4 <= j < creation(with_rdev).len() ==> created(#[trigger] creation(with_rdev)[j])
                is None,
{
}

/// Each column of an index is a column of the table that it is about.
pub proof fn indexes_are_about_columns(with_rdev: bool, index: Index, k: int)
    requires
        0 <= k < index_fields(index).len(),
    ensures
        exists|i: int|
            {
                &&& 0 <= i < creation(with_rdev).len()
                &&& (#[trigger] creation(with_rdev)[i]) is CreateTable
                &&& (creation(with_rdev)[i]->CreateTable_0).table == index_table(index)
                &&& has_column(creation(with_rdev)[i]->CreateTable_0, index_fields(index)[k])
            },
{
    match index {
        Index::LinkChild => {
            let t = creation(with_rdev)[1]->CreateTable_0;
            assert(t.columns[1].field == Field::ChildId);
        },
        Index::BlockRange => {
            let t = creation(with_rdev)[2]->CreateTable_0;
            assert(t.columns[1].field == Field::InodeId);
            assert(t.columns[2].field == Field::FirstByte);
            assert(t.columns[3].field == Field::LastByte);
        },
        Index::InodeMode => {
            let t = creation(with_rdev)[0]->CreateTable_0;
            assert(t.columns[1].field == Field::Mode);
        },
    }
}

impl Table {
    /// The name of the table.
    pub open spec fn text(self) -> Seq<char> {
        match self {
            Table::Inode => "inode"@,
            Table::Link => "link"@,
            Table::Block => "block"@,
            Table::Xattr => "xattr"@,
        }
    }

    /// The name of the table.
    pub fn name(&self) -> (r: String)
        ensures
            r@ == self.text(),
    {
        match self {
            Table::Inode => "inode".to_string(),
            Table::Link => "link".to_string(),
            Table::Block => "block".to_string(),
            Table::Xattr => "xattr".to_string(),
        }
    }
}

impl Field {
    /// The name of the column.
    pub open spec fn text(self) -> Seq<char> {
        match self {
            Field::Id => "id"@,
            Field::Mode => "mode"@,
            Field::Uid => "uid"@,
            Field::Gid => "gid"@,
            Field::Size => "size"@,
            Field::Rdev => "rdev"@,
            Field::Atime => "atime"@,
            Field::Mtime => "mtime"@,
            Field::Ctime => "ctime"@,
            Field::Btime => "btime"@,
            Field::ParentId => "parent_id"@,
            Field::ChildId => "child_id"@,
            Field::Name => "name"@,
            Field::InodeId => "inode_id"@,
            Field::FirstByte => "first_byte"@,
            Field::LastByte => "last_byte"@,
            Field::Data => "data"@,
            Field::Value => "value"@,
        }
    }

    /// The name of the column.
    pub fn name(&self) -> (r: String)
        ensures
            r@ == self.text(),
    {
        match self {
            Field::Id => "id".to_string(),
            Field::Mode => "mode".to_string(),
            Field::Uid => "uid".to_string(),
            Field::Gid => "gid".to_string(),
            Field::Size => "size".to_string(),
            Field::Rdev => "rdev".to_string(),
            Field::Atime => "atime".to_string(),
            Field::Mtime => "mtime".to_string(),
            Field::Ctime => "ctime".to_string(),
            Field::Btime => "btime".to_string(),
            Field::ParentId => "parent_id".to_string(),
            Field::ChildId => "child_id".to_string(),
            Field::Name => "name".to_string(),
            Field::InodeId => "inode_id".to_string(),
            Field::FirstByte => "first_byte".to_string(),
            Field::LastByte => "last_byte".to_string(),
            Field::Data => "data".to_string(),
            Field::Value => "value".to_string(),
        }
    }
}

impl Kind {
    /// The type of the column.
    pub open spec fn text(self) -> Seq<char> {
        match self {
            Kind::Integer => "integer"@,
            Kind::DateTime => "datetime_text"@,
            Kind::Text => "varchar"@,
            Kind::Blob => "blob"@,
        }
    }

    /// The type of the column.
    pub fn name(&self) -> (r: String)
        ensures
            r@ == self.text(),
    {
        match self {
            Kind::Integer => "integer".to_string(),
            Kind::DateTime => "datetime_text".to_string(),
            Kind::Text => "varchar".to_string(),
            Kind::Blob => "blob".to_string(),
        }
    }
}

impl Index {
    /// The name of the index.
    pub open spec fn text(self) -> Seq<char> {
        match self {
            Index::LinkChild => "idx_link_child"@,
            Index::BlockRange => "idx_block_range"@,
            Index::InodeMode => "idx_inode_mode"@,
        }
    }

    /// The name of the index.
    pub fn name(&self) -> (r: String)
        ensures
            r@ == self.text(),
    {
        match self {
            Index::LinkChild => "idx_link_child".to_string(),
            Index::BlockRange => "idx_block_range".to_string(),
            Index::InodeMode => "idx_inode_mode".to_string(),
        }
    }
}

/// Texts with commas between them.
pub open spec fn joined(parts: Seq<Seq<char>>) -> Seq<char>
    decreases parts.len(),
{
    if parts.len() == 0 {
        seq![]
    } else if parts.len() == 1 {
        parts[0]
    } else {
        joined(parts.drop_last()) + ", "@ + parts.last()
    }
}

/// Joins texts with commas between them.
fn join(parts: &Vec<String>) -> (r: String)
    ensures
        r@ == joined(crate::winter::texts(parts@)),
{
    let ghost all = crate::winter::texts(parts@);
    let mut text = String::new();
    let mut i: usize = 0;
    while i < parts.len()
        invariant
            i <= parts.len(),
            all == crate::winter::texts(parts@),
            text@ == joined(all.take(i as int)),
        decreases parts.len() - i,
    {
        assert(all[i as int] == parts[i as int]@);
        assert(all.take(i + 1).drop_last() =~= all.take(i as int));
        if i > 0 {
            text.append(", ");
        }
        text.append(parts[i].as_str());
        proof {
            if i == 0 {
                assert(text@ =~= all[0]);
            }
        }
        i = i + 1;
    }
    assert(all.take(i as int) =~= all);
    text
}

/// The definition of a column in SQL.
pub open spec fn column_sql(c: ColumnDef) -> Seq<char> {
    c.field.text() + " "@ + c.kind.text() + (if c.not_null {
        " NOT NULL"@
    } else {
        seq![]
    }) + (if c.is_key {
        " PRIMARY KEY AUTOINCREMENT"@
    } else {
        seq![]
    }) + (if c.zero_by_default {
        " DEFAULT 0"@
    } else {
        seq![]
    })
}

/// The names of columns.
pub open spec fn field_names(fields: Seq<Field>) -> Seq<Seq<char>> {
    fields.map_values(|f: Field| f.text())
}

/// A foreign key in SQL.
pub open spec fn foreign_key_sql(k: ForeignKey) -> Seq<char> {
    "FOREIGN KEY ("@ + k.from.text() + ") REFERENCES "@ + k.to_table.text() + " ("@ + k.to.text()
        + ") ON DELETE CASCADE"@
}

/// What stands in the definition of a table in SQL: its columns, its key, its
/// foreign keys and its condition.
pub open spec fn table_parts(t: TableView) -> Seq<Seq<char>> {
    t.columns.map_values(|c: ColumnDef| column_sql(c)) + (if t.primary_key.len() > 0 {
        seq!["PRIMARY KEY ("@ + joined(field_names(t.primary_key)) + ")"@]
    } else {
        seq![]
    }) + t.foreign_keys.map_values(|k: ForeignKey| foreign_key_sql(k)) + (match t.ordered {
        Some((a, b)) => seq!["CHECK ("@ + a.text() + " <= "@ + b.text() + ")"@],
        None => seq![],
    })
}

/// A step in SQL.
pub open spec fn step_sql(step: StepView) -> Seq<char> {
    match step {
        StepView::CreateTable(t) => "CREATE TABLE IF NOT EXISTS "@ + t.table.text() + " ("@ + joined(
            table_parts(t),
        ) + ")"@,
        StepView::CreateIndex(i) => "CREATE INDEX "@ + i.text() + " ON "@ + index_table(i).text()
            + " ("@ + joined(field_names(index_fields(i))) + ")"@,
        StepView::DropTable(t) => "DROP TABLE "@ + t.text(),
    }
}

fn write_column(c: &ColumnDef) -> (r: String)
    ensures
        r@ == column_sql(*c),
{
    let mut text = c.field.name();
    text.append(" ");
    text.append(c.kind.name().as_str());
    if c.not_null {
        text.append(" NOT NULL");
    }
    if c.is_key {
        text.append(" PRIMARY KEY AUTOINCREMENT");
    }
    if c.zero_by_default {
        text.append(" DEFAULT 0");
    }
    assert(text@ =~= column_sql(*c));
    text
}

fn write_fields(fields: &Vec<Field>) -> (r: String)
    ensures
        r@ == joined(field_names(fields@)),
{
    let mut names: Vec<String> = Vec::new();
    let mut i: usize = 0;
    while i < fields.len()
        invariant
            i <= fields.len(),
            crate::winter::texts(names@) == field_names(fields@.take(i as int)),
        decreases fields.len() - i,
    {
        let ghost before = crate::winter::texts(names@);
        names.push(fields[i].name());
        proof {
            assert(crate::winter::texts(names@) =~= before.push(fields@[i as int].text()));
            assert(field_names(fields@.take(i + 1)) =~= before.push(fields@[i as int].text()));
        }
        i = i + 1;
    }
    assert(fields@.take(i as int) =~= fields@);
    join(&names)
}

fn write_foreign_key(k: &ForeignKey) -> (r: String)
    ensures
        r@ == foreign_key_sql(*k),
{
    let mut text = "FOREIGN KEY (".to_string();
    text.append(k.from.name().as_str());
    text.append(") REFERENCES ");
    text.append(k.to_table.name().as_str());
    text.append(" (");
    text.append(k.to.name().as_str());
    text.append(") ON DELETE CASCADE");
    text
}

fn write_table_parts(t: &TableDef) -> (r: Vec<String>)
    ensures
        crate::winter::texts(r@) == table_parts(t@),
{
    let ghost columns = t.columns@.map_values(|c: ColumnDef| column_sql(c));
    let ghost keys = t.foreign_keys@.map_values(|k: ForeignKey| foreign_key_sql(k));
    let mut parts: Vec<String> = Vec::new();
    let mut i: usize = 0;
    while i < t.columns.len()
        invariant
            i <= t.columns.len(),
            columns == t.columns@.map_values(|c: ColumnDef| column_sql(c)),
            crate::winter::texts(parts@) == columns.take(i as int),
        decreases t.columns.len() - i,
    {
        let ghost before = crate::winter::texts(parts@);
        parts.push(write_column(&t.columns[i]));
        proof {
            assert(crate::winter::texts(parts@) =~= before.push(columns[i as int]));
            assert(columns.take(i + 1) =~= columns.take(i as int).push(columns[i as int]));
        }
        i = i + 1;
    }
    assert(columns.take(i as int) =~= columns);
    if t.primary_key.len() > 0 {
        let mut text = "PRIMARY KEY (".to_string();
        text.append(write_fields(&t.primary_key).as_str());
        text.append(")");
        let ghost before = crate::winter::texts(parts@);
        let ghost added = text@;
        parts.push(text);
        assert(crate::winter::texts(parts@) =~= before.push(added));
    }
    let ghost head = crate::winter::texts(parts@);
    assert(head =~= columns + (if t@.primary_key.len() > 0 {
        seq!["PRIMARY KEY ("@ + joined(field_names(t@.primary_key)) + ")"@]
    } else {
        seq![]
    }));
    let mut j: usize = 0;
    assert(head + keys.take(0) =~= head);
    while j < t.foreign_keys.len()
        invariant
            j <= t.foreign_keys.len(),
            keys == t.foreign_keys@.map_values(|k: ForeignKey| foreign_key_sql(k)),
            crate::winter::texts(parts@) == head + keys.take(j as int),
        decreases t.foreign_keys.len() - j,
    {
        let ghost before = crate::winter::texts(parts@);
        parts.push(write_foreign_key(&t.foreign_keys[j]));
        proof {
            assert(crate::winter::texts(parts@) =~= before.push(keys[j as int]));
            assert(head + keys.take(j + 1) =~= (head + keys.take(j as int)).push(keys[j as int]));
        }
        j = j + 1;
    }
    assert(keys.take(j as int) =~= keys);
    let ghost before = crate::winter::texts(parts@);
    if let Some((a, b)) = t.ordered {
        let mut text = "CHECK (".to_string();
        text.append(a.name().as_str());
        text.append(" <= ");
        text.append(b.name().as_str());
        text.append(")");
        let ghost added = text@;
        parts.push(text);
        assert(crate::winter::texts(parts@) =~= before.push(added));
    }
    assert(crate::winter::texts(parts@) =~= table_parts(t@));
    parts
}

impl Step {
    /// The step in SQL.
    pub fn sql(&self) -> (r: String)
        ensures
            r@ == step_sql(self@),
    {
        match self {
            Step::CreateTable(t) => {
                let parts = write_table_parts(t);
                let mut text = "CREATE TABLE IF NOT EXISTS ".to_string();
                text.append(t.table.name().as_str());
                text.append(" (");
                text.append(join(&parts).as_str());
                text.append(")");
                text
            },
            Step::CreateIndex(i) => {
                let (table, fields) = index_target(*i);
                let mut text = "CREATE INDEX ".to_string();
                text.append(i.name().as_str());
                text.append(" ON ");
                text.append(table.name().as_str());
                text.append(" (");
                text.append(write_fields(&fields).as_str());
                text.append(")");
                text
            },
            Step::DropTable(t) => {
                let mut text = "DROP TABLE ".to_string();
                text.append(t.name().as_str());
                text
            },
        }
    }
}

/// The table and the columns that an index is about.
pub fn index_target(index: Index) -> (r: (Table, Vec<Field>))
    ensures
        r.0 == index_table(index),
        r.1@ == index_fields(index),
{
    let r = match index {
        Index::LinkChild => (Table::Link, vec![Field::ChildId]),
        Index::BlockRange => (
            Table::Block,
            vec![Field::InodeId, Field::FirstByte, Field::LastByte],
        ),
        Index::InodeMode => (Table::Inode, vec![Field::Mode]),
    };
    assert(r.1@ =~= index_fields(index));
    r
}

/// The tables that an image has, in SQL, with a semicolon behind each step.
pub open spec fn script(s: Seq<StepView>) -> Seq<char>
    decreases s.len(),
{
    if s.len() == 0 {
        seq![]
    } else {
        script(s.drop_last()) + step_sql(s.last()) + ";"@
    }
}

/// The SQL that sets up the tables of a new image.
pub fn create_tables_sql() -> (r: String)
    ensures
        r@ == script(creation(true)),
{
    let all = Migration::create(true);
    let mut text = String::new();
    let mut i: usize = 0;
    while i < all.len()
        invariant
            i <= all.len(),
            text@ == script(steps(all@).take(i as int)),
        decreases all.len() - i,
    {
        assert(steps(all@)[i as int] == all[i as int]@);
        assert(steps(all@).take(i + 1).drop_last() =~= steps(all@).take(i as int));
        text.append(all[i].sql().as_str());
        text.append(";");
        i = i + 1;
    }
    assert(steps(all@).take(i as int) =~= steps(all@));
    text
}

} // verus!
