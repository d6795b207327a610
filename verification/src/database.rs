//! The SQL that is used here: how a statement is written, and what a database
//! gives or does for it.

use vstd::prelude::*;
use crate::migration::{Field, Table};
use crate::sql::{SqlView, StatementView};

verus! {

/// A row of a table: the value in each of its columns.
pub type Row = Map<Field, SqlView>;

/// What the tables of a database hold.
pub type Tables = Map<Table, Seq<Row>>;

/// How a column is compared with a parameter.
pub enum Comparison {
    Equal,
    AtLeast,
    AtMost,
    Below,
}

/// A condition on a column of a row, with one parameter.
pub struct Condition {
    pub field: Field,
    pub comparison: Comparison,
}

impl Condition {
    /// The condition in SQL.
    pub open spec fn text(self) -> Seq<char> {
        self.field.text() + match self.comparison {
            Comparison::Equal => " = ?"@,
            Comparison::AtLeast => " >= ?"@,
            Comparison::AtMost => " <= ?"@,
            Comparison::Below => " < ?"@,
        }
    }

    /// Whether a row meets the condition. Nothing is equal to `NULL`, and only
    /// numbers are larger or smaller than a number.
    pub open spec fn met(self, row: Row, param: SqlView) -> bool {
        match self.comparison {
            Comparison::Equal => row[self.field] == param && param !is Null,
            Comparison::AtLeast => row[self.field] matches SqlView::Integer(a)
                && param matches SqlView::Integer(b) && a >= b,
            Comparison::AtMost => row[self.field] matches SqlView::Integer(a)
                && param matches SqlView::Integer(b) && a <= b,
            Comparison::Below => row[self.field] matches SqlView::Integer(a)
                && param matches SqlView::Integer(b) && a < b,
        }
    }
}

/// The conditions in SQL, each of whose columns is written behind this prefix.
pub open spec fn conditions_text(prefix: Seq<char>, conditions: Seq<Condition>) -> Seq<char>
    decreases conditions.len(),
{
    if conditions.len() == 0 {
        seq![]
    } else if conditions.len() == 1 {
        " where "@ + prefix + conditions[0].text()
    } else {
        conditions_text(prefix, conditions.drop_last()) + " and "@ + prefix
            + conditions.last().text()
    }
}

/// Whether a row meets all the conditions: each takes one parameter, in their
/// order.
pub open spec fn meets(row: Row, conditions: Seq<Condition>, params: Seq<SqlView>) -> bool {
    forall|i: int|
        0 <= i < conditions.len() ==> (#[trigger] conditions[i]).met(row, params[i])
}

/// The rows that meet the conditions.
pub open spec fn meeting(conditions: Seq<Condition>, params: Seq<SqlView>) -> spec_fn(Row) -> bool {
    |row: Row| meets(row, conditions, params)
}

/// What a query gives of each row.
pub enum Item {
    /// The value in a column.
    Column(Field),
    /// Whether there is a value in a column.
    Presence(Field),
}

impl Item {
    /// The item in SQL.
    pub open spec fn text(self) -> Seq<char> {
        match self {
            Item::Column(field) => field.text(),
            Item::Presence(field) => field.text() + " is not null as has_"@ + field.text(),
        }
    }

    /// What the query gives of a row.
    pub open spec fn of(self, row: Row) -> SqlView {
        match self {
            Item::Column(field) => row[field],
            Item::Presence(field) => SqlView::Integer(
                if row[field] is Null {
                    0
                } else {
                    1
                },
            ),
        }
    }
}

/// The items in SQL, each of which is written behind this prefix.
pub open spec fn items_text(prefix: Seq<char>, items: Seq<Item>) -> Seq<char>
    decreases items.len(),
{
    if items.len() == 0 {
        seq![]
    } else if items.len() == 1 {
        prefix + items[0].text()
    } else {
        items_text(prefix, items.drop_last()) + ", "@ + prefix + items.last().text()
    }
}

/// In which order a query gives the rows.
pub enum Sorting {
    Unsorted,
    Rising(Field),
    Falling(Field),
}

/// Whether a value may come before another in rising order: numbers by their
/// size, and texts by their bytes.
pub open spec fn may_precede(a: SqlView, b: SqlView) -> bool {
    match (a, b) {
        (SqlView::Integer(x), SqlView::Integer(y)) => x <= y,
        (SqlView::Text(x), SqlView::Text(y)) => !crate::flocon::comes_before(
            vstd::utf8::encode_utf8(y),
            vstd::utf8::encode_utf8(x),
        ),
        _ => true,
    }
}

impl Sorting {
    /// The order in SQL.
    pub open spec fn text(self) -> Seq<char> {
        match self {
            Sorting::Unsorted => seq![],
            Sorting::Rising(field) => " order by "@ + field.text() + " asc"@,
            Sorting::Falling(field) => " order by "@ + field.text() + " desc"@,
        }
    }

    /// Whether rows are in this order.
    pub open spec fn sorted(self, rows: Seq<Row>) -> bool {
        match self {
            Sorting::Unsorted => true,
            Sorting::Rising(field) => forall|i: int, j: int|
                0 <= i < j < rows.len() ==> may_precede(
                    (#[trigger] rows[i])[field],
                    (#[trigger] rows[j])[field],
                ),
            Sorting::Falling(field) => forall|i: int, j: int|
                0 <= i < j < rows.len() ==> may_precede(
                    (#[trigger] rows[j])[field],
                    (#[trigger] rows[i])[field],
                ),
        }
    }
}

/// Which of the rows, in their order, a query gives.
pub enum Part {
    Whole,
    First,
    /// Two more parameters say how many there are at most, and how many are
    /// passed over.
    Page,
}

impl Part {
    /// The part in SQL.
    pub open spec fn text(self) -> Seq<char> {
        match self {
            Part::Whole => seq![],
            Part::First => " limit 1"@,
            Part::Page => " limit ? offset ?"@,
        }
    }

    /// Whether these rows are that part of all of them.
    pub open spec fn taken(self, all: Seq<Row>, params: Seq<SqlView>, r: Seq<Row>) -> bool {
        match self {
            Part::Whole => r == all,
            Part::First => r == cut_out(all, 1, 0),
            Part::Page => match (params[0], params[1]) {
                (SqlView::Integer(n), SqlView::Integer(at)) => n >= 0 && at >= 0 ==> r == cut_out(
                    all,
                    n as int,
                    at as int,
                ),
                _ => true,
            },
        }
    }
}

/// Up to `n` rows, from one of them on.
pub open spec fn cut_out(all: Seq<Row>, n: int, at: int) -> Seq<Row> {
    if at >= all.len() {
        seq![]
    } else if at + n >= all.len() {
        all.skip(at)
    } else {
        all.subrange(at, at + n)
    }
}

/// What a query asks for.
pub enum Wanted {
    /// How many rows there are.
    Count,
    /// Something of each row.
    Items(Seq<Item>),
}

/// A query for the rows of a table that meet some conditions.
pub struct Query {
    /// Whether the columns are written behind the first letter of the table.
    pub aliased: bool,
    pub wanted: Wanted,
    pub table: Table,
    pub conditions: Seq<Condition>,
    pub sorting: Sorting,
    pub part: Part,
}

/// The first letter of a table.
pub open spec fn alias(table: Table) -> Seq<char> {
    match table {
        Table::Inode => "i"@,
        Table::Link => "l"@,
        Table::Block => "b"@,
        Table::Xattr => "x"@,
    }
}

impl Query {
    /// What the columns are written behind.
    pub open spec fn prefix(self) -> Seq<char> {
        if self.aliased {
            alias(self.table) + "."@
        } else {
            seq![]
        }
    }

    /// The query in SQL.
    pub open spec fn text(self) -> Seq<char> {
        "select "@ + match self.wanted {
            Wanted::Count => "count(*)"@,
            Wanted::Items(items) => items_text(self.prefix(), items),
        } + " from "@ + self.table.text() + (if self.aliased {
            " "@ + alias(self.table)
        } else {
            seq![]
        }) + conditions_text(self.prefix(), self.conditions) + self.sorting.text()
            + self.part.text()
    }

    /// Whether these are the rows that meet the conditions, each as often as it
    /// is in the table, in the order that is asked for.
    pub open spec fn picks(self, tables: Tables, params: Seq<SqlView>, picked: Seq<Row>) -> bool {
        &&& picked.to_multiset() == tables[self.table].filter(
            meeting(self.conditions, params),
        ).to_multiset()
        &&& self.sorting.sorted(picked)
    }

    /// Whether a database may give these rows for the query.
    pub open spec fn gives(
        self,
        tables: Tables,
        params: Seq<SqlView>,
        rows: Seq<Seq<SqlView>>,
    ) -> bool {
        exists|picked: Seq<Row>, part: Seq<Row>|
            {
                &&& #[trigger] self.picks(tables, params, picked)
                &&& #[trigger] self.part.taken(
                    picked,
                    params.skip(self.conditions.len() as int),
                    part,
                )
                &&& match self.wanted {
                    Wanted::Count => rows == seq![
                        seq![SqlView::Integer(part.len() as i64)],
                    ] || part.len() > i64::MAX,
                    Wanted::Items(items) => rows == part.map_values(
                        |row: Row| items.map_values(|item: Item| item.of(row)),
                    ),
                }
            }
    }
}

/// A query for the number of rows of a table whose partner in another table has
/// some bits.
pub struct PartnerCount {
    pub table: Table,
    /// The column of the table that names the partner.
    pub key: Field,
    pub partner: Table,
    /// The column of the other table that is named.
    pub partner_key: Field,
    /// The column of the table that has to be equal to the first parameter.
    pub field: Field,
    /// The column of the partner whose bits are looked at.
    pub bits: Field,
}

impl PartnerCount {
    /// The query in SQL.
    pub open spec fn text(self) -> Seq<char> {
        let t = alias(self.table);
        let p = alias(self.partner);
        "select count(*) from "@ + self.table.text() + " "@ + t + " inner join "@
            + self.partner.text() + " "@ + p + " on "@ + t + "."@ + self.key.text() + " = "@ + p
            + "."@ + self.partner_key.text() + " where "@ + t + "."@ + self.field.text()
            + " = ? and ("@ + p + "."@ + self.bits.text() + " & ?) = ?"@
    }

    /// Whether a row and its partner are counted.
    pub open spec fn counted(self, row: Row, partner: Row, params: Seq<SqlView>) -> bool {
        &&& row[self.key] == partner[self.partner_key]
        &&& row[self.key] !is Null
        &&& row[self.field] == params[0]
        &&& params[0] !is Null
        &&& match (partner[self.bits], params[1], params[2]) {
            (SqlView::Integer(a), SqlView::Integer(mask), SqlView::Integer(b)) => a & mask == b,
            _ => false,
        }
    }

    /// The places of the rows and the partners that are counted.
    pub open spec fn places(self, tables: Tables, params: Seq<SqlView>) -> Set<(int, int)> {
        Set::new(
            |at: (int, int)|
                {
                    &&& 0 <= at.0 < tables[self.table].len()
                    &&& 0 <= at.1 < tables[self.partner].len()
                    &&& self.counted(
                        tables[self.table][at.0],
                        tables[self.partner][at.1],
                        params,
                    )
                },
        )
    }
}

/// A query for whether a table has a row with this value in a column.
pub struct Existence {
    pub table: Table,
    pub field: Field,
}

impl Existence {
    /// The query in SQL.
    pub open spec fn text(self) -> Seq<char> {
        "SELECT EXISTS(SELECT 1 FROM "@ + self.table.text() + " WHERE "@ + self.field.text()
            + " = ?1)"@
    }

    /// Whether there is such a row.
    pub open spec fn found(self, tables: Tables, params: Seq<SqlView>) -> bool {
        exists|i: int|
            0 <= i < tables[self.table].len() && (#[trigger] tables[self.table][i])[self.field]
                == params[0] && params[0] !is Null
    }
}

/// The names of columns in SQL.
pub open spec fn fields_text(fields: Seq<Field>) -> Seq<char>
    decreases fields.len(),
{
    if fields.len() == 0 {
        seq![]
    } else if fields.len() == 1 {
        fields[0].text()
    } else {
        fields_text(fields.drop_last()) + ", "@ + fields.last().text()
    }
}

/// As many parameters in SQL.
pub open spec fn marks_text(n: nat) -> Seq<char>
    decreases n,
{
    if n == 0 {
        seq![]
    } else if n == 1 {
        "?"@
    } else {
        marks_text((n - 1) as nat) + ", "@ + "?"@
    }
}

/// As many parameters in SQL, with their numbers.
pub open spec fn numbered_text(n: nat) -> Seq<char>
    decreases n,
{
    if n == 0 {
        seq![]
    } else if n == 1 {
        "?"@ + crate::text::decimal_text(1)
    } else {
        numbered_text((n - 1) as nat) + ", "@ + "?"@ + crate::text::decimal_text(n as int)
    }
}

/// What a column is set to.
pub enum Setting {
    /// The first parameter.
    Param,
    Zero,
}

/// A statement that changes a table.
pub enum Change {
    /// Adds a row, with the parameters in these columns.
    Insert { table: Table, fields: Seq<Field>, numbered: bool },
    /// Sets a column of the rows that meet the conditions.
    Update { table: Table, field: Field, setting: Setting, conditions: Seq<Condition> },
    /// Takes out the rows that meet the conditions.
    Delete { table: Table, conditions: Seq<Condition> },
    /// Takes out the rows with one of `n` parameters in a column.
    DeleteAny { table: Table, field: Field, n: nat },
}

/// Whether a row has one of the parameters in a column.
pub open spec fn is_any(row: Row, field: Field, params: Seq<SqlView>) -> bool {
    params.contains(row[field]) && row[field] !is Null
}

/// The columns of a table that hold the identifier of an inode.
pub open spec fn inode_fields(table: Table) -> Seq<Field> {
    match table {
        Table::Inode => seq![],
        Table::Link => seq![Field::ParentId, Field::ChildId],
        Table::Block => seq![Field::InodeId],
        Table::Xattr => seq![Field::InodeId],
    }
}

/// Whether a row of a table refers to one of the inodes in these rows.
pub open spec fn refers(table: Table, row: Row, inodes: Seq<Row>, gone: spec_fn(Row) -> bool) -> bool {
    exists|i: int, k: int|
        {
            &&& 0 <= i < inodes.len()
            &&& gone(#[trigger] inodes[i])
            &&& 0 <= k < inode_fields(table).len()
            &&& row[#[trigger] inode_fields(table)[k]] == inodes[i][Field::Id]
        }
}

/// Whether exactly these rows of a table were taken out, and with an inode what
/// refers to it.
pub open spec fn takes_out(
    before: Tables,
    table: Table,
    gone: spec_fn(Row) -> bool,
    after: Tables,
) -> bool {
    &&& after[table] == before[table].filter(|row: Row| !gone(row))
    &&& forall|t: Table|
        #![trigger after[t]]
        t != table ==> after[t] == if table == Table::Inode {
            before[t].filter(|row: Row| !refers(t, row, before[table], gone))
        } else {
            before[t]
        }
}

impl Change {
    /// The statement in SQL.
    pub open spec fn text(self) -> Seq<char> {
        match self {
            Change::Insert { table, fields, numbered } => if numbered {
                "INSERT INTO "@ + table.text() + " ("@ + fields_text(fields) + ") VALUES ("@
                    + numbered_text(fields.len()) + ")"@
            } else {
                "insert into "@ + table.text() + " ("@ + fields_text(fields) + ") values ("@
                    + marks_text(fields.len()) + ")"@
            },
            Change::Update { table, field, setting, conditions } => "update "@ + table.text()
                + " set "@ + field.text() + match setting {
                Setting::Param => " = ?"@,
                Setting::Zero => " = 0"@,
            } + conditions_text(seq![], conditions),
            Change::Delete { table, conditions } => "delete from "@ + table.text()
                + conditions_text(seq![], conditions),
            Change::DeleteAny { table, field, n } => "delete from "@ + table.text() + " where "@
                + field.text() + " in ("@ + marks_text(n) + ")"@,
        }
    }

    /// Whether a database may hold this after it carried the statement out on
    /// what it held before.
    pub open spec fn does(self, before: Tables, params: Seq<SqlView>, after: Tables) -> bool {
        match self {
            Change::Insert { table, fields, .. } => exists|row: Row|
                {
                    &&& after == #[trigger] before.insert(table, before[table].push(row))
                    &&& forall|i: int|
                        0 <= i < fields.len() ==> row[#[trigger] fields[i]] == params[i]
                    &&& !fields.contains(Field::Id) ==> {
                        &&& row[Field::Id] matches SqlView::Integer(id) && id > 0
                        &&& forall|i: int|
                            0 <= i < before[table].len() ==> (#[trigger] before[table][i])[Field::Id]
                                != row[Field::Id]
                    }
                },
            Change::Update { table, field, setting, conditions } => {
                let value = match setting {
                    Setting::Param => params[0],
                    Setting::Zero => SqlView::Integer(0),
                };
                let more = match setting {
                    Setting::Param => params.skip(1),
                    Setting::Zero => params,
                };
                after == before.insert(
                    table,
                    before[table].map_values(
                        |row: Row|
                            if meets(row, conditions, more) {
                                row.insert(field, value)
                            } else {
                                row
                            },
                    ),
                )
            },
            Change::Delete { table, conditions } => takes_out(
                before,
                table,
                |row: Row| meets(row, conditions, params),
                after,
            ),
            Change::DeleteAny { table, field, .. } => takes_out(
                before,
                table,
                |row: Row| is_any(row, field, params),
                after,
            ),
        }
    }
}

/// What a connection sees, and what it goes back to if the transaction that it
/// is in is rolled back.
pub struct Session {
    pub tables: Tables,
    pub saved: Option<Tables>,
}

/// A statement that begins or ends a transaction.
pub enum Control {
    Begin,
    Commit,
    Rollback,
}

impl Control {
    /// The statement in SQL.
    pub open spec fn text(self) -> Seq<char> {
        match self {
            Control::Begin => "begin"@,
            Control::Commit => "commit"@,
            Control::Rollback => "rollback"@,
        }
    }

    /// Whether a connection may be like this after the statement. There is no
    /// transaction within another, and none ends that was not begun.
    pub open spec fn does(self, before: Session, after: Session) -> bool {
        match (self, before.saved) {
            (Control::Begin, None) => after.tables == before.tables && after.saved == Some(
                before.tables,
            ),
            (Control::Commit, Some(_)) => after.tables == before.tables && after.saved is None,
            (Control::Rollback, Some(saved)) => after.tables == saved && after.saved is None,
            _ => true,
        }
    }
}

/// A database: what it gives for a query, what it holds after a statement that
/// it carries out, and what becomes of a connection that begins or ends a
/// transaction.
pub struct Database {
    pub query: spec_fn(StatementView, Tables) -> Seq<Seq<SqlView>>,
    pub execute: spec_fn(StatementView, Tables) -> Option<Tables>,
    pub control: spec_fn(StatementView, Session) -> Session,
}

impl Database {
    /// What the database gives for a query.
    pub open spec fn rows(self, s: StatementView, tables: Tables) -> Seq<Seq<SqlView>> {
        (self.query)(s, tables)
    }

    /// What the database holds after a statement, unless it refuses it.
    pub open spec fn after(self, s: StatementView, tables: Tables) -> Option<Tables> {
        (self.execute)(s, tables)
    }

    /// What becomes of a connection with a statement that begins or ends a
    /// transaction.
    pub open spec fn controlled(self, s: StatementView, session: Session) -> Session {
        (self.control)(s, session)
    }

    /// What the database holds after statements, unless it refuses one.
    pub open spec fn after_all(self, s: Seq<StatementView>, tables: Tables) -> Option<Tables>
        decreases s.len(),
    {
        if s.len() == 0 {
            Some(tables)
        } else {
            match self.after_all(s.drop_last(), tables) {
                Some(between) => self.after(s.last(), between),
                None => None,
            }
        }
    }

    /// Whether the database understands SQL: whatever a statement says, it gives
    /// or does.
    pub open spec fn understands_sql(self) -> bool {
        &&& forall|q: Query, s: StatementView, tables: Tables|
            s.sql == q.text() ==> #[trigger] q.gives(tables, s.params, self.rows(s, tables))
        &&& forall|q: PartnerCount, s: StatementView, tables: Tables|
            #![trigger q.places(tables, s.params), self.rows(s, tables)]
            s.sql == q.text() && q.table != q.partner && q.places(tables, s.params).len()
                <= i64::MAX ==> self.rows(s, tables) == seq![
                seq![SqlView::Integer(q.places(tables, s.params).len() as i64)],
            ]
        &&& forall|q: Existence, s: StatementView, tables: Tables|
            #![trigger q.found(tables, s.params), self.rows(s, tables)]
            s.sql == q.text() ==> self.rows(s, tables) == seq![
                seq![
                    SqlView::Integer(
                        if q.found(tables, s.params) {
                            1
                        } else {
                            0
                        },
                    ),
                ],
            ]
        &&& forall|c: Control, s: StatementView, session: Session|
            s.sql == c.text() ==> #[trigger] c.does(session, self.controlled(s, session))
        &&& forall|c: Change, s: StatementView, tables: Tables|
            s.sql == c.text() && self.after(s, tables) is Some ==> #[trigger] c.does(
                tables,
                s.params,
                self.after(s, tables)->Some_0,
            )
    }
}

/// The condition that a column is equal to a parameter.
pub open spec fn equal(field: Field) -> Condition {
    Condition { field, comparison: Comparison::Equal }
}

/// What a query gives of these rows.
pub open spec fn given(wanted: Wanted, part: Seq<Row>) -> Seq<Seq<SqlView>> {
    match wanted {
        Wanted::Count => seq![seq![SqlView::Integer(part.len() as i64)]],
        Wanted::Items(items) => part.map_values(
            |row: Row| items.map_values(|item: Item| item.of(row)),
        ),
    }
}

/// The rows that a database picks for a query, and those of them that it gives.
pub proof fn lemma_query(database: Database, q: Query, s: StatementView, tables: Tables) -> (r: (
    Seq<Row>,
    Seq<Row>,
))
    requires
        database.understands_sql(),
        s.sql == q.text(),
    ensures
        q.picks(tables, s.params, r.0),
        q.part.taken(r.0, s.params.skip(q.conditions.len() as int), r.1),
        q.wanted is Items || r.1.len() <= i64::MAX ==> database.rows(s, tables) == given(
            q.wanted,
            r.1,
        ),
{
    let rows = database.rows(s, tables);
    assert(q.gives(tables, s.params, rows));
    choose|picked: Seq<Row>, part: Seq<Row>|
        {
            &&& #[trigger] q.picks(tables, s.params, picked)
            &&& #[trigger] q.part.taken(picked, s.params.skip(q.conditions.len() as int), part)
            &&& q.wanted is Items || part.len() <= i64::MAX ==> rows == given(q.wanted, part)
        }
}

/// What a database picks for a query are the rows that meet its conditions, each
/// once if no row is twice in the table.
pub proof fn lemma_picked(q: Query, tables: Tables, params: Seq<SqlView>, picked: Seq<Row>)
    requires
        q.picks(tables, params, picked),
    ensures
        forall|row: Row| #[trigger]
            picked.contains(row) <==> tables[q.table].contains(row) && meets(
                row,
                q.conditions,
                params,
            ),
        tables[q.table].no_duplicates() ==> picked.no_duplicates(),
{
    let all = tables[q.table];
    let keep = meeting(q.conditions, params);
    let kept = all.filter(keep);
    picked.to_multiset_ensures();
    kept.to_multiset_ensures();
    lemma_filter(all, keep);
    assert forall|row: Row| #[trigger] picked.contains(row) <==> all.contains(row)
        && meets(row, q.conditions, params) by {
        assert(picked.contains(row) <==> picked.to_multiset().count(row) > 0);
        assert(kept.contains(row) <==> kept.to_multiset().count(row) > 0);
    }
    if all.no_duplicates() {
        kept.lemma_multiset_has_no_duplicates();
        picked.lemma_multiset_has_no_duplicates_conv();
    }
}

/// What a filtered list contains, and that filtering brings no duplicates.
pub proof fn lemma_filter<A>(s: Seq<A>, keep: spec_fn(A) -> bool)
    ensures
        forall|a: A| #[trigger] s.filter(keep).contains(a) <==> s.contains(a) && keep(a),
        s.no_duplicates() ==> s.filter(keep).no_duplicates(),
    decreases s.len(),
{
    reveal(Seq::filter);
    if s.len() > 0 {
        let head = s.drop_last();
        lemma_filter(head, keep);
        let kept = head.filter(keep);
        assert forall|a: A| #[trigger] s.filter(keep).contains(a) <==> s.contains(a) && keep(a) by {
            if s.filter(keep).contains(a) {
                let i = choose|i: int| 0 <= i < s.filter(keep).len() && s.filter(keep)[i] == a;
                if i < kept.len() {
                    assert(kept.contains(a));
                    let k = choose|k: int| 0 <= k < head.len() && head[k] == a;
                    assert(s[k] == a);
                } else {
                    assert(s[s.len() - 1] == a);
                }
            }
            if s.contains(a) && keep(a) {
                let k = choose|k: int| 0 <= k < s.len() && s[k] == a;
                if k < head.len() {
                    assert(head[k] == a);
                    assert(kept.contains(a));
                    let i = choose|i: int| 0 <= i < kept.len() && kept[i] == a;
                    assert(s.filter(keep)[i] == a);
                } else {
                    assert(s.filter(keep)[kept.len() as int] == a);
                }
            }
        }
        if s.no_duplicates() && keep(s.last()) {
            assert forall|i: int| 0 <= i < kept.len() implies kept[i] != s.last() by {
                assert(kept.contains(kept[i]));
                let k = choose|k: int| 0 <= k < head.len() && head[k] == kept[i];
                assert(s[k] != s[s.len() - 1]);
            }
        }
    }
}

} // verus!
