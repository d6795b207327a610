//! What is read out of the values that are stored, out of texts and out of
//! numbers.

use vstd::prelude::*;
use crate::blocks::BlockView;
use crate::error::ErrorView;
use crate::migration::{ColumnDef, Field, Kind, Table};
use crate::modes::{DT_DIR, S_IFMT};
use crate::sql::SqlView;
use crate::winter::{FsState, WinterFs, WinterTree};

verus! {

/// A value is read out of a column as what it is: a number if it is one and in
/// range, a text if it is one, and bytes if it is some. Anything else is an
/// error.
pub proof fn columns_are_read_as_they_are(row: Seq<SqlView>, column: int, name: Seq<char>)
    requires
        0 <= column < row.len(),
    ensures
        match row[column] {
            SqlView::Integer(v) => {
                &&& crate::sql::as_i64(row, column, name) == Ok::<i64, ErrorView>(v)
                &&& v >= 0 ==> crate::sql::as_u64(row, column, name) == Ok::<u64, ErrorView>(
                    v as u64,
                )
                &&& v < 0 ==> crate::sql::as_u64(row, column, name) is Err
                &&& 0 <= v < 0x1_0000_0000 ==> crate::sql::as_u32(row, column, name) == Ok::<
                    u32,
                    ErrorView,
                >(v as u32)
                &&& v < 0 || v >= 0x1_0000_0000 ==> crate::sql::as_u32(row, column, name) is Err
                &&& crate::sql::as_bool(row, column, name) == Ok::<bool, ErrorView>(v != 0)
            },
            _ => {
                &&& crate::sql::as_i64(row, column, name) is Err
                &&& crate::sql::as_u64(row, column, name) is Err
                &&& crate::sql::as_u32(row, column, name) is Err
                &&& crate::sql::as_bool(row, column, name) is Err
            },
        },
        match row[column] {
            SqlView::Text(t) => crate::sql::as_text(row, column, name) == Ok::<
                Seq<char>,
                ErrorView,
            >(t),
            _ => crate::sql::as_text(row, column, name) is Err,
        },
        match row[column] {
            SqlView::Blob(b) => crate::sql::as_blob(row, column, name) == Ok::<Seq<u8>, ErrorView>(
                b,
            ),
            _ => crate::sql::as_blob(row, column, name) is Err,
        },
{
}

/// A number that can be bound is read back as it was, and so no two of them are
/// stored alike.
pub proof fn bound_numbers_are_read_back(a: u64, b: u64, name: Seq<char>)
    ensures
        crate::sql::bindable(a) ==> crate::sql::as_u64(seq![crate::sql::int_param(a)], 0, name)
            == Ok::<u64, ErrorView>(a),
        crate::sql::bindable(a) && crate::sql::bindable(b) && crate::sql::int_param(a)
            == crate::sql::int_param(b) ==> a == b,
        crate::sql::bindable(a) <==> a < 0x8000_0000_0000_0000,
{
}

/// The number that decimal digits stand for.
pub open spec fn digits_value(digits: Seq<char>) -> int
    decreases digits.len(),
{
    if digits.len() == 0 {
        0
    } else {
        10 * digits_value(digits.drop_last()) + (digits.last() as int - '0' as int)
    }
}

/// The digits of a number stand for it, and none of them is a leading zero.
proof fn lemma_digits(n: nat)
    ensures
        digits_value(crate::text::digits(n)) == n,
        crate::text::digits(n).len() > 0,
        n > 0 ==> crate::text::digits(n)[0] != '0',
        forall|i: int|
            0 <= i < crate::text::digits(n).len() ==> '0' <= #[trigger] crate::text::digits(n)[i]
                <= '9',
    decreases n,
{
    reveal_with_fuel(digits_value, 2);
    let d = crate::text::digits(n);
    if n >= 10 {
        lemma_digits(n / 10);
        assert(d.drop_last() =~= crate::text::digits(n / 10));
    } else {
        assert(d.drop_last() =~= seq![]);
    }
}

/// A number in decimal stands for it: digits without a leading zero, behind a
/// minus sign exactly if it is negative.
pub proof fn decimal_text_stands_for_its_number(n: int)
    ensures
        ({
            let text = crate::text::decimal_text(n);
            let digits = if n < 0 {
                text.skip(1)
            } else {
                text
            };
            &&& text.len() > 0
            &&& text[0] == '-' <==> n < 0
            &&& digits_value(digits) == if n < 0 {
                -n
            } else {
                n
            }
            &&& n != 0 ==> digits[0] != '0'
            &&& forall|i: int| 0 <= i < digits.len() ==> '0' <= #[trigger] digits[i] <= '9'
        }),
{
    let text = crate::text::decimal_text(n);
    if n < 0 {
        lemma_digits((-n) as nat);
        assert(text.skip(1) =~= crate::text::digits((-n) as nat));
    } else {
        lemma_digits(n as nat);
        assert('0' <= crate::text::digits(n as nat)[0]);
    }
}

/// A text starts with another exactly if it is that text with something behind
/// it.
pub proof fn prefix_is_what_comes_first(text: Seq<char>, prefix: Seq<char>)
    ensures
        crate::text::begins_with(text, prefix) <==> exists|rest: Seq<char>|
            text == #[trigger] (prefix + rest),
{
    if crate::text::begins_with(text, prefix) {
        assert(text =~= prefix + text.skip(prefix.len() as int));
    }
    if exists|rest: Seq<char>| text == #[trigger] (prefix + rest) {
        let rest = choose|rest: Seq<char>| text == #[trigger] (prefix + rest);
        assert(text.take(prefix.len() as int) =~= prefix);
    }
}

/// The bytes of a text are read as that text, and what is read as a text are its
/// bytes.
pub proof fn names_are_read_from_their_bytes(text: Seq<char>, bytes: Seq<u8>)
    ensures
        crate::text::text_of(vstd::utf8::encode_utf8(text)) == Some(text),
        crate::text::text_of(bytes) matches Some(t) ==> vstd::utf8::encode_utf8(t) == bytes,
{
    vstd::utf8::encode_utf8_valid_utf8(text);
    vstd::utf8::encode_utf8_decode_utf8(text);
    if vstd::utf8::valid_utf8(bytes) {
        vstd::utf8::decode_utf8_encode_utf8(bytes);
    }
}

/// Eight, as often as `n` says.
pub open spec fn power_of_eight(n: nat) -> nat
    decreases n,
{
    if n == 0 {
        1
    } else {
        8 * power_of_eight((n - 1) as nat)
    }
}

/// The value of octal digits is that of the first ones, moved by as many places
/// as follow, and that of the others; one digit counts for itself.
pub proof fn octal_digits_count_by_their_place(first: Seq<char>, second: Seq<char>, digit: char)
    requires
        forall|i: int| 0 <= i < first.len() ==> '0' <= #[trigger] first[i] <= '7',
        forall|i: int| 0 <= i < second.len() ==> '0' <= #[trigger] second[i] <= '7',
        '0' <= digit <= '7',
    ensures
        crate::cli::octal_value(seq![digit]) == digit as int - '0' as int,
        crate::cli::octal_value(first + second) == crate::cli::octal_value(first) * power_of_eight(
            second.len(),
        ) + crate::cli::octal_value(second),
    decreases second.len(),
{
    reveal_with_fuel(crate::cli::octal_value, 2);
    assert(seq![digit].drop_last() =~= seq![]);
    if second.len() == 0 {
        assert(first + second =~= first);
        assert(crate::cli::octal_value(first) * 1 == crate::cli::octal_value(first));
    } else {
        let head = second.drop_last();
        assert forall|i: int| 0 <= i < head.len() implies '0' <= #[trigger] head[i] <= '7' by {
            assert(head[i] == second[i]);
        }
        octal_digits_count_by_their_place(first, head, digit);
        assert((first + second).drop_last() =~= first + head);
        assert((first + second).last() == second.last());
        let v = crate::cli::octal_value(first);
        let p = power_of_eight(head.len());
        assert(8 * (v * p) == v * (8 * p)) by (nonlinear_arith);
    }
}

/// A mode is accepted exactly if it is octal digits whose value fits into 32
/// bits, with or without a plus sign in front, which does not change the value.
pub proof fn modes_are_octal_digits(text: Seq<char>, digits: Seq<char>)
    ensures
        digits.len() > 0 && (forall|i: int|
            0 <= i < digits.len() ==> '0' <= #[trigger] digits[i] <= '7') ==> {
            let signed = seq!['+'] + digits;
            let fits = crate::cli::octal_value(digits) <= u32::MAX;
            &&& crate::cli::is_octal(digits) <==> fits
            &&& crate::cli::is_octal(signed) <==> fits
            &&& crate::cli::digits_of(digits) == digits
            &&& crate::cli::digits_of(signed) == digits
        },
        crate::cli::is_octal(text) ==> text.len() > 0 && forall|i: int|
            0 <= i < text.len() ==> '0' <= #[trigger] text[i] <= '7' || (i == 0 && text[i] == '+'
                && text.len() > 1),
{
    let signed = seq!['+'] + digits;
    assert(signed.skip(1) =~= digits);
    if digits.len() > 0 && (forall|i: int|
        0 <= i < digits.len() ==> '0' <= #[trigger] digits[i] <= '7') {
        assert('0' <= digits[0]);
        assert(crate::cli::digits_of(signed) == digits);
        assert(crate::cli::digits_of(digits) == digits);
        assert forall|i: int| 0 <= i < digits.len() implies crate::cli::is_octal_digit(
            #[trigger] digits[i],
        ) by {}
    }
    if crate::cli::is_octal(text) {
        let d = crate::cli::digits_of(text);
        assert forall|i: int| 0 <= i < text.len() implies '0' <= #[trigger] text[i] <= '7' || (i
            == 0 && text[i] == '+' && text.len() > 1) by {
            if text[0] == '+' {
                if i > 0 {
                    assert(d[i - 1] == text[i]);
                    assert(crate::cli::is_octal_digit(d[i - 1]));
                } else {
                    assert(d.len() > 0);
                }
            } else {
                assert(crate::cli::is_octal_digit(d[i]));
            }
        }
    }
}

/// Whether a column can hold a value.
pub open spec fn fits(column: ColumnDef, value: SqlView) -> bool {
    match value {
        SqlView::Null => !column.not_null,
        SqlView::Integer(_) => column.kind == Kind::Integer,
        SqlView::Real => false,
        SqlView::Text(_) => column.kind == Kind::Text || column.kind == Kind::DateTime,
        SqlView::Blob(_) => column.kind == Kind::Blob,
    }
}

/// Whether the columns of a table can hold a row, and the columns that are
/// ordered are.
pub open spec fn fits_table(table: crate::migration::TableView, row: Map<Field, SqlView>) -> bool {
    &&& forall|i: int|
        0 <= i < table.columns.len() ==> fits(
            #[trigger] table.columns[i],
            row[table.columns[i].field],
        )
    &&& table.ordered matches Some((a, b)) ==> match (row[a], row[b]) {
        (SqlView::Integer(x), SqlView::Integer(y)) => x <= y,
        _ => true,
    }
}

/// The table of inodes takes exactly the rows that hold the attributes of an
/// inode: numbers, and times as text; nothing may be missing.
pub proof fn inode_table_takes_attributes(row: Map<Field, SqlView>)
    ensures
        fits_table(crate::migration::inode_table(true), row) <==> {
            &&& row[Field::Id] is Integer
            &&& row[Field::Mode] is Integer
            &&& row[Field::Uid] is Integer
            &&& row[Field::Gid] is Integer
            &&& row[Field::Size] is Integer
            &&& row[Field::Rdev] is Integer
            &&& row[Field::Atime] is Text
            &&& row[Field::Mtime] is Text
            &&& row[Field::Ctime] is Text
            &&& row[Field::Btime] is Text
        },
        fits_table(crate::migration::inode_table(false), row) <==> {
            &&& row[Field::Id] is Integer
            &&& row[Field::Mode] is Integer
            &&& row[Field::Uid] is Integer
            &&& row[Field::Gid] is Integer
            &&& row[Field::Size] is Integer
            &&& row[Field::Atime] is Text
            &&& row[Field::Mtime] is Text
            &&& row[Field::Ctime] is Text
            &&& row[Field::Btime] is Text
        },
{
    let t = crate::migration::inode_table(true);
    assert(t.columns.len() == 10);
    assert(fits(t.columns[0], row[Field::Id]) <==> row[Field::Id] is Integer);
    assert(fits(t.columns[1], row[Field::Mode]) <==> row[Field::Mode] is Integer);
    assert(fits(t.columns[2], row[Field::Uid]) <==> row[Field::Uid] is Integer);
    assert(fits(t.columns[3], row[Field::Gid]) <==> row[Field::Gid] is Integer);
    assert(fits(t.columns[4], row[Field::Size]) <==> row[Field::Size] is Integer);
    assert(fits(t.columns[5], row[Field::Rdev]) <==> row[Field::Rdev] is Integer);
    assert(fits(t.columns[6], row[Field::Atime]) <==> row[Field::Atime] is Text);
    assert(fits(t.columns[7], row[Field::Mtime]) <==> row[Field::Mtime] is Text);
    assert(fits(t.columns[8], row[Field::Ctime]) <==> row[Field::Ctime] is Text);
    assert(fits(t.columns[9], row[Field::Btime]) <==> row[Field::Btime] is Text);
    let o = crate::migration::inode_table(false);
    assert(o.columns.len() == 9);
    assert(fits(o.columns[0], row[Field::Id]) <==> row[Field::Id] is Integer);
    assert(fits(o.columns[1], row[Field::Mode]) <==> row[Field::Mode] is Integer);
    assert(fits(o.columns[2], row[Field::Uid]) <==> row[Field::Uid] is Integer);
    assert(fits(o.columns[3], row[Field::Gid]) <==> row[Field::Gid] is Integer);
    assert(fits(o.columns[4], row[Field::Size]) <==> row[Field::Size] is Integer);
    assert(fits(o.columns[5], row[Field::Atime]) <==> row[Field::Atime] is Text);
    assert(fits(o.columns[6], row[Field::Mtime]) <==> row[Field::Mtime] is Text);
    assert(fits(o.columns[7], row[Field::Ctime]) <==> row[Field::Ctime] is Text);
    assert(fits(o.columns[8], row[Field::Btime]) <==> row[Field::Btime] is Text);
}

/// The tables of links, blocks and extended attributes take exactly the rows that
/// hold what one of these is made of; only the data of a block may be missing,
/// and a block does not end before it starts.
pub proof fn other_tables_take_what_is_stored(row: Map<Field, SqlView>)
    ensures
        fits_table(crate::migration::link_table(), row) <==> row[Field::ParentId] is Integer
            && row[Field::ChildId] is Integer && row[Field::Name] is Text,
        fits_table(crate::migration::xattr_table(), row) <==> row[Field::InodeId] is Integer
            && row[Field::Name] is Text && row[Field::Value] is Blob,
        fits_table(crate::migration::block_table(), row) <==> row[Field::Id] is Integer
            && row[Field::InodeId] is Integer && row[Field::FirstByte] is Integer
            && row[Field::LastByte] is Integer && (row[Field::Data] is Blob
            || row[Field::Data] is Null) && row[Field::FirstByte]->Integer_0
            <= row[Field::LastByte]->Integer_0,
{
    let l = crate::migration::link_table();
    assert(fits(l.columns[0], row[Field::ParentId]) <==> row[Field::ParentId] is Integer);
    assert(fits(l.columns[1], row[Field::ChildId]) <==> row[Field::ChildId] is Integer);
    assert(fits(l.columns[2], row[Field::Name]) <==> row[Field::Name] is Text);
    let x = crate::migration::xattr_table();
    assert(fits(x.columns[0], row[Field::InodeId]) <==> row[Field::InodeId] is Integer);
    assert(fits(x.columns[1], row[Field::Name]) <==> row[Field::Name] is Text);
    assert(fits(x.columns[2], row[Field::Value]) <==> row[Field::Value] is Blob);
    let b = crate::migration::block_table();
    assert(fits(b.columns[0], row[Field::Id]) <==> row[Field::Id] is Integer);
    assert(fits(b.columns[1], row[Field::InodeId]) <==> row[Field::InodeId] is Integer);
    assert(fits(b.columns[2], row[Field::FirstByte]) <==> row[Field::FirstByte] is Integer);
    assert(fits(b.columns[3], row[Field::LastByte]) <==> row[Field::LastByte] is Integer);
    assert(fits(b.columns[4], row[Field::Data]) <==> row[Field::Data] is Blob || row[Field::Data]
        is Null);
}

/// Whether two rows are the same in all the columns that are the key of a table.
pub open spec fn same_key(
    table: crate::migration::TableView,
    a: Map<Field, SqlView>,
    b: Map<Field, SqlView>,
) -> bool {
    &&& forall|i: int|
        0 <= i < table.primary_key.len() ==> a[#[trigger] table.primary_key[i]]
            == b[table.primary_key[i]]
    &&& forall|i: int|
        0 <= i < table.columns.len() && (#[trigger] table.columns[i]).is_key
            ==> a[table.columns[i].field] == b[table.columns[i].field]
}

/// Rows that hold links are in conflict exactly if they are at the same place,
/// rows that hold extended attributes exactly if they are of the same inode and
/// key, and rows that hold inodes or blocks exactly if they have the same
/// identifier.
pub proof fn keys_are_what_is_looked_up(a: Map<Field, SqlView>, b: Map<Field, SqlView>)
    ensures
        same_key(crate::migration::link_table(), a, b) <==> a[Field::ParentId] == b[Field::ParentId]
            && a[Field::Name] == b[Field::Name],
        same_key(crate::migration::xattr_table(), a, b) <==> a[Field::InodeId] == b[Field::InodeId]
            && a[Field::Name] == b[Field::Name],
        same_key(crate::migration::block_table(), a, b) <==> a[Field::Id] == b[Field::Id],
        same_key(crate::migration::inode_table(true), a, b) <==> a[Field::Id] == b[Field::Id],
        same_key(crate::migration::inode_table(false), a, b) <==> a[Field::Id] == b[Field::Id],
{
    let l = crate::migration::link_table();
    assert(l.primary_key[0] == Field::ParentId && l.primary_key[1] == Field::Name);
    let x = crate::migration::xattr_table();
    assert(x.primary_key[0] == Field::InodeId && x.primary_key[1] == Field::Name);
    let t = crate::migration::block_table();
    assert(t.columns[0].is_key);
    let i = crate::migration::inode_table(true);
    assert(i.columns[0].is_key);
    let o = crate::migration::inode_table(false);
    assert(o.columns[0].is_key);
}

/// How much can be read is as much as was asked for, unless the file ends before
/// that: then it is all up to its end. Nothing can be read before the start of a
/// file or beyond its end.
pub proof fn read_ends_with_the_file(file_size: i64, size: usize, offset: i64)
    ensures
        ({
            let n = crate::winter::readable(file_size, size, offset);
            &&& n <= size
            &&& n > 0 ==> 0 <= offset && offset + n <= file_size
            &&& 0 <= offset < file_size && n < size ==> offset + n == file_size
            &&& n == 0 ==> size == 0 || offset < 0 || offset >= file_size
        }),
{
}

/// The entries of a directory: first the directory itself and its parent under
/// their dots, then each child under its name, with the inode that it leads to
/// and the kind of file that this is.
pub proof fn entries_lead_where_names_lead<FS: WinterFs>(
    fs: FS,
    state: FsState,
    inode: u64,
    parent: u64,
    i: int,
)
    requires
        0 <= i < <FS::Context as WinterTree>::listing(state, inode).len(),
    ensures
        ({
            let all = crate::handler::all_entries(fs, state, inode, parent);
            let children = <FS::Context as WinterTree>::listing(state, inode);
            let child = all[i + 2];
            let mode = state.inodes[children[i].1].st_mode;
            &&& all.len() == children.len() + 2
            &&& all[0].0.ino == inode && all[0].0.name == vstd::utf8::encode_utf8("."@)
                && all[0].0.type_ == DT_DIR
            &&& all[1].0.ino == parent && all[1].0.name == vstd::utf8::encode_utf8(".."@)
                && all[1].0.type_ == DT_DIR
            &&& all[0].1 == crate::handler::entry_of(fs, state, state.inodes[inode])
            &&& all[1].1 == crate::handler::entry_of(fs, state, state.inodes[parent])
            &&& child.0.ino == children[i].1
            &&& child.0.name == vstd::utf8::encode_utf8(children[i].0)
            &&& child.0.type_ * 4096 == mode & S_IFMT
            &&& child.1 == crate::handler::entry_of(fs, state, state.inodes[children[i].1])
        }),
{
    let children = <FS::Context as WinterTree>::listing(state, inode);
    let mode = state.inodes[children[i].1].st_mode;
    assert(((mode & 0o170000u32) >> 12u32) * 4096 == mode & 0o170000u32) by (bit_vector);
    reveal_strlit(".");
    reveal_strlit("..");
    vstd::utf8::is_ascii_chars_encode_utf8("."@);
    vstd::utf8::is_ascii_chars_encode_utf8(".."@);
    assert(vstd::utf8::encode_utf8("."@) =~= seq![46u8]);
    assert(vstd::utf8::encode_utf8(".."@) =~= seq![46u8, 46u8]);
}

/// The foreign keys of a table are exactly its columns that hold the identifier
/// of an inode, and each refers to that identifier: what belongs to an inode goes
/// with it.
pub proof fn what_belongs_to_an_inode_refers_to_it(field: Field)
    ensures
        forall|t: crate::migration::TableView|
            t == crate::migration::link_table() || t == crate::migration::block_table() || t
                == crate::migration::xattr_table() || t == crate::migration::inode_table(true) || t
                == crate::migration::inode_table(false) ==> (
            crate::database::inode_fields(t.table).contains(field) <==> #[trigger] refers_by(
                t,
                field,
            )),
{
    let l = crate::migration::link_table();
    assert(l.foreign_keys[0].from == Field::ParentId && l.foreign_keys[1].from == Field::ChildId);
    assert(crate::database::inode_fields(Table::Link)[0] == Field::ParentId);
    assert(crate::database::inode_fields(Table::Link)[1] == Field::ChildId);
    let b = crate::migration::block_table();
    assert(b.foreign_keys[0].from == Field::InodeId);
    assert(crate::database::inode_fields(Table::Block)[0] == Field::InodeId);
    let x = crate::migration::xattr_table();
    assert(x.foreign_keys[0].from == Field::InodeId);
    assert(crate::database::inode_fields(Table::Xattr)[0] == Field::InodeId);
}

/// Whether a column of a table refers to the identifier of an inode.
pub open spec fn refers_by(t: crate::migration::TableView, field: Field) -> bool {
    exists|k: int|
        0 <= k < t.foreign_keys.len() && (#[trigger] t.foreign_keys[k]).from == field
            && t.foreign_keys[k].to_table == Table::Inode && t.foreign_keys[k].to == Field::Id
}

/// Each kind of error that the operating system's codes stand for comes from one
/// code, and all others are of no kind in particular.
pub proof fn codes_have_their_kinds(code: i32)
    ensures
        crate::error::os(code).kind() == crate::error::ErrorKind::NotFound <==> code == 2,
        crate::error::os(code).kind() == crate::error::ErrorKind::ResourceBusy <==> code == 16,
        crate::error::os(code).kind() == crate::error::ErrorKind::AlreadyExists <==> code == 17,
        crate::error::os(code).kind() == crate::error::ErrorKind::Unsupported <==> code == 38,
        code != 2 && code != 16 && code != 17 && code != 38 ==> crate::error::os(code).kind()
            == crate::error::ErrorKind::Uncategorized,
{
}

/// The definition of a column starts with its name and its type. It says that the
/// column may not be empty, is the key or is zero if nothing is said of it,
/// exactly if that is so.
pub proof fn column_definition_says_what_it_is(c: ColumnDef)
    ensures
        exists|rest: Seq<char>| #[trigger]
            crate::migration::column_sql(c) == c.field.text() + " "@ + c.kind.text() + rest,
        exists|x: Seq<char>, y: Seq<char>|
            {
                &&& crate::migration::column_sql(ColumnDef { not_null: true, ..c }) == #[trigger] (x
                    + " NOT NULL"@ + y)
                &&& crate::migration::column_sql(ColumnDef { not_null: false, ..c }) == x + y
            },
        exists|x: Seq<char>, y: Seq<char>|
            {
                &&& crate::migration::column_sql(ColumnDef { is_key: true, ..c }) == #[trigger] (x
                    + " PRIMARY KEY AUTOINCREMENT"@ + y)
                &&& crate::migration::column_sql(ColumnDef { is_key: false, ..c }) == x + y
            },
        crate::migration::column_sql(ColumnDef { zero_by_default: true, ..c })
            == crate::migration::column_sql(ColumnDef { zero_by_default: false, ..c })
            + " DEFAULT 0"@,
{
    let name = c.field.text() + " "@ + c.kind.text();
    let filled = if c.not_null {
        " NOT NULL"@
    } else {
        seq![]
    };
    let key = if c.is_key {
        " PRIMARY KEY AUTOINCREMENT"@
    } else {
        seq![]
    };
    let zero = if c.zero_by_default {
        " DEFAULT 0"@
    } else {
        seq![]
    };
    assert(crate::migration::column_sql(c) =~= c.field.text() + " "@ + c.kind.text() + (filled + key
        + zero));
    assert(crate::migration::column_sql(ColumnDef { not_null: true, ..c }) =~= name + " NOT NULL"@
        + (key + zero));
    assert(crate::migration::column_sql(ColumnDef { not_null: false, ..c }) =~= name + (key + zero));
    assert(crate::migration::column_sql(ColumnDef { is_key: true, ..c }) =~= (name + filled)
        + " PRIMARY KEY AUTOINCREMENT"@ + zero);
    assert(crate::migration::column_sql(ColumnDef { is_key: false, ..c }) =~= (name + filled)
        + zero);
    assert(crate::migration::column_sql(ColumnDef { zero_by_default: true, ..c })
        =~= crate::migration::column_sql(ColumnDef { zero_by_default: false, ..c })
        + " DEFAULT 0"@);
}

/// Two foreign keys from different columns, to different tables or to different
/// columns differ just there, and each says that what refers to a row goes with
/// it.
pub proof fn foreign_key_names_both_ends(
    k: crate::migration::ForeignKey,
    from: Field,
    to_table: Table,
    to: Field,
)
    ensures
        exists|a: Seq<char>, b: Seq<char>, c: Seq<char>, d: Seq<char>|
            {
                &&& crate::migration::foreign_key_sql(k) == #[trigger] (a + k.from.text() + b
                    + k.to_table.text() + c + k.to.text() + d)
                &&& crate::migration::foreign_key_sql(
                    crate::migration::ForeignKey { from, to_table, to },
                ) == a + from.text() + b + to_table.text() + c + to.text() + d
                &&& a == "FOREIGN KEY ("@
                &&& b == ") REFERENCES "@
                &&& d == ") ON DELETE CASCADE"@
            },
{
    let a = "FOREIGN KEY ("@;
    let b = ") REFERENCES "@;
    let c = " ("@;
    let d = ") ON DELETE CASCADE"@;
    assert(crate::migration::foreign_key_sql(k) == a + k.from.text() + b + k.to_table.text() + c
        + k.to.text() + d);
}

/// Texts with commas between them, one after the other.
pub proof fn joined_texts_follow_each_other(first: Seq<Seq<char>>, second: Seq<Seq<char>>)
    requires
        first.len() > 0,
        second.len() > 0,
    ensures
        crate::migration::joined(first + second) == crate::migration::joined(first) + ", "@
            + crate::migration::joined(second),
        second.len() == 1 ==> crate::migration::joined(second) == second[0],
    decreases second.len(),
{
    let all = first + second;
    if second.len() == 1 {
        assert(all.drop_last() =~= first);
        assert(all.last() == second[0]);
    } else {
        let head = second.drop_last();
        joined_texts_follow_each_other(first, head);
        assert(all.drop_last() =~= first + head);
        assert(all.last() == second.last());
        assert(crate::migration::joined(all) =~= crate::migration::joined(first) + ", "@
            + crate::migration::joined(second));
    }
}

/// The definition of a table lists each of its columns and each of its foreign
/// keys, the columns that are its key together if there are any, and the
/// condition on two columns if there is one, and nothing else.
pub proof fn table_definition_lists_its_parts(t: crate::migration::TableView, part: Seq<char>)
    ensures
        crate::migration::table_parts(t).contains(part) <==> {
            ||| exists|i: int|
                0 <= i < t.columns.len() && crate::migration::column_sql(#[trigger] t.columns[i])
                    == part
            ||| exists|i: int|
                0 <= i < t.foreign_keys.len() && crate::migration::foreign_key_sql(
                    #[trigger] t.foreign_keys[i],
                ) == part
            ||| t.primary_key.len() > 0 && part == "PRIMARY KEY ("@ + crate::migration::joined(
                t.primary_key.map_values(|f: Field| f.text()),
            ) + ")"@
            ||| t.ordered is Some && part == "CHECK ("@ + (t.ordered->Some_0).0.text() + " <= "@
                + (t.ordered->Some_0).1.text() + ")"@
        },
{
    let columns = t.columns.map_values(|c: ColumnDef| crate::migration::column_sql(c));
    let key = if t.primary_key.len() > 0 {
        seq![
            "PRIMARY KEY ("@ + crate::migration::joined(
                crate::migration::field_names(t.primary_key),
            ) + ")"@,
        ]
    } else {
        seq![]
    };
    let foreign = t.foreign_keys.map_values(
        |k: crate::migration::ForeignKey| crate::migration::foreign_key_sql(k),
    );
    let check = match t.ordered {
        Some((a, b)) => seq!["CHECK ("@ + a.text() + " <= "@ + b.text() + ")"@],
        None => seq![],
    };
    let parts = crate::migration::table_parts(t);
    assert(parts == columns + key + foreign + check);
    assert(crate::migration::field_names(t.primary_key) =~= t.primary_key.map_values(
        |f: Field| f.text(),
    ));
    let n = columns.len();
    let m = n + key.len();
    let l = m + foreign.len();
    if parts.contains(part) {
        let i = choose|i: int| 0 <= i < parts.len() && parts[i] == part;
        if i < n {
            assert(crate::migration::column_sql(t.columns[i]) == part);
        } else if i < m {
            assert(key[i - n] == part);
        } else if i < l {
            assert(crate::migration::foreign_key_sql(t.foreign_keys[i - m]) == part);
        } else {
            assert(check[i - l] == part);
        }
    }
    if exists|i: int|
        0 <= i < t.columns.len() && crate::migration::column_sql(#[trigger] t.columns[i]) == part {
        let i = choose|i: int|
            0 <= i < t.columns.len() && crate::migration::column_sql(#[trigger] t.columns[i])
                == part;
        assert(parts[i] == part);
    }
    if exists|i: int|
        0 <= i < t.foreign_keys.len() && crate::migration::foreign_key_sql(
            #[trigger] t.foreign_keys[i],
        ) == part {
        let i = choose|i: int|
            0 <= i < t.foreign_keys.len() && crate::migration::foreign_key_sql(
                #[trigger] t.foreign_keys[i],
            ) == part;
        assert(parts[m + i] == part);
    }
    if t.primary_key.len() > 0 && part == key[0] {
        assert(parts[n as int] == part);
    }
    if t.ordered is Some && part == check[0] {
        assert(parts[l as int] == part);
    }
}

/// Each of the children is read out of its row.
proof fn lemma_children_one_by_one(rows: Seq<Seq<SqlView>>)
    ensures
        match crate::flocon::children_of_rows(rows) {
            Ok(all) => all.len() == rows.len() && forall|i: int|
                0 <= i < rows.len() ==> crate::flocon::child_of_row(#[trigger] rows[i]) == Ok::<(Seq<char>, u64), ErrorView>(all[i]),
            Err(e) => exists|i: int|
                0 <= i < rows.len() && crate::flocon::child_of_row(#[trigger] rows[i]) == Err::<(Seq<char>, u64), ErrorView>(e),
        },
    decreases rows.len(),
{
    if rows.len() > 0 {
        let head = rows.drop_last();
        lemma_children_one_by_one(head);
        assert(rows[rows.len() - 1] == rows.last());
        match crate::flocon::children_of_rows(head) {
            Ok(first) => {
                assert forall|i: int| 0 <= i < head.len() implies crate::flocon::child_of_row(#[trigger] rows[i]) == Ok::<(Seq<char>, u64), ErrorView>(
                    first[i],
                ) by {
                    assert(head[i] == rows[i]);
                }
            },
            Err(e) => {
                let i = choose|i: int|
                    0 <= i < head.len() && crate::flocon::child_of_row(#[trigger] head[i]) == Err::<(Seq<char>, u64), ErrorView>(e);
                assert(rows[i] == head[i]);
            },
        }
    }
}

/// Each of the ids is read out of its row.
proof fn lemma_ids_one_by_one(rows: Seq<Seq<SqlView>>)
    ensures
        match crate::flocon::ids_of_rows(rows) {
            Ok(all) => all.len() == rows.len() && forall|i: int|
                0 <= i < rows.len() ==> crate::sql::as_u64(#[trigger] rows[i], 0, "parent_id"@) == Ok::<u64, ErrorView>(all[i]),
            Err(e) => exists|i: int|
                0 <= i < rows.len() && crate::sql::as_u64(#[trigger] rows[i], 0, "parent_id"@) == Err::<u64, ErrorView>(e),
        },
    decreases rows.len(),
{
    if rows.len() > 0 {
        let head = rows.drop_last();
        lemma_ids_one_by_one(head);
        assert(rows[rows.len() - 1] == rows.last());
        match crate::flocon::ids_of_rows(head) {
            Ok(first) => {
                assert forall|i: int| 0 <= i < head.len() implies crate::sql::as_u64(#[trigger] rows[i], 0, "parent_id"@) == Ok::<u64, ErrorView>(
                    first[i],
                ) by {
                    assert(head[i] == rows[i]);
                }
            },
            Err(e) => {
                let i = choose|i: int|
                    0 <= i < head.len() && crate::sql::as_u64(#[trigger] head[i], 0, "parent_id"@) == Err::<u64, ErrorView>(e);
                assert(rows[i] == head[i]);
            },
        }
    }
}

/// Each of the texts is read out of its row.
proof fn lemma_texts_one_by_one(rows: Seq<Seq<SqlView>>)
    ensures
        match crate::flocon::texts_of_rows(rows) {
            Ok(all) => all.len() == rows.len() && forall|i: int|
                0 <= i < rows.len() ==> crate::sql::as_text(#[trigger] rows[i], 0, "name"@) == Ok::<Seq<char>, ErrorView>(all[i]),
            Err(e) => exists|i: int|
                0 <= i < rows.len() && crate::sql::as_text(#[trigger] rows[i], 0, "name"@) == Err::<Seq<char>, ErrorView>(e),
        },
    decreases rows.len(),
{
    if rows.len() > 0 {
        let head = rows.drop_last();
        lemma_texts_one_by_one(head);
        assert(rows[rows.len() - 1] == rows.last());
        match crate::flocon::texts_of_rows(head) {
            Ok(first) => {
                assert forall|i: int| 0 <= i < head.len() implies crate::sql::as_text(#[trigger] rows[i], 0, "name"@) == Ok::<Seq<char>, ErrorView>(
                    first[i],
                ) by {
                    assert(head[i] == rows[i]);
                }
            },
            Err(e) => {
                let i = choose|i: int|
                    0 <= i < head.len() && crate::sql::as_text(#[trigger] head[i], 0, "name"@) == Err::<Seq<char>, ErrorView>(e);
                assert(rows[i] == head[i]);
            },
        }
    }
}

/// Each of the blocks is read out of its row.
proof fn lemma_blocks_one_by_one(rows: Seq<Seq<SqlView>>, at: int)
    ensures
        match crate::storage::blocks_of_rows(rows, at) {
            Ok(all) => all.len() == rows.len() && forall|i: int|
                0 <= i < rows.len() ==> crate::storage::block_of_row(#[trigger] rows[i], at) == Ok::<BlockView, ErrorView>(all[i]),
            Err(e) => exists|i: int|
                0 <= i < rows.len() && crate::storage::block_of_row(#[trigger] rows[i], at) == Err::<BlockView, ErrorView>(e),
        },
    decreases rows.len(),
{
    if rows.len() > 0 {
        let head = rows.drop_last();
        lemma_blocks_one_by_one(head, at);
        assert(rows[rows.len() - 1] == rows.last());
        match crate::storage::blocks_of_rows(head, at) {
            Ok(first) => {
                assert forall|i: int| 0 <= i < head.len() implies crate::storage::block_of_row(#[trigger] rows[i], at) == Ok::<BlockView, ErrorView>(
                    first[i],
                ) by {
                    assert(head[i] == rows[i]);
                }
            },
            Err(e) => {
                let i = choose|i: int|
                    0 <= i < head.len() && crate::storage::block_of_row(#[trigger] head[i], at) == Err::<BlockView, ErrorView>(e);
                assert(rows[i] == head[i]);
            },
        }
    }
}

/// Rows are read one by one: all of them are read exactly if each of them can be,
/// in their order, and else the error is that of one that cannot.
pub proof fn rows_are_read_one_by_one(rows: Seq<Seq<SqlView>>, at: int)
    ensures
        match crate::flocon::children_of_rows(rows) {
            Ok(children) => children.len() == rows.len() && forall|i: int|
                0 <= i < rows.len() ==> crate::flocon::child_of_row(#[trigger] rows[i]) == Ok::<
                    (Seq<char>, u64),
                    ErrorView,
                >(children[i]),
            Err(e) => exists|i: int|
                0 <= i < rows.len() && crate::flocon::child_of_row(#[trigger] rows[i]) == Err::<
                    (Seq<char>, u64),
                    ErrorView,
                >(e),
        },
        match crate::flocon::ids_of_rows(rows) {
            Ok(ids) => ids.len() == rows.len() && forall|i: int|
                0 <= i < rows.len() ==> crate::sql::as_u64(#[trigger] rows[i], 0, "parent_id"@)
                    == Ok::<u64, ErrorView>(ids[i]),
            Err(e) => exists|i: int|
                0 <= i < rows.len() && crate::sql::as_u64(#[trigger] rows[i], 0, "parent_id"@)
                    == Err::<u64, ErrorView>(e),
        },
        match crate::flocon::texts_of_rows(rows) {
            Ok(texts) => texts.len() == rows.len() && forall|i: int|
                0 <= i < rows.len() ==> crate::sql::as_text(#[trigger] rows[i], 0, "name"@)
                    == Ok::<Seq<char>, ErrorView>(texts[i]),
            Err(e) => exists|i: int|
                0 <= i < rows.len() && crate::sql::as_text(#[trigger] rows[i], 0, "name"@)
                    == Err::<Seq<char>, ErrorView>(e),
        },
        match crate::storage::blocks_of_rows(rows, at) {
            Ok(blocks) => blocks.len() == rows.len() && forall|i: int|
                0 <= i < rows.len() ==> crate::storage::block_of_row(#[trigger] rows[i], at)
                    == Ok::<BlockView, ErrorView>(blocks[i]),
            Err(e) => exists|i: int|
                0 <= i < rows.len() && crate::storage::block_of_row(#[trigger] rows[i], at)
                    == Err::<BlockView, ErrorView>(e),
        },
{
    lemma_children_one_by_one(rows);
    lemma_ids_one_by_one(rows);
    lemma_texts_one_by_one(rows);
    lemma_blocks_one_by_one(rows, at);
}

/// A row of a child is read exactly if it holds a text and a number that is not
/// negative, and one of an inode exactly if each of its columns holds what it
/// should: no attribute is made up for one that does not.
pub proof fn only_whole_rows_are_read(row: Seq<SqlView>)
    ensures
        crate::flocon::child_of_row(row) is Ok <==> row.len() > 1 && row[0] is Text
            && row[1] is Integer && row[1]->Integer_0 >= 0,
        crate::flocon::attrs_of_row(row) is Ok <==> {
            &&& row.len() > 8
            &&& row[0] is Integer && row[0]->Integer_0 >= 0
            &&& row[1] is Integer && 0 <= row[1]->Integer_0 <= u32::MAX
            &&& row[2] is Integer && 0 <= row[2]->Integer_0 <= u32::MAX
            &&& row[3] is Integer && 0 <= row[3]->Integer_0 <= u32::MAX
            &&& row[4] is Integer
            &&& row[5] is Integer && row[5]->Integer_0 >= 0
            &&& row[6] is Text && crate::timestamp::rfc3339_read(row[6]->Text_0) is Ok
            &&& row[7] is Text && crate::timestamp::rfc3339_read(row[7]->Text_0) is Ok
            &&& row[8] is Text && crate::timestamp::rfc3339_read(row[8]->Text_0) is Ok
        },
{
}

} // verus!
