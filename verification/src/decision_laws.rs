//! Laws of the functions that decide: what is refused, what is answered, and how
//! the answers to two questions go together.

use vstd::prelude::*;
use crate::cli::{ChannelEvent, ServerAction};
use crate::database::{Database, Tables};
use crate::error::{Error, ErrorKind};
use crate::manager::FileSystemManager;
use crate::migration::Table;
use crate::rules::{GetxattrReply, ListxattrReply, Statfs};
use crate::sql::{SqlValue, Statement};
use crate::storage::Resize;
use crate::timestamp::Timestamp;
use crate::virtiofs::VirtiofsError;
use crate::winter::EntryCore;

verus! {

/// A mode of which the four bits above the permissions are those of a directory
/// is accepted as a parent, as something to list and as a directory to remove;
/// every other mode is accepted as a file to remove and to link, and none is
/// accepted as both.
pub proof fn directories_and_files_are_told_apart(
    mode: u32,
    directory: bool,
    parent: Result<(), Error>,
    listed: Result<(), Error>,
    removed: Result<(), Error>,
    unlinked: Result<(), Error>,
    linked: Result<(), Error>,
)
    requires
        call_ensures(crate::modes::is_directory, (mode,), directory),
        call_ensures(crate::rules::check_parent, (mode,), parent),
        call_ensures(crate::rules::check_directory, (mode,), listed),
        call_ensures(crate::rules::check_removed_kind, (mode, true), removed),
        call_ensures(crate::rules::check_removed_kind, (mode, false), unlinked),
        call_ensures(crate::rules::check_linkable, (mode,), linked),
    ensures
        directory <==> (mode / 0o10000) % 16 == 4,
        parent is Ok <==> directory,
        listed is Ok <==> directory,
        removed is Ok <==> directory,
        unlinked is Ok <==> !directory,
        linked is Ok <==> !directory,
        parent matches Err(e) ==> e@.kind() == ErrorKind::NotADirectory,
        listed matches Err(e) ==> e@.kind() == ErrorKind::NotADirectory,
        removed matches Err(e) ==> e@.kind() == ErrorKind::NotADirectory,
        unlinked matches Err(e) ==> e@.kind() == ErrorKind::IsADirectory,
        linked matches Err(e) ==> e@.kind() == ErrorKind::IsADirectory,
{
    assert((mode & 0o170000u32 == 0o040000u32) <==> (mode / 0o10000u32) % 16u32 == 4u32)
        by (bit_vector);
}

/// What stands under a name decides what can be done with it: a new file needs a
/// free one, a removal, a rename and an exchange need a taken one, and a file
/// that has to be new is the only one that a taken name stops from being opened.
pub proof fn names_are_free_or_taken(
    child: u64,
    require_directory: bool,
    flags: u32,
    free: Result<(), Error>,
    removed: Result<(), Error>,
    opened: Result<(), Error>,
    source: Result<(), Error>,
    replaced: Result<(), Error>,
    kept: Result<(), Error>,
    exchanged: Result<(), Error>,
)
    requires
        call_ensures(crate::rules::check_free, (child,), free),
        call_ensures(crate::rules::check_removed_exists, (child, require_directory), removed),
        call_ensures(crate::rules::check_exclusive, (child, flags), opened),
        call_ensures(crate::rules::check_rename_source, (child,), source),
        call_ensures(crate::rules::check_rename_target, (child, 0), replaced),
        call_ensures(crate::rules::check_rename_target, (child, 1), kept),
        call_ensures(crate::rules::check_rename_target, (child, 2), exchanged),
    ensures
        free is Ok <==> child == 0,
        removed is Ok <==> free is Err,
        source is Ok <==> free is Err,
        kept is Ok <==> free is Ok,
        exchanged is Ok <==> free is Err,
        replaced is Ok,
        opened is Err <==> free is Err && (flags / 0o200) % 2 == 1,
        free matches Err(e) ==> e@.kind() == ErrorKind::AlreadyExists,
        opened matches Err(e) ==> e@.kind() == ErrorKind::AlreadyExists,
        kept matches Err(e) ==> e@.kind() == ErrorKind::AlreadyExists,
        removed matches Err(e) ==> e@.kind() == ErrorKind::NotFound,
        source matches Err(e) ==> e@.kind() == ErrorKind::NotFound,
        exchanged matches Err(e) ==> e@.kind() == ErrorKind::NotFound,
{
    assert((flags & 0o200u32 == 0) <==> (flags / 0o200u32) % 2u32 == 0u32) by (bit_vector);
}

/// A directory is removed only if nothing was found in it.
pub proof fn only_empty_directories_are_removed(found: usize, r: Result<(), Error>)
    requires
        call_ensures(crate::rules::check_empty, (found,), r),
    ensures
        found > 0 <==> (r matches Err(e) && e@.kind() == ErrorKind::DirectoryNotEmpty),
        found == 0 <==> r is Ok,
{
}

/// A rename takes no flag or one of two, and two names that are not empty; an
/// extended attribute is set with no flag or one of two, under a key that is not
/// empty; a file is allocated in one mode.
pub proof fn arguments_are_checked(
    flags: u32,
    old_name: &str,
    new_name: &str,
    renamed: Result<(), Error>,
    named: Result<(), Error>,
    set: Result<(), Error>,
    allocated: Result<(), Error>,
)
    requires
        call_ensures(crate::rules::check_rename_flags, (flags,), renamed),
        call_ensures(crate::rules::check_rename_names, (old_name, new_name), named),
        call_ensures(crate::rules::check_xattr_arguments, (old_name, flags), set),
        call_ensures(crate::rules::check_fallocate_mode, (flags,), allocated),
    ensures
        renamed is Ok <==> flags <= 2,
        named is Ok <==> old_name@ != Seq::<char>::empty() && new_name@ != Seq::<char>::empty(),
        set is Ok <==> renamed is Ok && old_name@ != Seq::<char>::empty(),
        allocated is Ok <==> flags == 0,
        renamed matches Err(e) ==> e@.kind() == ErrorKind::InvalidInput,
        named matches Err(e) ==> e@.kind() == ErrorKind::InvalidInput,
        set matches Err(e) ==> e@.kind() == ErrorKind::InvalidInput,
        allocated matches Err(e) ==> e@.kind() == ErrorKind::InvalidInput,
{
    assert(old_name@.len() == 0 <==> old_name@ =~= Seq::<char>::empty());
    assert(new_name@.len() == 0 <==> new_name@ =~= Seq::<char>::empty());
}

/// Whether an extended attribute is there decides whether it may be made or
/// replaced: exactly one of the two goes, and what asks for neither always does.
/// Trouble in finding out stops all three.
pub proof fn xattrs_are_made_or_replaced(
    present: Result<(), Error>,
    made: Result<(), Error>,
    replaced: Result<(), Error>,
    set: Result<(), Error>,
)
    requires
        call_ensures(crate::rules::check_xattr_presence, (1, present), made),
        call_ensures(crate::rules::check_xattr_presence, (2, present), replaced),
        call_ensures(crate::rules::check_xattr_presence, (0, present), set),
    ensures
        match present {
            Ok(_) => made is Err && replaced is Ok && set is Ok,
            Err(e) => if e@.kind() == ErrorKind::NotFound {
                made is Ok && replaced is Err && set is Ok
            } else {
                made == Err::<(), Error>(e) && replaced == Err::<(), Error>(e) && set == Err::<
                    (),
                    Error,
                >(e)
            },
        },
        present is Ok ==> (made matches Err(e) && e@.kind() == ErrorKind::AlreadyExists),
{
}

/// Asking how long a value is and then asking for it with that much room gives
/// the value, and with less room does not.
pub proof fn value_fits_in_the_room_it_takes(
    v: Vec<u8>,
    room: u32,
    asked: Result<GetxattrReply, Error>,
    given: Result<GetxattrReply, Error>,
)
    requires
        v@.len() <= u32::MAX,
        call_ensures(crate::rules::getxattr_reply, (Ok(v), 0), asked),
        room > 0,
        call_ensures(crate::rules::getxattr_reply, (Ok(v), room), given),
    ensures
        asked matches Ok(GetxattrReply::Count(n)) && {
            &&& n == v@.len()
            &&& room >= n ==> (given matches Ok(GetxattrReply::Value(x)) && x@ == v@)
            &&& room < n ==> (given matches Err(e) && e@ == crate::error::os(crate::error::ERANGE))
        },
{
}

/// Asking how much room the keys take and then asking for them with that much
/// gives each of them with a zero behind it, and with less room does not.
pub proof fn keys_fit_in_the_room_they_take(
    names: &Vec<String>,
    room: u32,
    asked: Result<ListxattrReply, Error>,
    given: Result<ListxattrReply, Error>,
)
    requires
        crate::rules::packed(crate::winter::texts(names@)).len() <= u32::MAX,
        call_ensures(crate::rules::listxattr_reply, (names, 0), asked),
        room > 0,
        call_ensures(crate::rules::listxattr_reply, (names, room), given),
    ensures
        asked matches Ok(ListxattrReply::Count(n)) && {
            &&& room >= n <==> given is Ok
            &&& room >= n ==> (given matches Ok(ListxattrReply::Names(b)) && b@.len() == n && b@
                == crate::rules::packed(crate::winter::texts(names@)))
            &&& names@.len() == 0 ==> n == 0
            &&& names@.len() == 1 ==> n == vstd::utf8::encode_utf8(names@[0]@).len() + 1
        },
{
    let all = crate::winter::texts(names@);
    reveal_with_fuel(crate::rules::packed, 2);
    if names@.len() == 1 {
        assert(all.drop_last() =~= seq![]);
        assert(all.last() == names@[0]@);
    }
}

/// What the file system says of its room: free room is counted in whole blocks,
/// all room up to the next whole block, and files as they are.
pub proof fn room_is_counted_in_blocks(
    block_size: i64,
    used: u64,
    free: u64,
    files: u64,
    max_files: u64,
    name_max: u64,
    r: Statfs,
)
    requires
        block_size > 0,
        used + free + block_size <= u64::MAX,
        files <= max_files,
        call_ensures(
            crate::rules::statfs_reply,
            (block_size, used, free, files, max_files, name_max),
            r,
        ),
    ensures
        r.f_bsize == block_size && r.f_frsize == block_size,
        r.f_bfree * block_size <= free < (r.f_bfree + 1) * block_size,
        r.f_bavail == r.f_bfree,
        used + free <= r.f_blocks * block_size < used + free + block_size,
        r.f_files == files && r.f_files + r.f_ffree == max_files,
        r.f_namemax == name_max,
{
    let b = block_size as int;
    let f = free as int;
    let sum = used + free + b - 1;
    assert((f / b) * b <= f < (f / b + 1) * b) by (nonlinear_arith)
        requires
            b > 0,
    ;
    assert(sum - b + 1 <= (sum / b) * b <= sum) by (nonlinear_arith)
        requires
            b > 0,
    ;
    assert(0 <= f / b <= f) by (nonlinear_arith)
        requires
            b > 0,
            f >= 0,
    ;
    assert(0 <= sum / b <= sum) by (nonlinear_arith)
        requires
            b > 0,
            sum >= 0,
    ;
}

/// Only options that the kernel can do are asked for, and all the others that
/// are wanted; asking once more with what was settled changes nothing.
pub proof fn negotiation_is_settled_at_once(capable: u64, r: u64, again: u64, everything: u64)
    requires
        call_ensures(crate::rules::negotiate, (capable,), r),
        call_ensures(crate::rules::negotiate, (r,), again),
        call_ensures(crate::rules::negotiate, (u64::MAX,), everything),
    ensures
        r & capable == r,
        again == r,
        r == everything & capable,
        everything == 0xd1_7028,
{
    let wanted = crate::rules::wanted_options();
    assert((capable & wanted) & capable == capable & wanted) by (bit_vector);
    assert((capable & wanted) & wanted == capable & wanted) by (bit_vector);
    assert(0xffff_ffff_ffff_ffffu64 & wanted == wanted) by (bit_vector);
    assert(capable & wanted == wanted & capable) by (bit_vector);
    assert(0x40_0000u64 | 0x20 | 0x1_0000 | 0x1000 | 0x8 | 0x2000 | 0x4000 | 0x80_0000 | 0x10_0000
        == 0xd1_7028u64) by (bit_vector);
}

/// A time that is asked for is the one that was given, or it is refused; a second
/// of this era with fewer nanoseconds than a second has is never refused.
pub proof fn times_are_taken_as_given(
    what: &str,
    secs: i64,
    nsec: i64,
    r: Result<Timestamp, Error>,
)
    requires
        0 <= nsec < 1_000_000_000,
        call_ensures(crate::rules::requested_time, (what, secs, nsec), r),
    ensures
        crate::timestamp::has_four_digit_year(secs) ==> r is Ok,
        r matches Ok(t) ==> t@.0 == secs && t@.1 == nsec,
        r matches Err(e) ==> e@.kind() == ErrorKind::InvalidInput,
{
}

/// A file shrinks if it is to be smaller, grows if it is to be larger, and its
/// end is filled up only if it had one.
pub proof fn sizes_are_compared(current: i64, size: i64, r: Resize)
    requires
        call_ensures(crate::storage::resize, (current, size), r),
    ensures
        match r {
            Resize::Keep => size == current,
            Resize::Shrink { truncate_point } => truncate_point == size && size < current,
            Resize::Grow { fill } => size > current && (fill <==> current > 0),
        },
{
}

/// An image whose database holds no root inode gets one, a directory with the
/// mode and the owner that were asked for; one that holds it gets none.
pub proof fn missing_root_is_stored(
    database: Database,
    tables: Tables,
    inodes: Map<u64, EntryCore>,
    mode: u32,
    uid: u32,
    gid: u32,
    now: Timestamp,
    q: Statement,
    rows: &Vec<Vec<SqlValue>>,
    r: Result<Option<Statement>, Error>,
    after: Tables,
)
    requires
        database.understands_sql(),
        crate::table_laws::holds_inodes(tables[Table::Inode], inodes),
        mode & crate::modes::S_IFMT == 0,
        crate::timestamp::reads_as(crate::timestamp::rfc3339_nanos(now@.0, now@.1), now@),
        call_ensures(FileSystemManager::has_root_inode, (), q),
        crate::asking_laws::answers(database, tables, q, rows),
        call_ensures(FileSystemManager::ensure_root_inode, (rows, mode, uid, gid, now), r),
        r matches Ok(Some(s)) ==> database.after(s@, tables) == Some(after),
    ensures
        r is Ok,
        inodes.contains_key(1) <==> r->Ok_0 is None,
        !inodes.contains_key(1) ==> exists|root: EntryCore|
            {
                &&& crate::table_laws::holds_inodes(
                    after[Table::Inode],
                    #[trigger] inodes.insert(1, root),
                )
                &&& root.st_ino == 1 && root.st_size == 0 && root.st_rdev == 0
                &&& crate::modes::is_dir(root.st_mode) && root.st_mode == 0o040000 + mode
                &&& root.st_uid == uid && root.st_gid == gid
                &&& root.st_atime == now@.0 && root.st_mtime == now@.0 && root.st_ctime == now@.0
                &&& root.st_atime_nsec == now@.1 && root.st_mtime_nsec == now@.1
                    && root.st_ctime_nsec == now@.1
            },
{
    crate::table_laws::root_exists_if_it_is_stored(database, tables, inodes);
    assert((0o040000u32 | mode) == 0o040000u32 + mode && (0o040000u32 | mode) & 0o170000u32
        == 0o040000u32) by (bit_vector)
        requires
            mode & 0o170000u32 == 0,
    ;
    if !inodes.contains_key(1) {
        crate::table_laws::root_inode_is_added(database, tables, inodes, mode, uid, gid, now@);
        let root = EntryCore {
            st_ino: 1,
            st_size: 0,
            st_atime: now@.0,
            st_atime_nsec: now@.1 as i64,
            st_mtime: now@.0,
            st_mtime_nsec: now@.1 as i64,
            st_ctime: now@.0,
            st_ctime_nsec: now@.1 as i64,
            st_mode: crate::modes::S_IFDIR | mode,
            st_uid: uid,
            st_gid: gid,
            st_rdev: 0,
        };
        assert(crate::table_laws::holds_inodes(after[Table::Inode], inodes.insert(1, root)));
    }
}

/// A mode on the command line that ends in one more octal digit is eight times
/// the mode before it and that digit, as long as it fits; another ending is
/// refused.
pub proof fn digits_go_on_a_mode(
    start: &str,
    longer: &str,
    digit: char,
    r: Result<u32, String>,
    more: Result<u32, String>,
)
    requires
        longer@ == start@.push(digit),
        call_ensures(crate::cli::parse_octal, (start,), r),
        call_ensures(crate::cli::parse_octal, (longer,), more),
    ensures
        r matches Ok(n) ==> {
            let next = 8 * n + (digit as int - 48);
            &&& more is Ok <==> 48 <= digit as int <= 55 && next <= u32::MAX
            &&& more matches Ok(m) ==> m == next
        },
        start@.len() == 0 ==> r is Err && (more is Ok <==> 48 <= digit as int <= 55),
{
    let digits = crate::cli::digits_of(start@);
    let next = crate::cli::digits_of(longer@);
    if start@.len() > 0 {
        assert(next =~= digits.push(digit));
        assert(next.drop_last() =~= digits);
        if crate::cli::is_octal(longer@) {
            assert(crate::cli::is_octal_digit(next[digits.len() as int]));
        } else if crate::cli::is_octal(start@) && 48 <= digit as int <= 55 {
            assert forall|i: int| 0 <= i < next.len() implies crate::cli::is_octal_digit(
                #[trigger] next[i],
            ) by {
                if i < digits.len() {
                    assert(next[i] == digits[i]);
                }
            }
        }
    } else {
        reveal_with_fuel(crate::cli::octal_value, 2);
        if digit == '+' {
            assert(next =~= seq![]);
        } else {
            assert(next =~= seq![digit]);
            assert(next.drop_last() =~= seq![]);
            if 48 <= digit as int <= 55 {
                assert(crate::cli::is_octal_digit(next[0]));
                assert(crate::cli::is_octal(longer@));
            } else {
                assert(!crate::cli::is_octal_digit(next[0]));
            }
        }
    }
}

/// A path on the command line is taken as it is if what it names is there and of
/// the right kind, and refused otherwise.
pub proof fn paths_are_taken_as_they_are(
    s: &str,
    present: bool,
    right_kind: bool,
    empty: bool,
    file: Result<String, String>,
    dir: Result<String, String>,
    image: Result<String, String>,
)
    requires
        call_ensures(crate::cli::parse_existing_file, (s, present, right_kind), file),
        call_ensures(crate::cli::parse_existing_dir, (s, present, right_kind), dir),
        call_ensures(crate::cli::ensure_parent_exists, (s, present, right_kind, empty), image),
    ensures
        file is Ok <==> present && right_kind,
        dir is Ok <==> file is Ok,
        image is Ok <==> file is Ok || (present && empty),
        file matches Ok(p) ==> p@ == s@,
        dir matches Ok(p) ==> p@ == s@,
        image matches Ok(p) ==> p@ == s@,
{
}

/// A mounted file system is served exactly as long as requests come.
pub proof fn served_while_requests_come(event: ChannelEvent, r: ServerAction)
    requires
        call_ensures(crate::cli::next_action, (event,), r),
    ensures
        r is Serve <==> event is Request,
{
}

/// Each event that there is something to read is about the queue of its number,
/// of which there are two; any other event is refused.
pub proof fn events_are_about_their_queue(
    readable: bool,
    event: u16,
    r: Result<usize, VirtiofsError>,
)
    requires
        call_ensures(crate::virtiofs::queue_of_event, (readable, event), r),
    ensures
        r is Ok <==> readable && event < 2,
        r matches Ok(q) ==> q == event,
        r matches Err(e) ==> match e {
            VirtiofsError::HandleEventNotEpollIn => !readable,
            VirtiofsError::HandleEventUnknownEvent(n) => readable && n == event,
            _ => false,
        },
{
}

/// The guest is left alone only where its ring says so, and a queue is looked at
/// again only where something came in.
pub proof fn guest_is_notified_unless_it_says_no(
    event_idx: bool,
    needs: Option<bool>,
    more_came: bool,
    signal: bool,
    again: bool,
)
    requires
        call_ensures(crate::virtiofs::should_signal, (event_idx, needs), signal),
        call_ensures(crate::virtiofs::works_again, (event_idx, more_came), again),
    ensures
        !signal ==> event_idx && needs == Some(false),
        event_idx && needs == Some(false) ==> !signal,
        again <==> event_idx && more_came,
{
}

/// The features of the device and of the protocol are the bits that stand for
/// them, and no others.
pub proof fn features_are_their_bits(device: u64, protocol: u64)
    requires
        call_ensures(crate::virtiofs::features, (), device),
        call_ensures(crate::virtiofs::protocol_features, (), protocol),
    ensures
        device == 0x1_7000_0000,
        protocol == 0x21,
{
    assert(0x1_0000_0000u64 | 0x1000_0000 | 0x2000_0000 | 0x4000_0000 == 0x1_7000_0000u64)
        by (bit_vector);
    assert(0x1u64 | 0x20 == 0x21u64) by (bit_vector);
}

} // verus!
