//! What the operations on the file tree keep and undo.

use vstd::prelude::*;
use crate::winter::{EntryCore, FsState, WinterFs, WinterHandle, WinterTree};

verus! {

/// Making an inode under a free name keeps the tree consistent.
pub proof fn making_keeps_consistent(
    before: FsState,
    parent: u64,
    name: Seq<char>,
    mode: u32,
    uid: u32,
    gid: u32,
    rdev: u64,
    id: u64,
    after: FsState,
)
    requires
        before.consistent(),
        crate::handler::made(before, parent, name, mode, uid, gid, rdev, id, after),
    ensures
        after.consistent(),
{
}

/// Adding a name for an inode that exists keeps the tree consistent.
pub proof fn linking_keeps_consistent(state: FsState, parent: u64, name: Seq<char>, inode: u64)
    requires
        state.consistent(),
        state.inodes.contains_key(parent),
        state.inodes.contains_key(inode),
    ensures
        state.with_link(parent, name, inode).consistent(),
{
}

/// Removing a name keeps the tree consistent.
pub proof fn unlinking_keeps_consistent(state: FsState, parent: u64, name: Seq<char>)
    requires
        state.consistent(),
    ensures
        state.without_link(parent, name).consistent(),
{
}

/// Renaming keeps the tree consistent.
pub proof fn renaming_keeps_consistent(
    state: FsState,
    olddir: u64,
    oldname: Seq<char>,
    newdir: u64,
    newname: Seq<char>,
)
    requires
        state.consistent(),
        state.inodes.contains_key(newdir),
        state.links.contains_key((olddir, oldname)),
    ensures
        crate::handler::moved(state, olddir, oldname, newdir, newname).consistent(),
        state.links.contains_key((newdir, newname)) ==> crate::handler::exchanged(
            state,
            olddir,
            oldname,
            newdir,
            newname,
        ).consistent(),
{
}

/// Dropping references keeps the tree consistent, also where that deletes an
/// inode.
pub proof fn collecting_keeps_consistent(
    state: FsState,
    counts: Map<u64, u64>,
    inode: u64,
    amount: u64,
)
    requires
        state.consistent(),
    ensures
        crate::handler::collected(state, counts, inode, amount).consistent(),
{
    let after = crate::handler::collected(state, counts, inode, amount);
    if crate::handler::runs_out(counts, inode, amount) && state.links_to(inode).is_empty() {
        assert forall|l: (u64, Seq<char>)| #[trigger] after.links.contains_key(l) implies {
            &&& after.inodes.contains_key(l.0)
            &&& after.inodes.contains_key(after.links[l])
        } by {
            assert(state.links.contains_key(l));
            if state.links[l] == inode {
                assert(state.links_to(inode).contains(l));
            }
        }
    }
}

/// Dropping many references keeps the tree consistent.
pub proof fn collecting_all_keeps_consistent(
    state: FsState,
    counts: Map<u64, u64>,
    requests: Seq<(u64, u64)>,
)
    requires
        state.consistent(),
    ensures
        crate::handler::collected_all(state, counts, requests).consistent(),
    decreases requests.len(),
{
    if requests.len() > 0 {
        let head = requests.drop_last();
        collecting_all_keeps_consistent(state, counts, head);
        collecting_keeps_consistent(
            crate::handler::collected_all(state, counts, head),
            crate::handler::lowered_all(counts, head),
            requests.last().0,
            requests.last().1,
        );
    }
}

/// Setting and removing extended attributes keeps the tree consistent.
pub proof fn xattrs_keep_consistent(state: FsState, inode: u64, key: Seq<char>, value: Seq<u8>)
    requires
        state.consistent(),
    ensures
        state.inodes.contains_key(inode) ==> state.with_xattr(inode, key, value).consistent(),
        state.without_xattr(inode, key).consistent(),
{
}

/// Changing attributes of an inode keeps the tree consistent, as long as its
/// size does not shrink.
pub proof fn changing_attributes_keeps_consistent(state: FsState, inode: u64, attrs: EntryCore)
    requires
        state.consistent(),
        state.inodes.contains_key(inode) ==> state.inodes[inode].st_size <= attrs.st_size,
    ensures
        state.with_inode(inode, attrs).consistent(),
{
}

/// Writing through a handle that knows the size of its file keeps the tree
/// consistent, and the handle still knows the size.
pub proof fn writing_keeps_consistent(
    handle: EntryCore,
    before: FsState,
    offset: i64,
    data: Seq<u8>,
    handle_after: EntryCore,
    after: FsState,
)
    requires
        before.consistent(),
        before.inodes.contains_key(handle.st_ino),
        before.inodes[handle.st_ino].st_size == handle.st_size,
        0 <= offset,
        offset + data.len() <= i64::MAX,
        data.len() <= usize::MAX,
        crate::winter::written(handle, before, offset, data, handle_after, after),
    ensures
        after.consistent(),
        after.inodes.contains_key(handle.st_ino),
        after.inodes[handle.st_ino].st_size == handle_after.st_size,
{
}

/// Appending through a handle that knows the size of its file keeps the tree
/// consistent, and the handle still knows the size.
pub proof fn appending_keeps_consistent(
    handle: EntryCore,
    before: FsState,
    data: Seq<u8>,
    handle_after: EntryCore,
    after: FsState,
)
    requires
        before.consistent(),
        before.inodes.contains_key(handle.st_ino),
        before.inodes[handle.st_ino].st_size == handle.st_size,
        0 <= handle.st_size,
        crate::winter::appended(handle, before, data, handle_after, after),
    ensures
        after.consistent(),
        after.inodes.contains_key(handle.st_ino),
        after.inodes[handle.st_ino].st_size == handle_after.st_size,
{
}

/// Changing the size through a handle that knows the size of its file keeps the
/// tree consistent, and so does emptying a file.
pub proof fn resizing_keeps_consistent(handle: EntryCore, state: FsState, size: i64, flags: u32)
    requires
        state.consistent(),
        state.inodes.contains_key(handle.st_ino),
        state.inodes[handle.st_ino].st_size == handle.st_size,
    ensures
        crate::handler::size_set((handle, state), size).1.consistent(),
        crate::handler::truncated_if(state, handle.st_ino, flags).consistent(),
{
}

/// A read gives back what a write wrote. Every other byte of the file, and
/// every other file, reads as before.
pub proof fn read_gives_back_what_was_written(
    handle: EntryCore,
    before: FsState,
    offset: i64,
    data: Seq<u8>,
    handle_after: EntryCore,
    after: FsState,
    inode: u64,
    at: int,
)
    requires
        0 <= offset,
        offset + data.len() <= i64::MAX,
        data.len() <= usize::MAX,
        crate::winter::written(handle, before, offset, data, handle_after, after),
    ensures
        crate::winter::read_from(after, handle_after, data.len() as usize, offset) == data,
        inode != handle.st_ino || !(offset <= at < offset + data.len()) ==> after.byte(inode, at)
            == before.byte(inode, at),
{
    assert(crate::winter::read_from(after, handle_after, data.len() as usize, offset) =~= data);
}

/// A read gives back what was appended, right behind the last byte of the file
/// as it was. Every other byte of the file, and every other file, reads as
/// before.
pub proof fn read_gives_back_what_was_appended(
    handle: EntryCore,
    before: FsState,
    data: Seq<u8>,
    handle_after: EntryCore,
    after: FsState,
    inode: u64,
    at: int,
)
    requires
        0 <= handle.st_size,
        data.len() <= usize::MAX,
        crate::winter::appended(handle, before, data, handle_after, after),
    ensures
        handle_after.st_size == handle.st_size + data.len(),
        crate::winter::read_from(after, handle_after, data.len() as usize, handle.st_size) == data,
        inode != handle.st_ino || !(handle.st_size <= at < handle.st_size + data.len())
            ==> after.byte(inode, at) == before.byte(inode, at),
{
    assert(crate::winter::read_from(after, handle_after, data.len() as usize, handle.st_size)
        =~= data);
}

/// A file that grows keeps its bytes and shows zeros up to its new end, and one
/// that shrinks keeps the bytes before its new end. No other file changes.
pub proof fn resizing_keeps_bytes_and_adds_zeros(
    handle: EntryCore,
    state: FsState,
    size: i64,
    inode: u64,
    at: int,
)
    requires
        state.consistent(),
        state.inodes.contains_key(handle.st_ino),
        state.inodes[handle.st_ino].st_size == handle.st_size,
        state.inodes[handle.st_ino].st_ino == handle.st_ino,
    ensures
        ({
            let after = crate::handler::size_set((handle, state), size);
            &&& after.0.st_size == size
            &&& after.0.st_ino == handle.st_ino
            &&& after.1.byte(inode, at) == if inode == handle.st_ino && (at >= size || at
                >= handle.st_size) {
                0
            } else {
                state.byte(inode, at)
            }
        }),
{
}

/// The path that a symbolic link was made with is what reading it gives.
pub proof fn symbolic_link_gives_its_path(
    before: FsState,
    parent: u64,
    name: Seq<char>,
    uid: u32,
    gid: u32,
    path: Seq<u8>,
    id: u64,
    after: FsState,
)
    requires
        crate::handler::symlinked(before, parent, name, uid, gid, path, id, after),
        path.len() <= i64::MAX,
        path.len() <= usize::MAX,
    ensures
        after.inodes.contains_key(id),
        after.inodes[id].st_size == path.len(),
        crate::winter::read_from(after, after.inodes[id], path.len() as usize, 0) == path,
{
    let (middle, attrs): (FsState, EntryCore) = choose|middle: FsState, attrs: EntryCore|
        {
            &&& #[trigger] crate::handler::made(
                before,
                parent,
                name,
                crate::modes::S_IFLNK | 0o777,
                uid,
                gid,
                0,
                id,
                middle,
            )
            &&& #[trigger] crate::winter::written(middle.inodes[id], middle, 0, path, attrs, after)
        };
    assert(crate::winter::read_from(after, after.inodes[id], path.len() as usize, 0) =~= path);
}

/// An extended attribute that was set is what getting it gives, unless the
/// storage answers for it itself, and one that was removed is no longer there.
/// No other one changes.
pub proof fn xattr_get_gives_what_was_set<H: WinterHandle>(
    handle: H,
    state: FsState,
    key: Seq<char>,
    value: Seq<u8>,
    other: Seq<char>,
)
    requires
        !H::answers(key),
    ensures
        ({
            let id = handle.attrs().st_ino;
            let set = state.with_xattr(id, key, value);
            let removed = state.without_xattr(id, key);
            &&& crate::winter::xattr_value(handle, set, key) == Some(value)
            &&& crate::winter::xattr_value(handle, removed, key) is None
            &&& crate::winter::xattr_keys(handle, set).contains(key)
            &&& other != key ==> {
                let before = crate::winter::xattr_value(handle, state, other);
                &&& crate::winter::xattr_value(handle, set, other) == before
                &&& crate::winter::xattr_value(handle, removed, other) == before
            }
        }),
{
}

/// The first `n` pages of a list, one after the other.
pub open spec fn pages(all: Seq<(Seq<char>, u64)>, size: int, n: nat) -> Seq<(Seq<char>, u64)>
    decreases n,
{
    if n == 0 {
        seq![]
    } else {
        pages(all, size, (n - 1) as nat) + crate::winter::page(all, size, (n - 1) * size)
    }
}

/// The first pages of a list are its first elements.
proof fn lemma_pages(all: Seq<(Seq<char>, u64)>, size: int, n: nat)
    requires
        size > 0,
    ensures
        pages(all, size, n) == if n * size >= all.len() {
            all
        } else {
            all.take(n * size)
        },
    decreases n,
{
    if n == 0 {
        assert(pages(all, size, n) =~= all.take(0));
        if all.len() == 0 {
            assert(all.take(0) =~= all);
        }
    } else {
        let m = (n - 1) as nat;
        lemma_pages(all, size, m);
        assert(n * size == m * size + size && m * size >= 0) by (nonlinear_arith)
            requires
                n == m + 1,
                size > 0,
        ;
        let head = pages(all, size, m);
        let last = crate::winter::page(all, size, m * size);
        if m * size >= all.len() {
            assert(head + last =~= all);
        } else if n * size >= all.len() {
            assert(head + last =~= all);
        } else {
            assert(head + last =~= all.take(n * size));
        }
    }
}

/// A listing goes on where it ended: what is listed after the last entry of a
/// listing follows it, as in a listing with room for both.
pub proof fn listing_goes_on_where_it_ended<FS: WinterFs>(
    fs: FS,
    state: FsState,
    inode: u64,
    parent: u64,
    size: u32,
    offset: u64,
    more: u32,
)
    requires
        <FS::Context as WinterTree>::listing(state, inode).len() + 4 <= i64::MAX,
        <FS::Context as WinterTree>::listing(state, inode).len() + 4 <= usize::MAX,
        size + more <= u32::MAX,
        crate::handler::directory(fs, state, inode, parent, size, offset).len() > 0,
    ensures
        ({
            let first = crate::handler::directory(fs, state, inode, parent, size, offset);
            let last = first.last().0.offset;
            &&& first.len() <= size
            &&& offset < last
            &&& first + crate::handler::directory(fs, state, inode, parent, more, last)
                == crate::handler::directory(
                fs,
                state,
                inode,
                parent,
                (size + more) as u32,
                offset,
            )
        }),
{
    let all = crate::handler::all_entries(fs, state, inode, parent);
    let first = crate::handler::directory(fs, state, inode, parent, size, offset);
    let last = first.last().0.offset;
    let from = crate::handler::entries_up_to(offset);
    let k = from + first.len() - 1;
    assert(first.last() == all[k]);
    assert(crate::handler::entries_up_to(last) == k + 1);
    assert(first + crate::handler::directory(fs, state, inode, parent, more, last)
        =~= crate::handler::directory(fs, state, inode, parent, (size + more) as u32, offset));
}

/// The pages of the children of a directory add up to all of them: enough
/// pages, one after the other, hold each child once and nothing else, and none
/// of them is larger than was asked for.
pub proof fn pages_add_up_to_all_children(
    all: Seq<(Seq<char>, u64)>,
    state: FsState,
    parent: u64,
    size: usize,
    n: nat,
    offset: usize,
)
    requires
        size > 0,
        n * size >= all.len(),
        crate::winter::lists_children(all, state, parent),
    ensures
        pages(all, size as int, n) == all,
        crate::winter::lists_children(pages(all, size as int, n), state, parent),
        crate::winter::page(all, size as int, offset as int).len() <= size,
{
    lemma_pages(all, size as int, n);
}

/// A name that was added to a place that was free and removed again leaves no
/// trace.
pub proof fn unlink_undoes_link(state: FsState, parent: u64, name: Seq<char>, inode: u64)
    requires
        !state.links.contains_key((parent, name)),
    ensures
        state.with_link(parent, name, inode).without_link(parent, name) == state,
{
    assert(state.with_link(parent, name, inode).without_link(parent, name) =~= state);
}

/// Exchanging two entries twice leaves no trace.
pub proof fn exchange_undoes_exchange(
    state: FsState,
    a: u64,
    a_name: Seq<char>,
    b: u64,
    b_name: Seq<char>,
)
    requires
        state.links.contains_key((a, a_name)),
        state.links.contains_key((b, b_name)),
        (a, a_name) != (b, b_name),
    ensures
        crate::handler::exchanged(
            crate::handler::exchanged(state, a, a_name, b, b_name),
            a,
            a_name,
            b,
            b_name,
        ) == state,
{
    assert(crate::handler::exchanged(
        crate::handler::exchanged(state, a, a_name, b, b_name),
        a,
        a_name,
        b,
        b_name,
    ) =~= state);
}

/// An entry that was moved to a place that was free and moved back leaves no
/// trace.
pub proof fn moving_back_undoes_move(
    state: FsState,
    olddir: u64,
    oldname: Seq<char>,
    newdir: u64,
    newname: Seq<char>,
)
    requires
        state.links.contains_key((olddir, oldname)),
        !state.links.contains_key((newdir, newname)),
    ensures
        crate::handler::moved(
            crate::handler::moved(state, olddir, oldname, newdir, newname),
            newdir,
            newname,
            olddir,
            oldname,
        ) == state,
{
    assert(crate::handler::moved(
        crate::handler::moved(state, olddir, oldname, newdir, newname),
        newdir,
        newname,
        olddir,
        oldname,
    ) =~= state);
}

/// Moving an entry to where it is changes nothing.
pub proof fn moving_in_place_changes_nothing(state: FsState, dir: u64, name: Seq<char>)
    requires
        state.links.contains_key((dir, name)),
    ensures
        crate::handler::moved(state, dir, name, dir, name) == state,
{
    assert(crate::handler::moved(state, dir, name, dir, name) =~= state);
}

/// After a move the new name leads to what the old one led to, the old one
/// leads nowhere, and every other name leads to where it led.
pub proof fn move_changes_only_its_two_names(
    state: FsState,
    olddir: u64,
    oldname: Seq<char>,
    newdir: u64,
    newname: Seq<char>,
    dir: u64,
    name: Seq<char>,
)
    requires
        state.links.contains_key((olddir, oldname)),
        (olddir, oldname) != (newdir, newname),
    ensures
        ({
            let after = crate::handler::moved(state, olddir, oldname, newdir, newname);
            &&& after.child(newdir, newname) == state.child(olddir, oldname)
            &&& after.child(olddir, oldname) == 0
            &&& (dir, name) != (olddir, oldname) && (dir, name) != (newdir, newname) ==> after.child(
                dir,
                name,
            ) == state.child(dir, name)
            &&& after.inodes == state.inodes
            &&& after.xattrs == state.xattrs
            &&& after.bytes == state.bytes
        }),
{
}

/// Dropping as many references as were added restores the count.
pub proof fn lowering_undoes_raising(counts: Map<u64, u64>, inode: u64, amount: u64)
    requires
        counts.contains_key(inode) ==> 0 < counts[inode] && counts[inode] + amount <= u64::MAX,
    ensures
        crate::handler::lowered(
            crate::handler::raised(counts, inode, amount),
            inode,
            amount,
        ) == counts,
{
    assert(crate::handler::lowered(
        crate::handler::raised(counts, inode, amount),
        inode,
        amount,
    ) =~= counts);
}

/// An inode that something leads to, or that is still referred to, survives
/// dropped references, and so does every other inode.
pub proof fn used_inode_is_not_deleted(
    state: FsState,
    counts: Map<u64, u64>,
    inode: u64,
    amount: u64,
    other: u64,
)
    requires
        state.inodes.contains_key(other),
        other != inode || !state.links_to(inode).is_empty() || !counts.contains_key(inode)
            || counts[inode] > amount,
    ensures
        ({
            let after = crate::handler::collected(state, counts, inode, amount);
            after.inodes.contains_key(other) && after.inodes[other] == state.inodes[other]
        }),
{
}

/// An inode that nothing leads to goes with the last reference to it.
pub proof fn unused_inode_is_deleted(
    state: FsState,
    counts: Map<u64, u64>,
    inode: u64,
    amount: u64,
)
    requires
        state.links_to(inode).is_empty(),
        counts.contains_key(inode),
        counts[inode] <= amount,
    ensures
        !crate::handler::collected(state, counts, inode, amount).inodes.contains_key(inode),
        !crate::handler::lowered(counts, inode, amount).contains_key(inode),
{
}

/// A new name for a file is one link more.
pub proof fn link_adds_one_to_link_count(
    state: FsState,
    parent: u64,
    name: Seq<char>,
    inode: u64,
    mode: u32,
)
    requires
        state.links_to(inode).finite(),
        !state.links.contains_key((parent, name)),
        !crate::modes::is_dir(mode),
    ensures
        crate::handler::link_count(state.with_link(parent, name, inode), inode, mode)
            == crate::handler::link_count(state, inode, mode) + 1,
{
    let before = state.links_to(inode);
    let after = state.with_link(parent, name, inode).links_to(inode);
    assert(after =~= before.insert((parent, name)));
}

/// A file that was just made has one link, a directory two.
pub proof fn new_inode_link_count(
    before: FsState,
    parent: u64,
    name: Seq<char>,
    mode: u32,
    uid: u32,
    gid: u32,
    rdev: u64,
    id: u64,
    after: FsState,
)
    requires
        before.consistent(),
        before.inodes.contains_key(parent),
        crate::handler::made(before, parent, name, mode, uid, gid, rdev, id, after),
    ensures
        crate::handler::link_count(after, id, mode) == if crate::modes::is_dir(mode) {
            2nat
        } else {
            1nat
        },
{
    if crate::modes::is_dir(mode) {
        assert(after.child_dirs(id) =~= Set::empty()) by {
            assert forall|l: (u64, Seq<char>)| !after.child_dirs(id).contains(l) by {
                if after.links.contains_key(l) && l.0 == id {
                    assert(l != (parent, name));
                    assert(before.links.contains_key(l));
                }
            }
        }
    } else {
        assert(after.links_to(id) =~= set![(parent, name)]) by {
            assert forall|l: (u64, Seq<char>)|
                after.links_to(id).contains(l) <==> l == (parent, name) by {
                if l != (parent, name) && after.links.contains_key(l) {
                    assert(before.links.contains_key(l));
                }
            }
        }
    }
}

/// A new directory is one link more for its parent.
pub proof fn mkdir_adds_one_to_parent_link_count(
    before: FsState,
    parent: u64,
    name: Seq<char>,
    mode: u32,
    uid: u32,
    gid: u32,
    rdev: u64,
    id: u64,
    after: FsState,
    parent_mode: u32,
)
    requires
        before.consistent(),
        before.inodes.contains_key(parent),
        before.child_dirs(parent).finite(),
        crate::handler::made(before, parent, name, mode, uid, gid, rdev, id, after),
        crate::modes::is_dir(mode),
        crate::modes::is_dir(parent_mode),
    ensures
        crate::handler::link_count(after, parent, parent_mode) == crate::handler::link_count(
            before,
            parent,
            parent_mode,
        ) + 1,
{
    assert(after.child_dirs(parent) =~= before.child_dirs(parent).insert((parent, name))) by {
        assert forall|l: (u64, Seq<char>)|
            after.child_dirs(parent).contains(l) <==> before.child_dirs(parent).insert(
                (parent, name),
            ).contains(l) by {
            if l != (parent, name) && after.links.contains_key(l) {
                assert(before.links.contains_key(l));
            }
        }
    }
}

/// A listing from the start that offers enough room shows every child of the
/// directory exactly once, after the directory itself and its parent.
pub proof fn full_listing_shows_every_child<FS: WinterFs>(
    fs: FS,
    state: FsState,
    inode: u64,
    parent: u64,
    size: u32,
    name: Seq<char>,
)
    requires
        crate::winter::lists_children(
            <FS::Context as WinterTree>::listing(state, inode),
            state,
            inode,
        ),
        size >= <FS::Context as WinterTree>::listing(state, inode).len() + 2,
        state.links.contains_key((inode, name)),
    ensures
        ({
            let entries = crate::handler::directory(fs, state, inode, parent, size, 0);
            let children = <FS::Context as WinterTree>::listing(state, inode);
            &&& entries.len() == children.len() + 2
            &&& exists|i: int|
                {
                    &&& 2 <= i < entries.len()
                    &&& (#[trigger] entries[i]).0.ino == state.links[(inode, name)]
                    &&& entries[i].0.name == vstd::utf8::encode_utf8(name)
                    &&& entries[i].1 == crate::handler::entry_of(
                        fs,
                        state,
                        state.inodes[state.links[(inode, name)]],
                    )
                    &&& forall|j: int|
                        0 <= j < children.len() && (#[trigger] children[j]).0 == name ==> j + 2 == i
                }
        }),
{
    let entries = crate::handler::directory(fs, state, inode, parent, size, 0);
    let children = <FS::Context as WinterTree>::listing(state, inode);
    let shown = crate::winter::page(children, size - 2, 0);
    assert(shown =~= children);
    let child = (name, state.links[(inode, name)]);
    assert(children.contains(child));
    let k = choose|k: int| 0 <= k < children.len() && children[k] == child;
    let e = entries[k + 2];
    assert(e == crate::handler::child_entries(fs, state, shown, 4)[k]);
    assert forall|j: int| 0 <= j < children.len() && (#[trigger] children[j]).0 == name implies j
        + 2 == k + 2 by {
        assert(children[j].1 == state.links[(inode, children[j].0)]);
        assert(children[j] == children[k]);
    }
}

/// The numbers of the entries of a listing rise.
pub proof fn listing_offsets_rise<FS: WinterFs>(
    fs: FS,
    state: FsState,
    inode: u64,
    parent: u64,
    size: u32,
    offset: u64,
    i: int,
    j: int,
)
    requires
        0 <= i < j < crate::handler::directory(fs, state, inode, parent, size, offset).len(),
    ensures
        crate::handler::directory(fs, state, inode, parent, size, offset)[i].0.offset
            < crate::handler::directory(fs, state, inode, parent, size, offset)[j].0.offset,
{
}

} // verus!
