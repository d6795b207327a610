//! Laws of open files, of references and of listings, as the functions of the
//! handler keep them.

use vstd::prelude::*;
use crate::error::Error;
use crate::handler::{CreateArgs, Entry, OwnedDirEntry, WinterFsHandler};
use crate::rules::Statfs;
use crate::winter::{FsState, WinterFs, WinterHandle, WinterTree};

verus! {

/// A handle that is put in under a new identifier is taken out under it, and no
/// other handle is touched by either.
pub proof fn handles_are_found_under_their_identifiers<FS: WinterFs>(h: FS::Handle, other: u64)
    ensures
        forall|opening: &mut WinterFsHandler<FS>, closing: &mut WinterFsHandler<FS>, id: u64, r: Option<FS::Handle>|
            #![trigger call_ensures(WinterFsHandler::<FS>::create_handle, (opening, h), id),
                call_ensures(WinterFsHandler::<FS>::remove_handle, (closing, id), r)]
            {
                &&& call_ensures(WinterFsHandler::<FS>::create_handle, (opening, h), id)
                &&& call_ensures(WinterFsHandler::<FS>::remove_handle, (closing, id), r)
                &&& *closing == *final(opening)
                &&& opening.next_id() > 0
                &&& !opening.open_handles().contains_key(id)
            } ==> {
                &&& id > 0
                &&& r == Some(h)
                &&& final(opening).open_handles().contains_key(id)
                &&& final(closing).open_handles() == opening.open_handles()
                &&& final(closing).next_id() > id
                &&& other != id && opening.open_handles().contains_key(other)
                    ==> final(opening).open_handles()[other] == opening.open_handles()[other]
                &&& final(closing).lookups() == opening.lookups()
            },
{
    assert forall|opening: &mut WinterFsHandler<FS>, closing: &mut WinterFsHandler<FS>, id: u64, r: Option<FS::Handle>|
        #![trigger call_ensures(WinterFsHandler::<FS>::create_handle, (opening, h), id),
            call_ensures(WinterFsHandler::<FS>::remove_handle, (closing, id), r)]
        {
            &&& call_ensures(WinterFsHandler::<FS>::create_handle, (opening, h), id)
            &&& call_ensures(WinterFsHandler::<FS>::remove_handle, (closing, id), r)
            &&& *closing == *final(opening)
            &&& opening.next_id() > 0
            &&& !opening.open_handles().contains_key(id)
        } implies {
            &&& id > 0
            &&& r == Some(h)
            &&& final(opening).open_handles().contains_key(id)
            &&& final(closing).open_handles() == opening.open_handles()
            &&& final(closing).next_id() > id
            &&& other != id && opening.open_handles().contains_key(other)
                ==> final(opening).open_handles()[other] == opening.open_handles()[other]
            &&& final(closing).lookups() == opening.lookups()
        } by {
        assert(opening.open_handles().insert(id, h).remove(id) =~= opening.open_handles());
    }
}

/// A release that succeeds closes the handle that it names, and no other one; it
/// changes neither the tree nor the references. One that names none does nothing.
pub proof fn release_closes_one_handle<FS: WinterFs>(handle: u64, flush: bool, other: u64)
    ensures
        forall|
            handler: &mut WinterFsHandler<FS>,
            context: &mut FS::Context,
            r: Result<(), Error>,
        | #[trigger]
            call_ensures(WinterFsHandler::<FS>::release, (handler, context, handle, flush), r) ==> {
                &&& r is Ok && handle != 0 ==> !final(handler).open_handles().contains_key(handle)
                &&& other != handle ==> (final(handler).open_handles().contains_key(other)
                    <==> handler.open_handles().contains_key(other))
                &&& other != handle && handler.open_handles().contains_key(other)
                    ==> final(handler).open_handles()[other] == handler.open_handles()[other]
                &&& r is Ok ==> final(context).state() == context.state()
                &&& final(context).committed() == context.committed()
                &&& final(handler).lookups() == handler.lookups()
                &&& !flush ==> r is Ok
                &&& r is Err ==> handle != 0 && (final(handler).open_handles().contains_key(handle)
                    <==> handler.open_handles().contains_key(handle))
            },
        forall|handler: &mut WinterFsHandler<FS>, r: Result<(), Error>| #[trigger]
            call_ensures(WinterFsHandler::<FS>::releasedir, (handler, handle), r) ==> {
                &&& r is Ok
                &&& handle != 0 ==> !final(handler).open_handles().contains_key(handle)
                &&& other != handle ==> (final(handler).open_handles().contains_key(other)
                    <==> handler.open_handles().contains_key(other))
                &&& other != handle && handler.open_handles().contains_key(other)
                    ==> final(handler).open_handles()[other] == handler.open_handles()[other]
                &&& final(handler).lookups() == handler.lookups()
            },
{
}

/// References that are counted are there until as many are dropped; those to
/// other inodes are not touched.
pub proof fn references_are_counted_up_and_down<FS: WinterFs>(
    inode: u64,
    amount: u64,
    other: u64,
)
    requires
        amount > 0,
    ensures
        forall|up: &mut WinterFsHandler<FS>, r: ()| #[trigger]
            call_ensures(WinterFsHandler::<FS>::increase_lookup, (up, inode, amount), r) ==> {
                &&& final(up).lookups().contains_key(inode)
                &&& up.lookups().contains_key(inode) && up.lookups()[inode] + amount <= u64::MAX
                    ==> final(up).lookups()[inode] == up.lookups()[inode] + amount
                &&& !up.lookups().contains_key(inode) ==> final(up).lookups()[inode] == amount
                &&& other != inode ==> final(up).lookups().contains_key(other)
                    == up.lookups().contains_key(other) && final(up).lookups()[other]
                    == up.lookups()[other]
                &&& final(up).open_handles() == up.open_handles()
            },
        forall|down: &mut WinterFsHandler<FS>, context: &mut FS::Context, r: Result<(), Error>|
            #[trigger]
            call_ensures(
                WinterFsHandler::<FS>::decrease_lookup,
                (down, inode, amount, context),
                r,
            ) ==> {
                &&& down.lookups().contains_key(inode) && down.lookups()[inode] > amount ==> {
                    &&& r is Ok
                    &&& final(down).lookups().contains_key(inode)
                    &&& final(down).lookups()[inode] + amount == down.lookups()[inode]
                    &&& final(context).state() == context.state()
                }
                &&& down.lookups().contains_key(inode) && down.lookups()[inode] <= amount ==> {
                    &&& !final(down).lookups().contains_key(inode)
                    &&& r is Ok && context.state().links_to(inode).is_empty()
                        ==> !final(context).state().inodes.contains_key(inode)
                    &&& r is Ok && !context.state().links_to(inode).is_empty()
                        ==> final(context).state() == context.state()
                }
                &&& !down.lookups().contains_key(inode) ==> r is Ok && final(down).lookups()
                    == down.lookups() && final(context).state() == context.state()
                &&& other != inode ==> final(down).lookups().contains_key(other)
                    == down.lookups().contains_key(other) && final(down).lookups()[other]
                    == down.lookups()[other]
                &&& final(down).open_handles() == down.open_handles()
            },
        forall|listing: &mut WinterFsHandler<FS>, name: &Vec<u8>, r: ()| #[trigger]
            call_ensures(WinterFsHandler::<FS>::count_listed, (listing, name, inode), r) ==> {
                let dots = 1 <= name@.len() <= 2 && forall|i: int|
                    0 <= i < name@.len() ==> #[trigger] name@[i] == 46;
                &&& dots ==> final(listing).lookups() == listing.lookups()
                &&& !dots && !listing.lookups().contains_key(inode)
                    ==> final(listing).lookups().contains_key(inode)
                    && final(listing).lookups()[inode] == 1
                &&& !dots && listing.lookups().contains_key(inode) && listing.lookups()[inode]
                    < u64::MAX ==> final(listing).lookups()[inode] == listing.lookups()[inode] + 1
                &&& other != inode ==> final(listing).lookups()[other] == listing.lookups()[other]
            },
{
    assert forall|listing: &mut WinterFsHandler<FS>, name: &Vec<u8>, r: ()| #[trigger]
        call_ensures(WinterFsHandler::<FS>::count_listed, (listing, name, inode), r) implies {
            let dots = 1 <= name@.len() <= 2 && forall|i: int|
                0 <= i < name@.len() ==> #[trigger] name@[i] == 46;
            &&& dots ==> final(listing).lookups() == listing.lookups()
            &&& !dots && !listing.lookups().contains_key(inode)
                ==> final(listing).lookups().contains_key(inode)
                && final(listing).lookups()[inode] == 1
            &&& !dots && listing.lookups().contains_key(inode) && listing.lookups()[inode]
                < u64::MAX ==> final(listing).lookups()[inode] == listing.lookups()[inode] + 1
            &&& other != inode ==> final(listing).lookups()[other] == listing.lookups()[other]
        } by {
        if name@.len() == 1 {
            assert(name@ =~= seq![name@[0]]);
        } else if name@.len() == 2 {
            assert(name@ =~= seq![name@[0], name@[1]]);
        }
    }
}

/// Dropping references to many inodes is dropping those to each of them: a list
/// of one request does what the request does alone, and an empty one nothing.
pub proof fn many_requests_are_one_after_the_other<FS: WinterFs>(requests: &Vec<(u64, u64)>)
    ensures
        forall|handler: &mut WinterFsHandler<FS>, context: &mut FS::Context, r: Result<(), Error>|
            #[trigger]
            call_ensures(
                WinterFsHandler::<FS>::batch_forget,
                (handler, context, requests),
                r,
            ) && r is Ok ==> {
                &&& requests@.len() == 0 ==> final(handler).lookups() == handler.lookups()
                    && final(context).state() == context.state()
                &&& forall|i: u64|
                    (forall|k: int| 0 <= k < requests@.len() ==> (#[trigger] requests@[k]).0 != i)
                        ==> (#[trigger] final(handler).lookups().contains_key(i))
                        == handler.lookups().contains_key(i) && final(handler).lookups()[i]
                        == handler.lookups()[i]
                &&& requests@.len() == 1 && handler.lookups().contains_key(requests@[0].0) ==> {
                    let (inode, count) = requests@[0];
                    &&& handler.lookups()[inode] > count ==> final(handler).lookups()[inode] + count
                        == handler.lookups()[inode] && final(context).state() == context.state()
                    &&& handler.lookups()[inode] <= count ==> !final(handler).lookups().contains_key(
                        inode,
                    )
                }
            },
{
    assert forall|handler: &mut WinterFsHandler<FS>, context: &mut FS::Context, r: Result<(), Error>|
        #[trigger]
        call_ensures(
            WinterFsHandler::<FS>::batch_forget,
            (handler, context, requests),
            r,
        ) && r is Ok implies {
            &&& requests@.len() == 0 ==> final(handler).lookups() == handler.lookups()
                && final(context).state() == context.state()
            &&& forall|i: u64|
                (forall|k: int| 0 <= k < requests@.len() ==> (#[trigger] requests@[k]).0 != i)
                    ==> (#[trigger] final(handler).lookups().contains_key(i))
                    == handler.lookups().contains_key(i) && final(handler).lookups()[i]
                    == handler.lookups()[i]
            &&& requests@.len() == 1 && handler.lookups().contains_key(requests@[0].0) ==> {
                let (inode, count) = requests@[0];
                &&& handler.lookups()[inode] > count ==> final(handler).lookups()[inode] + count
                    == handler.lookups()[inode] && final(context).state() == context.state()
                &&& handler.lookups()[inode] <= count ==> !final(handler).lookups().contains_key(
                    inode,
                )
            }
        } by {
        let counts = handler.lookups();
        assert forall|i: u64|
            (forall|k: int| 0 <= k < requests@.len() ==> (#[trigger] requests@[k]).0
                != i) implies (#[trigger] final(handler).lookups().contains_key(i))
            == counts.contains_key(i) && final(handler).lookups()[i] == counts[i] by {
            lemma_untouched(counts, requests@, i);
        }
        if requests@.len() == 1 {
            reveal_with_fuel(crate::handler::lowered_all, 2);
            reveal_with_fuel(crate::handler::collected_all, 2);
            assert(requests@.drop_last() =~= seq![]);
        }
    }
}

/// Requests about other inodes leave the references to one as they are.
proof fn lemma_untouched(counts: Map<u64, u64>, requests: Seq<(u64, u64)>, i: u64)
    requires
        forall|k: int| 0 <= k < requests.len() ==> (#[trigger] requests[k]).0 != i,
    ensures
        crate::handler::lowered_all(counts, requests).contains_key(i) == counts.contains_key(i),
        crate::handler::lowered_all(counts, requests)[i] == counts[i],
    decreases requests.len(),
{
    if requests.len() > 0 {
        let head = requests.drop_last();
        assert forall|k: int| 0 <= k < head.len() implies (#[trigger] head[k]).0 != i by {
            assert(head[k] == requests[k]);
        }
        lemma_untouched(counts, head, i);
        assert(requests.last() == requests[requests.len() - 1]);
    }
}

/// Room that is allocated for a file makes it as long as that room reaches, if it
/// was shorter, and changes none of its bytes. No other file changes.
pub proof fn fallocate_only_lengthens<FS: WinterFs>(
    inode: u64,
    handle: u64,
    offset: u64,
    length: u64,
    other: u64,
)
    requires
        offset + length <= i64::MAX,
    ensures
        forall|handler: &mut WinterFsHandler<FS>, context: &mut FS::Context, r: Result<(), Error>|
            #[trigger]
            call_ensures(
                WinterFsHandler::<FS>::fallocate,
                (handler, context, inode, handle, 0, offset, length),
                r,
            ) && r is Ok && (handle != 0 ==> handler.open_handles()[handle].attrs().st_size >= 0)
                && (handle == 0 ==> context.state().inodes[inode].st_size >= 0) ==> {
                let id = handler.inode_of(inode, Some(handle));
                let size = if handle != 0 {
                    handler.open_handles()[handle].attrs().st_size
                } else {
                    context.state().inodes[inode].st_size
                };
                let before = context.state();
                let after = final(context).state();
                &&& after.links == before.links
                &&& after.xattrs == before.xattrs
                &&& after.bytes == before.bytes
                &&& offset + length <= size ==> after == before
                &&& offset + length > size ==> after.inodes.contains_key(id)
                    && after.inodes[id].st_size == offset + length
                &&& other != id ==> after.inodes.contains_key(other)
                    == before.inodes.contains_key(other) && after.inodes[other]
                    == before.inodes[other]
                &&& handle != 0 && offset + length > size
                    ==> final(handler).open_handles()[handle].attrs().st_size == offset + length
            },
{
}

/// A file takes just as many blocks as hold it.
pub proof fn counted_blocks_hold_the_file(size: i64, block_size: i64, r: i64)
    requires
        block_size > 0,
        0 <= size,
        size + block_size - 1 <= i64::MAX,
        call_ensures(crate::handler::count_blocks, (size, block_size), r),
    ensures
        r * block_size >= size,
        (r - 1) * block_size < size,
{
    crate::request_laws::blocks_are_just_enough(size, block_size);
}

/// What was done in a context is committed if it succeeded, and then the answer
/// is the one that it gave; if it failed, nothing is, and the answer is its error.
pub proof fn contexts_are_concluded_as_the_operation_went<FS: WinterFs, R>(
    handler: &WinterFsHandler<FS>,
    result: Result<R, Error>,
)
    ensures
        forall|context: &mut FS::Context, r: Result<R, Error>| #[trigger]
            call_ensures(WinterFsHandler::<FS>::conclude::<R>, (handler, context, result), r) ==> {
                &&& r is Ok ==> r == result && final(context).committed() == context.state()
                    && !final(context).is_open()
                &&& result is Err ==> r == result && final(context).committed()
                    == context.committed()
            },
{
}

/// Whether the order in which a storage lists a directory has all its children,
/// and not more of them than can be numbered.
pub open spec fn lists_all<FS: WinterFs>(state: FsState, dir: u64) -> bool {
    let all = <FS::Context as WinterTree>::listing(state, dir);
    crate::winter::lists_children(all, state, dir) && all.len() < u64::MAX - 4
}

/// A listing of a directory shows entries of this directory only: itself, its
/// parent and its children, each under the name that leads to it, and it shows no
/// more than were asked for.
pub proof fn listings_show_the_directory<FS: WinterFs>(
    handler: &WinterFsHandler<FS>,
    inode: u64,
    handle: u64,
    size: u32,
    offset: u64,
)
    ensures
        forall|context: &mut FS::Context, r: Result<Vec<(OwnedDirEntry, Entry)>, Error>| #[trigger]
            call_ensures(
                WinterFsHandler::<FS>::inner_readdir,
                (handler, context, inode, handle, size, offset),
                r,
            ) && lists_all::<FS>(context.state(), handler.inode_of(inode, Some(handle))) ==> {
                let state = context.state();
                let dir = handler.inode_of(inode, Some(handle));
                &&& r is Ok ==> crate::modes::is_dir(state.inodes[dir].st_mode)
                    && final(context).state() == state
                &&& r matches Ok(entries) ==> entries@.len() <= size
                &&& r matches Ok(entries) ==> forall|i: int|
                    0 <= i < entries@.len() ==> {
                        let e = (#[trigger] crate::handler::listed(entries@)[i]).0;
                        &&& e.offset > offset
                        &&& e.offset == 1 ==> e.ino == dir && e.name == seq![46u8]
                        &&& e.offset == 2 ==> e.name == seq![46u8, 46u8]
                        &&& e.offset > 2 ==> exists|name: Seq<char>|
                            {
                                &&& #[trigger] state.links.contains_key((dir, name))
                                &&& state.links[(dir, name)] == e.ino
                                &&& e.name == vstd::utf8::encode_utf8(name)
                            }
                    }
            },
{
    assert forall|context: &mut FS::Context, r: Result<Vec<(OwnedDirEntry, Entry)>, Error>|
        #[trigger]
        call_ensures(
            WinterFsHandler::<FS>::inner_readdir,
            (handler, context, inode, handle, size, offset),
            r,
        ) && lists_all::<FS>(context.state(), handler.inode_of(inode, Some(handle))) implies {
            let state = context.state();
            let dir = handler.inode_of(inode, Some(handle));
            &&& r is Ok ==> crate::modes::is_dir(state.inodes[dir].st_mode)
                && final(context).state() == state
            &&& r matches Ok(entries) ==> entries@.len() <= size
            &&& r matches Ok(entries) ==> forall|i: int|
                0 <= i < entries@.len() ==> {
                    let e = (#[trigger] crate::handler::listed(entries@)[i]).0;
                    &&& e.offset > offset
                    &&& e.offset == 1 ==> e.ino == dir && e.name == seq![46u8]
                    &&& e.offset == 2 ==> e.name == seq![46u8, 46u8]
                    &&& e.offset > 2 ==> exists|name: Seq<char>|
                        {
                            &&& #[trigger] state.links.contains_key((dir, name))
                            &&& state.links[(dir, name)] == e.ino
                            &&& e.name == vstd::utf8::encode_utf8(name)
                        }
                }
        } by {
        let state = context.state();
        let dir = handler.inode_of(inode, Some(handle));
        if let Ok(entries) = r {
            let shown = crate::handler::listed(entries@);
            let parent = choose|parent: u64|
                shown == #[trigger] crate::handler::directory(
                    handler.storage(),
                    state,
                    dir,
                    parent,
                    size,
                    offset,
                );
            let all = crate::handler::all_entries(handler.storage(), state, dir, parent);
            let from = crate::handler::entries_up_to(offset);
            let children = <FS::Context as WinterTree>::listing(state, dir);
            assert(shown.len() == entries@.len());
            assert forall|i: int| 0 <= i < entries@.len() implies {
                let e = (#[trigger] shown[i]).0;
                &&& e.offset > offset
                &&& e.offset == 1 ==> e.ino == dir && e.name == seq![46u8]
                &&& e.offset == 2 ==> e.name == seq![46u8, 46u8]
                &&& e.offset > 2 ==> exists|name: Seq<char>|
                    {
                        &&& #[trigger] state.links.contains_key((dir, name))
                        &&& state.links[(dir, name)] == e.ino
                        &&& e.name == vstd::utf8::encode_utf8(name)
                    }
            } by {
                let k = from + i;
                assert(shown[i] == all[k]);
                if k >= 2 {
                    let (name, ino) = children[k - 2];
                    assert(state.links.contains_key((dir, name)));
                    assert(all[k].0.offset == k + 2);
                }
            }
        }
    }
}

/// A read gives the bytes of the file from the offset on, as many as are asked for
/// or as there are, behind what was there, and changes nothing.
pub proof fn reads_show_the_bytes<FS: WinterFs>(inode: u64, handle: u64, size: u32, offset: u64)
    requires
        offset <= i64::MAX,
        size <= usize::MAX,
    ensures
        forall|
            handler: &mut WinterFsHandler<FS>,
            context: &mut FS::Context,
            w: &mut Vec<u8>,
            r: Result<usize, Error>,
        | #[trigger]
            call_ensures(
                WinterFsHandler::<FS>::read,
                (handler, context, inode, handle, w, size, offset),
                r,
            ) ==> {
                let state = context.state();
                let id = handler.inode_of(inode, Some(handle));
                let length = if handle != 0 {
                    handler.open_handles()[handle].attrs().st_size
                } else {
                    state.inodes[inode].st_size
                };
                &&& final(context).committed() == context.committed()
                &&& final(handler).lookups() == handler.lookups()
                &&& r matches Ok(n) ==> {
                    &&& final(context).state() == state
                    &&& n <= size && final(w)@.len() == w@.len() + n
                    &&& final(w)@.take(w@.len() as int) == w@
                    &&& n < size ==> offset + n >= length
                    &&& n > 0 ==> offset + n <= length
                    &&& forall|k: int|
                        0 <= k < n ==> #[trigger] final(w)@[w@.len() + k] == state.byte(
                            id,
                            offset + k,
                        )
                }
            },
{
    assert forall|
            handler: &mut WinterFsHandler<FS>,
            context: &mut FS::Context,
            w: &mut Vec<u8>,
            r: Result<usize, Error>,
        | #[trigger]
        call_ensures(
                WinterFsHandler::<FS>::read,
                (handler, context, inode, handle, w, size, offset),
                r,
            ) implies {
                let state = context.state();
                let id = handler.inode_of(inode, Some(handle));
                let length = if handle != 0 {
                    handler.open_handles()[handle].attrs().st_size
                } else {
                    state.inodes[inode].st_size
                };
                &&& final(context).committed() == context.committed()
                &&& final(handler).lookups() == handler.lookups()
                &&& r matches Ok(n) ==> {
                    &&& final(context).state() == state
                    &&& n <= size && final(w)@.len() == w@.len() + n
                    &&& final(w)@.take(w@.len() as int) == w@
                    &&& n < size ==> offset + n >= length
                    &&& n > 0 ==> offset + n <= length
                    &&& forall|k: int|
                        0 <= k < n ==> #[trigger] final(w)@[w@.len() + k] == state.byte(
                            id,
                            offset + k,
                        )
                }
        } by {
        if let Ok(n) = r {
            assert(final(w)@.take(w@.len() as int) =~= w@);
        }
    }
}

/// A write puts its data at the offset, or at the end of the file if it is to be
/// appended, makes the file as long as it takes, and changes no other byte, no
/// name and no extended attribute.
pub proof fn writes_change_only_their_range<FS: WinterFs>(
    inode: u64,
    handle: u64,
    data: &Vec<u8>,
    size: u32,
    offset: u64,
    flags: u32,
    other: u64,
    at: int,
)
    requires
        offset + data@.len() <= i64::MAX,
    ensures
        forall|
            handler: &mut WinterFsHandler<FS>,
            context: &mut FS::Context,
            r: Result<usize, Error>,
        | #[trigger]
            call_ensures(
                WinterFsHandler::<FS>::write,
                (handler, context, inode, handle, data, size, offset, flags),
                r,
            ) ==> {
                let before = context.state();
                let after = final(context).state();
                let id = handler.inode_of(inode, Some(handle));
                let length = if handle != 0 {
                    handler.open_handles()[handle].attrs().st_size
                } else {
                    before.inodes[inode].st_size
                };
                let start = if (flags / 0o2000) % 2 == 1 {
                    length as int
                } else {
                    offset as int
                };
                let end = start + data@.len();
                &&& final(context).committed() == context.committed()
                &&& r matches Ok(n) ==> {
                    &&& n == data@.len()
                    &&& after.links == before.links && after.xattrs == before.xattrs
                    &&& start <= at < end ==> after.byte(id, at) == data@[at - start]
                    &&& other != id || !(start <= at < end) ==> after.byte(other, at)
                        == before.byte(other, at)
                    &&& other != id ==> after.inodes.contains_key(other)
                        == before.inodes.contains_key(other) && after.inodes[other]
                        == before.inodes[other]
                    &&& before.inodes.contains_key(id) && end > length && data@.len() > 0
                        ==> after.inodes.contains_key(id) && after.inodes[id].st_size == end
                    &&& handle != 0 && end > length && data@.len() > 0
                        ==> final(handler).open_handles()[handle].attrs().st_size == end
                }
            },
{
    assert forall|
            handler: &mut WinterFsHandler<FS>,
            context: &mut FS::Context,
            r: Result<usize, Error>,
        | #[trigger]
        call_ensures(
                WinterFsHandler::<FS>::write,
                (handler, context, inode, handle, data, size, offset, flags),
                r,
            ) implies {
                let before = context.state();
                let after = final(context).state();
                let id = handler.inode_of(inode, Some(handle));
                let length = if handle != 0 {
                    handler.open_handles()[handle].attrs().st_size
                } else {
                    before.inodes[inode].st_size
                };
                let start = if (flags / 0o2000) % 2 == 1 {
                    length as int
                } else {
                    offset as int
                };
                let end = start + data@.len();
                &&& final(context).committed() == context.committed()
                &&& r matches Ok(n) ==> {
                    &&& n == data@.len()
                    &&& after.links == before.links && after.xattrs == before.xattrs
                    &&& start <= at < end ==> after.byte(id, at) == data@[at - start]
                    &&& other != id || !(start <= at < end) ==> after.byte(other, at)
                        == before.byte(other, at)
                    &&& other != id ==> after.inodes.contains_key(other)
                        == before.inodes.contains_key(other) && after.inodes[other]
                        == before.inodes[other]
                    &&& before.inodes.contains_key(id) && end > length && data@.len() > 0
                        ==> after.inodes.contains_key(id) && after.inodes[id].st_size == end
                    &&& handle != 0 && end > length && data@.len() > 0
                        ==> final(handler).open_handles()[handle].attrs().st_size == end
                }
        } by {
        assert((flags & 0o2000u32 == 0) <==> (flags / 0o2000u32) % 2u32 == 0u32) by (bit_vector);
    }
}

/// What the file system says of its room is counted from an estimate of what is
/// left, and all room from that and an estimate of what is used; files are those
/// that there are.
pub proof fn statfs_counts_what_is_left<FS: WinterFs>()
    ensures
        forall|handler: &mut WinterFsHandler<FS>, context: &mut FS::Context, r: Result<Statfs, Error>| #[trigger]
            call_ensures(WinterFsHandler::<FS>::statfs, (handler, context), r) ==> {
                let block = handler.storage().block_bytes();
                &&& final(handler).open_handles() == handler.open_handles()
                &&& r matches Ok(stat) ==> exists|used: u64, free: u64|
                    {
                        &&& #[trigger] handler.storage().may_take_up(used)
                        &&& #[trigger] handler.storage().may_be_left(free)
                        &&& block > 0 && used + free + block <= u64::MAX ==> {
                            &&& stat.f_bfree * block <= free < (stat.f_bfree + 1) * block
                            &&& stat.f_bavail == stat.f_bfree
                            &&& used + free <= stat.f_blocks * block < used + free + block
                        }
                        &&& stat.f_files == handler.storage().files_count(context.state())
                        &&& stat.f_namemax == handler.storage().name_limit(context.state())
                        &&& stat.f_bsize == block as u64
                    }
            },
{
    assert forall|handler: &mut WinterFsHandler<FS>, context: &mut FS::Context, r: Result<Statfs, Error>| #[trigger]
        call_ensures(WinterFsHandler::<FS>::statfs, (handler, context), r) implies {
                let block = handler.storage().block_bytes();
                &&& final(handler).open_handles() == handler.open_handles()
                &&& r matches Ok(stat) ==> exists|used: u64, free: u64|
                    {
                        &&& #[trigger] handler.storage().may_take_up(used)
                        &&& #[trigger] handler.storage().may_be_left(free)
                        &&& block > 0 && used + free + block <= u64::MAX ==> {
                            &&& stat.f_bfree * block <= free < (stat.f_bfree + 1) * block
                            &&& stat.f_bavail == stat.f_bfree
                            &&& used + free <= stat.f_blocks * block < used + free + block
                        }
                        &&& stat.f_files == handler.storage().files_count(context.state())
                        &&& stat.f_namemax == handler.storage().name_limit(context.state())
                        &&& stat.f_bsize == block as u64
                    }
        } by {
        if let Ok(stat) = r {
            let fs = handler.storage();
            let state = context.state();
            let (used, free) = choose|used: u64, free: u64|
                {
                    &&& #[trigger] fs.may_take_up(used)
                    &&& #[trigger] fs.may_be_left(free)
                    &&& stat == crate::rules::statfs_of(
                        fs.block_bytes(),
                        used,
                        free,
                        fs.files_count(state),
                        fs.files_limit(state),
                        fs.name_limit(state),
                    )
                };
            let block = fs.block_bytes();
            if block > 0 && used + free + block <= u64::MAX {
                lemma_room(block, used, free);
            }
        }
    }
}

/// A symbolic link gives all the bytes of its file, in their order, and changes
/// nothing.
pub proof fn readlink_gives_the_whole_path<FS: WinterFs>(inode: u64)
    ensures
        forall|
            handler: &mut WinterFsHandler<FS>,
            context: &mut FS::Context,
            r: Result<Vec<u8>, Error>,
        | #[trigger]
            call_ensures(WinterFsHandler::<FS>::readlink, (handler, context, inode), r) ==> {
                let state = context.state();
                &&& final(handler).open_handles() == handler.open_handles()
                &&& final(handler).lookups() == handler.lookups()
                &&& r matches Ok(path) ==> {
                    &&& final(context).state() == state
                    &&& state.inodes.contains_key(inode)
                    &&& state.inodes[inode].st_size <= usize::MAX ==> path@.len()
                        == state.inodes[inode].st_size
                    &&& forall|k: int|
                        0 <= k < path@.len() ==> #[trigger] path@[k] == state.byte(inode, k)
                }
            },
{
}

/// Syncing and flushing a file change neither the tree nor any other file that is
/// open, and need the file to be open.
pub proof fn syncing_changes_no_file<FS: WinterFs>(handle: u64, datasync: bool, other: u64)
    ensures
        forall|
            handler: &mut WinterFsHandler<FS>,
            context: &mut FS::Context,
            r: Result<(), Error>,
        | #[trigger]
            call_ensures(WinterFsHandler::<FS>::fsync, (handler, context, datasync, handle), r) ==> {
                &&& r is Ok ==> final(context).state() == context.state()
                &&& r is Ok && handle != 0 ==> handler.open_handles().contains_key(handle)
                    && final(handler).open_handles().contains_key(handle)
                    && final(handler).open_handles()[handle].metadata_synced(*final(context)) && (
                datasync ==> final(handler).open_handles()[handle].data_synced(*final(context)))
                &&& handle == 0 ==> r is Ok
                &&& other != handle && handler.open_handles().contains_key(other)
                    ==> final(handler).open_handles()[other] == handler.open_handles()[other]
                &&& final(context).committed() == context.committed()
            },
{
}

/// The room that is counted in blocks, as numbers.
proof fn lemma_room(block: i64, used: u64, free: u64)
    requires
        block > 0,
        used + free + block <= u64::MAX,
    ensures
        ({
            let stat = crate::rules::statfs_of(block, used, free, 0, 0, 0);
            &&& stat.f_bfree * block <= free < (stat.f_bfree + 1) * block
            &&& used + free <= stat.f_blocks * block < used + free + block
        }),
{
    let b = block as int;
    let f = free as int;
    let sum = used + free + b - 1;
    assert((f / b) * b <= f < (f / b + 1) * b && 0 <= f / b <= f) by (nonlinear_arith)
        requires
            b > 0,
            f >= 0,
    ;
    assert(sum - b + 1 <= (sum / b) * b <= sum && 0 <= sum / b <= sum) by (nonlinear_arith)
        requires
            b > 0,
            sum >= 0,
    ;
}

/// Whether one more reference to an inode is counted, and the references to all
/// the others stay as they are.
pub open spec fn counts_one(before: Map<u64, u64>, after: Map<u64, u64>, id: u64) -> bool {
    &&& after.contains_key(id)
    &&& !before.contains_key(id) ==> after[id] == 1
    &&& before.contains_key(id) && before[id] < u64::MAX ==> after[id] == before[id] + 1
    &&& forall|other: u64|
        other != id ==> #[trigger] after.contains_key(other) == before.contains_key(other)
            && after[other] == before[other]
}

/// Each entry that is given to the kernel counts as one reference to its inode,
/// whether it was found or made; one that leads nowhere counts as none, and so
/// does a request that is refused.
pub proof fn each_entry_counts_as_one_reference<FS: WinterFs>(
    uid: u32,
    gid: u32,
    parent: u64,
    name: &[u8],
    mode: u32,
    umask: u32,
    rdev: u32,
    inode: u64,
    path: &Vec<u8>,
    args: CreateArgs,
)
    ensures
        forall|
            handler: &mut WinterFsHandler<FS>,
            context: &mut FS::Context,
            r: Result<Entry, Error>,
        | #[trigger]
            call_ensures(WinterFsHandler::<FS>::lookup, (handler, context, parent, name), r) ==> {
                &&& r is Ok ==> {
                    let id = context.state().child(parent, crate::text::text_of(name@)->Some_0);
                    &&& id != 0 ==> counts_one(handler.lookups(), final(handler).lookups(), id)
                    &&& id == 0 ==> final(handler).lookups() == handler.lookups()
                }
                &&& r is Err ==> final(handler).lookups() == handler.lookups()
            },
        forall|
            handler: &mut WinterFsHandler<FS>,
            context: &mut FS::Context,
            r: Result<Entry, Error>,
        | #[trigger]
            call_ensures(WinterFsHandler::<FS>::mkdir, (handler, context, uid, gid, parent, name, mode, umask), r) ==> {
                &&& r matches Ok(entry) ==> counts_one(
                    handler.lookups(),
                    final(handler).lookups(),
                    entry.inode,
                )
                &&& r is Err ==> final(handler).lookups() == handler.lookups()
            },
        forall|
            handler: &mut WinterFsHandler<FS>,
            context: &mut FS::Context,
            r: Result<Entry, Error>,
        | #[trigger]
            call_ensures(WinterFsHandler::<FS>::mknod, (handler, context, uid, gid, parent, name, mode, rdev, umask), r) ==> {
                &&& r matches Ok(entry) ==> counts_one(
                    handler.lookups(),
                    final(handler).lookups(),
                    entry.inode,
                )
                &&& r is Err ==> final(handler).lookups() == handler.lookups()
            },
        forall|
            handler: &mut WinterFsHandler<FS>,
            context: &mut FS::Context,
            r: Result<Entry, Error>,
        | #[trigger]
            call_ensures(WinterFsHandler::<FS>::symlink, (handler, context, uid, gid, path, parent, name), r) ==> {
                &&& r matches Ok(entry) ==> counts_one(
                    handler.lookups(),
                    final(handler).lookups(),
                    entry.inode,
                )
            },
        forall|
            handler: &mut WinterFsHandler<FS>,
            context: &mut FS::Context,
            r: Result<Entry, Error>,
        | #[trigger]
            call_ensures(WinterFsHandler::<FS>::link, (handler, context, inode, parent, name), r) ==> {
                &&& r is Ok ==> counts_one(handler.lookups(), final(handler).lookups(), inode)
                &&& r is Err ==> final(handler).lookups() == handler.lookups()
            },
        forall|
            handler: &mut WinterFsHandler<FS>,
            context: &mut FS::Context,
            r: Result<(Entry, u64), Error>,
        | #[trigger]
            call_ensures(WinterFsHandler::<FS>::create, (handler, context, uid, gid, parent, name, args), r) ==> {
                &&& r matches Ok((entry, handle)) ==> {
                    &&& counts_one(handler.lookups(), final(handler).lookups(), entry.inode)
                    &&& final(handler).open_handles().contains_key(handle)
                    &&& final(handler).open_handles()[handle].attrs().st_ino == entry.inode
                    &&& forall|other: u64|
                        other != handle && #[trigger] handler.open_handles().contains_key(other)
                            ==> final(handler).open_handles()[other]
                            == handler.open_handles()[other]
                }
            },
{
}

/// Setting an extended attribute gives this file that value under that key, and
/// removing it takes it away; no other value changes, and nothing else of the
/// tree. What has to be new was not there before, what is replaced or removed was,
/// unless the storage answers for the key itself.
pub proof fn xattr_requests_change_one_value<FS: WinterFs>(
    inode: u64,
    name: &[u8],
    value: &[u8],
    flags: u32,
    other: (u64, Seq<char>),
)
    ensures
        forall|
            handler: &mut WinterFsHandler<FS>,
            context: &mut FS::Context,
            r: Result<(), Error>,
        | #[trigger]
            call_ensures(
                WinterFsHandler::<FS>::setxattr,
                (handler, context, inode, name, value, flags),
                r,
            ) && r is Ok ==> {
                let before = context.state();
                let after = final(context).state();
                let key = crate::text::text_of(name@)->Some_0;
                &&& crate::text::text_of(name@) is Some && key.len() > 0
                &&& flags <= 2
                &&& after.xattrs.contains_key((inode, key)) && after.xattrs[(inode, key)] == value@
                &&& other != (inode, key) ==> after.xattrs.contains_key(other)
                    == before.xattrs.contains_key(other) && after.xattrs[other]
                    == before.xattrs[other]
                &&& !<FS::Handle as WinterHandle>::answers(key) && flags == 1
                    ==> !before.xattrs.contains_key((inode, key))
                &&& !<FS::Handle as WinterHandle>::answers(key) && flags == 2
                    ==> before.xattrs.contains_key((inode, key))
                &&& after.inodes == before.inodes && after.links == before.links && after.bytes
                    == before.bytes
                &&& final(context).committed() == context.committed()
            },
        forall|
            handler: &mut WinterFsHandler<FS>,
            context: &mut FS::Context,
            r: Result<(), Error>,
        | #[trigger]
            call_ensures(
                WinterFsHandler::<FS>::removexattr,
                (handler, context, inode, name),
                r,
            ) && r is Ok ==> {
                let before = context.state();
                let after = final(context).state();
                let key = crate::text::text_of(name@)->Some_0;
                &&& crate::text::text_of(name@) is Some && key.len() > 0
                &&& before.xattrs.contains_key((inode, key))
                &&& !after.xattrs.contains_key((inode, key))
                &&& other != (inode, key) ==> after.xattrs.contains_key(other)
                    == before.xattrs.contains_key(other) && after.xattrs[other]
                    == before.xattrs[other]
                &&& after.inodes == before.inodes && after.links == before.links && after.bytes
                    == before.bytes
                &&& final(context).committed() == context.committed()
            },
{
}

} // verus!
