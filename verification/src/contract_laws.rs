//! What requests to the file system lead to: laws of the handler's operations,
//! each said of whatever a call of it may give.

use vstd::prelude::*;
use crate::error::{Error, ErrorKind};
use crate::handler::{CreateArgs, Entry, Stat, WinterFsHandler};
use crate::modes::{
    O_APPEND, O_EXCL, O_TRUNC, RENAME_EXCHANGE, RENAME_NOREPLACE, SETATTR_ATIME,
    SETATTR_ATIME_NOW, SETATTR_CTIME, SETATTR_GID, SETATTR_MODE, SETATTR_MTIME,
    SETATTR_MTIME_NOW, SETATTR_SIZE, SETATTR_UID, S_IFDIR, S_IFLNK, S_IFMT, S_IFREG,
};
use crate::rules::GetxattrReply;
use crate::winter::{FsState, Validity, WinterFs, WinterHandle, WinterTree};

verus! {

/// Whether a name in a directory is new and leads to an inode that is new, and
/// nothing else of the tree differs.
pub open spec fn adds_one_file(
    before: FsState,
    parent: u64,
    name: Seq<char>,
    id: u64,
    after: FsState,
) -> bool {
    &&& id != 0
    &&& !before.inodes.contains_key(id)
    &&& !before.links.contains_key((parent, name))
    &&& after.links == before.links.insert((parent, name), id)
    &&& after.inodes.contains_key(id)
    &&& after.inodes.remove(id) == before.inodes
    &&& after.xattrs == before.xattrs
    &&& forall|i: u64, p: int| i != id ==> #[trigger] after.byte(i, p) == before.byte(i, p)
}

/// What was made adds one file.
proof fn lemma_made(
    before: FsState,
    parent: u64,
    name: Seq<char>,
    mode: u32,
    uid: u32,
    gid: u32,
    rdev: u64,
    id: u64,
    after: FsState,
)
    requires
        crate::handler::made(before, parent, name, mode, uid, gid, rdev, id, after),
    ensures
        adds_one_file(before, parent, name, id, after),
        after.inodes[id].st_mode == mode,
        after.inodes[id].st_uid == uid,
        after.inodes[id].st_gid == gid,
        after.inodes[id].st_rdev == rdev,
        after.inodes[id].st_size == 0,
        after.inodes[id].st_ino == id,
{
    assert(after.inodes.remove(id) =~= before.inodes);
    crate::request_laws::made_inode_is_as_asked(
        before,
        parent,
        name,
        mode,
        uid,
        gid,
        rdev,
        id,
        after,
    );
}

/// The kind of a file whose mode was put together from its kind and permissions.
proof fn lemma_kind(kind: u32, mode: u32, umask: u32)
    requires
        kind == S_IFDIR || kind == S_IFREG,
        mode & S_IFMT == 0,
    ensures
        (kind | crate::modes::masked(mode, umask)) & S_IFMT == kind,
        (kind | crate::modes::masked(mode, umask)) & 0o7777 == mode & 0o7777 & !umask,
{
    assert((0o040000u32 | (mode & !umask)) & 0o170000 == 0o040000u32 && (0o100000u32 | (mode
        & !umask)) & 0o170000 == 0o100000u32 && (0o040000u32 | (mode & !umask)) & 0o7777 == mode
        & 0o7777 & !umask && (0o100000u32 | (mode & !umask)) & 0o7777 == mode & 0o7777 & !umask)
        by (bit_vector)
        requires
            mode & 0o170000 == 0,
    ;
}

/// Whether a request changed neither what is committed nor the open handles.
pub open spec fn stays_inside<FS: WinterFs>(
    handler: WinterFsHandler<FS>,
    context: FS::Context,
    handler_after: WinterFsHandler<FS>,
    context_after: FS::Context,
) -> bool {
    &&& context_after.committed() == context.committed()
    &&& handler_after.open_handles() == handler.open_handles()
}

/// Whether making something under a name was refused for a reason: the name is
/// no text, it is taken, or the storage failed.
pub open spec fn refused_to_make<FS: WinterFs>(
    before: FsState,
    parent: u64,
    name: Seq<u8>,
    e: Error,
) -> bool {
    match crate::text::text_of(name) {
        None => e@.kind() == ErrorKind::InvalidInput,
        Some(text) => crate::handler::is_fault::<FS>(e@) || before.links.contains_key(
            (parent, text),
        ) && e@.kind() == ErrorKind::AlreadyExists,
    }
}

/// Whether a directory was made as it was asked for.
pub open spec fn makes_directory<FS: WinterFs>(
    before: FsState,
    uid: u32,
    gid: u32,
    parent: u64,
    name: Seq<u8>,
    mode: u32,
    umask: u32,
    after: FsState,
    r: Result<Entry, Error>,
) -> bool {
    match r {
        Ok(entry) => {
            let attrs = after.inodes[entry.inode];
            &&& crate::text::text_of(name) matches Some(text) && adds_one_file(
                before,
                parent,
                text,
                entry.inode,
                after,
            )
            &&& attrs.st_mode & S_IFMT == S_IFDIR
            &&& attrs.st_mode & 0o7777 == mode & 0o7777 & !umask
            &&& attrs.st_uid == uid && attrs.st_gid == gid
            &&& entry.attr.st_mode == attrs.st_mode && entry.attr.st_uid == uid
                && entry.attr.st_gid == gid
        },
        Err(e) => refused_to_make::<FS>(before, parent, name, e),
    }
}

/// Making a directory adds an empty directory of the permissions that were asked
/// for, but for those that the mask takes away, and of that owner. It is refused
/// only if the name is taken, no text, or the storage fails.
pub proof fn mkdir_makes_a_directory<FS: WinterFs>(
    uid: u32,
    gid: u32,
    parent: u64,
    name: &[u8],
    mode: u32,
    umask: u32,
)
    requires
        mode & S_IFMT == 0,
    ensures
        forall|
            handler: &mut WinterFsHandler<FS>,
            context: &mut FS::Context,
            r: Result<Entry, Error>,
        | #[trigger] call_ensures(
            WinterFsHandler::<FS>::mkdir,
            (handler, context, uid, gid, parent, name, mode, umask),
            r,
        ) ==> stays_inside(*handler, *context, *final(handler), *final(context))
            && makes_directory::<FS>(
            context.state(),
            uid,
            gid,
            parent,
            name@,
            mode,
            umask,
            final(context).state(),
            r,
        ),
{
    assert forall|
        handler: &mut WinterFsHandler<FS>,
        context: &mut FS::Context,
        r: Result<Entry, Error>,
    | #[trigger] call_ensures(
        WinterFsHandler::<FS>::mkdir,
        (handler, context, uid, gid, parent, name, mode, umask),
        r,
    ) implies stays_inside(*handler, *context, *final(handler), *final(context))
            && makes_directory::<FS>(
            context.state(),
            uid,
            gid,
            parent,
            name@,
            mode,
            umask,
            final(context).state(),
            r,
        ) by {
        if let Ok(entry) = r {
            lemma_made(
                context.state(),
                parent,
                crate::text::text_of(name@)->0,
                S_IFDIR | crate::modes::masked(mode, umask),
                uid,
                gid,
                0,
                entry.inode,
                final(context).state(),
            );
            lemma_kind(S_IFDIR, mode, umask);
        }
    }
}

/// Whether a node was made as it was asked for.
pub open spec fn makes_node<FS: WinterFs>(
    before: FsState,
    uid: u32,
    gid: u32,
    parent: u64,
    name: Seq<u8>,
    mode: u32,
    rdev: u32,
    umask: u32,
    after: FsState,
    r: Result<Entry, Error>,
) -> bool {
    match r {
        Ok(entry) => {
            let attrs = after.inodes[entry.inode];
            &&& crate::text::text_of(name) matches Some(text) && adds_one_file(
                before,
                parent,
                text,
                entry.inode,
                after,
            )
            &&& attrs.st_mode & umask == 0
            &&& attrs.st_mode | (mode & umask) == mode
            &&& attrs.st_uid == uid && attrs.st_gid == gid
            &&& attrs.st_rdev == rdev
            &&& attrs.st_size == 0
        },
        Err(e) => refused_to_make::<FS>(before, parent, name, e),
    }
}

/// Making a node adds one of the mode that was asked for, but for what the mask
/// takes away, of that device and that owner. It is refused only if the name is
/// taken, no text, or the storage fails.
pub proof fn mknod_makes_a_node<FS: WinterFs>(
    uid: u32,
    gid: u32,
    parent: u64,
    name: &[u8],
    mode: u32,
    rdev: u32,
    umask: u32,
)
    ensures
        forall|
            handler: &mut WinterFsHandler<FS>,
            context: &mut FS::Context,
            r: Result<Entry, Error>,
        | #[trigger] call_ensures(
            WinterFsHandler::<FS>::mknod,
            (handler, context, uid, gid, parent, name, mode, rdev, umask),
            r,
        ) ==> stays_inside(*handler, *context, *final(handler), *final(context)) && makes_node::<FS>(
            context.state(),
            uid,
            gid,
            parent,
            name@,
            mode,
            rdev,
            umask,
            final(context).state(),
            r,
        ),
{
    assert forall|
        handler: &mut WinterFsHandler<FS>,
        context: &mut FS::Context,
        r: Result<Entry, Error>,
    | #[trigger] call_ensures(
        WinterFsHandler::<FS>::mknod,
        (handler, context, uid, gid, parent, name, mode, rdev, umask),
        r,
    ) implies stays_inside(*handler, *context, *final(handler), *final(context)) && makes_node::<FS>(
            context.state(),
            uid,
            gid,
            parent,
            name@,
            mode,
            rdev,
            umask,
            final(context).state(),
            r,
        ) by {
        if let Ok(entry) = r {
            lemma_made(
                context.state(),
                parent,
                crate::text::text_of(name@)->0,
                crate::modes::masked(mode, umask),
                uid,
                gid,
                rdev as u64,
                entry.inode,
                final(context).state(),
            );
            crate::request_laws::mask_takes_permissions_away(mode, umask);
        }
    }
}

/// Whether a name was removed that leads to a directory without children, or to
/// something that is no directory, and nothing else changed.
pub open spec fn removes_name<FS: WinterFs>(
    before: FsState,
    parent: u64,
    name: Seq<u8>,
    directory: bool,
    after: FsState,
    r: Result<(), Error>,
) -> bool {
    r is Ok ==> {
        let text = crate::text::text_of(name)->0;
        let child = before.links[(parent, text)];
        &&& crate::text::text_of(name) is Some
        &&& before.links.contains_key((parent, text))
        &&& before.inodes[parent].st_mode & S_IFMT == S_IFDIR
        &&& (before.inodes[child].st_mode & S_IFMT == S_IFDIR) == directory
        &&& directory ==> forall|n: Seq<char>| !#[trigger] before.links.contains_key((child, n))
        &&& after.links == before.links.remove((parent, text))
        &&& after.inodes == before.inodes
        &&& after.xattrs == before.xattrs
        &&& after.bytes == before.bytes
    }
}

/// Unlinking takes one name out of a directory, which leads to something that is
/// no directory; the inode and every other name stay.
pub proof fn unlink_removes_one_name<FS: WinterFs>(
    parent: u64,
    name: &[u8],
)
    ensures
        forall|
            handler: &mut WinterFsHandler<FS>,
            context: &mut FS::Context,
            r: Result<(), Error>,
        | #[trigger] call_ensures(
            WinterFsHandler::<FS>::unlink,
            (handler, context, parent, name),
            r,
        ) ==> stays_inside(*handler, *context, *final(handler), *final(context)) && removes_name::<FS>(
            context.state(),
            parent,
            name@,
            false,
            final(context).state(),
            r,
        ) && final(handler).lookups() == handler.lookups(),
{
    assert forall|
        handler: &mut WinterFsHandler<FS>,
        context: &mut FS::Context,
        r: Result<(), Error>,
    | #[trigger] call_ensures(
        WinterFsHandler::<FS>::unlink,
        (handler, context, parent, name),
        r,
    ) implies stays_inside(*handler, *context, *final(handler), *final(context)) && removes_name::<FS>(
            context.state(),
            parent,
            name@,
            false,
            final(context).state(),
            r,
        ) && final(handler).lookups() == handler.lookups() by {
    }
}

/// Removing a directory takes its name out of the directory that it is in, and
/// only if no name is in it; every other name stays.
pub proof fn rmdir_removes_one_name<FS: WinterFs>(
    parent: u64,
    name: &[u8],
)
    ensures
        forall|
            handler: &mut WinterFsHandler<FS>,
            context: &mut FS::Context,
            r: Result<(), Error>,
        | #[trigger] call_ensures(
            WinterFsHandler::<FS>::rmdir,
            (handler, context, parent, name),
            r,
        ) ==> stays_inside(*handler, *context, *final(handler), *final(context)) && removes_name::<FS>(
            context.state(),
            parent,
            name@,
            true,
            final(context).state(),
            r,
        ) && final(handler).lookups() == handler.lookups(),
{
    assert forall|
        handler: &mut WinterFsHandler<FS>,
        context: &mut FS::Context,
        r: Result<(), Error>,
    | #[trigger] call_ensures(
        WinterFsHandler::<FS>::rmdir,
        (handler, context, parent, name),
        r,
    ) implies stays_inside(*handler, *context, *final(handler), *final(context)) && removes_name::<FS>(
            context.state(),
            parent,
            name@,
            true,
            final(context).state(),
            r,
        ) && final(handler).lookups() == handler.lookups() by {
    }
}

/// Whether an entry was moved, or exchanged with another, as the flags say.
pub open spec fn renames<FS: WinterFs>(
    before: FsState,
    olddir: u64,
    oldname: Seq<u8>,
    newdir: u64,
    newname: Seq<u8>,
    flags: u32,
    after: FsState,
    r: Result<(), Error>,
) -> bool {
    r is Ok ==> {
        let source = (olddir, crate::text::text_of(oldname)->0);
        let target = (newdir, crate::text::text_of(newname)->0);
        &&& crate::text::text_of(oldname) is Some && crate::text::text_of(newname) is Some
        &&& before.links.contains_key(source)
        &&& after.links.contains_key(target) && after.links[target] == before.links[source]
        &&& flags == RENAME_NOREPLACE ==> before.child(target.0, target.1) == 0
        &&& flags == RENAME_EXCHANGE ==> after.links.contains_key(source) && after.links[source]
            == before.links[target] && before.links.contains_key(target)
        &&& flags != RENAME_EXCHANGE && source != target ==> !after.links.contains_key(source)
        &&& forall|l: (u64, Seq<char>)|
            l != source && l != target ==> (#[trigger] after.links.contains_key(l)
                <==> before.links.contains_key(l)) && (before.links.contains_key(l)
                ==> after.links[l] == before.links[l])
        &&& after.inodes == before.inodes
        &&& after.xattrs == before.xattrs
        &&& after.bytes == before.bytes
    }
}

/// Renaming makes the new name lead to what the old one led to. The old one leads
/// nowhere afterwards, or to what the new one led to if the two are exchanged.
/// Every other name, and every inode, stays.
pub proof fn rename_moves_or_exchanges<FS: WinterFs>(
    olddir: u64,
    oldname: &[u8],
    newdir: u64,
    newname: &[u8],
    flags: u32,
)
    ensures
        forall|
            handler: &mut WinterFsHandler<FS>,
            context: &mut FS::Context,
            r: Result<(), Error>,
        | #[trigger] call_ensures(
            WinterFsHandler::<FS>::rename,
            (handler, context, olddir, oldname, newdir, newname, flags),
            r,
        ) ==> stays_inside(*handler, *context, *final(handler), *final(context)) && renames::<FS>(
            context.state(),
            olddir,
            oldname@,
            newdir,
            newname@,
            flags,
            final(context).state(),
            r,
        ),
{
    assert forall|
        handler: &mut WinterFsHandler<FS>,
        context: &mut FS::Context,
        r: Result<(), Error>,
    | #[trigger] call_ensures(
        WinterFsHandler::<FS>::rename,
        (handler, context, olddir, oldname, newdir, newname, flags),
        r,
    ) implies stays_inside(*handler, *context, *final(handler), *final(context)) && renames::<FS>(
            context.state(),
            olddir,
            oldname@,
            newdir,
            newname@,
            flags,
            final(context).state(),
            r,
        ) by {
    }
}

/// Whether a second name was given to a file, and nothing else changed.
pub open spec fn links<FS: WinterFs>(
    before: FsState,
    inode: u64,
    parent: u64,
    name: Seq<u8>,
    after: FsState,
    r: Result<Entry, Error>,
) -> bool {
    r matches Ok(entry) ==> {
        let text = crate::text::text_of(name)->0;
        &&& crate::text::text_of(name) is Some
        &&& before.child(parent, text) == 0
        &&& before.inodes[parent].st_mode & S_IFMT == S_IFDIR
        &&& before.inodes[inode].st_mode & S_IFMT != S_IFDIR
        &&& after.links == before.links.insert((parent, text), inode)
        &&& after.inodes == before.inodes
        &&& after.xattrs == before.xattrs
        &&& after.bytes == before.bytes
        &&& entry.attr.st_mode == before.inodes[inode].st_mode
        &&& entry.attr.st_size == before.inodes[inode].st_size
    }
}

/// Linking gives a file that is no directory a second name, which was free, and
/// changes nothing else; the file's entry counts as one more reference.
pub proof fn link_adds_one_name<FS: WinterFs>(
    inode: u64,
    newparent: u64,
    newname: &[u8],
)
    ensures
        forall|
            handler: &mut WinterFsHandler<FS>,
            context: &mut FS::Context,
            r: Result<Entry, Error>,
        | #[trigger] call_ensures(
            WinterFsHandler::<FS>::link,
            (handler, context, inode, newparent, newname),
            r,
        ) ==> stays_inside(*handler, *context, *final(handler), *final(context)) && links::<FS>(
            context.state(),
            inode,
            newparent,
            newname@,
            final(context).state(),
            r,
        ) && (r is Ok ==> final(handler).lookups() == crate::handler::raised(
            handler.lookups(),
            inode,
            1,
        )),
{
    assert forall|
        handler: &mut WinterFsHandler<FS>,
        context: &mut FS::Context,
        r: Result<Entry, Error>,
    | #[trigger] call_ensures(
        WinterFsHandler::<FS>::link,
        (handler, context, inode, newparent, newname),
        r,
    ) implies stays_inside(*handler, *context, *final(handler), *final(context)) && links::<FS>(
            context.state(),
            inode,
            newparent,
            newname@,
            final(context).state(),
            r,
        ) && (r is Ok ==> final(handler).lookups() == crate::handler::raised(
            handler.lookups(),
            inode,
            1,
        )) by {
    }
}

/// Whether a lookup shows what a name leads to.
pub open spec fn looks_up<FS: WinterFs>(
    handler: WinterFsHandler<FS>,
    before: FsState,
    parent: u64,
    name: Seq<u8>,
    handler_after: WinterFsHandler<FS>,
    after: FsState,
    r: Result<Entry, Error>,
) -> bool {
    match (r, crate::text::text_of(name)) {
        (Ok(entry), Some(text)) => {
            let id = before.child(parent, text);
            &&& after == before
            &&& id != 0 ==> {
                &&& entry.attr.st_ino == before.inodes[id].st_ino
                &&& entry.attr.st_mode == before.inodes[id].st_mode
                &&& entry.attr.st_size == before.inodes[id].st_size
                &&& handler_after.lookups().contains_key(id)
            }
            &&& id == 0 ==> entry.inode == 0 && handler_after.lookups() == handler.lookups()
        },
        (Ok(_), None) => false,
        (Err(e), Some(_)) => crate::handler::is_fault::<FS>(e@),
        (Err(e), None) => e@.kind() == ErrorKind::InvalidInput,
    }
}

/// Looking a name up shows the file that it leads to in that directory, which
/// counts as one more reference to it, and an entry without an inode if it leads
/// nowhere. Nothing changes in the tree.
pub proof fn lookup_shows_what_the_name_leads_to<FS: WinterFs>(
    parent: u64,
    name: &[u8],
)
    ensures
        forall|
            handler: &mut WinterFsHandler<FS>,
            context: &mut FS::Context,
            r: Result<Entry, Error>,
        | #[trigger] call_ensures(
            WinterFsHandler::<FS>::lookup,
            (handler, context, parent, name),
            r,
        ) ==> looks_up::<FS>(
            *handler,
            context.state(),
            parent,
            name@,
            *final(handler),
            final(context).state(),
            r,
        ),
{
    assert forall|
        handler: &mut WinterFsHandler<FS>,
        context: &mut FS::Context,
        r: Result<Entry, Error>,
    | #[trigger] call_ensures(
        WinterFsHandler::<FS>::lookup,
        (handler, context, parent, name),
        r,
    ) implies looks_up::<FS>(
            *handler,
            context.state(),
            parent,
            name@,
            *final(handler),
            final(context).state(),
            r,
        ) by {
    }
}

/// Whether the attributes that are shown are those of the inode.
pub open spec fn shows_attributes<FS: WinterFs>(
    handler: WinterFsHandler<FS>,
    before: FsState,
    inode: u64,
    handle: Option<u64>,
    after: FsState,
    r: Result<(Stat, Validity), Error>,
) -> bool {
    r matches Ok((attr, _)) ==> {
        let id = match handle {
            Some(h) if h != 0 => handler.open_handles()[h].attrs().st_ino,
            _ => inode,
        };
        let attrs = before.inodes[id];
        &&& before.inodes.contains_key(id)
        &&& after == before
        &&& attr.st_ino == attrs.st_ino && attr.st_mode == attrs.st_mode && attr.st_uid
            == attrs.st_uid && attr.st_gid == attrs.st_gid && attr.st_rdev == attrs.st_rdev
            && attr.st_size == attrs.st_size
        &&& attr.st_atime == attrs.st_atime && attr.st_atime_nsec == attrs.st_atime_nsec
        &&& attr.st_mtime == attrs.st_mtime && attr.st_mtime_nsec == attrs.st_mtime_nsec
        &&& attr.st_ctime == attrs.st_ctime && attr.st_ctime_nsec == attrs.st_ctime_nsec
    }
}

/// Getting attributes shows those of the inode of the handle that is named, and
/// of the inode that is named if no handle is.
pub proof fn getattr_shows_the_attributes<FS: WinterFs>(
    inode: u64,
    handle: Option<u64>,
)
    ensures
        forall|
            handler: &mut WinterFsHandler<FS>,
            context: &mut FS::Context,
            r: Result<(Stat, Validity), Error>,
        | #[trigger] call_ensures(
            WinterFsHandler::<FS>::getattr,
            (handler, context, inode, handle),
            r,
        ) ==> shows_attributes::<FS>(
            *handler,
            context.state(),
            inode,
            handle,
            final(context).state(),
            r,
        ),
{
    assert forall|
        handler: &mut WinterFsHandler<FS>,
        context: &mut FS::Context,
        r: Result<(Stat, Validity), Error>,
    | #[trigger] call_ensures(
        WinterFsHandler::<FS>::getattr,
        (handler, context, inode, handle),
        r,
    ) implies shows_attributes::<FS>(
            *handler,
            context.state(),
            inode,
            handle,
            final(context).state(),
            r,
        ) by {
    }
}

/// Whether exactly those attributes that a request holds were set, and are shown.
pub open spec fn sets_attributes<FS: WinterFs>(
    handler: WinterFsHandler<FS>,
    before: FsState,
    inode: u64,
    attr: Stat,
    handle: Option<u64>,
    valid: u32,
    after: FsState,
    r: Result<(Stat, Validity), Error>,
) -> bool {
    let id = match handle {
        Some(h) if h != 0 => handler.open_handles()[h].attrs().st_ino,
        _ => inode,
    };
    let old = before.inodes[id];
    let new = after.inodes[id];
    r is Ok && before.inodes.contains_key(id) && old.st_ino == id ==> {
        &&& new.st_mode == if valid & SETATTR_MODE == SETATTR_MODE {
            attr.st_mode
        } else {
            old.st_mode
        }
        &&& new.st_uid == if valid & SETATTR_UID == SETATTR_UID {
            attr.st_uid
        } else {
            old.st_uid
        }
        &&& new.st_gid == if valid & SETATTR_GID == SETATTR_GID {
            attr.st_gid
        } else {
            old.st_gid
        }
        &&& valid & SETATTR_SIZE != SETATTR_SIZE ==> new.st_size == old.st_size
        &&& valid & SETATTR_SIZE == SETATTR_SIZE && (handle is None || handle == Some(0u64))
            ==> new.st_size == attr.st_size
        &&& valid & SETATTR_ATIME == SETATTR_ATIME ==> new.st_atime == attr.st_atime
        &&& valid & SETATTR_MTIME == SETATTR_MTIME ==> new.st_mtime == attr.st_mtime
        &&& valid & SETATTR_CTIME == SETATTR_CTIME ==> new.st_ctime == attr.st_ctime
        &&& valid & SETATTR_ATIME != SETATTR_ATIME && valid & SETATTR_ATIME_NOW
            != SETATTR_ATIME_NOW ==> new.st_atime == old.st_atime && new.st_atime_nsec
            == old.st_atime_nsec
        &&& valid & SETATTR_MTIME != SETATTR_MTIME && valid & SETATTR_MTIME_NOW
            != SETATTR_MTIME_NOW ==> new.st_mtime == old.st_mtime && new.st_mtime_nsec
            == old.st_mtime_nsec
        &&& valid & SETATTR_CTIME != SETATTR_CTIME ==> new.st_ctime == old.st_ctime
            && new.st_ctime_nsec == old.st_ctime_nsec
        &&& new.st_rdev == old.st_rdev
        &&& after.links == before.links
        &&& after.xattrs == before.xattrs
        &&& (r->Ok_0).0.st_mode == new.st_mode && (r->Ok_0).0.st_uid == new.st_uid && (r->Ok_0).0.st_gid
            == new.st_gid && (r->Ok_0).0.st_size == new.st_size
    }
}

/// Setting attributes sets each attribute that the request holds, on its own, to
/// what the request says, and keeps every other one; what is shown is what was
/// set.
pub proof fn setattr_sets_what_the_request_holds<FS: WinterFs>(
    inode: u64,
    attr: &Stat,
    handle: Option<u64>,
    valid: u32,
)
    ensures
        forall|
            handler: &mut WinterFsHandler<FS>,
            context: &mut FS::Context,
            r: Result<(Stat, Validity), Error>,
        | #[trigger] call_ensures(
            WinterFsHandler::<FS>::setattr,
            (handler, context, inode, attr, handle, valid),
            r,
        ) ==> sets_attributes::<FS>(
            *handler,
            context.state(),
            inode,
            *attr,
            handle,
            valid,
            final(context).state(),
            r,
        ),
{
    assert forall|
        handler: &mut WinterFsHandler<FS>,
        context: &mut FS::Context,
        r: Result<(Stat, Validity), Error>,
    | #[trigger] call_ensures(
        WinterFsHandler::<FS>::setattr,
        (handler, context, inode, attr, handle, valid),
        r,
    ) implies sets_attributes::<FS>(
            *handler,
            context.state(),
            inode,
            *attr,
            handle,
            valid,
            final(context).state(),
            r,
        ) by {
        if r is Ok {
            let before = context.state();
            let after_handler = *final(handler);
            let old_handler = *handler;
            let state = final(context).state();
            let (h, after, a, m) = choose|
                h: FS::Handle,
                after: FS::Handle,
                a: (i64, u32),
                m: (i64, u32),
            |
                {
                    let id = h.attrs().st_ino;
                    let entry = crate::handler::entry_of(
                        old_handler.storage(),
                        state,
                        state.inodes[id],
                    );
                    &&& #[trigger] old_handler.uses(before, inode, handle, 0, h)
                    &&& #[trigger] after_handler.used(&old_handler, handle, after)
                    &&& (after.attrs(), state) == #[trigger] crate::handler::attrs_set(
                        (h.attrs(), before),
                        valid,
                        *attr,
                        a,
                        m,
                    )
                    &&& (r->Ok_0).0 == entry.attr
                };
            let id = h.attrs().st_ino;
            if before.inodes.contains_key(id) && before.inodes[id].st_ino == id {
                crate::request_laws::setattr_sets_exactly_what_is_asked(
                    h.attrs(),
                    before,
                    valid,
                    *attr,
                    a,
                    m,
                );
            }
        }
    }
}

/// Whether a file was opened under a name: the one that is there, or a new one of
/// the permissions that were asked for.
pub open spec fn creates<FS: WinterFs>(
    before: FsState,
    uid: u32,
    gid: u32,
    parent: u64,
    name: Seq<u8>,
    args: CreateArgs,
    handler_after: WinterFsHandler<FS>,
    after: FsState,
    r: Result<(Entry, u64), Error>,
) -> bool {
    r matches Ok((entry, handle)) ==> {
        let text = crate::text::text_of(name)->0;
        let existing = before.child(parent, text);
        let attrs = after.inodes[entry.inode];
        &&& crate::text::text_of(name) is Some
        &&& handler_after.open_handles().contains_key(handle)
        &&& handler_after.open_handles()[handle].attrs().st_ino == entry.inode
        &&& after.child(parent, text) == entry.inode
        &&& existing != 0 ==> {
            &&& entry.inode == existing
            &&& args.flags & O_EXCL == 0
            &&& after.links == before.links
            &&& args.flags & O_TRUNC == 0 ==> after == before
        }
        &&& existing == 0 ==> {
            &&& !before.inodes.contains_key(entry.inode)
            &&& attrs.st_mode & S_IFMT == S_IFREG
            &&& attrs.st_mode & 0o7777 == args.mode & 0o7777 & !args.umask
            &&& attrs.st_uid == uid && attrs.st_gid == gid
            &&& attrs.st_size == 0
        }
        &&& args.flags & O_TRUNC != 0 ==> attrs.st_size == 0 && forall|p: int|
            p >= 0 ==> #[trigger] after.byte(entry.inode, p) == 0
        &&& after.xattrs == before.xattrs
    }
}

/// Creating a file opens what is under the name, unless it has to be new, or adds
/// a regular file there of the permissions and the owner that were asked for. It
/// is emptied if that is asked for.
pub proof fn create_opens_or_makes_a_file<FS: WinterFs>(
    uid: u32,
    gid: u32,
    parent: u64,
    name: &[u8],
    args: CreateArgs,
)
    requires
        args.mode & S_IFMT == 0,
    ensures
        forall|
            handler: &mut WinterFsHandler<FS>,
            context: &mut FS::Context,
            r: Result<(Entry, u64), Error>,
        | #[trigger] call_ensures(
            WinterFsHandler::<FS>::create,
            (handler, context, uid, gid, parent, name, args),
            r,
        ) ==> creates::<FS>(
            context.state(),
            uid,
            gid,
            parent,
            name@,
            args,
            *final(handler),
            final(context).state(),
            r,
        ),
{
    assert forall|
        handler: &mut WinterFsHandler<FS>,
        context: &mut FS::Context,
        r: Result<(Entry, u64), Error>,
    | #[trigger] call_ensures(
        WinterFsHandler::<FS>::create,
        (handler, context, uid, gid, parent, name, args),
        r,
    ) implies creates::<FS>(
            context.state(),
            uid,
            gid,
            parent,
            name@,
            args,
            *final(handler),
            final(context).state(),
            r,
        ) by {
        if let Ok((entry, handle)) = r {
            let before = context.state();
            let after = final(context).state();
            let text = crate::text::text_of(name@)->0;
            let id = entry.inode;
            let mode = S_IFREG | crate::modes::masked(args.mode, args.umask);
            let middle = choose|middle: FsState|
                {
                    &&& #[trigger] crate::handler::found_or_made(
                        before,
                        parent,
                        text,
                        mode,
                        uid,
                        gid,
                        id,
                        middle,
                    )
                    &&& middle.inodes.contains_key(id)
                    &&& after == crate::handler::truncated_if(middle, id, args.flags)
                };
            lemma_kind(S_IFREG, args.mode, args.umask);
            crate::request_laws::open_empties_only_where_asked(middle, id, args.flags);
            if before.child(parent, text) == 0 {
                lemma_made(before, parent, text, mode, uid, gid, 0, id, middle);
            }
        }
    }
}

/// Whether a symbolic link with this path was made.
pub open spec fn makes_symlink<FS: WinterFs>(
    before: FsState,
    uid: u32,
    gid: u32,
    path: Seq<u8>,
    parent: u64,
    name: Seq<u8>,
    after: FsState,
    r: Result<Entry, Error>,
) -> bool {
    r matches Ok(entry) ==> {
        let text = crate::text::text_of(name)->0;
        let attrs = after.inodes[entry.inode];
        &&& crate::text::text_of(name) is Some
        &&& before.child(parent, text) == 0
        &&& after.child(parent, text) == entry.inode
        &&& attrs.st_mode & S_IFMT == S_IFLNK
        &&& attrs.st_uid == uid && attrs.st_gid == gid
        &&& attrs.st_size == path.len()
        &&& after.content(entry.inode, 0, path.len()) == path
    }
}

/// Making a symbolic link adds one that belongs to whom it was made for, and
/// whose content is the path that was asked for.
pub proof fn symlink_stores_its_path<FS: WinterFs>(
    uid: u32,
    gid: u32,
    linkname: &Vec<u8>,
    parent: u64,
    name: &[u8],
)
    requires
        linkname@.len() <= i64::MAX,
        linkname@.len() <= usize::MAX,
    ensures
        forall|
            handler: &mut WinterFsHandler<FS>,
            context: &mut FS::Context,
            r: Result<Entry, Error>,
        | #[trigger] call_ensures(
            WinterFsHandler::<FS>::symlink,
            (handler, context, uid, gid, linkname, parent, name),
            r,
        ) ==> makes_symlink::<FS>(
            context.state(),
            uid,
            gid,
            linkname@,
            parent,
            name@,
            final(context).state(),
            r,
        ),
{
    assert forall|
        handler: &mut WinterFsHandler<FS>,
        context: &mut FS::Context,
        r: Result<Entry, Error>,
    | #[trigger] call_ensures(
        WinterFsHandler::<FS>::symlink,
        (handler, context, uid, gid, linkname, parent, name),
        r,
    ) implies makes_symlink::<FS>(
            context.state(),
            uid,
            gid,
            linkname@,
            parent,
            name@,
            final(context).state(),
            r,
        ) by {
        if let Ok(entry) = r {
            let after = final(context).state();
            crate::request_laws::symbolic_link_is_as_asked(
                context.state(),
                parent,
                crate::text::text_of(name@)->0,
                uid,
                gid,
                linkname@,
                entry.inode,
                after,
            );
            assert(after.content(entry.inode, 0, linkname@.len()) =~= linkname@);
        }
    }
}

/// Whether references were dropped, and with the last one what nothing leads to.
pub open spec fn forgets<FS: WinterFs>(
    counts: Map<u64, u64>,
    before: FsState,
    inode: u64,
    count: u64,
    counts_after: Map<u64, u64>,
    after: FsState,
    r: Result<(), Error>,
) -> bool {
    let held = if counts.contains_key(inode) {
        counts[inode] as int
    } else {
        0
    };
    &&& counts_after.contains_key(inode) <==> held > count
    &&& held > count ==> counts_after[inode] == held - count
    &&& counts_after.remove(inode) == counts.remove(inode)
    &&& r is Ok ==> {
        let unused = counts.contains_key(inode) && held <= count && forall|l: (u64, Seq<char>)| #[trigger]
            before.links.contains_key(l) ==> before.links[l] != inode;
        &&& unused ==> !after.inodes.contains_key(inode)
        &&& !unused ==> after == before
        &&& forall|i: u64|
            i != inode ==> (#[trigger] after.inodes.contains_key(i)
                <==> before.inodes.contains_key(i)) && (before.inodes.contains_key(i)
                ==> after.inodes[i] == before.inodes[i])
    }
    &&& held > count ==> r is Ok
}

/// Forgetting drops as many references to an inode as it says, and deletes the
/// inode exactly if none is left and no name leads to it. No other inode, and no
/// other count, changes.
pub proof fn forget_drops_references<FS: WinterFs>(
    inode: u64,
    count: u64,
)
    ensures
        forall|
            handler: &mut WinterFsHandler<FS>,
            context: &mut FS::Context,
            r: Result<(), Error>,
        | #[trigger] call_ensures(
            WinterFsHandler::<FS>::forget,
            (handler, context, inode, count),
            r,
        ) ==> forgets::<FS>(
            handler.lookups(),
            context.state(),
            inode,
            count,
            final(handler).lookups(),
            final(context).state(),
            r,
        ),
{
    assert forall|
        handler: &mut WinterFsHandler<FS>,
        context: &mut FS::Context,
        r: Result<(), Error>,
    | #[trigger] call_ensures(
        WinterFsHandler::<FS>::forget,
        (handler, context, inode, count),
        r,
    ) implies forgets::<FS>(
            handler.lookups(),
            context.state(),
            inode,
            count,
            final(handler).lookups(),
            final(context).state(),
            r,
        ) by {
        let counts = handler.lookups();
        let state = context.state();
        assert(crate::handler::lowered(counts, inode, count).remove(inode) =~= counts.remove(inode));
        if state.links_to(inode).is_empty() {
            assert forall|l: (u64, Seq<char>)| #[trigger] state.links.contains_key(
                l,
            ) implies state.links[l] != inode by {
                assert(!state.links_to(inode).contains(l));
            }
        } else {
            let l = choose|l: (u64, Seq<char>)| state.links_to(inode).contains(l);
            assert(state.links_to(inode).contains(l)) by {
                if forall|l: (u64, Seq<char>)| !state.links_to(inode).contains(l) {
                    assert(state.links_to(inode) =~= Set::empty());
                }
            }
            assert(state.links.contains_key(l));
        }
    }
}

/// A read through the handle that a write went through gives back what was
/// written, from the start of it on and as much of it as is asked for.
pub proof fn read_gives_back_what_write_wrote<FS: WinterFs>(
    inode: u64,
    handle: u64,
    data: &Vec<u8>,
    size: u32,
    offset: u64,
    flags: u32,
)
    requires
        handle != 0,
        flags & O_APPEND == 0,
        offset + size <= i64::MAX,
        size <= usize::MAX,
    ensures
        forall|
            handler: &mut WinterFsHandler<FS>,
            context: &mut FS::Context,
            n: usize,
            reader: &mut WinterFsHandler<FS>,
            later: &mut FS::Context,
            w: &mut Vec<u8>,
            m: usize,
        |
            {
                &&& #[trigger] call_ensures(
                    WinterFsHandler::<FS>::write,
                    (handler, context, inode, handle, data, size, offset, flags),
                    Ok(n),
                )
                &&& *reader == *final(handler)
                &&& *later == *final(context)
                &&& #[trigger] call_ensures(
                    WinterFsHandler::<FS>::read,
                    (reader, later, inode, handle, w, size, offset),
                    Ok(m),
                )
            } ==> n == data@.len() && m == n && final(w)@ == w@ + data@,
{
    assert forall|
        handler: &mut WinterFsHandler<FS>,
        context: &mut FS::Context,
        n: usize,
        reader: &mut WinterFsHandler<FS>,
        later: &mut FS::Context,
        w: &mut Vec<u8>,
        m: usize,
    |
        {
            &&& #[trigger] call_ensures(
                WinterFsHandler::<FS>::write,
                (handler, context, inode, handle, data, size, offset, flags),
                Ok(n),
            )
            &&& *reader == *final(handler)
            &&& *later == *final(context)
            &&& #[trigger] call_ensures(
                WinterFsHandler::<FS>::read,
                (reader, later, inode, handle, w, size, offset),
                Ok(m),
            )
        } implies n == data@.len() && m == n && final(w)@ == w@ + data@ by {
        let first = *handler;
        let second = *final(handler);
        let third = *final(reader);
        let before = context.state();
        let after = final(context).state();
        let (h, kept) = choose|h: FS::Handle, kept: FS::Handle|
            {
                &&& #[trigger] first.uses(
                    before,
                    inode,
                    Some(handle),
                    crate::modes::O_WRONLY,
                    h,
                )
                &&& #[trigger] second.used(&first, Some(handle), kept)
                &&& n == size
                &&& crate::winter::written(
                    h.attrs(),
                    before,
                    offset as i64,
                    data@,
                    kept.attrs(),
                    after,
                )
            };
        let (g, last) = choose|g: FS::Handle, last: FS::Handle|
            {
                let bytes = crate::winter::read_from(
                    after,
                    g.attrs(),
                    size as usize,
                    offset as i64,
                );
                &&& #[trigger] second.uses(after, inode, Some(handle), crate::modes::O_RDONLY, g)
                &&& final(w)@ == w@ + bytes
                &&& m == bytes.len()
                &&& #[trigger] third.used(&second, Some(handle), last)
            };
        assert(g == kept);
        let bytes = crate::winter::read_from(after, g.attrs(), size as usize, offset as i64);
        assert(bytes =~= data@);
    }
}

/// Getting an extended attribute that was set gives its value, if there is room
/// for it, unless the storage answers for the key itself.
pub proof fn getxattr_gives_back_what_setxattr_set<FS: WinterFs>(
    inode: u64,
    name: &[u8],
    value: &[u8],
    flags: u32,
    size: u32,
)
    requires
        size > 0,
        value@.len() <= size,
        crate::text::text_of(name@) is Some,
        !<FS::Handle as WinterHandle>::answers(crate::text::text_of(name@)->0),
    ensures
        forall|
            handler: &mut WinterFsHandler<FS>,
            context: &mut FS::Context,
            reader: &mut WinterFsHandler<FS>,
            later: &mut FS::Context,
            r: Result<GetxattrReply, Error>,
        |
            {
                &&& #[trigger] call_ensures(
                    WinterFsHandler::<FS>::setxattr,
                    (handler, context, inode, name, value, flags),
                    Ok(()),
                )
                &&& *reader == *final(handler)
                &&& *later == *final(context)
                &&& #[trigger] call_ensures(
                    WinterFsHandler::<FS>::getxattr,
                    (reader, later, inode, name, size),
                    r,
                )
            } ==> match r {
                Ok(GetxattrReply::Value(v)) => v@ == value@,
                Ok(GetxattrReply::Count(_)) => false,
                Err(e) => crate::handler::is_fault::<FS>(e@),
            },
{
    assert forall|
        handler: &mut WinterFsHandler<FS>,
        context: &mut FS::Context,
        reader: &mut WinterFsHandler<FS>,
        later: &mut FS::Context,
        r: Result<GetxattrReply, Error>,
    |
        {
            &&& #[trigger] call_ensures(
                WinterFsHandler::<FS>::setxattr,
                (handler, context, inode, name, value, flags),
                Ok(()),
            )
            &&& *reader == *final(handler)
            &&& *later == *final(context)
            &&& #[trigger] call_ensures(
                WinterFsHandler::<FS>::getxattr,
                (reader, later, inode, name, size),
                r,
            )
        } implies match r {
        Ok(GetxattrReply::Value(v)) => v@ == value@,
        Ok(GetxattrReply::Count(_)) => false,
        Err(e) => crate::handler::is_fault::<FS>(e@),
    } by {
        let second = *final(handler);
        let after = final(context).state();
        let key = crate::text::text_of(name@)->0;
        assert forall|h: FS::Handle| #[trigger]
            second.uses(
                after,
                inode,
                None,
                crate::modes::O_RDONLY,
                h,
            ) implies crate::winter::xattr_value(h, after, key) == Some(value@) by {}
    }
}

/// An extended attribute that was removed is not found, unless the storage
/// answers for the key itself.
pub proof fn getxattr_does_not_find_what_was_removed<FS: WinterFs>(
    inode: u64,
    name: &[u8],
    size: u32,
)
    requires
        crate::text::text_of(name@) is Some,
        !<FS::Handle as WinterHandle>::answers(crate::text::text_of(name@)->0),
    ensures
        forall|
            handler: &mut WinterFsHandler<FS>,
            context: &mut FS::Context,
            reader: &mut WinterFsHandler<FS>,
            later: &mut FS::Context,
            r: Result<GetxattrReply, Error>,
        |
            {
                &&& #[trigger] call_ensures(
                    WinterFsHandler::<FS>::removexattr,
                    (handler, context, inode, name),
                    Ok(()),
                )
                &&& *reader == *final(handler)
                &&& *later == *final(context)
                &&& #[trigger] call_ensures(
                    WinterFsHandler::<FS>::getxattr,
                    (reader, later, inode, name, size),
                    r,
                )
            } ==> (r matches Err(e) && (crate::handler::is_fault::<FS>(e@) || e@
                == crate::error::os(crate::error::ENODATA))),
{
    assert forall|
        handler: &mut WinterFsHandler<FS>,
        context: &mut FS::Context,
        reader: &mut WinterFsHandler<FS>,
        later: &mut FS::Context,
        r: Result<GetxattrReply, Error>,
    |
        {
            &&& #[trigger] call_ensures(
                WinterFsHandler::<FS>::removexattr,
                (handler, context, inode, name),
                Ok(()),
            )
            &&& *reader == *final(handler)
            &&& *later == *final(context)
            &&& #[trigger] call_ensures(
                WinterFsHandler::<FS>::getxattr,
                (reader, later, inode, name, size),
                r,
            )
        } implies (r matches Err(e) && (crate::handler::is_fault::<FS>(e@) || e@
        == crate::error::os(crate::error::ENODATA))) by {
        let second = *final(handler);
        let after = final(context).state();
        let key = crate::text::text_of(name@)->0;
        assert forall|h: FS::Handle| #[trigger]
            second.uses(
                after,
                inode,
                None,
                crate::modes::O_RDONLY,
                h,
            ) implies crate::winter::xattr_value(h, after, key) is None by {}
    }
}

} // verus!
