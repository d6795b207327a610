//! Operations on the content of a file that take more than one step in the
//! database: each is told what the last step gave, and says what to do next.

use vstd::prelude::*;
use crate::blocks::{BlockView, FloconContext, SourceView, WorkingBlock};
use crate::error::{Error, ErrorKind, ErrorView};
use crate::flocon::{FloconHandle, FloconTree};
use crate::sql::{SqlValue, SqlView, Statement, StatementView};
use crate::storage::{Overwrite, Resize};
use crate::winter::WinterInode;

verus! {

/// What to do in the database next.
pub enum Action {
    /// Carry out these statements, in their order.
    Run(Vec<Statement>),
    /// Find the rows that a statement asks for.
    Find(Statement),
    /// Load the data of the blocks with these identifiers.
    Load(Vec<u64>),
    /// Nothing: the operation is over.
    Finish,
}

/// The mathematical content of an [`Action`].
#[verifier::ext_equal]
pub enum ActionView {
    Run(Seq<StatementView>),
    Find(StatementView),
    Load(Seq<u64>),
    Finish,
}

impl View for Action {
    type V = ActionView;

    open spec fn view(&self) -> ActionView {
        match *self {
            Action::Run(statements) => ActionView::Run(crate::sql::statements(statements@)),
            Action::Find(statement) => ActionView::Find(statement@),
            Action::Load(ids) => ActionView::Load(ids@),
            Action::Finish => ActionView::Finish,
        }
    }
}

/// What the last step in the database gave.
pub enum Reply {
    /// There was none: the operation begins.
    Begin,
    /// The statements have been carried out.
    Done,
    /// The rows that were found.
    Rows(Vec<Vec<SqlValue>>),
    /// The data that was loaded.
    Data(FloconContext),
}

/// Whether a step fails with this error.
pub open spec fn fails<S>(r: Result<(S, Action), Error>, error: ErrorView) -> bool {
    r matches Err(e) && e@ == error
}

/// Whether a step ends in this state, with this to do next.
pub open spec fn goes<S>(r: Result<(S, Action), Error>, state: S, action: ActionView) -> bool {
    r matches Ok((s, a)) && s == state && a@ == action
}

/// The error for a reply to something that was not asked.
pub open spec fn unexpected() -> ErrorView {
    crate::error::message(ErrorKind::Other, "Unexpected reply")
}

fn unexpected_reply() -> (r: Error)
    ensures
        r@ == unexpected(),
{
    Error::new(ErrorKind::Other, "Unexpected reply")
}

/// The identifiers of the stored blocks out of which these blocks are read, or
/// only the new ones among them.
pub open spec fn data_ids(s: Seq<BlockView>, only_new: bool) -> Seq<u64>
    decreases s.len(),
{
    if s.len() == 0 {
        seq![]
    } else {
        let head = data_ids(s.drop_last(), only_new);
        match s.last().source {
            SourceView::Sqlite { block_id, .. } => if only_new && s.last().id is Some {
                head
            } else {
                head.push(block_id)
            },
            _ => head,
        }
    }
}

/// The identifiers of the stored blocks out of which these blocks are read, or
/// only the new ones among them.
fn find_data_ids(blocks: &Vec<WorkingBlock>, only_new: bool) -> (r: Vec<u64>)
    ensures
        r@ == data_ids(crate::blocks::views(blocks@), only_new),
{
    let ghost all = crate::blocks::views(blocks@);
    let mut ids: Vec<u64> = Vec::new();
    let mut i: usize = 0;
    while i < blocks.len()
        invariant
            i <= blocks.len(),
            all == crate::blocks::views(blocks@),
            ids@ == data_ids(all.take(i as int), only_new),
        decreases blocks.len() - i,
    {
        assert(all.take(i + 1).drop_last() =~= all.take(i as int));
        assert(all[i as int] == blocks[i as int]@);
        if !(only_new && blocks[i].id.is_some()) {
            if let Some(id) = blocks[i].source.stored_block() {
                ids.push(id);
            }
        }
        i = i + 1;
    }
    assert(all.take(i as int) =~= all);
    ids
}

/// An identifier among those of the first blocks is among those of all.
proof fn lemma_data_ids_grow(s: Seq<BlockView>, only_new: bool, i: int)
    requires
        0 <= i < s.len(),
        !only_new || s[i].id is None,
    ensures
        s[i].source matches SourceView::Sqlite { block_id, .. } ==> data_ids(
            s,
            only_new,
        ).contains(block_id),
    decreases s.len(),
{
    if let SourceView::Sqlite { block_id, .. } = s[i].source {
        let head = data_ids(s.drop_last(), only_new);
        let all = data_ids(s, only_new);
        if i == s.len() - 1 {
            assert(all[head.len() as int] == block_id);
        } else {
            lemma_data_ids_grow(s.drop_last(), only_new, i);
            let k = choose|k: int| 0 <= k < head.len() && head[k] == block_id;
            assert(all[k] == block_id);
        }
    }
}

/// The data that an operation asks for is enough: blocks that are whole in the
/// database are read the same out of what was loaded.
pub proof fn asked_data_is_enough(
    s: Seq<BlockView>,
    only_new: bool,
    stored: Map<u64, Seq<u8>>,
    loaded: Map<u64, Seq<u8>>,
)
    requires
        crate::content::all_wf(s, stored),
        forall|id: u64| #[trigger]
            data_ids(s, only_new).contains(id) && stored.contains_key(id) ==> loaded.contains_key(
                id,
            ) && loaded[id] == stored[id],
    ensures
        forall|i: int|
            0 <= i < s.len() && (!only_new || s[i].id is None) ==> (#[trigger] s[i]).source.reads(
                loaded,
            ) == s[i].source.reads(stored) && s[i].source.reads(loaded) is Ok,
{
    assert forall|i: int| 0 <= i < s.len() && (!only_new || s[i].id is None) implies (
    #[trigger] s[i]).source.reads(loaded) == s[i].source.reads(stored) && s[i].source.reads(
        loaded,
    ) is Ok by {
        lemma_data_ids_grow(s, only_new, i);
        assert(s.contains(s[i]));
        crate::content::complete_source_reads_its_size(s[i].source, stored);
    }
}

/// Reading a part of a file.
pub enum ReadFile {
    Start { size: usize, offset: i64 },
    Overlap { first: u64, last: u64 },
    Blobs { first: u64, last: u64, rows: Vec<Vec<SqlValue>> },
    Over { n: usize },
}

impl ReadFile {
    /// Whether the part to read lies in reach.
    pub open spec fn wf(self) -> bool {
        match self {
            ReadFile::Start { size, offset } => size <= isize::MAX && i64::MIN < offset + size
                <= i64::MAX,
            ReadFile::Overlap { first, last } => first <= last < i64::MAX && last - first
                < isize::MAX,
            ReadFile::Blobs { first, last, .. } => first <= last < i64::MAX && last - first
                < isize::MAX,
            ReadFile::Over { .. } => true,
        }
    }

    /// Takes the next step: the blocks that overlap with the part are found,
    /// their data is loaded, and the part of it that was asked for is appended
    /// to `w`.
    pub fn next(self, handle: &FloconHandle, reply: Reply, w: &mut Vec<u8>) -> (r: Result<
        (ReadFile, Action),
        Error,
    >)
        requires
            self.wf(),
        ensures
            r matches Ok((s, _)) ==> s.wf(),
            match (self, reply) {
                (ReadFile::Start { size, offset }, Reply::Begin) => {
                    &&& final(w)@ == old(w)@
                    &&& match crate::storage::window(handle.attrs().st_size, size as nat, offset) {
                        Ok(Some((first, last))) => if crate::sql::bindable(handle.attrs().st_ino) {
                            goes(
                                r,
                                ReadFile::Overlap { first, last },
                                ActionView::Find(
                                    crate::storage::overlapping_blocks_statement(
                                        handle.attrs().st_ino,
                                        first as i64,
                                        last as i64,
                                    ),
                                ),
                            )
                        } else {
                            fails(r, crate::sql::unbindable())
                        },
                        Ok(None) => goes(r, ReadFile::Over { n: 0 }, ActionView::Finish),
                        Err(error) => fails(r, error),
                    }
                },
                (ReadFile::Overlap { first, last }, Reply::Rows(rows)) => {
                    &&& final(w)@ == old(w)@
                    &&& match crate::storage::blocks_of_rows(crate::sql::rows(rows@), 1) {
                        Ok(blocks) => goes(
                            r,
                            ReadFile::Blobs { first, last, rows },
                            ActionView::Load(data_ids(blocks, false)),
                        ),
                        Err(error) => fails(r, error),
                    }
                },
                (ReadFile::Blobs { first, last, rows }, Reply::Data(data)) => {
                    match crate::storage::blocks_of_rows(crate::sql::rows(rows@), 1) {
                        Ok(blocks) => {
                            let found = crate::blocks::clip_all(blocks, first, last);
                            let len = (last - first + 1) as nat;
                            match crate::storage::read_fault(found, data@) {
                                None => {
                                    &&& final(w)@ == old(w)@ + crate::storage::laid_out(
                                        found,
                                        data@,
                                        first,
                                        len,
                                    )
                                    &&& goes(
                                        r,
                                        ReadFile::Over { n: len as usize },
                                        ActionView::Finish,
                                    )
                                },
                                Some(error) => final(w)@ == old(w)@ && fails(r, error),
                            }
                        },
                        Err(error) => final(w)@ == old(w)@ && fails(r, error),
                    }
                },
                _ => final(w)@ == old(w)@ && fails(r, unexpected()),
            },
    {
        match (self, reply) {
            (ReadFile::Start { size, offset }, Reply::Begin) => {
                match handle.read_window(size, offset) {
                    Ok(Some((first, last))) => {
                        match handle.overlapping_blocks(first as i64, last as i64) {
                            Ok(s) => Ok((ReadFile::Overlap { first, last }, Action::Find(s))),
                            Err(e) => Err(e),
                        }
                    },
                    Ok(None) => Ok((ReadFile::Over { n: 0 }, Action::Finish)),
                    Err(e) => Err(e),
                }
            },
            (ReadFile::Overlap { first, last }, Reply::Rows(rows)) => {
                match crate::storage::read_blocks(&rows, 1) {
                    Ok(blocks) => {
                        let ids = find_data_ids(&blocks, false);
                        Ok((ReadFile::Blobs { first, last, rows }, Action::Load(ids)))
                    },
                    Err(e) => Err(e),
                }
            },
            (ReadFile::Blobs { first, last, rows }, Reply::Data(data)) => {
                match crate::storage::read_data(&rows, &data, first, last, w) {
                    Ok(n) => Ok((ReadFile::Over { n }, Action::Finish)),
                    Err(e) => Err(e),
                }
            },
            _ => Err(unexpected_reply()),
        }
    }
}

/// Whether a handle is as before, but for the size that it keeps.
pub open spec fn keeps_size(before: FloconHandle, after: FloconHandle, size: i64) -> bool {
    &&& after.attrs() == crate::winter::with_size(size)(before.attrs())
    &&& after.block_bytes() == before.block_bytes()
    &&& after.image() == before.image()
}

/// Writing a part of a file.
pub enum WriteFile {
    Start { size: usize, offset: i64, data: Vec<u8> },
    Overlap { offset: i64, data: Vec<u8> },
    Blobs { offset: i64, len: usize, write: Overwrite },
    Ran { len: usize, size: i64 },
    Over { n: usize },
}

impl WriteFile {
    /// Whether the part to write lies in reach.
    pub open spec fn wf(self) -> bool {
        match self {
            WriteFile::Start { offset, data, .. } => {
                &&& i64::MIN < offset + data@.len() <= i64::MAX
                &&& offset >= 0 || offset + data@.len() <= 0
            },
            WriteFile::Overlap { offset, data } => {
                &&& offset + data@.len() <= i64::MAX
                &&& offset >= 0 || offset + data@.len() <= 0
            },
            WriteFile::Blobs { offset, len, write } => {
                &&& len <= i64::MAX
                &&& offset + len <= i64::MAX
                &&& forall|i: int|
                    0 <= i < write.ids@.len() ==> #[trigger] write.ids@[i] <= i64::MAX
            },
            WriteFile::Ran { .. } => true,
            WriteFile::Over { .. } => true,
        }
    }

    /// Whether the data that was loaded is that which was asked for: the new
    /// blocks can be read.
    pub open spec fn takes(self, reply: Reply) -> bool {
        match (self, reply) {
            (
                WriteFile::Blobs { write, .. },
                Reply::Data(data),
            ) => crate::storage::new_blocks_readable(write.sequence@, data@),
            _ => true,
        }
    }

    /// Tells whether the data that was loaded is that which was asked for.
    pub fn can_take(&self, reply: &Reply) -> (r: bool)
        ensures
            r == self.takes(*reply),
    {
        match (self, reply) {
            (
                WriteFile::Blobs { write, .. },
                Reply::Data(data),
            ) => crate::storage::can_read_new_blocks(&write.sequence, data),
            _ => true,
        }
    }

    /// Takes the next step:
    ///
    /// 1. We fetch existing blocks that overlap with the part
    /// 2. The input data is chunked into blocks of the size that we like, and
    ///    those are inserted among the existing blocks; the data of those
    ///    parts that are left of existing blocks is loaded
    /// 3. This allows us to know which blocks are left untouched (those who
    ///    kept their ID), which ones are to be inserted (if they do not have
    ///    an ID) and which ones need to be deleted (those not in the output
    ///    anymore)
    /// 4. Finally we wrap up with the written size, without forgetting to
    ///    update the pre-computed size on the inode as well
    pub fn next(self, handle: &mut FloconHandle, reply: Reply) -> (r: Result<
        (WriteFile, Action),
        Error,
    >)
        requires
            self.wf(),
            self.takes(reply),
        ensures
            r matches Ok((s, _)) ==> s.wf(),
            !(self is Ran) ==> *final(handle) == *old(handle),
            ({
                let inode = old(handle).attrs().st_ino;
                let file_size = old(handle).attrs().st_size;
                match (self, reply) {
                    (WriteFile::Start { size, offset, data }, Reply::Begin) => if data@.len()
                        != size {
                        fails(r, crate::error::message(ErrorKind::Other, "Unexpected EOF"))
                    } else if crate::sql::bindable(inode) {
                        goes(
                            r,
                            WriteFile::Overlap { offset, data },
                            ActionView::Find(
                                crate::storage::overlapping_blocks_statement(
                                    inode,
                                    offset,
                                    (offset + size - 1) as i64,
                                ),
                            ),
                        )
                    } else {
                        fails(r, crate::sql::unbindable())
                    },
                    (WriteFile::Overlap { offset, data }, Reply::Rows(rows)) => {
                        match crate::storage::blocks_of_rows(crate::sql::rows(rows@), 1) {
                            Ok(s) => if offset < 0 && data@.len() > 0 {
                                fails(r, crate::sql::unbindable())
                            } else {
                                r matches Ok((WriteFile::Blobs { offset: at, len, write }, a)) && {
                                    &&& at == offset
                                    &&& len == data@.len()
                                    &&& write.ids@ == crate::storage::ids(s)
                                    &&& write.sequence@ == if offset < 0 {
                                        s
                                    } else {
                                        crate::storage::overwrite(
                                            s,
                                            offset as u64,
                                            data@,
                                            old(handle).block_bytes() as u64,
                                        )
                                    }
                                    &&& a@ == ActionView::Load(data_ids(write.sequence@, true))
                                }
                            },
                            Err(error) => fails(r, error),
                        }
                    },
                    (WriteFile::Blobs { offset, len, write }, Reply::Data(data)) => {
                        let end = offset + len;
                        if crate::storage::new_blocks_storable(inode, write.sequence@) && (end
                            > file_size ==> crate::sql::bindable(inode)) {
                            goes(
                                r,
                                WriteFile::Ran {
                                    len,
                                    size: crate::storage::larger(end, file_size as int) as i64,
                                },
                                ActionView::Run(
                                    crate::storage::write_statements(
                                        inode,
                                        file_size,
                                        end,
                                        write.ids@,
                                        write.sequence@,
                                        data@,
                                    ),
                                ),
                            )
                        } else {
                            fails(r, crate::sql::unbindable())
                        }
                    },
                    (WriteFile::Ran { len, size }, Reply::Done) => {
                        &&& keeps_size(*old(handle), *final(handle), size)
                        &&& goes(r, WriteFile::Over { n: len }, ActionView::Finish)
                    },
                    _ => *final(handle) == *old(handle) && fails(r, unexpected()),
                }
            }),
    {
        match (self, reply) {
            (WriteFile::Start { size, offset, data }, Reply::Begin) => {
                match FloconHandle::check_incoming(size, data.len()) {
                    Ok(_) => {},
                    Err(e) => return Err(e),
                }
                let last_byte: i64 = ((offset as i128) + (size as i128) - 1) as i64;
                match handle.overlapping_blocks(offset, last_byte) {
                    Ok(s) => Ok((WriteFile::Overlap { offset, data }, Action::Find(s))),
                    Err(e) => Err(e),
                }
            },
            (WriteFile::Overlap { offset, data }, Reply::Rows(rows)) => {
                match handle.prepare_write(&rows, offset, &data) {
                    Ok(write) => {
                        let ids = find_data_ids(&write.sequence.blocks, true);
                        Ok((WriteFile::Blobs { offset, len: data.len(), write }, Action::Load(ids)))
                    },
                    Err(e) => Err(e),
                }
            },
            (WriteFile::Blobs { offset, len, write }, Reply::Data(data)) => {
                match handle.plan_write(offset, len, &write, &data) {
                    Ok(plan) => Ok(
                        (WriteFile::Ran { len, size: plan.size }, Action::Run(plan.statements)),
                    ),
                    Err(e) => Err(e),
                }
            },
            (WriteFile::Ran { len, size }, Reply::Done) => {
                handle.keep_size(size);
                Ok((WriteFile::Over { n: len }, Action::Finish))
            },
            _ => Err(unexpected_reply()),
        }
    }
}

/// Appending to a file.
pub enum AppendFile {
    Start { data: Vec<u8> },
    Ran { len: usize, size: i64 },
    Over { n: usize },
}

impl AppendFile {
    /// Whether the data can be counted.
    pub open spec fn wf(self) -> bool {
        self matches AppendFile::Start { data } ==> data@.len() <= i64::MAX
    }

    /// Takes the next step: the data goes to the end of the file, whose size is
    /// recorded. This is mostly bypassing the block logic in order to have an
    /// efficient append (we're probably writing logs or something like that, so
    /// it's more important to atomically insert the lines we're given than
    /// doing block computation).
    pub fn next(self, handle: &mut FloconHandle, reply: Reply) -> (r: Result<
        (AppendFile, Action),
        Error,
    >)
        requires
            self.wf(),
        ensures
            r matches Ok((s, _)) ==> s.wf(),
            !(self is Ran) ==> *final(handle) == *old(handle),
            ({
                let inode = old(handle).attrs().st_ino;
                let file_size = old(handle).attrs().st_size;
                let block_size = old(handle).block_bytes() as u64;
                match (self, reply) {
                    (AppendFile::Start { data }, Reply::Begin) => if data@.len() == 0 {
                        goes(r, AppendFile::Over { n: 0 }, ActionView::Finish)
                    } else if crate::storage::appendable(inode, file_size, data@, block_size) {
                        goes(
                            r,
                            AppendFile::Ran {
                                len: data@.len() as usize,
                                size: (file_size + data@.len()) as i64,
                            },
                            ActionView::Run(
                                crate::storage::append_statements(
                                    inode,
                                    file_size,
                                    data@,
                                    block_size,
                                ),
                            ),
                        )
                    } else {
                        fails(r, crate::sql::unbindable())
                    },
                    (AppendFile::Ran { len, size }, Reply::Done) => {
                        &&& keeps_size(*old(handle), *final(handle), size)
                        &&& goes(r, AppendFile::Over { n: len }, ActionView::Finish)
                    },
                    _ => *final(handle) == *old(handle) && fails(r, unexpected()),
                }
            }),
    {
        match (self, reply) {
            (AppendFile::Start { data }, Reply::Begin) => {
                if data.len() == 0 {
                    return Ok((AppendFile::Over { n: 0 }, Action::Finish));
                }
                match handle.plan_append(&data) {
                    Ok(plan) => Ok(
                        (
                            AppendFile::Ran { len: data.len(), size: plan.size },
                            Action::Run(plan.statements),
                        ),
                    ),
                    Err(e) => Err(e),
                }
            },
            (AppendFile::Ran { len, size }, Reply::Done) => {
                handle.keep_size(size);
                Ok((AppendFile::Over { n: len }, Action::Finish))
            },
            _ => Err(unexpected_reply()),
        }
    }
}

/// Changing the size of a file.
pub enum SetSize {
    Start { size: i64 },
    Deleted { size: i64, truncate_point: i64 },
    Spanning { size: i64, truncate_point: i64 },
    Blobs { size: i64, truncate_point: i64, blocks: Vec<WorkingBlock> },
    Last { size: i64 },
    Recorded,
    Inode,
    Over,
}

/// The statement that records a new size of a file.
pub open spec fn record_size_statement(inode: u64, size: i64) -> StatementView {
    crate::flocon::update_inode_statement("size"@, SqlView::Integer(size), inode)
}

/// The statements that fill the gap before the new end of a file, if there is
/// one.
pub open spec fn fill_statements(inode: u64, last: Option<i64>, size: i64) -> Seq<StatementView> {
    match crate::storage::gap_to_fill(last, size) {
        Some((first, end)) => seq![crate::storage::insert_zeros_statement(inode, first, end)],
        None => seq![],
    }
}

impl SetSize {
    /// Whether a file that is filled up does not become empty.
    pub open spec fn wf(self) -> bool {
        self matches SetSize::Last { size } ==> size > 0
    }

    /// Whether the data that was loaded is that which was asked for, and the
    /// last block leaves room for another.
    pub open spec fn takes(self, reply: Reply) -> bool {
        match (self, reply) {
            (
                SetSize::Blobs { truncate_point, blocks, .. },
                Reply::Data(data),
            ) => crate::storage::all_trimmable(
                crate::blocks::views(blocks@),
                truncate_point,
                data@,
            ),
            (SetSize::Last { .. }, Reply::Rows(rows)) => crate::storage::last_block_end(
                crate::sql::rows(rows@),
            ) != Ok::<Option<i64>, ErrorView>(Some(i64::MAX)),
            _ => true,
        }
    }

    /// Tells whether the data that was loaded is that which was asked for, and
    /// the last block leaves room for another.
    pub fn can_take(&self, reply: &Reply) -> (r: bool)
        ensures
            r == self.takes(*reply),
    {
        match (self, reply) {
            (
                SetSize::Blobs { truncate_point, blocks, .. },
                Reply::Data(data),
            ) => crate::storage::can_trim(blocks, *truncate_point, data),
            (SetSize::Last { .. }, Reply::Rows(rows)) => {
                match crate::storage::read_last_block(rows) {
                    Ok(Some(last)) => last != i64::MAX,
                    Ok(None) => true,
                    Err(_) => true,
                }
            },
            _ => true,
        }
    }

    /// Takes the next step. If the file shrinks, the blocks beyond its new end
    /// are deleted, and those that span it are trimmed. If it grows, a
    /// zero-filled block is created if needed. Then the size is recorded, and
    /// the inode is read back.
    pub fn next(self, handle: &mut FloconHandle, reply: Reply) -> (r: Result<
        (SetSize, Action),
        Error,
    >)
        requires
            self.wf(),
            self.takes(reply),
        ensures
            r matches Ok((s, _)) ==> s.wf(),
            !(self is Inode) ==> *final(handle) == *old(handle),
            ({
                let inode = old(handle).attrs().st_ino;
                let file_size = old(handle).attrs().st_size;
                match (self, reply) {
                    (SetSize::Start { size }, Reply::Begin) => if size == file_size {
                        goes(r, SetSize::Over, ActionView::Finish)
                    } else if !crate::sql::bindable(inode) {
                        fails(r, crate::sql::unbindable())
                    } else if size < file_size {
                        goes(
                            r,
                            SetSize::Deleted { size, truncate_point: size },
                            ActionView::Run(
                                seq![
                                    crate::storage::delete_blocks_from_statement(
                                        inode,
                                        size,
                                    ),
                                ],
                            ),
                        )
                    } else if file_size > 0 {
                        goes(
                            r,
                            SetSize::Last { size },
                            ActionView::Find(crate::storage::last_block_statement(inode)),
                        )
                    } else if size < 0 {
                        fails(r, crate::sql::unbindable())
                    } else {
                        goes(
                            r,
                            SetSize::Recorded,
                            ActionView::Run(seq![record_size_statement(inode, size)]),
                        )
                    },
                    (SetSize::Deleted { size, truncate_point }, Reply::Done) => {
                        if crate::sql::bindable(inode) {
                            goes(
                                r,
                                SetSize::Spanning { size, truncate_point },
                                ActionView::Find(
                                    crate::storage::spanning_blocks_statement(
                                        inode,
                                        truncate_point,
                                    ),
                                ),
                            )
                        } else {
                            fails(r, crate::sql::unbindable())
                        }
                    },
                    (SetSize::Spanning { size, truncate_point }, Reply::Rows(rows)) => {
                        match crate::storage::blocks_of_rows(crate::sql::rows(rows@), 2) {
                            Ok(s) => r matches Ok(
                                (SetSize::Blobs { size: n, truncate_point: p, blocks }, a),
                            ) && {
                                &&& n == size
                                &&& p == truncate_point
                                &&& crate::blocks::views(blocks@) == s
                                &&& a@ == ActionView::Load(data_ids(s, false))
                            },
                            Err(error) => fails(r, error),
                        }
                    },
                    (SetSize::Blobs { size, truncate_point, blocks }, Reply::Data(data)) => {
                        if crate::sql::bindable(inode) && size >= 0 {
                            goes(
                                r,
                                SetSize::Recorded,
                                ActionView::Run(
                                    crate::storage::trim_statements(
                                        inode,
                                        crate::blocks::views(blocks@),
                                        truncate_point,
                                        data@,
                                    ).push(record_size_statement(inode, size)),
                                ),
                            )
                        } else {
                            fails(r, crate::sql::unbindable())
                        }
                    },
                    (SetSize::Last { size }, Reply::Rows(rows)) => {
                        match crate::storage::last_block_end(crate::sql::rows(rows@)) {
                            Ok(last) => if crate::sql::bindable(inode) {
                                goes(
                                    r,
                                    SetSize::Recorded,
                                    ActionView::Run(
                                        fill_statements(inode, last, size).push(
                                            record_size_statement(inode, size),
                                        ),
                                    ),
                                )
                            } else {
                                fails(r, crate::sql::unbindable())
                            },
                            Err(error) => fails(r, error),
                        }
                    },
                    (SetSize::Recorded, Reply::Done) => if crate::sql::bindable(inode) {
                        goes(
                            r,
                            SetSize::Inode,
                            ActionView::Find(FloconTree::get_inode_statement(inode)),
                        )
                    } else {
                        fails(r, crate::sql::unbindable())
                    },
                    (SetSize::Inode, Reply::Rows(rows)) => {
                        match crate::flocon::inode_of_rows(crate::sql::rows(rows@)) {
                            Ok(attrs) => {
                                &&& final(handle).attrs() == attrs
                                &&& final(handle).block_bytes() == old(handle).block_bytes()
                                &&& final(handle).image() == old(handle).image()
                                &&& goes(r, SetSize::Over, ActionView::Finish)
                            },
                            Err(error) => *final(handle) == *old(handle) && fails(r, error),
                        }
                    },
                    _ => *final(handle) == *old(handle) && fails(r, unexpected()),
                }
            }),
    {
        let inode: u64 = handle.get_inode().get_id();
        match (self, reply) {
            (SetSize::Start { size }, Reply::Begin) => {
                match handle.set_size(size) {
                    Resize::Keep => Ok((SetSize::Over, Action::Finish)),
                    Resize::Shrink { truncate_point } => {
                        match crate::storage::delete_blocks_from(inode, truncate_point) {
                            Ok(s) => Ok(
                                (SetSize::Deleted { size, truncate_point }, run_one(s)),
                            ),
                            Err(e) => Err(e),
                        }
                    },
                    Resize::Grow { fill: true } => {
                        match crate::storage::last_block(inode) {
                            Ok(s) => Ok((SetSize::Last { size }, Action::Find(s))),
                            Err(e) => Err(e),
                        }
                    },
                    Resize::Grow { fill: false } => {
                        match handle.record_size(size) {
                            Ok(s) => Ok((SetSize::Recorded, run_one(s))),
                            Err(e) => Err(e),
                        }
                    },
                }
            },
            (SetSize::Deleted { size, truncate_point }, Reply::Done) => {
                match crate::storage::spanning_blocks(inode, truncate_point) {
                    Ok(s) => Ok((SetSize::Spanning { size, truncate_point }, Action::Find(s))),
                    Err(e) => Err(e),
                }
            },
            (SetSize::Spanning { size, truncate_point }, Reply::Rows(rows)) => {
                match crate::storage::read_blocks(&rows, 2) {
                    Ok(blocks) => {
                        let ids = find_data_ids(&blocks, false);
                        Ok((SetSize::Blobs { size, truncate_point, blocks }, Action::Load(ids)))
                    },
                    Err(e) => Err(e),
                }
            },
            (SetSize::Blobs { size, truncate_point, blocks }, Reply::Data(data)) => {
                match crate::storage::trim_blocks(inode, &blocks, truncate_point, &data) {
                    Ok(statements) => run_and_record(handle, statements, size),
                    Err(e) => Err(e),
                }
            },
            (SetSize::Last { size }, Reply::Rows(rows)) => {
                let last = match crate::storage::read_last_block(&rows) {
                    Ok(l) => l,
                    Err(e) => return Err(e),
                };
                let mut statements: Vec<Statement> = Vec::new();
                match crate::storage::fill_gap(inode, last, size) {
                    Ok(Some(s)) => {
                        statements.push(s);
                    },
                    Ok(None) => {},
                    Err(e) => return Err(e),
                }
                assert(crate::sql::bindable(inode) ==> crate::sql::statements(statements@)
                    =~= fill_statements(inode, last, size));
                run_and_record(handle, statements, size)
            },
            (SetSize::Recorded, Reply::Done) => {
                match FloconTree::get_inode(inode) {
                    Ok(s) => Ok((SetSize::Inode, Action::Find(s))),
                    Err(e) => Err(e),
                }
            },
            (SetSize::Inode, Reply::Rows(rows)) => {
                match FloconTree::read_inode(&rows) {
                    Ok(read) => {
                        handle.reload(read);
                        Ok((SetSize::Over, Action::Finish))
                    },
                    Err(e) => Err(e),
                }
            },
            _ => Err(unexpected_reply()),
        }
    }
}

/// The action that carries out one statement.
fn run_one(s: Statement) -> (r: Action)
    ensures
        r@ == ActionView::Run(seq![s@]),
{
    let statements: Vec<Statement> = vec![s];
    assert(crate::sql::statements(statements@) =~= seq![s@]);
    Action::Run(statements)
}

/// Carries out statements and then records the new size of a file.
fn run_and_record(handle: &FloconHandle, statements: Vec<Statement>, size: i64) -> (r: Result<
    (SetSize, Action),
    Error,
>)
    ensures
        if crate::sql::bindable(handle.attrs().st_ino) && size >= 0 {
            goes(
                r,
                SetSize::Recorded,
                ActionView::Run(
                    crate::sql::statements(statements@).push(
                        record_size_statement(handle.attrs().st_ino, size),
                    ),
                ),
            )
        } else {
            fails(r, crate::sql::unbindable())
        },
{
    let mut all = statements;
    match handle.record_size(size) {
        Ok(s) => {
            all.push(s);
            assert(crate::sql::statements(all@) =~= crate::sql::statements(statements@).push(s@));
            Ok((SetSize::Recorded, Action::Run(all)))
        },
        Err(e) => Err(e),
    }
}

} // verus!
