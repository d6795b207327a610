//! Blocks of file data, and what cutting, replacing and reading them does.

use std::collections::HashMap;
use std::sync::Arc;
use vstd::prelude::*;
use vstd::string::StringExecFns;
use crate::error::{Error, ErrorKind, ErrorView};

verus! {

broadcast use vstd::std_specs::hash::group_hash_axioms;

/// The block data that has been loaded from the database, by block identifier.
pub struct FloconContext {
    blobs: HashMap<u64, Vec<u8>>,
}

impl View for FloconContext {
    type V = Map<u64, Seq<u8>>;

    closed spec fn view(&self) -> Map<u64, Seq<u8>> {
        self.blobs@.map_values(|v: Vec<u8>| v@)
    }
}

impl FloconContext {
    /// A context that holds no block data.
    pub fn new() -> (r: Self)
        ensures
            r@ == Map::<u64, Seq<u8>>::empty(),
    {
        let r = FloconContext { blobs: HashMap::new() };
        assert(r@ =~= Map::<u64, Seq<u8>>::empty());
        r
    }

    /// Records the data of a block.
    pub fn add_blob(&mut self, block_id: u64, data: Vec<u8>)
        ensures
            final(self)@ == old(self)@.insert(block_id, data@),
    {
        self.blobs.insert(block_id, data);
        assert(self@ =~= old(self)@.insert(block_id, data@));
    }

    /// The data of a block, if it was loaded.
    pub fn blob(&self, block_id: u64) -> (r: Option<&Vec<u8>>)
        ensures
            match r {
                Some(data) => self@.contains_key(block_id) && self@[block_id] == data@,
                None => !self@.contains_key(block_id),
            },
    {
        self.blobs.get(&block_id)
    }
}

/// Where the bytes of a block come from.
pub enum SourceView {
    /// The `size` bytes of `data` that start at `offset`.
    Memory { data: Seq<u8>, offset: u64, size: u64 },
    /// `size` zeros.
    Zero { size: u64 },
    /// Up to `size` bytes of a stored block, from `offset` on.
    Sqlite { block_id: u64, offset: u64, size: u64 },
}

impl SourceView {
    /// How many bytes the source stands for.
    pub open spec fn size(self) -> u64 {
        match self {
            SourceView::Memory { size, .. } => size,
            SourceView::Zero { size } => size,
            SourceView::Sqlite { size, .. } => size,
        }
    }

    /// Whether reading the source takes no more than a vector can hold: zeros
    /// are made all at once.
    pub open spec fn fits_in_memory(self) -> bool {
        self is Zero ==> self.size() <= isize::MAX
    }

    /// What reading the source gives, with the loaded block data at hand.
    pub open spec fn reads(self, blobs: Map<u64, Seq<u8>>) -> Result<Seq<u8>, ErrorView> {
        match self {
            SourceView::Memory { data, offset, size } => Ok(
                data.subrange(offset as int, offset + size),
            ),
            SourceView::Zero { size } => Ok(crate::blocks::zeros(size as nat)),
            SourceView::Sqlite { block_id, offset, size } => {
                if block_id > i64::MAX {
                    Err(crate::error::invalid("out of range integral type conversion attempted"))
                } else if !blobs.contains_key(block_id) {
                    Err(crate::blocks::no_such_block(block_id))
                } else if offset > i64::MAX {
                    Err(crate::error::invalid("invalid seek to negative position"))
                } else if offset > blobs[block_id].len() {
                    Err(crate::error::invalid("invalid seek to position past end of blob"))
                } else {
                    let end = if offset + size <= blobs[block_id].len() {
                        offset + size
                    } else {
                        blobs[block_id].len() as int
                    };
                    Ok(blobs[block_id].subrange(offset as int, end))
                }
            },
        }
    }

    /// The source that stands for `size` bytes of this one, from `offset` on.
    pub open spec fn slice(self, offset: u64, size: u64) -> Result<SourceView, ErrorView> {
        match self {
            SourceView::Memory { data, offset: base, size: whole } => {
                if base + offset > u64::MAX {
                    Err(crate::error::invalid("Offset overflow"))
                } else if offset + size > whole {
                    Err(crate::error::invalid("Slice out of bounds"))
                } else {
                    Ok(SourceView::Memory { data, offset: (base + offset) as u64, size })
                }
            },
            SourceView::Zero { size: whole } => {
                if offset + size > whole {
                    Err(crate::error::invalid("Slice out of bounds"))
                } else {
                    Ok(SourceView::Zero { size })
                }
            },
            SourceView::Sqlite { block_id, offset: base, size: whole } => {
                if offset + size > whole {
                    Err(crate::error::invalid("Slice out of bounds"))
                } else if base + offset > u64::MAX {
                    Err(crate::error::invalid("Offset overflow"))
                } else {
                    Ok(SourceView::Sqlite { block_id, offset: (base + offset) as u64, size })
                }
            },
        }
    }
}

/// The error for a block that is not stored.
pub open spec fn no_such_block(block_id: u64) -> ErrorView {
    ErrorView::Message {
        kind: ErrorKind::Other,
        message: "no such rowid: "@ + crate::text::decimal_text(block_id as int),
    }
}

/// `n` zero bytes.
pub open spec fn zeros(n: nat) -> Seq<u8> {
    Seq::new(n, |i: int| 0u8)
}

/// Bytes that a block can be made of.
pub trait DataSource: Sized {
    /// What the source stands for.
    closed spec fn source(&self) -> SourceView {
        arbitrary()
    }

    /// How many bytes the source stands for.
    fn size(&self) -> (r: u64)
        ensures
            r == self.source().size(),
    ;

    /// Tells whether the bytes are at hand and reading them takes no more than
    /// a vector can hold.
    fn is_readable(&self, context: &FloconContext) -> (r: bool)
        ensures
            r == (self.source().fits_in_memory() && self.source().reads(context@) is Ok),
    ;

    /// Appends the content of the data source to `w` and tells how many bytes
    /// that was.
    fn read_to(&self, context: &FloconContext, w: &mut Vec<u8>) -> (r: Result<usize, Error>)
        requires
            self.source().fits_in_memory(),
        ensures
            match self.source().reads(context@) {
                Ok(bytes) => {
                    &&& r == Ok::<usize, Error>(bytes.len() as usize)
                    &&& bytes.len() <= usize::MAX
                    &&& final(w)@ == old(w)@ + bytes
                },
                Err(error) => r matches Err(e) && e@ == error && final(w)@ == old(w)@,
            },
    ;

    /// Performs a slicing of the original data and returns a "view" of a
    /// narrower part of it.
    fn slice(&self, offset: u64, size: u64) -> (r: Result<Self, Error>)
        ensures
            match self.source().slice(offset, size) {
                Ok(part) => r matches Ok(s) && s.source() == part,
                Err(error) => r matches Err(e) && e@ == error,
            },
    ;

    /// A source that stands for the same bytes.
    fn clone(&self) -> (r: Self)
        ensures
            r.source() == self.source(),
    ;
}

/// A data source that takes hold in the RAM.
pub struct MemoryDataSource {
    data: Arc<Vec<u8>>,
    offset: u64,
    size: u64,
}

/// Another handle on the same bytes, by `Arc::clone`: nothing is copied, and
/// the two handles give the same vector.
#[verifier::external_body]
fn share(data: &Arc<Vec<u8>>) -> (r: Arc<Vec<u8>>)
    ensures
        r == *data,
{
    Arc::clone(data)
}

impl MemoryDataSource {
    #[verifier::type_invariant]
    spec fn within_data(self) -> bool {
        self.offset + self.size <= self.data@.len()
    }

    /// The `size` bytes of `data` that start at `offset`.
    pub fn new(data: Arc<Vec<u8>>, offset: u64, size: u64) -> (r: Result<Self, Error>)
        ensures
            if offset > data@.len() {
                r matches Err(e) && e@ == crate::error::invalid("Offset out of bounds")
            } else if offset + size > data@.len() {
                r matches Err(e) && e@ == crate::error::invalid("Size exceeds available data")
            } else {
                r matches Ok(s) && s.source() == (SourceView::Memory { data: data@, offset, size })
            },
    {
        let data_len: u64 = data.len() as u64;
        if offset > data_len {
            return Err(Error::new(ErrorKind::InvalidInput, "Offset out of bounds"));
        }
        match offset.checked_add(size) {
            Some(end) if end <= data_len => Ok(MemoryDataSource { data, offset, size }),
            _ => Err(Error::new(ErrorKind::InvalidInput, "Size exceeds available data")),
        }
    }

    /// Creates a memory data source from the given data, with offset and
    /// length covering 100% of the data at this point. Then it will narrow
    /// down when `slice` is called.
    pub fn from_data(data: Vec<u8>) -> (r: Result<Self, Error>)
        ensures
            r matches Ok(s) && s.source() == (SourceView::Memory {
                data: data@,
                offset: 0,
                size: data@.len() as u64,
            }),
    {
        let data_len: u64 = data.len() as u64;
        MemoryDataSource::new(Arc::new(data), 0, data_len)
    }

    /// The bytes that the source stands for.
    pub fn as_slice(&self) -> (r: &[u8])
        ensures
            forall|blobs: Map<u64, Seq<u8>>| self.source().reads(blobs) == Ok::<Seq<u8>, ErrorView>(r@),
            r@.len() == self.source().size(),
    {
        proof {
            use_type_invariant(self);
        }
        let _len: usize = self.data.len();
        let start: usize = self.offset as usize;
        let end: usize = (self.offset + self.size) as usize;
        vstd::slice::slice_subrange(self.data.as_slice(), start, end)
    }
}

impl DataSource for MemoryDataSource {
    closed spec fn source(&self) -> SourceView {
        SourceView::Memory { data: self.data@, offset: self.offset, size: self.size }
    }

    fn size(&self) -> (r: u64) {
        self.size
    }

    fn is_readable(&self, context: &FloconContext) -> (r: bool) {
        true
    }

    fn read_to(&self, context: &FloconContext, w: &mut Vec<u8>) -> (r: Result<usize, Error>) {
        proof {
            use_type_invariant(self);
        }
        let _len: usize = self.data.len();
        let bytes = self.as_slice();
        w.extend_from_slice(bytes);
        assert(w@ =~= old(w)@ + bytes@);
        Ok(self.size as usize)
    }

    fn slice(&self, offset: u64, size: u64) -> (r: Result<Self, Error>) {
        proof {
            use_type_invariant(self);
        }
        let new_offset: u64 = match self.offset.checked_add(offset) {
            Some(o) => o,
            None => return Err(Error::new(ErrorKind::InvalidInput, "Offset overflow")),
        };
        match offset.checked_add(size) {
            Some(end) if end <= self.size => {},
            _ => return Err(Error::new(ErrorKind::InvalidInput, "Slice out of bounds")),
        }
        MemoryDataSource::new(share(&self.data), new_offset, size)
    }

    fn clone(&self) -> (r: Self) {
        proof {
            use_type_invariant(self);
        }
        MemoryDataSource { data: share(&self.data), offset: self.offset, size: self.size }
    }
}

/// A data source that is zeros throughout.
pub struct ZeroDataSource {
    size: u64,
}

impl ZeroDataSource {
    /// `size` zeros.
    pub fn new(size: u64) -> (r: Self)
        ensures
            r.source() == (SourceView::Zero { size }),
    {
        ZeroDataSource { size }
    }
}

impl DataSource for ZeroDataSource {
    closed spec fn source(&self) -> SourceView {
        SourceView::Zero { size: self.size }
    }

    fn size(&self) -> (r: u64) {
        self.size
    }

    fn is_readable(&self, context: &FloconContext) -> (r: bool) {
        self.size <= isize::MAX as u64
    }

    fn read_to(&self, context: &FloconContext, w: &mut Vec<u8>) -> (r: Result<usize, Error>) {
        let zeros: Vec<u8> = vec![0u8; self.size as usize];
        w.extend_from_slice(zeros.as_slice());
        assert(w@ =~= old(w)@ + crate::blocks::zeros(self.size as nat));
        Ok(self.size as usize)
    }

    fn slice(&self, offset: u64, size: u64) -> (r: Result<Self, Error>) {
        match offset.checked_add(size) {
            Some(end) if end <= self.size => {},
            _ => return Err(Error::new(ErrorKind::InvalidInput, "Slice out of bounds")),
        }
        Ok(ZeroDataSource::new(size))
    }

    fn clone(&self) -> (r: Self) {
        ZeroDataSource::new(self.size)
    }
}

/// A data source that lies in the database, in the data of one block.
pub struct SqliteDataSource {
    block_id: u64,
    offset: u64,
    size: u64,
}

impl SqliteDataSource {
    /// Up to `size` bytes of the block, from `offset` on.
    pub fn new(block_id: u64, offset: u64, size: u64) -> (r: Self)
        ensures
            r.source() == (SourceView::Sqlite { block_id, offset, size }),
    {
        SqliteDataSource { block_id, offset, size }
    }
}

impl DataSource for SqliteDataSource {
    closed spec fn source(&self) -> SourceView {
        SourceView::Sqlite { block_id: self.block_id, offset: self.offset, size: self.size }
    }

    fn size(&self) -> (r: u64) {
        self.size
    }

    fn is_readable(&self, context: &FloconContext) -> (r: bool) {
        match context.blob(self.block_id) {
            Some(blob) => {
                let len: u64 = blob.len() as u64;
                self.block_id <= i64::MAX as u64 && self.offset <= i64::MAX as u64 && self.offset
                    <= len
            },
            None => false,
        }
    }

    fn read_to(&self, context: &FloconContext, w: &mut Vec<u8>) -> (r: Result<usize, Error>) {
        if self.block_id > i64::MAX as u64 {
            return Err(
                Error::new(
                    ErrorKind::InvalidInput,
                    "out of range integral type conversion attempted",
                ),
            );
        }
        let blob = match context.blob(self.block_id) {
            Some(blob) => blob,
            None => {
                let mut message = "no such rowid: ".to_string();
                message.append(crate::text::natural(self.block_id).as_str());
                return Err(Error::Message { kind: ErrorKind::Other, message });
            },
        };
        if self.offset > i64::MAX as u64 {
            return Err(Error::new(ErrorKind::InvalidInput, "invalid seek to negative position"));
        }
        let len: u64 = blob.len() as u64;
        if self.offset > len {
            return Err(
                Error::new(ErrorKind::InvalidInput, "invalid seek to position past end of blob"),
            );
        }
        let size: u64 = if self.size <= len - self.offset {
            self.size
        } else {
            len - self.offset
        };
        let bytes = vstd::slice::slice_subrange(
            blob.as_slice(),
            self.offset as usize,
            (self.offset + size) as usize,
        );
        w.extend_from_slice(bytes);
        assert(w@ =~= old(w)@ + bytes@);
        Ok(size as usize)
    }

    fn slice(&self, offset: u64, size: u64) -> (r: Result<Self, Error>) {
        match offset.checked_add(size) {
            Some(end) if end <= self.size => {},
            _ => return Err(Error::new(ErrorKind::InvalidInput, "Slice out of bounds")),
        }
        match self.offset.checked_add(offset) {
            Some(new_offset) => Ok(
                SqliteDataSource { block_id: self.block_id, offset: new_offset, size },
            ),
            None => Err(Error::new(ErrorKind::InvalidInput, "Offset overflow")),
        }
    }

    fn clone(&self) -> (r: Self) {
        SqliteDataSource { block_id: self.block_id, offset: self.offset, size: self.size }
    }
}

/// Any of the data sources.
pub enum Source {
    Memory(MemoryDataSource),
    Zero(ZeroDataSource),
    Sqlite(SqliteDataSource),
}

impl Source {
    /// The identifier of the stored block out of which the source reads, if it
    /// reads out of one.
    pub fn stored_block(&self) -> (r: Option<u64>)
        ensures
            r == match self.source() {
                SourceView::Sqlite { block_id, .. } => Some(block_id),
                _ => None,
            },
    {
        match self {
            Source::Memory(_) => None,
            Source::Zero(_) => None,
            Source::Sqlite(source) => Some(source.block_id),
        }
    }
}

impl DataSource for Source {
    open spec fn source(&self) -> SourceView {
        match self {
            Source::Memory(s) => s.source(),
            Source::Zero(s) => s.source(),
            Source::Sqlite(s) => s.source(),
        }
    }

    fn size(&self) -> (r: u64) {
        match self {
            Source::Memory(s) => s.size(),
            Source::Zero(s) => s.size(),
            Source::Sqlite(s) => s.size(),
        }
    }

    fn is_readable(&self, context: &FloconContext) -> (r: bool) {
        match self {
            Source::Memory(s) => s.is_readable(context),
            Source::Zero(s) => s.is_readable(context),
            Source::Sqlite(s) => s.is_readable(context),
        }
    }

    fn read_to(&self, context: &FloconContext, w: &mut Vec<u8>) -> (r: Result<usize, Error>) {
        match self {
            Source::Memory(s) => s.read_to(context, w),
            Source::Zero(s) => s.read_to(context, w),
            Source::Sqlite(s) => s.read_to(context, w),
        }
    }

    fn slice(&self, offset: u64, size: u64) -> (r: Result<Self, Error>) {
        match self {
            Source::Memory(s) => match s.slice(offset, size) {
                Ok(part) => Ok(Source::Memory(part)),
                Err(e) => Err(e),
            },
            Source::Zero(s) => match s.slice(offset, size) {
                Ok(part) => Ok(Source::Zero(part)),
                Err(e) => Err(e),
            },
            Source::Sqlite(s) => match s.slice(offset, size) {
                Ok(part) => Ok(Source::Sqlite(part)),
                Err(e) => Err(e),
            },
        }
    }

    fn clone(&self) -> (r: Self) {
        match self {
            Source::Memory(s) => Source::Memory(DataSource::clone(s)),
            Source::Zero(s) => Source::Zero(DataSource::clone(s)),
            Source::Sqlite(s) => Source::Sqlite(DataSource::clone(s)),
        }
    }
}

/// A run of bytes of a file: those from `first_byte` up to and with
/// `last_byte`. They may come from any source.
pub struct WorkingBlock<S = Source> {
    /// The identifier under which exactly this block is stored, if it is.
    pub id: Option<u64>,
    pub first_byte: u64,
    pub last_byte: u64,
    pub source: S,
}

/// The mathematical content of a [`WorkingBlock`].
pub struct BlockView {
    pub id: Option<u64>,
    pub first_byte: u64,
    pub last_byte: u64,
    pub source: SourceView,
}

impl<S: DataSource> View for WorkingBlock<S> {
    type V = BlockView;

    open spec fn view(&self) -> BlockView {
        BlockView {
            id: self.id,
            first_byte: self.first_byte,
            last_byte: self.last_byte,
            source: self.source.source(),
        }
    }
}

/// The words of an error that comes with words.
pub open spec fn words(e: ErrorView) -> Seq<char> {
    e->Message_message
}

impl BlockView {
    /// Whether the block and the range share a byte.
    pub open spec fn meets(self, first_byte: u64, last_byte: u64) -> bool {
        self.first_byte <= last_byte && first_byte <= self.last_byte
    }

    /// The part of the block that lies within the range: its bytes come from
    /// the same source, and it is still the stored block only if nothing was
    /// cut off.
    pub open spec fn clip(self, first_byte: u64, last_byte: u64) -> Result<BlockView, Seq<char>> {
        let first = if self.first_byte >= first_byte {
            self.first_byte
        } else {
            first_byte
        };
        let last = if self.last_byte <= last_byte {
            self.last_byte
        } else {
            last_byte
        };
        if first > last {
            Err("Clipping range does not intersect with block range"@)
        } else {
            match self.source.slice((first - self.first_byte) as u64, (last - first + 1) as u64) {
                Ok(source) => Ok(
                    BlockView {
                        id: if first == self.first_byte && last == self.last_byte {
                            self.id
                        } else {
                            None
                        },
                        first_byte: first,
                        last_byte: last,
                        source,
                    },
                ),
                Err(e) => Err(words(e)),
            }
        }
    }

    /// The part of the block before `first_byte`.
    pub open spec fn before(self, first_byte: u64) -> BlockView {
        BlockView {
            id: None,
            first_byte: self.first_byte,
            last_byte: (first_byte - 1) as u64,
            source: self.source.slice(0, (first_byte - self.first_byte) as u64)->Ok_0,
        }
    }

    /// The part of the block after `last_byte`.
    pub open spec fn after(self, last_byte: u64) -> BlockView {
        BlockView {
            id: None,
            first_byte: (last_byte + 1) as u64,
            last_byte: self.last_byte,
            source: self.source.slice(
                (last_byte + 1 - self.first_byte) as u64,
                (self.last_byte - last_byte) as u64,
            )->Ok_0,
        }
    }

    /// Whether the parts of the block outside the range can be cut out of its
    /// source.
    pub open spec fn removable(self, first_byte: u64, last_byte: u64) -> bool {
        self.meets(first_byte, last_byte) ==> {
            &&& self.first_byte < first_byte ==> self.source.slice(
                0,
                (first_byte - self.first_byte) as u64,
            ) is Ok
            &&& last_byte < self.last_byte ==> self.source.slice(
                (last_byte + 1 - self.first_byte) as u64,
                (self.last_byte - last_byte) as u64,
            ) is Ok
        }
    }

    /// What is left of the block without the range: the block itself if the
    /// two share nothing, else what lies before the range and what lies after.
    pub open spec fn remove(self, first_byte: u64, last_byte: u64) -> Seq<BlockView> {
        if !self.meets(first_byte, last_byte) {
            seq![self]
        } else {
            (if self.first_byte < first_byte {
                seq![self.before(first_byte)]
            } else {
                seq![]
            }) + (if last_byte < self.last_byte {
                seq![self.after(last_byte)]
            } else {
                seq![]
            })
        }
    }
}

/// The contents of a list of blocks.
pub open spec fn views<S: DataSource>(blocks: Seq<WorkingBlock<S>>) -> Seq<BlockView> {
    blocks.map_values(|b: WorkingBlock<S>| b@)
}

impl<S: DataSource> WorkingBlock<S> {
    /// A block with these bounds and this source.
    pub fn new(id: Option<u64>, first_byte: u64, last_byte: u64, source: S) -> (r: Self)
        ensures
            r@ == (BlockView { id, first_byte, last_byte, source: source.source() }),
    {
        WorkingBlock { id, first_byte, last_byte, source }
    }

    /// We don't necessarily hold the actual data at the time of manipulating
    /// blocks, however at this point we want to cash out and see what we've
    /// got. The data is appended to `w`.
    pub fn concrete_data_to_writer(&self, context: &FloconContext, w: &mut Vec<u8>) -> (r: Result<
        usize,
        Error,
    >)
        requires
            self@.source.fits_in_memory(),
        ensures
            match self@.source.reads(context@) {
                Ok(bytes) => {
                    &&& r == Ok::<usize, Error>(bytes.len() as usize)
                    &&& bytes.len() <= usize::MAX
                    &&& final(w)@ == old(w)@ + bytes
                },
                Err(error) => r matches Err(e) && e@ == error && final(w)@ == old(w)@,
            },
    {
        self.source.read_to(context, w)
    }

    /// Convenience wrapper around `concrete_data_to_writer` which will give
    /// you the vector straight away instead of expecting you to create it.
    pub fn concrete_data(&self, context: &FloconContext) -> (r: Vec<u8>)
        requires
            self@.source.fits_in_memory(),
            self@.source.reads(context@) is Ok,
        ensures
            self@.source.reads(context@) == Ok::<Seq<u8>, ErrorView>(r@),
    {
        let mut v: Vec<u8> = Vec::new();
        let _ = self.concrete_data_to_writer(context, &mut v);
        assert(Seq::<u8>::empty() + self@.source.reads(context@)->Ok_0
            =~= self@.source.reads(context@)->Ok_0);
        v
    }

    /// Generates a new block clipped within the given boundaries.
    pub fn clip(&self, first_byte: u64, last_byte: u64) -> (r: Result<WorkingBlock<S>, String>)
        requires
            first_byte <= last_byte,
            first_byte > 0 || last_byte < u64::MAX || self@.first_byte > 0 || self@.last_byte
                < u64::MAX,
        ensures
            match self@.clip(first_byte, last_byte) {
                Ok(block) => r matches Ok(b) && b@ == block,
                Err(text) => r matches Err(t) && t@ == text,
            },
    {
        let clipped_first: u64 = if self.first_byte >= first_byte {
            self.first_byte
        } else {
            first_byte
        };
        let clipped_last: u64 = if self.last_byte <= last_byte {
            self.last_byte
        } else {
            last_byte
        };
        if clipped_first > clipped_last {
            return Err("Clipping range does not intersect with block range".to_string());
        }
        let offset: u64 = clipped_first - self.first_byte;
        let size: u64 = clipped_last - clipped_first + 1;
        let new_id = if clipped_first == self.first_byte && clipped_last == self.last_byte {
            self.id
        } else {
            None
        };
        match self.source.slice(offset, size) {
            Ok(source) => Ok(WorkingBlock::new(new_id, clipped_first, clipped_last, source)),
            Err(Error::Message { message, .. }) => Err(message),
            Err(Error::Os { .. }) => Err("".to_string()),
        }
    }

    /// Removes the given range from current block and returns the list of
    /// new blocks after this operation (either zero, one or two).
    pub fn remove(&self, first_byte: u64, last_byte: u64) -> (r: Vec<WorkingBlock<S>>)
        requires
            first_byte <= last_byte,
            self@.removable(first_byte, last_byte),
        ensures
            views(r@) == self@.remove(first_byte, last_byte),
    {
        let mut result: Vec<WorkingBlock<S>> = Vec::new();
        if last_byte < self.first_byte || first_byte > self.last_byte {
            result.push(
                WorkingBlock::new(
                    self.id,
                    self.first_byte,
                    self.last_byte,
                    DataSource::clone(&self.source),
                ),
            );
            assert(views(result@) =~= seq![self@]);
            return result;
        }
        if first_byte > self.first_byte {
            let left_last: u64 = first_byte - 1;
            let left_size: u64 = left_last - self.first_byte + 1;
            match self.source.slice(0, left_size) {
                Ok(left_source) => {
                    result.push(WorkingBlock::new(None, self.first_byte, left_last, left_source));
                },
                Err(_) => {},
            }
        }
        if last_byte < self.last_byte {
            let right_first: u64 = last_byte + 1;
            let right_offset: u64 = right_first - self.first_byte;
            let right_size: u64 = self.last_byte - right_first + 1;
            match self.source.slice(right_offset, right_size) {
                Ok(right_source) => {
                    result.push(WorkingBlock::new(None, right_first, self.last_byte, right_source));
                },
                Err(_) => {},
            }
        }
        assert(views(result@) =~= self@.remove(first_byte, last_byte));
        result
    }
}

/// The blocks within the range, each cut to it, in their order.
pub open spec fn clip_all(s: Seq<BlockView>, first_byte: u64, last_byte: u64) -> Seq<BlockView>
    decreases s.len(),
{
    if s.len() == 0 {
        seq![]
    } else {
        let head = clip_all(s.drop_last(), first_byte, last_byte);
        match s.last().clip(first_byte, last_byte) {
            Ok(b) => head.push(b),
            Err(_) => head,
        }
    }
}

/// What is left of the blocks without the range, in their order.
pub open spec fn remove_all(s: Seq<BlockView>, first_byte: u64, last_byte: u64) -> Seq<BlockView>
    decreases s.len(),
{
    if s.len() == 0 {
        seq![]
    } else {
        remove_all(s.drop_last(), first_byte, last_byte) + s.last().remove(first_byte, last_byte)
    }
}

/// The list with `b` put in front of the blocks that start after it.
pub open spec fn insert_by_first(s: Seq<BlockView>, b: BlockView) -> Seq<BlockView>
    decreases s.len(),
{
    if s.len() == 0 || s.last().first_byte <= b.first_byte {
        s.push(b)
    } else {
        insert_by_first(s.drop_last(), b).push(s.last())
    }
}

/// The blocks in the order of their first bytes; those that start at the same
/// byte keep their order.
pub open spec fn sort_by_first(s: Seq<BlockView>) -> Seq<BlockView>
    decreases s.len(),
{
    if s.len() == 0 {
        s
    } else {
        insert_by_first(sort_by_first(s.drop_last()), s.last())
    }
}

/// The blocks with `b` in place of everything that they hold in its range.
pub open spec fn replace_block(s: Seq<BlockView>, b: BlockView) -> Seq<BlockView> {
    sort_by_first(seq![b] + remove_all(s, b.first_byte, b.last_byte))
}

/// How far the last block starts after the end of the block before it: the
/// two positions are taken as signed numbers.
pub open spec fn gap_before_last(s: Seq<BlockView>) -> int {
    if s.len() < 2 {
        0
    } else {
        (s.last().first_byte as i64) - ((s[s.len() - 2].last_byte + 1) as u64 as i64)
    }
}

/// What writing out the blocks one after the other gives, with zeros between
/// a block and one that starts after its end: the bytes written, and the error
/// of the first block that could not be read, which ends the writing.
pub open spec fn written_out(s: Seq<BlockView>, blobs: Map<u64, Seq<u8>>) -> (
    Seq<u8>,
    Option<ErrorView>,
)
    decreases s.len(),
{
    if s.len() == 0 {
        (seq![], None)
    } else {
        let (head, error) = written_out(s.drop_last(), blobs);
        if error is Some {
            (head, error)
        } else {
            let gap = gap_before_last(s);
            let filled = if gap > 0 {
                head + zeros(gap as nat)
            } else {
                head
            };
            match s.last().source.reads(blobs) {
                Ok(bytes) => (filled + bytes, None),
                Err(e) => (filled, Some(e)),
            }
        }
    }
}

/// Whether the positions of the blocks can be told apart as signed numbers,
/// and each block can be made in memory.
pub open spec fn writable(s: Seq<BlockView>) -> bool {
    &&& forall|i: int|
        0 <= i < s.len() ==> (#[trigger] s[i]).last_byte < u64::MAX && s[i].source.fits_in_memory()
    &&& forall|i: int|
        0 < i <= s.len() ==> i64::MIN <= #[trigger] gap_before_last(s.take(i)) <= i64::MAX
}

/// A list of blocks, in the order in which they are read.
pub struct Sequence<S = Source> {
    pub blocks: Vec<WorkingBlock<S>>,
}

impl<S: DataSource> View for Sequence<S> {
    type V = Seq<BlockView>;

    open spec fn view(&self) -> Seq<BlockView> {
        views(self.blocks@)
    }
}

/// Going past the blocks that start after `b`, from the end, finds the place
/// where `b` goes.
proof fn lemma_insert_by_first_at(s: Seq<BlockView>, b: BlockView, at: int)
    requires
        0 <= at <= s.len(),
        at > 0 ==> s[at - 1].first_byte <= b.first_byte,
        forall|j: int| at <= j < s.len() ==> (#[trigger] s[j]).first_byte > b.first_byte,
    ensures
        insert_by_first(s, b) == s.insert(at, b),
    decreases s.len(),
{
    if at == s.len() {
        assert(s.insert(at, b) =~= s.push(b));
    } else {
        lemma_insert_by_first_at(s.drop_last(), b, at);
        assert(s.insert(at, b) =~= s.drop_last().insert(at, b).push(s.last()));
    }
}

/// Puts `block` in front of the blocks that start after it.
fn insert_block<S: DataSource>(blocks: &mut Vec<WorkingBlock<S>>, block: WorkingBlock<S>)
    ensures
        views(final(blocks)@) == insert_by_first(views(old(blocks)@), block@),
{
    let mut at: usize = blocks.len();
    while at > 0 && blocks[at - 1].first_byte > block.first_byte
        invariant
            at <= blocks.len(),
            forall|j: int|
                at <= j < blocks.len() ==> (#[trigger] views(blocks@)[j]).first_byte
                    > block.first_byte,
        decreases at,
    {
        at = at - 1;
    }
    proof {
        lemma_insert_by_first_at(views(blocks@), block@, at as int);
    }
    blocks.insert(at, block);
    assert(views(blocks@) =~= views(old(blocks)@).insert(at as int, block@));
}

/// Appends `count` zeros.
pub(crate) fn write_zeros(w: &mut Vec<u8>, count: u64)
    ensures
        final(w)@ == old(w)@ + zeros(count as nat),
{
    let mut left: u64 = count;
    while left > 0
        invariant
            left <= count,
            w@ == old(w)@ + zeros((count - left) as nat),
        decreases left,
    {
        w.push(0);
        left = left - 1;
        assert(w@ =~= old(w)@ + zeros((count - left) as nat));
    }
    assert(w@ =~= old(w)@ + zeros(count as nat));
}

impl<S: DataSource> Sequence<S> {
    /// A sequence of these blocks.
    pub fn new(blocks: Vec<WorkingBlock<S>>) -> (r: Self)
        ensures
            r@ == views(blocks@),
    {
        Sequence { blocks }
    }

    /// Appends the concrete data for the entire sequence to `w`, filling
    /// gaps with zeros. Returns the number of bytes written.
    pub fn concrete_data_to_writer(&self, context: &FloconContext, w: &mut Vec<u8>) -> (r: Result<
        usize,
        Error,
    >)
        requires
            writable(self@),
        ensures
            final(w)@ == old(w)@ + written_out(self@, context@).0,
            match written_out(self@, context@).1 {
                None => r matches Ok(n) && n == written_out(self@, context@).0.len(),
                Some(error) => r matches Err(e) && e@ == error,
            },
    {
        let start: usize = w.len();
        let mut i: usize = 0;
        let mut current_pos: u64 = if self.blocks.len() > 0 {
            self.blocks[0].first_byte
        } else {
            0
        };
        assert(w@ =~= old(w)@ + written_out(self@.take(0), context@).0);
        while i < self.blocks.len()
            invariant
                i <= self.blocks.len(),
                start == old(w)@.len(),
                writable(self@),
                w@ == old(w)@ + written_out(self@.take(i as int), context@).0,
                written_out(self@.take(i as int), context@).1 is None,
                i == 0 && self.blocks.len() > 0 ==> current_pos == self.blocks[0].first_byte,
                i > 0 ==> current_pos == self@[i - 1].last_byte + 1,
            decreases self.blocks.len() - i,
        {
            let block = &self.blocks[i];
            let ghost next = self@.take(i + 1);
            assert(block@ == self@[i as int]);
            assert(next.drop_last() =~= self@.take(i as int));
            assert(next.last() == block@);
            assert(i > 0 ==> next[next.len() - 2] == self@[i - 1]);
            assert((block.first_byte as i64) - (current_pos as i64) == gap_before_last(next));
            let gap_size: i64 = (block.first_byte as i64) - (current_pos as i64);
            if gap_size > 0 {
                write_zeros(w, gap_size as u64);
            }
            match block.concrete_data_to_writer(context, w) {
                Ok(_) => {},
                Err(e) => {
                    proof {
                        lemma_error_stays(self@, context@, i + 1);
                    }
                    assert(w@ =~= old(w)@ + written_out(self@, context@).0);
                    return Err(e);
                },
            }
            assert(w@ =~= old(w)@ + written_out(next, context@).0);
            current_pos = block.last_byte + 1;
            i = i + 1;
        }
        assert(self@.take(i as int) =~= self@);
        let end: usize = w.len();
        Ok(end - start)
    }

    /// Returns the concrete data for the entire sequence, filling gaps with
    /// zeros.
    pub fn concrete_data(&self, context: &FloconContext) -> (r: Vec<u8>)
        requires
            writable(self@),
            written_out(self@, context@).1 is None,
        ensures
            r@ == written_out(self@, context@).0,
    {
        let mut v: Vec<u8> = Vec::new();
        let _ = self.concrete_data_to_writer(context, &mut v);
        assert(v@ =~= written_out(self@, context@).0);
        v
    }

    /// Clips the sequence within the given boundaries.
    pub fn clip(&self, first_byte: u64, last_byte: u64) -> (r: Sequence<S>)
        requires
            self@.len() > 0 ==> first_byte <= last_byte,
            first_byte > 0 || last_byte < u64::MAX || forall|i: int|
                0 <= i < self@.len() ==> (#[trigger] self@[i]).first_byte > 0 || self@[i].last_byte
                    < u64::MAX,
        ensures
            r@ == clip_all(self@, first_byte, last_byte),
    {
        let mut clipped: Vec<WorkingBlock<S>> = Vec::new();
        assert(views(clipped@) =~= clip_all(self@.take(0), first_byte, last_byte));
        let mut i: usize = 0;
        while i < self.blocks.len()
            invariant
                i <= self.blocks.len(),
                self@.len() > 0 ==> first_byte <= last_byte,
                first_byte > 0 || last_byte < u64::MAX || forall|i: int|
                    0 <= i < self@.len() ==> (#[trigger] self@[i]).first_byte > 0
                        || self@[i].last_byte < u64::MAX,
                views(clipped@) == clip_all(self@.take(i as int), first_byte, last_byte),
            decreases self.blocks.len() - i,
        {
            assert(self.blocks[i as int]@ == self@[i as int]);
            assert(self@.take(i + 1).drop_last() =~= self@.take(i as int));
            if let Ok(clipped_block) = self.blocks[i].clip(first_byte, last_byte) {
                let ghost before = clipped@;
                clipped.push(clipped_block);
                assert(views(clipped@) =~= views(before).push(clipped_block@));
            }
            i = i + 1;
        }
        assert(self@.take(i as int) =~= self@);
        Sequence::new(clipped)
    }

    /// Inserts this block into the sequence and remove overlapping parts.
    pub fn replace(&self, block: WorkingBlock<S>) -> (r: Sequence<S>)
        requires
            self@.len() > 0 ==> block.first_byte <= block.last_byte,
            forall|i: int|
                0 <= i < self@.len() ==> (#[trigger] self@[i]).removable(
                    block.first_byte,
                    block.last_byte,
                ),
        ensures
            r@ == replace_block(self@, block@),
    {
        let fb: u64 = block.first_byte;
        let lb: u64 = block.last_byte;
        let ghost new = block@;
        let mut new_blocks: Vec<WorkingBlock<S>> = Vec::new();
        new_blocks.push(block);
        proof {
            assert(views(new_blocks@) =~= seq![new]);
            assert(seq![new] + remove_all(self@.take(0), fb, lb) =~= seq![new]);
            assert(seq![new].drop_last() =~= seq![]);
            reveal_with_fuel(sort_by_first, 2);
            assert(sort_by_first(seq![new]) =~= seq![new]);
        }
        let mut i: usize = 0;
        while i < self.blocks.len()
            invariant
                i <= self.blocks.len(),
                self@.len() > 0 ==> fb <= lb,
                forall|i: int| 0 <= i < self@.len() ==> (#[trigger] self@[i]).removable(fb, lb),
                views(new_blocks@) == sort_by_first(
                    seq![new] + remove_all(self@.take(i as int), fb, lb),
                ),
            decreases self.blocks.len() - i,
        {
            assert(self.blocks[i as int]@ == self@[i as int]);
            assert(self@.take(i + 1).drop_last() =~= self@.take(i as int));
            let ghost done = seq![new] + remove_all(self@.take(i as int), fb, lb);
            let mut pieces = self.blocks[i].remove(fb, lb);
            let ghost all = views(pieces@);
            let ghost mut k: int = 0;
            assert(done + all.take(0) =~= done);
            while pieces.len() > 0
                invariant
                    0 <= k <= all.len(),
                    views(pieces@) == all.skip(k),
                    views(new_blocks@) == sort_by_first(done + all.take(k)),
                decreases pieces.len(),
            {
                let ghost left = pieces@;
                let piece = pieces.remove(0);
                proof {
                    assert(views(left).len() == all.len() - k);
                    assert(piece@ == views(left)[0]);
                    assert(all.skip(k)[0] == all[k]);
                    assert(views(pieces@) =~= views(left).skip(1));
                    assert(views(left).skip(1) =~= all.skip(k + 1));
                    let longer = done + all.take(k + 1);
                    assert(longer.drop_last() =~= done + all.take(k));
                    assert(longer.last() == piece@);
                    k = k + 1;
                }
                insert_block(&mut new_blocks, piece);
            }
            assert(all.take(k) =~= all);
            assert(done + all =~= seq![new] + remove_all(self@.take(i + 1), fb, lb));
            i = i + 1;
        }
        assert(self@.take(i as int) =~= self@);
        Sequence::new(new_blocks)
    }
}

/// Once a block could not be read, nothing more is written.
proof fn lemma_error_stays(s: Seq<BlockView>, blobs: Map<u64, Seq<u8>>, at: int)
    requires
        0 <= at <= s.len(),
        written_out(s.take(at), blobs).1 is Some,
    ensures
        written_out(s, blobs) == written_out(s.take(at), blobs),
    decreases s.len(),
{
    if at == s.len() {
        assert(s.take(at) =~= s);
    } else {
        assert(s.drop_last().take(at) =~= s.take(at));
        lemma_error_stays(s.drop_last(), blobs, at);
    }
}

} // verus!
