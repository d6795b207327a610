//! What lists of blocks say about the bytes of a file, and the laws of cutting,
//! replacing and reading them.

use vstd::prelude::*;
use crate::blocks::{BlockView, SourceView};

verus! {

impl SourceView {
    /// Whether all the bytes that the source stands for are at hand.
    pub open spec fn complete(self, blobs: Map<u64, Seq<u8>>) -> bool {
        match self {
            SourceView::Memory { data, offset, size } => {
                &&& offset + size <= data.len()
                &&& offset + size <= u64::MAX
            },
            SourceView::Zero { .. } => true,
            SourceView::Sqlite { block_id, offset, size } => {
                &&& block_id <= i64::MAX
                &&& blobs.contains_key(block_id)
                &&& offset + size <= blobs[block_id].len()
                &&& offset + size <= i64::MAX
            },
        }
    }

    /// The bytes that a complete source stands for.
    pub open spec fn bytes(self, blobs: Map<u64, Seq<u8>>) -> Seq<u8> {
        self.reads(blobs)->Ok_0
    }
}

impl BlockView {
    /// Whether the block's source holds exactly the bytes from its first to
    /// its last.
    pub open spec fn wf(self, blobs: Map<u64, Seq<u8>>) -> bool {
        &&& self.first_byte <= self.last_byte
        &&& self.source.size() == self.last_byte - self.first_byte + 1
        &&& self.source.complete(blobs)
    }

    /// Whether the byte at this position of the file lies in the block.
    pub open spec fn covers(self, at: int) -> bool {
        self.first_byte <= at <= self.last_byte
    }

    /// The byte that the block gives for this position of the file.
    pub open spec fn byte(self, blobs: Map<u64, Seq<u8>>, at: int) -> u8 {
        self.source.bytes(blobs)[at - self.first_byte]
    }

    /// Whether the block says that the file holds `value` at this position.
    pub open spec fn says(self, blobs: Map<u64, Seq<u8>>, at: int, value: u8) -> bool {
        self.covers(at) && self.byte(blobs, at) == value
    }
}

/// Whether every block holds exactly its bytes.
pub open spec fn all_wf(s: Seq<BlockView>, blobs: Map<u64, Seq<u8>>) -> bool {
    forall|b: BlockView| #[trigger] s.contains(b) ==> b.wf(blobs)
}

/// Whether some block of the list says that the file holds `value` at this
/// position.
pub open spec fn shows(s: Seq<BlockView>, blobs: Map<u64, Seq<u8>>, at: int, value: u8) -> bool {
    exists|b: BlockView| #[trigger] s.contains(b) && b.says(blobs, at, value)
}

/// Whether some block of the list covers this position.
pub open spec fn covered(s: Seq<BlockView>, at: int) -> bool {
    exists|b: BlockView| #[trigger] s.contains(b) && b.covers(at)
}

/// Whether each block ends before the next ones start.
pub open spec fn in_order(s: Seq<BlockView>) -> bool {
    forall|i: int, j: int|
        0 <= i < j < s.len() ==> (#[trigger] s[i]).last_byte < (#[trigger] s[j]).first_byte
}

/// Whether the blocks start one after the other.
pub open spec fn sorted(s: Seq<BlockView>) -> bool {
    forall|i: int, j: int|
        0 <= i <= j < s.len() ==> (#[trigger] s[i]).first_byte <= (#[trigger] s[j]).first_byte
}

/// Whether two blocks share no position.
pub open spec fn apart(a: BlockView, b: BlockView) -> bool {
    a.last_byte < b.first_byte || b.last_byte < a.first_byte
}

/// Whether no two blocks of the list share a position.
pub open spec fn no_overlap(s: Seq<BlockView>) -> bool {
    forall|i: int, j: int|
        0 <= i < j < s.len() ==> apart(#[trigger] s[i], #[trigger] s[j])
}

/// A complete source reads to as many bytes as it stands for.
pub proof fn complete_source_reads_its_size(source: SourceView, blobs: Map<u64, Seq<u8>>)
    requires
        source.complete(blobs),
    ensures
        source.reads(blobs) is Ok,
        source.bytes(blobs).len() == source.size(),
{
}

/// A slice within a complete source succeeds, and reads to just those bytes of
/// the whole.
pub proof fn slice_reads_those_bytes(
    source: SourceView,
    blobs: Map<u64, Seq<u8>>,
    offset: u64,
    size: u64,
)
    requires
        source.complete(blobs),
        offset + size <= source.size(),
    ensures
        source.slice(offset, size) matches Ok(part) && {
            &&& part.complete(blobs)
            &&& part.size() == size
            &&& part.bytes(blobs) == source.bytes(blobs).subrange(offset as int, offset + size)
        },
{
    let part = source.slice(offset, size)->Ok_0;
    assert(part.bytes(blobs) =~= source.bytes(blobs).subrange(offset as int, offset + size));
}

/// A slice that reaches beyond its source fails.
pub proof fn slice_beyond_source_fails(source: SourceView, offset: u64, size: u64)
    requires
        offset + size > source.size(),
    ensures
        source.slice(offset, size) is Err,
{
}

/// Clipping a block to a range that it meets gives the bytes of the block in
/// that range and no others; clipping it to any other range fails.
pub proof fn clip_keeps_bytes_in_range(
    b: BlockView,
    blobs: Map<u64, Seq<u8>>,
    first_byte: u64,
    last_byte: u64,
)
    requires
        b.wf(blobs),
        first_byte <= last_byte,
    ensures
        match b.clip(first_byte, last_byte) {
            Ok(c) => {
                &&& b.meets(first_byte, last_byte)
                &&& c.wf(blobs)
                &&& forall|at: int, value: u8| #[trigger]
                    c.says(blobs, at, value) <==> first_byte <= at <= last_byte && b.says(
                        blobs,
                        at,
                        value,
                    )
            },
            Err(text) => {
                &&& !b.meets(first_byte, last_byte)
                &&& text == "Clipping range does not intersect with block range"@
            },
        },
{
    if b.meets(first_byte, last_byte) {
        let c = b.clip(first_byte, last_byte)->Ok_0;
        let first = if b.first_byte >= first_byte { b.first_byte } else { first_byte };
        let last = if b.last_byte <= last_byte { b.last_byte } else { last_byte };
        slice_reads_those_bytes(
            b.source,
            blobs,
            (first - b.first_byte) as u64,
            (last - first + 1) as u64,
        );
    }
}

/// A clipped block is the stored block exactly if nothing was cut off.
pub proof fn clip_keeps_id_only_of_whole_block(
    b: BlockView,
    blobs: Map<u64, Seq<u8>>,
    first_byte: u64,
    last_byte: u64,
)
    requires
        b.wf(blobs),
        b.id is Some,
        first_byte <= last_byte,
        b.meets(first_byte, last_byte),
    ensures
        b.clip(first_byte, last_byte) matches Ok(c) && (c.id == b.id <==> c.first_byte
            == b.first_byte && c.last_byte == b.last_byte),
{
    clip_keeps_bytes_in_range(b, blobs, first_byte, last_byte);
}

/// Removing a range from a block leaves the bytes of the block outside the
/// range and no others, in order.
pub proof fn remove_keeps_bytes_outside_range(
    b: BlockView,
    blobs: Map<u64, Seq<u8>>,
    first_byte: u64,
    last_byte: u64,
)
    requires
        b.wf(blobs),
        first_byte <= last_byte,
    ensures
        b.removable(first_byte, last_byte),
        b.remove(first_byte, last_byte).len() <= 2,
        all_wf(b.remove(first_byte, last_byte), blobs),
        in_order(b.remove(first_byte, last_byte)),
        forall|at: int, value: u8| #[trigger]
            shows(b.remove(first_byte, last_byte), blobs, at, value) <==> !(first_byte <= at
                <= last_byte) && b.says(blobs, at, value),
        forall|p: BlockView| #[trigger]
            b.remove(first_byte, last_byte).contains(p) ==> {
                &&& b.first_byte <= p.first_byte
                &&& p.last_byte <= b.last_byte
                &&& !p.meets(first_byte, last_byte)
            },
{
    let pieces = b.remove(first_byte, last_byte);
    if b.meets(first_byte, last_byte) {
        if b.first_byte < first_byte {
            slice_reads_those_bytes(b.source, blobs, 0, (first_byte - b.first_byte) as u64);
            assert(pieces[0] == b.before(first_byte));
        }
        if last_byte < b.last_byte {
            slice_reads_those_bytes(
                b.source,
                blobs,
                (last_byte + 1 - b.first_byte) as u64,
                (b.last_byte - last_byte) as u64,
            );
            assert(pieces.last() == b.after(last_byte));
        }
    } else {
        assert(pieces[0] == b);
    }
    assert forall|at: int, value: u8| #[trigger]
        shows(pieces, blobs, at, value) <==> !(first_byte <= at <= last_byte) && b.says(
            blobs,
            at,
            value,
        ) by {
        if shows(pieces, blobs, at, value) {
            let p = choose|p: BlockView| #[trigger] pieces.contains(p) && p.says(blobs, at, value);
            let i = choose|i: int| 0 <= i < pieces.len() && pieces[i] == p;
            assert(i == 0 || i == pieces.len() - 1);
        }
        if !(first_byte <= at <= last_byte) && b.says(blobs, at, value) {
            if !b.meets(first_byte, last_byte) {
                assert(pieces.contains(b));
            } else if at < first_byte {
                assert(pieces.contains(b.before(first_byte)));
                assert(b.before(first_byte).says(blobs, at, value));
            } else {
                assert(pieces.contains(b.after(last_byte)));
                assert(b.after(last_byte).says(blobs, at, value));
            }
        }
    }
}

/// Where a block goes in a list of blocks that start one after the other.
proof fn lemma_insert_by_first(s: Seq<BlockView>, b: BlockView) -> (at: int)
    ensures
        0 <= at <= s.len(),
        crate::blocks::insert_by_first(s, b) == s.insert(at, b),
        sorted(s) ==> sorted(s.insert(at, b)),
        at > 0 ==> s[at - 1].first_byte <= b.first_byte,
        forall|j: int| at <= j < s.len() ==> (#[trigger] s[j]).first_byte > b.first_byte,
    decreases s.len(),
{
    if s.len() == 0 || s.last().first_byte <= b.first_byte {
        assert(s.insert(s.len() as int, b) =~= s.push(b));
        s.len() as int
    } else {
        let at = lemma_insert_by_first(s.drop_last(), b);
        assert(s.insert(at, b) =~= s.drop_last().insert(at, b).push(s.last()));
        assert forall|j: int| at <= j < s.len() implies (#[trigger] s[j]).first_byte
            > b.first_byte by {
            assert(j < s.len() - 1 ==> s[j] == s.drop_last()[j]);
        }
        at
    }
}

/// Inserting an element adds it to what a list contains.
pub proof fn lemma_insert_contains(s: Seq<BlockView>, at: int, b: BlockView)
    requires
        0 <= at <= s.len(),
    ensures
        forall|x: BlockView| #[trigger] s.insert(at, b).contains(x) <==> s.contains(x) || x == b,
{
    let t = s.insert(at, b);
    assert forall|x: BlockView| #[trigger] t.contains(x) <==> s.contains(x) || x == b by {
        if s.contains(x) {
            let i = choose|i: int| 0 <= i < s.len() && s[i] == x;
            assert(t[if i < at { i } else { i + 1 }] == x);
        }
        assert(t[at] == b);
        if t.contains(x) && x != b {
            let i = choose|i: int| 0 <= i < t.len() && t[i] == x;
            assert(s[if i < at { i } else { i - 1 }] == x);
        }
    }
}

/// Appending an element adds it to what a list contains.
pub proof fn lemma_push_contains(s: Seq<BlockView>, b: BlockView)
    ensures
        forall|x: BlockView| #[trigger] s.push(b).contains(x) <==> s.contains(x) || x == b,
{
    lemma_insert_contains(s, s.len() as int, b);
    assert(s.insert(s.len() as int, b) =~= s.push(b));
}

/// What two lists contain together.
pub proof fn lemma_add_contains(s: Seq<BlockView>, t: Seq<BlockView>)
    ensures
        forall|x: BlockView| #[trigger] (s + t).contains(x) <==> s.contains(x) || t.contains(x),
{
    assert forall|x: BlockView| #[trigger] (s + t).contains(x) <==> s.contains(x) || t.contains(
        x,
    ) by {
        if s.contains(x) {
            let i = choose|i: int| 0 <= i < s.len() && s[i] == x;
            assert((s + t)[i] == x);
        }
        if t.contains(x) {
            let i = choose|i: int| 0 <= i < t.len() && t[i] == x;
            assert((s + t)[s.len() + i] == x);
        }
        if (s + t).contains(x) {
            let i = choose|i: int| 0 <= i < (s + t).len() && (s + t)[i] == x;
            if i < s.len() {
                assert(s[i] == x);
            } else {
                assert(t[i - s.len()] == x);
            }
        }
    }
}

/// The last element and the ones before it are what a list contains.
pub proof fn lemma_last_contains(s: Seq<BlockView>)
    requires
        s.len() > 0,
    ensures
        forall|x: BlockView| #[trigger]
            s.contains(x) <==> s.drop_last().contains(x) || x == s.last(),
{
    lemma_push_contains(s.drop_last(), s.last());
    assert(s.drop_last().push(s.last()) =~= s);
}

/// Sorting puts the same blocks one after the other by their first bytes.
pub proof fn sort_orders_the_same_blocks(s: Seq<BlockView>)
    ensures
        sorted(crate::blocks::sort_by_first(s)),
        crate::blocks::sort_by_first(s).len() == s.len(),
        forall|b: BlockView| #[trigger]
            crate::blocks::sort_by_first(s).contains(b) <==> s.contains(b),
        no_overlap(s) ==> no_overlap(crate::blocks::sort_by_first(s)),
    decreases s.len(),
{
    if s.len() > 0 {
        let head = s.drop_last();
        sort_orders_the_same_blocks(head);
        let sorted_head = crate::blocks::sort_by_first(head);
        let at = lemma_insert_by_first(sorted_head, s.last());
        lemma_insert_contains(sorted_head, at, s.last());
        lemma_last_contains(s);
        if no_overlap(s) {
            assert(no_overlap(head));
            let t = sorted_head.insert(at, s.last());
            assert forall|i: int, j: int| 0 <= i < j < t.len() implies apart(
                #[trigger] t[i],
                #[trigger] t[j],
            ) by {
                if i == at || j == at {
                    let k = if i == at { j } else { i };
                    let other = t[k];
                    assert(other == sorted_head[if k < at { k } else { k - 1 }]);
                    assert(sorted_head.contains(other));
                    let m = choose|m: int| 0 <= m < head.len() && head[m] == other;
                    assert(s[m] == other);
                    assert(apart(s[m], s[s.len() - 1]));
                } else {
                    assert(t[i] == sorted_head[if i < at { i } else { i - 1 }]);
                    assert(t[j] == sorted_head[if j < at { j } else { j - 1 }]);
                }
            }
        }
    }
}

/// Whether a block starts at this byte.
pub open spec fn starts_at(first_byte: u64) -> spec_fn(BlockView) -> bool {
    |b: BlockView| b.first_byte == first_byte
}

/// Sorting keeps the order of the blocks that start at the same byte.
pub proof fn sort_is_stable(s: Seq<BlockView>, first_byte: u64)
    ensures
        crate::blocks::sort_by_first(s).filter(starts_at(first_byte)) == s.filter(
            starts_at(first_byte),
        ),
    decreases s.len(),
{
    reveal(Seq::filter);
    if s.len() > 0 {
        let head = s.drop_last();
        sort_is_stable(head, first_byte);
        sort_orders_the_same_blocks(head);
        let t = crate::blocks::sort_by_first(head);
        lemma_filter_insert(t, s.last(), first_byte);
        assert(t.push(s.last()).drop_last() =~= t);
    }
}

/// A block comes after all those that start at the same byte.
proof fn lemma_filter_insert(s: Seq<BlockView>, b: BlockView, first_byte: u64)
    requires
        sorted(s),
    ensures
        crate::blocks::insert_by_first(s, b).filter(starts_at(first_byte)) == s.push(b).filter(
            starts_at(first_byte),
        ),
    decreases s.len(),
{
    if s.len() > 0 && s.last().first_byte > b.first_byte {
        let head = s.drop_last();
        let same = starts_at(first_byte);
        lemma_filter_insert(head, b, first_byte);
        crate::blocks::insert_by_first(head, b).lemma_filter_push(s.last(), same);
        head.lemma_filter_push(b, same);
        head.lemma_filter_push(s.last(), same);
        assert(head.push(s.last()) =~= s);
        s.lemma_filter_push(b, same);
    }
}

/// Removing a range from a list of blocks leaves the bytes outside the range
/// and no others.
pub proof fn remove_all_keeps_bytes_outside_range(
    s: Seq<BlockView>,
    blobs: Map<u64, Seq<u8>>,
    first_byte: u64,
    last_byte: u64,
)
    requires
        all_wf(s, blobs),
        first_byte <= last_byte,
    ensures
        forall|b: BlockView| #[trigger] s.contains(b) ==> b.removable(first_byte, last_byte),
        all_wf(crate::blocks::remove_all(s, first_byte, last_byte), blobs),
        forall|at: int, value: u8| #[trigger]
            shows(crate::blocks::remove_all(s, first_byte, last_byte), blobs, at, value) <==> !(
            first_byte <= at <= last_byte) && shows(s, blobs, at, value),
        forall|p: BlockView| #[trigger]
            crate::blocks::remove_all(s, first_byte, last_byte).contains(p) ==> !p.meets(
                first_byte,
                last_byte,
            ) && lies_within_one(p, s),
        no_overlap(s) ==> no_overlap(crate::blocks::remove_all(s, first_byte, last_byte)),
    decreases s.len(),
{
    let r = crate::blocks::remove_all(s, first_byte, last_byte);
    if s.len() > 0 {
        let head = s.drop_last();
        let b = s.last();
        lemma_last_contains(s);
        assert(s.contains(b));
        assert forall|x: BlockView| #[trigger] head.contains(x) implies x.wf(blobs) by {
            assert(s.contains(x));
        }
        remove_all_keeps_bytes_outside_range(head, blobs, first_byte, last_byte);
        remove_keeps_bytes_outside_range(b, blobs, first_byte, last_byte);
        let left = crate::blocks::remove_all(head, first_byte, last_byte);
        let pieces = b.remove(first_byte, last_byte);
        lemma_add_contains(left, pieces);
        assert forall|at: int, value: u8| #[trigger]
            shows(r, blobs, at, value) <==> !(first_byte <= at <= last_byte) && shows(
                s,
                blobs,
                at,
                value,
            ) by {
            lemma_shows_add(left, pieces, blobs, at, value);
            lemma_shows_last(s, blobs, at, value);
            assert(shows(left, blobs, at, value) <==> !(first_byte <= at <= last_byte) && shows(
                head,
                blobs,
                at,
                value,
            ));
        }
        assert forall|p: BlockView| #[trigger] r.contains(p) implies !p.meets(
            first_byte,
            last_byte,
        ) && lies_within_one(p, s) by {
            if left.contains(p) {
                let x = choose|x: BlockView| #[trigger]
                    head.contains(x) && x.first_byte <= p.first_byte && p.last_byte <= x.last_byte;
                assert(s.contains(x));
            } else {
                assert(pieces.contains(p));
            }
        }
        if no_overlap(s) {
            assert(no_overlap(head));
            assert forall|i: int, j: int| 0 <= i < j < r.len() implies apart(
                #[trigger] r[i],
                #[trigger] r[j],
            ) by {
                if j < left.len() {
                    assert(apart(left[i], left[j]));
                } else if i >= left.len() {
                    assert(pieces[i - left.len()].last_byte < pieces[j - left.len()].first_byte);
                } else {
                    assert(left.contains(left[i]));
                    let x = choose|x: BlockView| #[trigger]
                        head.contains(x) && x.first_byte <= left[i].first_byte
                            && left[i].last_byte <= x.last_byte;
                    let m = choose|m: int| 0 <= m < head.len() && head[m] == x;
                    assert(s[m] == x);
                    assert(apart(s[m], s[s.len() - 1]));
                    assert(pieces.contains(pieces[j - left.len()]));
                    assert(pieces[j - left.len()].wf(blobs));
                    assert(left[i].wf(blobs));
                }
            }
        }
    }
}

/// Whether the block lies within one block of the list.
pub open spec fn lies_within_one(p: BlockView, s: Seq<BlockView>) -> bool {
    exists|x: BlockView| #[trigger]
        s.contains(x) && x.first_byte <= p.first_byte && p.last_byte <= x.last_byte
}

/// Two lists together show what either shows.
pub proof fn lemma_shows_add(
    s: Seq<BlockView>,
    t: Seq<BlockView>,
    blobs: Map<u64, Seq<u8>>,
    at: int,
    value: u8,
)
    ensures
        shows(s + t, blobs, at, value) <==> shows(s, blobs, at, value) || shows(
            t,
            blobs,
            at,
            value,
        ),
{
    lemma_add_contains(s, t);
    if shows(s, blobs, at, value) {
        let b = choose|b: BlockView| #[trigger] s.contains(b) && b.says(blobs, at, value);
        assert((s + t).contains(b));
    }
    if shows(t, blobs, at, value) {
        let b = choose|b: BlockView| #[trigger] t.contains(b) && b.says(blobs, at, value);
        assert((s + t).contains(b));
    }
}

/// A list shows what its last block says and what the ones before it show.
pub proof fn lemma_shows_last(s: Seq<BlockView>, blobs: Map<u64, Seq<u8>>, at: int, value: u8)
    requires
        s.len() > 0,
    ensures
        shows(s, blobs, at, value) <==> shows(s.drop_last(), blobs, at, value) || s.last().says(
            blobs,
            at,
            value,
        ),
{
    lemma_last_contains(s);
    assert(s.contains(s.last()));
    if shows(s.drop_last(), blobs, at, value) {
        let b = choose|b: BlockView| #[trigger]
            s.drop_last().contains(b) && b.says(blobs, at, value);
        assert(s.contains(b));
    }
}

/// Replacing a block overwrites exactly the bytes in its range: there the
/// sequence now shows the new block, and everywhere else what it showed.
pub proof fn replace_overwrites_exactly_its_range(
    s: Seq<BlockView>,
    b: BlockView,
    blobs: Map<u64, Seq<u8>>,
)
    requires
        all_wf(s, blobs),
        b.wf(blobs),
    ensures
        all_wf(crate::blocks::replace_block(s, b), blobs),
        sorted(crate::blocks::replace_block(s, b)),
        crate::blocks::replace_block(s, b).contains(b),
        no_overlap(s) ==> no_overlap(crate::blocks::replace_block(s, b)),
        forall|at: int, value: u8| #[trigger]
            shows(crate::blocks::replace_block(s, b), blobs, at, value) <==> if b.covers(at) {
                b.byte(blobs, at) == value
            } else {
                shows(s, blobs, at, value)
            },
{
    let left = crate::blocks::remove_all(s, b.first_byte, b.last_byte);
    let t = seq![b] + left;
    let r = crate::blocks::replace_block(s, b);
    remove_all_keeps_bytes_outside_range(s, blobs, b.first_byte, b.last_byte);
    sort_orders_the_same_blocks(t);
    lemma_add_contains(seq![b], left);
    assert(seq![b].contains(b)) by {
        assert(seq![b][0] == b);
    }
    assert(t.contains(b));
    assert forall|x: BlockView| #[trigger] r.contains(x) implies x.wf(blobs) by {
        assert(t.contains(x));
        if !left.contains(x) {
            assert(seq![b].contains(x));
        }
    }
    if no_overlap(s) {
        assert forall|i: int, j: int| 0 <= i < j < t.len() implies apart(
            #[trigger] t[i],
            #[trigger] t[j],
        ) by {
            if i == 0 {
                assert(left.contains(left[j - 1]));
            } else {
                assert(apart(left[i - 1], left[j - 1]));
            }
        }
    }
    assert forall|at: int, value: u8| #[trigger]
        shows(r, blobs, at, value) <==> if b.covers(at) {
            b.byte(blobs, at) == value
        } else {
            shows(s, blobs, at, value)
        } by {
        lemma_shows_add(seq![b], left, blobs, at, value);
        if shows(r, blobs, at, value) {
            let x = choose|x: BlockView| #[trigger] r.contains(x) && x.says(blobs, at, value);
            assert(t.contains(x));
            assert(shows(t, blobs, at, value));
        }
        if shows(t, blobs, at, value) {
            let x = choose|x: BlockView| #[trigger] t.contains(x) && x.says(blobs, at, value);
            assert(r.contains(x));
        }
        assert(shows(seq![b], blobs, at, value) <==> b.says(blobs, at, value)) by {
            assert(seq![b].contains(b));
        }
        assert(shows(left, blobs, at, value) <==> !b.covers(at) && shows(s, blobs, at, value));
    }
}

/// Blocks that start one after the other and do not overlap each end before
/// the next ones start.
pub proof fn sorted_apart_blocks_are_in_order(s: Seq<BlockView>, blobs: Map<u64, Seq<u8>>)
    requires
        all_wf(s, blobs),
        sorted(s),
        no_overlap(s),
    ensures
        in_order(s),
{
    assert forall|i: int, j: int| 0 <= i < j < s.len() implies (#[trigger] s[i]).last_byte < (
    #[trigger] s[j]).first_byte by {
        assert(s.contains(s[i]) && s.contains(s[j]));
        assert(apart(s[i], s[j]));
    }
}

/// Clipping a sequence keeps the bytes within the range and no others, in
/// order.
pub proof fn clip_all_keeps_bytes_in_range(
    s: Seq<BlockView>,
    blobs: Map<u64, Seq<u8>>,
    first_byte: u64,
    last_byte: u64,
)
    requires
        all_wf(s, blobs),
        first_byte <= last_byte,
    ensures
        all_wf(crate::blocks::clip_all(s, first_byte, last_byte), blobs),
        forall|at: int, value: u8| #[trigger]
            shows(crate::blocks::clip_all(s, first_byte, last_byte), blobs, at, value) <==> (
            first_byte <= at <= last_byte && shows(s, blobs, at, value)),
        forall|p: BlockView| #[trigger]
            crate::blocks::clip_all(s, first_byte, last_byte).contains(p) ==> first_byte
                <= p.first_byte && p.last_byte <= last_byte && lies_within_one(p, s),
        in_order(s) ==> in_order(crate::blocks::clip_all(s, first_byte, last_byte)),
    decreases s.len(),
{
    let r = crate::blocks::clip_all(s, first_byte, last_byte);
    if s.len() > 0 {
        let head = s.drop_last();
        let b = s.last();
        lemma_last_contains(s);
        assert(s.contains(b));
        assert forall|x: BlockView| #[trigger] head.contains(x) implies x.wf(blobs) by {
            assert(s.contains(x));
        }
        clip_all_keeps_bytes_in_range(head, blobs, first_byte, last_byte);
        clip_keeps_bytes_in_range(b, blobs, first_byte, last_byte);
        let left = crate::blocks::clip_all(head, first_byte, last_byte);
        assert(in_order(s) ==> in_order(head));
        assert forall|p: BlockView| #[trigger] left.contains(p) implies lies_within_one(p, s) by {
            let x = choose|x: BlockView| #[trigger]
                head.contains(x) && x.first_byte <= p.first_byte && p.last_byte <= x.last_byte;
            assert(s.contains(x));
        }
        match b.clip(first_byte, last_byte) {
            Ok(c) => {
                lemma_push_contains(left, c);
                assert forall|at: int, value: u8| #[trigger]
                    shows(r, blobs, at, value) <==> first_byte <= at <= last_byte && shows(
                        s,
                        blobs,
                        at,
                        value,
                    ) by {
                    lemma_shows_last(s, blobs, at, value);
                    lemma_shows_last(r, blobs, at, value);
                    assert(r.drop_last() =~= left);
                    assert(shows(left, blobs, at, value) <==> first_byte <= at <= last_byte
                        && shows(head, blobs, at, value));
                    assert(c.says(blobs, at, value) <==> first_byte <= at <= last_byte && b.says(
                        blobs,
                        at,
                        value,
                    ));
                }
                if in_order(s) {
                    assert forall|i: int, j: int| 0 <= i < j < r.len() implies (
                    #[trigger] r[i]).last_byte < (#[trigger] r[j]).first_byte by {
                        if j < left.len() {
                            assert(left[i].last_byte < left[j].first_byte);
                        } else {
                            assert(left.contains(left[i]));
                            let p = left[i];
                            let x = choose|x: BlockView| #[trigger]
                                head.contains(x) && x.first_byte <= p.first_byte && p.last_byte
                                    <= x.last_byte;
                            let m = choose|m: int| 0 <= m < head.len() && head[m] == x;
                            assert(s[m].last_byte < s[s.len() - 1].first_byte);
                        }
                    }
                }
            },
            Err(_) => {
                assert forall|at: int, value: u8| #[trigger]
                    shows(r, blobs, at, value) <==> first_byte <= at <= last_byte && shows(
                        s,
                        blobs,
                        at,
                        value,
                    ) by {
                    lemma_shows_last(s, blobs, at, value);
                    assert(shows(left, blobs, at, value) <==> first_byte <= at <= last_byte
                        && shows(head, blobs, at, value));
                }
            },
        }
    }
}

/// Writing out blocks that are in order gives the bytes from the first block's
/// start to the last block's end: what the blocks show where they cover the
/// file, and zeros in the gaps between them.
pub proof fn written_out_is_the_content(s: Seq<BlockView>, blobs: Map<u64, Seq<u8>>)
    requires
        s.len() > 0,
        all_wf(s, blobs),
        in_order(s),
        s.last().last_byte < i64::MAX,
    ensures
        crate::blocks::written_out(s, blobs).1 is None,
        crate::blocks::written_out(s, blobs).0.len() == s.last().last_byte + 1 - s[0].first_byte,
        forall|at: int|
            s[0].first_byte <= at <= s.last().last_byte ==> if covered(s, at) {
                shows(s, blobs, at, byte_written(s, blobs, at))
            } else {
                byte_written(s, blobs, at) == 0
            },
    decreases s.len(),
{
    let b = s.last();
    assert(s.contains(b));
    assert(s.contains(s[0]));
    let head = s.drop_last();
    lemma_last_contains(s);
    if s.len() > 1 {
        assert forall|x: BlockView| #[trigger] head.contains(x) implies x.wf(blobs) by {
            assert(s.contains(x));
        }
        assert(s.contains(s[s.len() - 2]));
        assert(head.last() == s[s.len() - 2]);
        assert(s[s.len() - 2].last_byte < b.first_byte);
        written_out_is_the_content(head, blobs);
    }
    assert forall|at: int| s[0].first_byte <= at <= b.last_byte implies if covered(s, at) {
        shows(s, blobs, at, byte_written(s, blobs, at))
    } else {
        byte_written(s, blobs, at) == 0
    } by {
        if at >= b.first_byte {
            assert(b.says(blobs, at, byte_written(s, blobs, at)));
            assert(covered(s, at));
        } else if at > head.last().last_byte {
            if covered(s, at) {
                let x = choose|x: BlockView| #[trigger] s.contains(x) && x.covers(at);
                let m = choose|m: int| 0 <= m < s.len() && s[m] == x;
                assert(m < s.len() - 1);
                assert(m < s.len() - 2 ==> s[m].last_byte < s[s.len() - 2].first_byte);
                assert(s[s.len() - 2].first_byte <= s[s.len() - 2].last_byte);
            }
        } else {
            assert(byte_written(s, blobs, at) == byte_written(head, blobs, at));
            lemma_shows_last(s, blobs, at, byte_written(s, blobs, at));
            if covered(s, at) {
                let x = choose|x: BlockView| #[trigger] s.contains(x) && x.covers(at);
                assert(head.contains(x));
                assert(covered(head, at));
            } else {
                if covered(head, at) {
                    let x = choose|x: BlockView| #[trigger] head.contains(x) && x.covers(at);
                    assert(s.contains(x));
                }
            }
        }
    }
}

/// The byte that stands for this position of the file when the blocks are
/// written out.
pub open spec fn byte_written(s: Seq<BlockView>, blobs: Map<u64, Seq<u8>>, at: int) -> u8 {
    crate::blocks::written_out(s, blobs).0[at - s[0].first_byte]
}

} // verus!
