//! What writing, appending, resizing and reading do to the bytes of a file.
//!
//! The file's rows of the `block` table are taken as a list of stored blocks.
//! A block that goes into the table carries the bytes that its source reads
//! to, so it shows the same bytes before and after it is stored.

use vstd::prelude::*;
use crate::blocks::BlockView;
use crate::sql::StatementView;

verus! {

/// The blocks of the list that are not stored yet.
pub open spec fn new_blocks(s: Seq<BlockView>) -> Seq<BlockView> {
    s.filter(|b: BlockView| b.id is None)
}

/// Whether the block is stored under none of these identifiers.
pub open spec fn outside(gone: Seq<u64>) -> spec_fn(BlockView) -> bool {
    |b: BlockView| b.id matches Some(id) && !gone.contains(id)
}

/// The stored blocks of a file once those with the identifiers `gone` have
/// been taken out and the blocks `added` have been put in.
pub open spec fn table_after(
    table: Seq<BlockView>,
    gone: Seq<u64>,
    added: Seq<BlockView>,
) -> Seq<BlockView> {
    table.filter(outside(gone)) + added
}

/// Whether every block of the list is stored, each under an identifier of its
/// own.
pub open spec fn distinct_ids(s: Seq<BlockView>) -> bool {
    &&& forall|b: BlockView| #[trigger] s.contains(b) ==> b.id is Some
    &&& forall|a: BlockView, b: BlockView| #[trigger]
        s.contains(a) && #[trigger] s.contains(b) && a.id == b.id ==> a == b
}

/// Whether the list holds exactly the blocks of the table that meet the range.
pub open spec fn rows_meeting(
    touched: Seq<BlockView>,
    table: Seq<BlockView>,
    first_byte: u64,
    last_byte: u64,
) -> bool {
    forall|b: BlockView| #[trigger]
        touched.contains(b) <==> table.contains(b) && b.meets(first_byte, last_byte)
}

/// What a filtered list contains, and that filtering brings no overlap.
pub proof fn lemma_filter(s: Seq<BlockView>, keep: spec_fn(BlockView) -> bool)
    ensures
        forall|b: BlockView| #[trigger] s.filter(keep).contains(b) <==> s.contains(b) && keep(b),
        crate::content::no_overlap(s) ==> crate::content::no_overlap(s.filter(keep)),
    decreases s.len(),
{
    reveal(Seq::filter);
    if s.len() > 0 {
        let head = s.drop_last();
        lemma_filter(head, keep);
        crate::content::lemma_last_contains(s);
        if keep(s.last()) {
            let kept = head.filter(keep);
            crate::content::lemma_push_contains(kept, s.last());
            if crate::content::no_overlap(s) {
                assert(crate::content::no_overlap(head));
                let r = kept.push(s.last());
                assert forall|i: int, j: int| 0 <= i < j < r.len() implies crate::content::apart(
                    #[trigger] r[i],
                    #[trigger] r[j],
                ) by {
                    if j == kept.len() {
                        assert(kept.contains(kept[i]));
                        let m = choose|m: int| 0 <= m < head.len() && head[m] == kept[i];
                        assert(crate::content::apart(s[m], s[s.len() - 1]));
                    } else {
                        assert(crate::content::apart(kept[i], kept[j]));
                    }
                }
            }
        } else if crate::content::no_overlap(s) {
            assert(crate::content::no_overlap(head));
        }
    }
}

/// A new block of memory holds exactly its bytes.
proof fn lemma_new_block_wf(start: u64, data: Seq<u8>, blobs: Map<u64, Seq<u8>>)
    requires
        data.len() > 0,
        start + data.len() <= i64::MAX,
    ensures
        crate::storage::new_block(start, data).wf(blobs),
        forall|at: int|
            start <= at < start + data.len() ==> crate::storage::new_block(start, data).byte(
                blobs,
                at,
            ) == data[at - start],
{
    let b = crate::storage::new_block(start, data);
    assert(b.source.bytes(blobs) =~= data);
}

/// Writing over blocks shows the data in its range and leaves everything else
/// as it was. The stored blocks that are left lie outside the range; every
/// block that is left lies within the range or within one block that was there.
#[verifier::spinoff_prover]
#[verifier::rlimit(40)]
pub proof fn overwrite_changes_exactly_its_range(
    s: Seq<BlockView>,
    start: u64,
    data: Seq<u8>,
    block_size: u64,
    blobs: Map<u64, Seq<u8>>,
)
    requires
        crate::content::all_wf(s, blobs),
        block_size > 0,
        start + data.len() <= i64::MAX,
    ensures
        ({
            let r = crate::storage::overwrite(s, start, data, block_size);
            let end = start + data.len();
            &&& crate::content::all_wf(r, blobs)
            &&& crate::content::no_overlap(s) ==> crate::content::no_overlap(r)
            &&& data.len() > 0 ==> crate::content::sorted(r)
            &&& forall|at: int, value: u8| #[trigger]
                crate::content::shows(r, blobs, at, value) <==> if start <= at < end {
                    data[at - start] == value
                } else {
                    crate::content::shows(s, blobs, at, value)
                }
            &&& forall|p: BlockView| #[trigger]
                r.contains(p) && p.id is Some ==> s.contains(p) && (data.len() == 0 || p.last_byte
                    < start || end <= p.first_byte)
            &&& forall|p: BlockView| #[trigger]
                r.contains(p) ==> (start <= p.first_byte && p.last_byte < end)
                    || crate::content::lies_within_one(p, s)
            &&& forall|p: BlockView| #[trigger]
                s.contains(p) && (p.last_byte < start || end <= p.first_byte) ==> r.contains(p)
        }),
    decreases data.len(),
{
    let end = start + data.len();
    if data.len() == 0 {
        assert forall|p: BlockView| #[trigger] s.contains(p) implies crate::content::lies_within_one(
            p,
            s,
        ) by {}
    } else {
        let n = crate::storage::chunk_len(data.len(), block_size);
        let b = crate::storage::new_block(start, data.take(n as int));
        let t = crate::blocks::replace_block(s, b);
        let left = crate::blocks::remove_all(s, b.first_byte, b.last_byte);
        lemma_new_block_wf(start, data.take(n as int), blobs);
        crate::content::replace_overwrites_exactly_its_range(s, b, blobs);
        crate::content::remove_all_keeps_bytes_outside_range(s, blobs, b.first_byte, b.last_byte);
        crate::content::sort_orders_the_same_blocks(seq![b] + left);
        crate::content::lemma_add_contains(seq![b], left);
        assert(seq![b].contains(b)) by {
            assert(seq![b][0] == b);
        }
        let next = (start + n) as u64;
        let rest = data.skip(n as int);
        overwrite_changes_exactly_its_range(t, next, rest, block_size, blobs);
        let r = crate::storage::overwrite(s, start, data, block_size);
        assert(r == crate::storage::overwrite(t, next, rest, block_size));
        if rest.len() == 0 {
            assert(r == t);
        }
        assert forall|at: int, value: u8| #[trigger]
            crate::content::shows(r, blobs, at, value) <==> if start <= at < end {
                data[at - start] == value
            } else {
                crate::content::shows(s, blobs, at, value)
            } by {
            if next <= at < end {
                assert(rest[at - next] == data[at - start]);
            } else {
                assert(crate::content::shows(r, blobs, at, value) <==> crate::content::shows(
                    t,
                    blobs,
                    at,
                    value,
                ));
            }
        }
        assert forall|p: BlockView| #[trigger] r.contains(p) implies {
            &&& p.id is Some ==> s.contains(p) && (p.last_byte < start || end <= p.first_byte)
            &&& (start <= p.first_byte && p.last_byte < end) || crate::content::lies_within_one(p, s)
        } by {
            if p.id is Some {
                assert(t.contains(p));
                assert((seq![b] + left).contains(p));
                assert(left.contains(p));
                lemma_stored_piece(s, b.first_byte, b.last_byte, p);
            }
            if !(next <= p.first_byte && p.last_byte < end) {
                let x = choose|x: BlockView| #[trigger]
                    t.contains(x) && x.first_byte <= p.first_byte && p.last_byte <= x.last_byte;
                assert((seq![b] + left).contains(x));
                if left.contains(x) {
                    let y = choose|y: BlockView| #[trigger]
                        s.contains(y) && y.first_byte <= x.first_byte && x.last_byte <= y.last_byte;
                    assert(y.first_byte <= p.first_byte && p.last_byte <= y.last_byte);
                } else {
                    assert(x == b);
                }
            }
        }
        assert forall|p: BlockView| #[trigger]
            s.contains(p) && (p.last_byte < start || end <= p.first_byte) implies r.contains(p) by {
            lemma_untouched_piece(s, b.first_byte, b.last_byte, p);
            assert((seq![b] + left).contains(p));
            assert(t.contains(p));
        }
    }
}

/// A piece that is still stored was not cut.
proof fn lemma_stored_piece(s: Seq<BlockView>, first_byte: u64, last_byte: u64, p: BlockView)
    requires
        crate::blocks::remove_all(s, first_byte, last_byte).contains(p),
        p.id is Some,
    ensures
        s.contains(p),
    decreases s.len(),
{
    if s.len() > 0 {
        let head = s.drop_last();
        crate::content::lemma_last_contains(s);
        let pieces = s.last().remove(first_byte, last_byte);
        crate::content::lemma_add_contains(
            crate::blocks::remove_all(head, first_byte, last_byte),
            pieces,
        );
        if pieces.contains(p) {
            let i = choose|i: int| 0 <= i < pieces.len() && pieces[i] == p;
            assert(i == 0 || i == 1);
            assert(p == s.last());
        } else {
            lemma_stored_piece(head, first_byte, last_byte, p);
        }
    }
}

/// A block outside the range is left as it is.
proof fn lemma_untouched_piece(s: Seq<BlockView>, first_byte: u64, last_byte: u64, p: BlockView)
    requires
        s.contains(p),
        !p.meets(first_byte, last_byte),
    ensures
        crate::blocks::remove_all(s, first_byte, last_byte).contains(p),
    decreases s.len(),
{
    let head = s.drop_last();
    crate::content::lemma_last_contains(s);
    let pieces = s.last().remove(first_byte, last_byte);
    crate::content::lemma_add_contains(
        crate::blocks::remove_all(head, first_byte, last_byte),
        pieces,
    );
    if p == s.last() {
        assert(pieces[0] == p);
        assert(pieces.contains(p));
    } else {
        lemma_untouched_piece(head, first_byte, last_byte, p);
    }
}

/// What the identifiers of a list of blocks are.
pub proof fn lemma_ids(s: Seq<BlockView>)
    ensures
        forall|id: u64| #[trigger]
            crate::storage::ids(s).contains(id) <==> crate::storage::has_id(s, id),
    decreases s.len(),
{
    if s.len() > 0 {
        let head = s.drop_last();
        lemma_ids(head);
        assert forall|id: u64| #[trigger]
            crate::storage::ids(s).contains(id) <==> crate::storage::has_id(s, id) by {
            let all = crate::storage::ids(s);
            let first = crate::storage::ids(head);
            if crate::storage::has_id(s, id) {
                let i = choose|i: int| 0 <= i < s.len() && (#[trigger] s[i]).id == Some(id);
                if i < head.len() {
                    assert(head[i].id == Some(id));
                    assert(first.contains(id));
                    let k = choose|k: int| 0 <= k < first.len() && first[k] == id;
                    assert(all[k] == id);
                } else {
                    assert(all[first.len() as int] == id);
                }
            }
            if all.contains(id) {
                let k = choose|k: int| 0 <= k < all.len() && all[k] == id;
                if k < first.len() {
                    assert(first[k] == id);
                    assert(first.contains(id));
                    let i = choose|i: int| 0 <= i < head.len() && (#[trigger] head[i]).id == Some(
                        id,
                    );
                    assert(s[i].id == Some(id));
                } else {
                    assert(s[s.len() - 1].id == Some(id));
                }
            }
        }
    }
}

/// A block of a list is stored under its identifier.
proof fn lemma_has_id(s: Seq<BlockView>, b: BlockView)
    requires
        s.contains(b),
        b.id is Some,
    ensures
        crate::storage::has_id(s, b.id->0),
{
    let i = choose|i: int| 0 <= i < s.len() && s[i] == b;
    assert(s[i].id == Some(b.id->0));
}

/// Among blocks with identifiers of their own, those that a write touches are
/// exactly those whose identifiers it takes out.
proof fn lemma_gone(
    table: Seq<BlockView>,
    touched: Seq<BlockView>,
    after: Seq<BlockView>,
    b: BlockView,
)
    requires
        distinct_ids(table),
        forall|x: BlockView| #[trigger] touched.contains(x) ==> table.contains(x),
        forall|x: BlockView| #[trigger]
            after.contains(x) && x.id is Some ==> touched.contains(x),
        table.contains(b),
    ensures
        crate::storage::ids(touched).filter(crate::storage::lost(after)).contains(b.id->0) <==> (
        touched.contains(b) && !after.contains(b)),
{
    let all = crate::storage::ids(touched);
    let lost = crate::storage::lost(after);
    let id = b.id->0;
    lemma_ids(touched);
    lemma_filter_ids(all, lost, id);
    if touched.contains(b) {
        lemma_has_id(touched, b);
    }
    if after.contains(b) {
        lemma_has_id(after, b);
    }
    if crate::storage::has_id(touched, id) {
        let i = choose|i: int| 0 <= i < touched.len() && (#[trigger] touched[i]).id == Some(id);
        assert(touched.contains(touched[i]));
        assert(touched[i] == b);
    }
    if crate::storage::has_id(after, id) {
        let i = choose|i: int| 0 <= i < after.len() && (#[trigger] after[i]).id == Some(id);
        assert(after.contains(after[i]));
        assert(touched.contains(after[i]));
        assert(after[i] == b);
    }
}

/// What a filtered list of identifiers contains.
proof fn lemma_filter_ids(s: Seq<u64>, keep: spec_fn(u64) -> bool, id: u64)
    ensures
        s.filter(keep).contains(id) <==> s.contains(id) && keep(id),
{
    if s.filter(keep).contains(id) {
        s.lemma_filter_contains_rev(keep, id);
        let i = choose|i: int| 0 <= i < s.filter(keep).len() && s.filter(keep)[i] == id;
        s.lemma_filter_pred(keep, i);
    }
    if s.contains(id) && keep(id) {
        let i = choose|i: int| 0 <= i < s.len() && s[i] == id;
        s.lemma_filter_contains(keep, i);
    }
}

/// A write changes exactly its range. Afterwards the file's blocks show the
/// data there and what they showed before everywhere else, they still hold
/// exactly their bytes, and no two of them overlap.
pub proof fn write_changes_exactly_its_range(
    table: Seq<BlockView>,
    touched: Seq<BlockView>,
    start: u64,
    data: Seq<u8>,
    block_size: u64,
    blobs: Map<u64, Seq<u8>>,
)
    requires
        crate::content::all_wf(table, blobs),
        crate::content::no_overlap(table),
        distinct_ids(table),
        data.len() > 0,
        start + data.len() <= i64::MAX,
        block_size > 0,
        rows_meeting(touched, table, start, (start + data.len() - 1) as u64),
        crate::content::no_overlap(touched),
    ensures
        ({
            let after = crate::storage::overwrite(touched, start, data, block_size);
            let gone = crate::storage::ids(touched).filter(crate::storage::lost(after));
            let result = table_after(table, gone, new_blocks(after));
            &&& crate::content::all_wf(result, blobs)
            &&& crate::content::no_overlap(result)
            &&& forall|at: int, value: u8| #[trigger]
                crate::content::shows(result, blobs, at, value) <==> if start <= at < start
                    + data.len() {
                    data[at - start] == value
                } else {
                    crate::content::shows(table, blobs, at, value)
                }
        }),
{
    let end = start + data.len();
    let after = crate::storage::overwrite(touched, start, data, block_size);
    let gone = crate::storage::ids(touched).filter(crate::storage::lost(after));
    let kept = table.filter(outside(gone));
    let is_new = |b: BlockView| b.id is None;
    let added = new_blocks(after);
    let result = kept + added;
    assert forall|x: BlockView| #[trigger] touched.contains(x) implies x.wf(blobs) by {
        assert(table.contains(x));
    }
    overwrite_changes_exactly_its_range(touched, start, data, block_size, blobs);
    lemma_filter(table, outside(gone));
    lemma_filter(after, is_new);
    crate::content::lemma_add_contains(kept, added);
    assert forall|b: BlockView| #[trigger] table.contains(b) implies (kept.contains(b)
        <==> !touched.contains(b)) by {
        assert forall|x: BlockView| #[trigger] touched.contains(x) implies table.contains(x) by {}
        lemma_gone(table, touched, after, b);
        if touched.contains(b) && after.contains(b) {
            assert(b.meets(start, (end - 1) as u64));
        }
    }
    assert forall|b: BlockView| #[trigger] result.contains(b) implies b.wf(blobs) by {
        if kept.contains(b) {
            assert(table.contains(b));
        } else {
            assert(after.contains(b));
        }
    }
    assert forall|i: int, j: int| 0 <= i < j < result.len() implies crate::content::apart(
        #[trigger] result[i],
        #[trigger] result[j],
    ) by {
        if j < kept.len() {
            assert(crate::content::apart(kept[i], kept[j]));
        } else if i >= kept.len() {
            assert(crate::content::apart(added[i - kept.len()], added[j - kept.len()]));
        } else {
            let b = kept[i];
            let p = added[j - kept.len()];
            assert(kept.contains(b));
            assert(added.contains(p));
            assert(table.contains(b));
            assert(!touched.contains(b));
            assert(!b.meets(start, (end - 1) as u64));
            assert(after.contains(p));
            assert(p.wf(blobs) && b.wf(blobs));
            if !(start <= p.first_byte && p.last_byte < end) {
                let x = choose|x: BlockView| #[trigger]
                    touched.contains(x) && x.first_byte <= p.first_byte && p.last_byte
                        <= x.last_byte;
                assert(table.contains(x));
                let m = choose|m: int| 0 <= m < table.len() && table[m] == x;
                let k = choose|k: int| 0 <= k < table.len() && table[k] == b;
                assert(m != k);
                if m < k {
                    assert(crate::content::apart(table[m], table[k]));
                } else {
                    assert(crate::content::apart(table[k], table[m]));
                }
            }
        }
    }
    assert forall|at: int, value: u8| #[trigger]
        crate::content::shows(result, blobs, at, value) <==> if start <= at < end {
            data[at - start] == value
        } else {
            crate::content::shows(table, blobs, at, value)
        } by {
        crate::content::lemma_shows_add(kept, added, blobs, at, value);
        assert(crate::content::shows(after, blobs, at, value) <==> if start <= at < end {
            data[at - start] == value
        } else {
            crate::content::shows(touched, blobs, at, value)
        });
        if crate::content::shows(added, blobs, at, value) {
            let b = choose|b: BlockView| #[trigger] added.contains(b) && b.says(blobs, at, value);
            assert(after.contains(b));
        }
        if crate::content::shows(after, blobs, at, value) {
            let b = choose|b: BlockView| #[trigger] after.contains(b) && b.says(blobs, at, value);
            if b.id is None {
                assert(added.contains(b));
            } else {
                assert(touched.contains(b));
                assert(b.meets(start, (end - 1) as u64));
            }
        }
        if crate::content::shows(kept, blobs, at, value) {
            let b = choose|b: BlockView| #[trigger] kept.contains(b) && b.says(blobs, at, value);
            assert(table.contains(b));
            assert(!touched.contains(b));
        }
        if crate::content::shows(touched, blobs, at, value) {
            let b = choose|b: BlockView| #[trigger]
                touched.contains(b) && b.says(blobs, at, value);
            assert(table.contains(b));
        }
        if crate::content::shows(table, blobs, at, value) && !(start <= at < end) {
            let b = choose|b: BlockView| #[trigger] table.contains(b) && b.says(blobs, at, value);
            if !touched.contains(b) {
                assert(kept.contains(b));
            }
        }
    }
}

/// The new blocks that data is stored in follow each other without a gap, each
/// of `block_size` bytes but the last, which may be shorter.
pub proof fn new_blocks_are_consecutive(start: u64, data: Seq<u8>, block_size: u64, i: int)
    requires
        block_size > 0,
        start + data.len() <= i64::MAX,
        0 <= i < crate::storage::chunks(start, data, block_size).len(),
    ensures
        ({
            let b = crate::storage::chunks(start, data, block_size)[i];
            let end = start + data.len();
            &&& b.id is None
            &&& b.first_byte == start + i * block_size
            &&& b.first_byte < end
            &&& b.last_byte + 1 == if start + (i + 1) * block_size <= end {
                start + (i + 1) * block_size
            } else {
                end
            }
            &&& i + 1 == crate::storage::chunks(start, data, block_size).len() <==> b.last_byte + 1
                == end
        }),
    decreases data.len(),
{
    let n = crate::storage::chunk_len(data.len(), block_size);
    let next = (start + n) as u64;
    let rest = data.skip(n as int);
    let more = crate::storage::chunks(next, rest, block_size);
    assert(crate::storage::chunks(start, data, block_size) == seq![
        crate::storage::new_block(start, data.take(n as int)),
    ] + more);
    if i == 0 {
        assert(0 * block_size == 0 && 1 * block_size == block_size) by (nonlinear_arith);
        if rest.len() > 0 {
            assert(more.len() > 0);
        }
    } else {
        if rest.len() == 0 {
            assert(more.len() == 0);
        }
        assert(n == block_size);
        new_blocks_are_consecutive(next, rest, block_size, i - 1);
        assert(i * block_size == (i - 1) * block_size + block_size && (i + 1) * block_size == i
            * block_size + block_size) by (nonlinear_arith);
    }
}

/// Blocks that were written over hold each of the new blocks.
proof fn lemma_overwrite_holds_new_blocks(
    s: Seq<BlockView>,
    start: u64,
    data: Seq<u8>,
    block_size: u64,
    blobs: Map<u64, Seq<u8>>,
    c: BlockView,
)
    requires
        crate::content::all_wf(s, blobs),
        block_size > 0,
        start + data.len() <= i64::MAX,
        crate::storage::chunks(start, data, block_size).contains(c),
    ensures
        crate::storage::overwrite(s, start, data, block_size).contains(c),
    decreases data.len(),
{
    let n = crate::storage::chunk_len(data.len(), block_size);
    let b = crate::storage::new_block(start, data.take(n as int));
    let t = crate::blocks::replace_block(s, b);
    let left = crate::blocks::remove_all(s, b.first_byte, b.last_byte);
    let next = (start + n) as u64;
    let rest = data.skip(n as int);
    let more = crate::storage::chunks(next, rest, block_size);
    crate::content::lemma_add_contains(seq![b], more);
    assert(crate::storage::chunks(start, data, block_size) == seq![b] + more);
    lemma_new_block_wf(start, data.take(n as int), blobs);
    crate::content::replace_overwrites_exactly_its_range(s, b, blobs);
    if more.contains(c) {
        lemma_overwrite_holds_new_blocks(t, next, rest, block_size, blobs, c);
    } else {
        assert(seq![b].contains(c));
        assert(c == b);
        crate::content::sort_orders_the_same_blocks(seq![b] + left);
        crate::content::lemma_add_contains(seq![b], left);
        assert(seq![b][0] == b);
        assert(t.contains(b));
        overwrite_changes_exactly_its_range(t, next, rest, block_size, blobs);
    }
}

/// A write stores its range in new blocks, and nothing else lies there. A block
/// that did not meet the range stays as it is; every block that met it is taken
/// out, and what it held outside the range is stored anew. No two blocks
/// overlap.
pub proof fn write_stores_its_range_in_new_blocks(
    table: Seq<BlockView>,
    touched: Seq<BlockView>,
    start: u64,
    data: Seq<u8>,
    block_size: u64,
    blobs: Map<u64, Seq<u8>>,
)
    requires
        crate::content::all_wf(table, blobs),
        crate::content::no_overlap(table),
        distinct_ids(table),
        data.len() > 0,
        start + data.len() <= i64::MAX,
        block_size > 0,
        rows_meeting(touched, table, start, (start + data.len() - 1) as u64),
        crate::content::no_overlap(touched),
    ensures
        ({
            let last = (start + data.len() - 1) as u64;
            let after = crate::storage::overwrite(touched, start, data, block_size);
            let gone = crate::storage::ids(touched).filter(crate::storage::lost(after));
            let result = table_after(table, gone, new_blocks(after));
            let written = crate::storage::chunks(start, data, block_size);
            &&& crate::content::no_overlap(result)
            &&& forall|b: BlockView| #[trigger]
                result.contains(b) && b.meets(start, last) <==> written.contains(b)
            &&& forall|b: BlockView| #[trigger]
                table.contains(b) ==> if b.meets(start, last) {
                    gone.contains(b.id->0) && !result.contains(b)
                } else {
                    !gone.contains(b.id->0) && result.contains(b)
                }
            &&& forall|b: BlockView| #[trigger]
                result.contains(b) && b.id is Some ==> table.contains(b) && !b.meets(start, last)
            &&& forall|b: BlockView, at: int| #[trigger]
                table.contains(b) && #[trigger] b.covers(at) && !(start <= at <= last)
                    ==> crate::content::shows(result, blobs, at, b.byte(blobs, at))
        }),
{
    let last = (start + data.len() - 1) as u64;
    let after = crate::storage::overwrite(touched, start, data, block_size);
    let gone = crate::storage::ids(touched).filter(crate::storage::lost(after));
    let kept = table.filter(outside(gone));
    let added = new_blocks(after);
    let result = table_after(table, gone, added);
    let written = crate::storage::chunks(start, data, block_size);
    write_changes_exactly_its_range(table, touched, start, data, block_size, blobs);
    assert forall|x: BlockView| #[trigger] touched.contains(x) implies x.wf(blobs) by {
        assert(table.contains(x));
    }
    overwrite_changes_exactly_its_range(touched, start, data, block_size, blobs);
    lemma_filter(table, outside(gone));
    lemma_filter(after, |b: BlockView| b.id is None);
    crate::content::lemma_add_contains(kept, added);
    chunks_show_the_data(start, data, block_size, blobs);
    assert forall|b: BlockView| #[trigger] table.contains(b) implies if b.meets(start, last) {
        gone.contains(b.id->0) && !result.contains(b)
    } else {
        !gone.contains(b.id->0) && result.contains(b)
    } by {
        assert forall|x: BlockView| #[trigger] touched.contains(x) implies table.contains(x) by {}
        lemma_gone(table, touched, after, b);
        if b.meets(start, last) {
            assert(touched.contains(b));
            assert(!after.contains(b));
        }
    }
    assert forall|b: BlockView| #[trigger]
        result.contains(b) && b.meets(start, last) <==> written.contains(b) by {
        if written.contains(b) {
            let i = choose|i: int| 0 <= i < written.len() && written[i] == b;
            new_blocks_are_consecutive(start, data, block_size, i);
            lemma_overwrite_holds_new_blocks(touched, start, data, block_size, blobs, b);
            assert(added.contains(b));
            assert(b.wf(blobs));
        }
        if result.contains(b) && b.meets(start, last) {
            assert(b.wf(blobs));
            if kept.contains(b) {
                assert(table.contains(b));
            }
            assert(added.contains(b));
            assert(after.contains(b));
            let at: int = if b.first_byte >= start {
                b.first_byte as int
            } else {
                start as int
            };
            assert(crate::content::shows(written, blobs, at, data[at - start]));
            let c = choose|c: BlockView| #[trigger]
                written.contains(c) && c.says(blobs, at, data[at - start]);
            lemma_overwrite_holds_new_blocks(touched, start, data, block_size, blobs, c);
            let m = choose|m: int| 0 <= m < after.len() && after[m] == b;
            let k = choose|k: int| 0 <= k < after.len() && after[k] == c;
            if m < k {
                assert(crate::content::apart(after[m], after[k]));
            } else if k < m {
                assert(crate::content::apart(after[k], after[m]));
            }
        }
    }
    assert forall|b: BlockView, at: int| #[trigger]
        table.contains(b) && #[trigger] b.covers(at) && !(start <= at <= last) implies
        crate::content::shows(result, blobs, at, b.byte(blobs, at)) by {
        assert(b.says(blobs, at, b.byte(blobs, at)));
        assert(crate::content::shows(table, blobs, at, b.byte(blobs, at)));
    }
}

/// No block reaches beyond the end of a file after a write, if none did before.
pub proof fn write_keeps_blocks_within_the_file(
    table: Seq<BlockView>,
    touched: Seq<BlockView>,
    start: u64,
    data: Seq<u8>,
    block_size: u64,
    blobs: Map<u64, Seq<u8>>,
    file_size: i64,
)
    requires
        crate::content::all_wf(table, blobs),
        data.len() > 0,
        start + data.len() <= i64::MAX,
        block_size > 0,
        rows_meeting(touched, table, start, (start + data.len() - 1) as u64),
        forall|b: BlockView| #[trigger] table.contains(b) ==> b.last_byte < file_size,
    ensures
        ({
            let after = crate::storage::overwrite(touched, start, data, block_size);
            let gone = crate::storage::ids(touched).filter(crate::storage::lost(after));
            let result = table_after(table, gone, new_blocks(after));
            let new_size = crate::storage::larger(start + data.len(), file_size as int);
            forall|b: BlockView| #[trigger] result.contains(b) ==> b.last_byte < new_size
        }),
{
    let after = crate::storage::overwrite(touched, start, data, block_size);
    let gone = crate::storage::ids(touched).filter(crate::storage::lost(after));
    let result = table_after(table, gone, new_blocks(after));
    let new_size = crate::storage::larger(start + data.len(), file_size as int);
    assert forall|x: BlockView| #[trigger] touched.contains(x) implies x.wf(blobs) by {
        assert(table.contains(x));
    }
    overwrite_changes_exactly_its_range(touched, start, data, block_size, blobs);
    lemma_filter(table, outside(gone));
    lemma_filter(after, |b: BlockView| b.id is None);
    crate::content::lemma_add_contains(table.filter(outside(gone)), new_blocks(after));
    assert forall|b: BlockView| #[trigger] result.contains(b) implies b.last_byte < new_size by {
        if new_blocks(after).contains(b) && !(start <= b.first_byte && b.last_byte < start
            + data.len()) {
            assert(crate::content::lies_within_one(b, touched));
            let x = choose|x: BlockView| #[trigger]
                touched.contains(x) && x.first_byte <= b.first_byte && b.last_byte <= x.last_byte;
            assert(table.contains(x));
        }
    }
}

/// The statements that store these blocks, with the bytes that they read to and
/// in their order.
pub open spec fn storing(inode: u64, s: Seq<BlockView>, blobs: Map<u64, Seq<u8>>) -> Seq<
    StatementView,
> {
    Seq::new(
        s.len(),
        |i: int|
            crate::storage::insert_block_statement(
                inode,
                s[i].first_byte,
                s[i].last_byte,
                s[i].source.bytes(blobs),
            ),
    )
}

/// What is stored of a list of blocks are its new blocks, each by one statement
/// and in their order.
pub proof fn insert_statements_store_the_new_blocks(
    inode: u64,
    s: Seq<BlockView>,
    blobs: Map<u64, Seq<u8>>,
)
    ensures
        crate::storage::insert_new_blocks(inode, s, blobs) == storing(inode, new_blocks(s), blobs),
    decreases s.len(),
{
    reveal(Seq::filter);
    if s.len() == 0 {
        assert(new_blocks(s) =~= seq![]);
        assert(storing(inode, new_blocks(s), blobs) =~= seq![]);
    } else {
        let head = s.drop_last();
        insert_statements_store_the_new_blocks(inode, head, blobs);
        if s.last().id is None {
            assert(new_blocks(s) =~= new_blocks(head).push(s.last()));
            assert(storing(inode, new_blocks(s), blobs) =~= storing(
                inode,
                new_blocks(head),
                blobs,
            ).push(
                crate::storage::insert_block_statement(
                    inode,
                    s.last().first_byte,
                    s.last().last_byte,
                    s.last().source.bytes(blobs),
                ),
            ));
        } else {
            assert(new_blocks(s) =~= new_blocks(head));
        }
    }
}

/// The statements of a write store the new blocks that it leaves, in their
/// order, and take out exactly the blocks of the file that it met, if there are
/// any: what they do to the table is [`table_after`].
pub proof fn write_statements_change_the_table(
    table: Seq<BlockView>,
    touched: Seq<BlockView>,
    start: u64,
    data: Seq<u8>,
    block_size: u64,
    stored: Map<u64, Seq<u8>>,
    inode: u64,
    file_size: i64,
    blobs: Map<u64, Seq<u8>>,
)
    requires
        crate::content::all_wf(table, stored),
        crate::content::no_overlap(table),
        distinct_ids(table),
        data.len() > 0,
        start + data.len() <= i64::MAX,
        block_size > 0,
        rows_meeting(touched, table, start, (start + data.len() - 1) as u64),
        crate::content::no_overlap(touched),
    ensures
        ({
            let last = (start + data.len() - 1) as u64;
            let end = start + data.len();
            let after = crate::storage::overwrite(touched, start, data, block_size);
            let gone = crate::storage::ids(touched).filter(crate::storage::lost(after));
            let statements = crate::storage::write_statements(
                inode,
                file_size,
                end,
                crate::storage::ids(touched),
                after,
                blobs,
            );
            let added = storing(inode, new_blocks(after), blobs);
            let removed = if gone.len() > 0 {
                seq![crate::storage::delete_blocks_statement(gone)]
            } else {
                seq![]
            };
            let recorded = if end > file_size {
                seq![crate::storage::update_size_statement(inode, end as i64)]
            } else {
                seq![]
            };
            &&& statements == added + removed + recorded
            &&& gone == crate::storage::ids(touched)
            &&& crate::storage::delete_blocks_statement(gone).params.len() == gone.len()
            &&& forall|i: int|
                0 <= i < gone.len() ==> #[trigger] crate::storage::delete_blocks_statement(
                    gone,
                ).params[i] == crate::sql::int_param(gone[i])
            &&& forall|b: BlockView| #[trigger]
                table.contains(b) ==> (gone.contains(b.id->0) <==> b.meets(start, last))
        }),
{
    let after = crate::storage::overwrite(touched, start, data, block_size);
    let all = crate::storage::ids(touched);
    let gone = all.filter(crate::storage::lost(after));
    insert_statements_store_the_new_blocks(inode, after, blobs);
    write_stores_its_range_in_new_blocks(table, touched, start, data, block_size, stored);
    lemma_ids(touched);
    assert forall|i: int| 0 <= i < all.len() implies crate::storage::lost(after)(
        #[trigger] all[i],
    ) by {
        assert(all.contains(all[i]));
        let m = choose|m: int|
            0 <= m < touched.len() && (#[trigger] touched[m]).id == Some(all[i]);
        assert(touched.contains(touched[m]));
        assert(table.contains(touched[m]));
        assert(gone.contains(all[i]));
        lemma_filter_ids(all, crate::storage::lost(after), all[i]);
    }
    lemma_filter_all(all, crate::storage::lost(after));
}

/// A list of which everything is kept stays as it is.
proof fn lemma_filter_all(s: Seq<u64>, keep: spec_fn(u64) -> bool)
    requires
        forall|i: int| 0 <= i < s.len() ==> keep(#[trigger] s[i]),
    ensures
        s.filter(keep) == s,
    decreases s.len(),
{
    reveal(Seq::filter);
    if s.len() > 0 {
        assert forall|i: int| 0 <= i < s.drop_last().len() implies keep(
            #[trigger] s.drop_last()[i],
        ) by {
            assert(s.drop_last()[i] == s[i]);
        }
        lemma_filter_all(s.drop_last(), keep);
        assert(keep(s[s.len() - 1]));
        assert(s.drop_last().push(s.last()) =~= s);
    } else {
        assert(s.filter(keep) =~= s);
    }
}

/// The statements of an append store the new blocks that hold the data, in
/// their order, and record the size.
pub proof fn append_statements_add_to_the_table(
    inode: u64,
    file_size: i64,
    data: Seq<u8>,
    block_size: u64,
)
    requires
        block_size > 0,
        file_size >= 0,
        file_size + data.len() <= i64::MAX,
    ensures
        ({
            let added = crate::storage::chunks(file_size as u64, data, block_size);
            crate::storage::append_statements(inode, file_size, data, block_size) == storing(
                inode,
                added,
                Map::empty(),
            ).push(
                crate::storage::update_size_statement(inode, (file_size + data.len()) as i64),
            )
        }),
{
    let added = crate::storage::chunks(file_size as u64, data, block_size);
    insert_statements_store_the_new_blocks(inode, added, Map::empty());
    assert forall|i: int| 0 <= i < added.len() implies (#[trigger] added[i]).id is None by {
        new_blocks_are_consecutive(file_size as u64, data, block_size, i);
    }
    lemma_all_new(added);
}

/// A list of new blocks only.
proof fn lemma_all_new(s: Seq<BlockView>)
    requires
        forall|i: int| 0 <= i < s.len() ==> (#[trigger] s[i]).id is None,
    ensures
        new_blocks(s) == s,
    decreases s.len(),
{
    reveal(Seq::filter);
    if s.len() > 0 {
        lemma_all_new(s.drop_last());
        assert(s.drop_last().push(s.last()) =~= s);
    } else {
        assert(new_blocks(s) =~= s);
    }
}

/// The statements that trim blocks take out each of them and store what is left
/// of it, in their order: the identifiers are those of the blocks, and what is
/// stored are the trimmed blocks.
pub proof fn trim_statements_change_the_table(
    inode: u64,
    spanning: Seq<BlockView>,
    truncate_point: i64,
    stored: Map<u64, Seq<u8>>,
    blobs: Map<u64, Seq<u8>>,
)
    requires
        crate::content::all_wf(spanning, stored),
        truncate_point > 0,
        forall|b: BlockView| #[trigger]
            spanning.contains(b) ==> b.id is Some && b.first_byte < truncate_point && b.last_byte
                >= truncate_point,
    ensures
        ({
            let statements = crate::storage::trim_statements(
                inode,
                spanning,
                truncate_point,
                blobs,
            );
            let gone = crate::storage::ids(spanning);
            let trims = trimmed_all(spanning, truncate_point);
            &&& gone.len() == spanning.len()
            &&& trims.len() == spanning.len()
            &&& statements.len() == 2 * spanning.len()
            &&& forall|i: int|
                0 <= i < spanning.len() ==> {
                    &&& spanning[i].id == Some(#[trigger] gone[i])
                    &&& statements[2 * i] == crate::storage::delete_block_statement(gone[i])
                    &&& statements[2 * i + 1] == storing(inode, trims, blobs)[i]
                }
        }),
    decreases spanning.len(),
{
    if spanning.len() > 0 {
        let head = spanning.drop_last();
        let b = spanning.last();
        crate::content::lemma_last_contains(spanning);
        assert(spanning.contains(b));
        assert forall|x: BlockView| #[trigger] head.contains(x) implies x.wf(stored) && x.id is Some
            && x.first_byte < truncate_point && x.last_byte >= truncate_point by {
            assert(spanning.contains(x));
        }
        trim_statements_change_the_table(inode, head, truncate_point, stored, blobs);
        crate::content::clip_keeps_bytes_in_range(
            b,
            stored,
            b.first_byte,
            (truncate_point - 1) as u64,
        );
        let statements = crate::storage::trim_statements(inode, spanning, truncate_point, blobs);
        let before = crate::storage::trim_statements(inode, head, truncate_point, blobs);
        let gone = crate::storage::ids(spanning);
        let trims = trimmed_all(spanning, truncate_point);
        let head_trims = trimmed_all(head, truncate_point);
        assert forall|i: int| 0 <= i < spanning.len() implies {
            &&& spanning[i].id == Some(#[trigger] gone[i])
            &&& statements[2 * i] == crate::storage::delete_block_statement(gone[i])
            &&& statements[2 * i + 1] == storing(inode, trims, blobs)[i]
        } by {
            if i < head.len() {
                assert(gone[i] == crate::storage::ids(head)[i]);
                assert(spanning[i] == head[i]);
                assert(trims[i] == head_trims[i]);
                assert(statements[2 * i] == before[2 * i]);
                assert(statements[2 * i + 1] == before[2 * i + 1]);
                assert(storing(inode, head_trims, blobs)[i] == storing(inode, trims, blobs)[i]);
            }
        }
    }
}

/// A read of some bytes within a file covers exactly what was asked for, up to
/// the end of the file; beyond its end there is nothing to read.
pub proof fn read_covers_what_the_file_holds(file_size: i64, size: usize, offset: i64)
    requires
        0 <= offset,
        size > 0,
        offset + size <= i64::MAX,
    ensures
        crate::storage::window(file_size, size as nat, offset) == if offset < file_size {
            let n = crate::winter::readable(file_size, size, offset);
            Ok::<Option<(u64, u64)>, crate::error::ErrorView>(
                Some((offset as u64, (offset + n - 1) as u64)),
            )
        } else {
            Ok::<Option<(u64, u64)>, crate::error::ErrorView>(None)
        },
{
}

/// What blocks give when they are laid out: a byte that one of them shows where
/// they cover a position, and zero where none does.
proof fn lemma_laid_out(s: Seq<BlockView>, blobs: Map<u64, Seq<u8>>, first_byte: u64, n: nat)
    requires
        crate::content::all_wf(s, blobs),
        forall|b: BlockView| #[trigger] s.contains(b) ==> first_byte <= b.first_byte,
    ensures
        crate::storage::read_fault(s, blobs) is None,
        crate::storage::laid_out(s, blobs, first_byte, n).len() == n,
        forall|i: int|
            #![trigger crate::storage::laid_out(s, blobs, first_byte, n)[i]]
            0 <= i < n ==> if crate::content::covered(s, first_byte + i) {
                crate::content::shows(
                    s,
                    blobs,
                    first_byte + i,
                    crate::storage::laid_out(s, blobs, first_byte, n)[i],
                )
            } else {
                crate::storage::laid_out(s, blobs, first_byte, n)[i] == 0
            },
    decreases s.len(),
{
    let out = crate::storage::laid_out(s, blobs, first_byte, n);
    if s.len() > 0 {
        let head = s.drop_last();
        let b = s.last();
        let below = crate::storage::laid_out(head, blobs, first_byte, n);
        crate::content::lemma_last_contains(s);
        assert(s.contains(b));
        assert forall|x: BlockView| #[trigger] head.contains(x) implies x.wf(blobs) && first_byte
            <= x.first_byte by {
            assert(s.contains(x));
        }
        lemma_laid_out(head, blobs, first_byte, n);
        crate::content::complete_source_reads_its_size(b.source, blobs);
        assert forall|i: int| #![trigger out[i]] 0 <= i < n implies if crate::content::covered(
            s,
            first_byte + i,
        ) {
            crate::content::shows(s, blobs, first_byte + i, out[i])
        } else {
            out[i] == 0
        } by {
            let at = first_byte + i;
            if b.covers(at) {
                assert(b.says(blobs, at, out[i]));
                assert(crate::content::covered(s, at));
            } else {
                assert(out[i] == below[i]);
                crate::content::lemma_shows_last(s, blobs, at, out[i]);
                if crate::content::covered(s, at) {
                    let x = choose|x: BlockView| #[trigger] s.contains(x) && x.covers(at);
                    assert(head.contains(x));
                }
                if crate::content::covered(head, at) {
                    let x = choose|x: BlockView| #[trigger] head.contains(x) && x.covers(at);
                    assert(s.contains(x));
                }
            }
        }
    }
}

/// A read gives every byte of its range: what the blocks show where they cover
/// it, and zeros in every hole, before the first block and after the last one
/// too.
pub proof fn read_fills_holes_with_zeros(
    found: Seq<BlockView>,
    blobs: Map<u64, Seq<u8>>,
    first_byte: u64,
    last_byte: u64,
)
    requires
        crate::content::all_wf(found, blobs),
        first_byte <= last_byte < i64::MAX,
    ensures
        ({
            let s = crate::blocks::clip_all(found, first_byte, last_byte);
            let len = (last_byte - first_byte + 1) as nat;
            let out = crate::storage::laid_out(s, blobs, first_byte, len);
            &&& crate::storage::read_fault(s, blobs) is None
            &&& out.len() == len
            &&& forall|at: int|
                first_byte <= at <= last_byte ==> if crate::content::covered(found, at) {
                    crate::content::shows(found, blobs, at, #[trigger] out[at - first_byte])
                } else {
                    out[at - first_byte] == 0
                }
        }),
{
    let s = crate::blocks::clip_all(found, first_byte, last_byte);
    let len = (last_byte - first_byte + 1) as nat;
    let out = crate::storage::laid_out(s, blobs, first_byte, len);
    crate::content::clip_all_keeps_bytes_in_range(found, blobs, first_byte, last_byte);
    lemma_laid_out(s, blobs, first_byte, len);
    assert forall|at: int| first_byte <= at <= last_byte implies if crate::content::covered(
        found,
        at,
    ) {
        crate::content::shows(found, blobs, at, #[trigger] out[at - first_byte])
    } else {
        out[at - first_byte] == 0
    } by {
        let v = out[at - first_byte];
        if crate::content::covered(found, at) {
            let b = choose|b: BlockView| #[trigger] found.contains(b) && b.covers(at);
            let w = b.byte(blobs, at);
            assert(crate::content::shows(found, blobs, at, w));
            assert(crate::content::shows(s, blobs, at, w));
            let x = choose|x: BlockView| #[trigger] s.contains(x) && x.says(blobs, at, w);
            assert(crate::content::covered(s, at));
            assert(crate::content::shows(s, blobs, at, v));
        } else if crate::content::covered(s, at) {
            assert(crate::content::shows(s, blobs, at, v));
            assert(crate::content::shows(found, blobs, at, v));
            let x = choose|x: BlockView| #[trigger] found.contains(x) && x.says(blobs, at, v);
            assert(x.covers(at));
        }
    }
}

/// Reading a range that the blocks cover without a gap gives exactly the bytes
/// that they show there.
pub proof fn read_gives_what_blocks_show(
    found: Seq<BlockView>,
    blobs: Map<u64, Seq<u8>>,
    first_byte: u64,
    last_byte: u64,
    bytes: Seq<u8>,
)
    requires
        crate::content::all_wf(found, blobs),
        first_byte <= last_byte < i64::MAX,
        bytes.len() == last_byte - first_byte + 1,
        forall|at: int|
            first_byte <= at <= last_byte ==> crate::content::shows(
                found,
                blobs,
                at,
                #[trigger] bytes[at - first_byte],
            ),
        forall|at: int, v: u8, w: u8|
            crate::content::shows(found, blobs, at, v) && crate::content::shows(found, blobs, at, w)
                ==> v == w,
    ensures
        ({
            let s = crate::blocks::clip_all(found, first_byte, last_byte);
            &&& crate::storage::read_fault(s, blobs) is None
            &&& crate::storage::laid_out(s, blobs, first_byte, bytes.len()) == bytes
        }),
{
    let s = crate::blocks::clip_all(found, first_byte, last_byte);
    let out = crate::storage::laid_out(s, blobs, first_byte, bytes.len());
    read_fills_holes_with_zeros(found, blobs, first_byte, last_byte);
    assert forall|k: int| 0 <= k < bytes.len() implies out[k] == bytes[k] by {
        let at = first_byte + k;
        assert(bytes[at - first_byte] == bytes[k]);
        assert(out[at - first_byte] == out[k]);
        assert(crate::content::shows(found, blobs, at, bytes[k]));
        let b = choose|b: BlockView| #[trigger] found.contains(b) && b.says(blobs, at, bytes[k]);
        assert(crate::content::covered(found, at));
        assert(crate::content::shows(found, blobs, at, out[k]));
    }
    assert(out =~= bytes);
}

/// Blocks that do not overlap show at most one byte at each position.
pub proof fn apart_blocks_show_one_byte(
    s: Seq<BlockView>,
    blobs: Map<u64, Seq<u8>>,
    at: int,
    v: u8,
    w: u8,
)
    requires
        crate::content::no_overlap(s),
        crate::content::shows(s, blobs, at, v),
        crate::content::shows(s, blobs, at, w),
    ensures
        v == w,
{
    let a = choose|b: BlockView| #[trigger] s.contains(b) && b.says(blobs, at, v);
    let b = choose|b: BlockView| #[trigger] s.contains(b) && b.says(blobs, at, w);
    let i = choose|i: int| 0 <= i < s.len() && s[i] == a;
    let j = choose|j: int| 0 <= j < s.len() && s[j] == b;
    if i < j {
        assert(crate::content::apart(s[i], s[j]));
    }
    if j < i {
        assert(crate::content::apart(s[j], s[i]));
    }
}

/// A read gives back what a write wrote: any part of the written range, read
/// after the write from the blocks that meet it, is that part of the data.
pub proof fn read_gives_back_what_was_written(
    table: Seq<BlockView>,
    touched: Seq<BlockView>,
    start: u64,
    data: Seq<u8>,
    block_size: u64,
    blobs: Map<u64, Seq<u8>>,
    found: Seq<BlockView>,
    first_byte: u64,
    last_byte: u64,
)
    requires
        crate::content::all_wf(table, blobs),
        crate::content::no_overlap(table),
        distinct_ids(table),
        data.len() > 0,
        start + data.len() <= i64::MAX,
        block_size > 0,
        rows_meeting(touched, table, start, (start + data.len() - 1) as u64),
        crate::content::no_overlap(touched),
        start <= first_byte <= last_byte < start + data.len(),
        ({
            let after = crate::storage::overwrite(touched, start, data, block_size);
            let gone = crate::storage::ids(touched).filter(crate::storage::lost(after));
            let result = table_after(table, gone, new_blocks(after));
            rows_meeting(found, result, first_byte, last_byte)
        }),
    ensures
        ({
            let s = crate::blocks::clip_all(found, first_byte, last_byte);
            let len = (last_byte - first_byte + 1) as nat;
            &&& crate::storage::read_fault(s, blobs) is None
            &&& crate::storage::laid_out(s, blobs, first_byte, len) == data.subrange(
                first_byte - start,
                last_byte + 1 - start,
            )
        }),
{
    let after = crate::storage::overwrite(touched, start, data, block_size);
    let gone = crate::storage::ids(touched).filter(crate::storage::lost(after));
    let result = table_after(table, gone, new_blocks(after));
    write_changes_exactly_its_range(table, touched, start, data, block_size, blobs);
    let bytes = data.subrange(first_byte - start, last_byte + 1 - start);
    assert forall|b: BlockView| #[trigger] found.contains(b) implies b.wf(blobs) by {
        assert(result.contains(b));
    }
    assert forall|at: int| first_byte <= at <= last_byte implies crate::content::shows(
        found,
        blobs,
        at,
        #[trigger] bytes[at - first_byte],
    ) by {
        let v = bytes[at - first_byte];
        assert(v == data[at - start]);
        assert(crate::content::shows(result, blobs, at, v));
        let b = choose|b: BlockView| #[trigger] result.contains(b) && b.says(blobs, at, v);
        assert(b.meets(first_byte, last_byte));
        assert(found.contains(b));
    }
    assert forall|at: int, v: u8, w: u8|
        crate::content::shows(found, blobs, at, v) && crate::content::shows(
            found,
            blobs,
            at,
            w,
        ) implies v == w by {
        let a = choose|b: BlockView| #[trigger] found.contains(b) && b.says(blobs, at, v);
        let b = choose|b: BlockView| #[trigger] found.contains(b) && b.says(blobs, at, w);
        assert(result.contains(a) && result.contains(b));
        assert(crate::content::shows(result, blobs, at, v));
        assert(crate::content::shows(result, blobs, at, w));
        apart_blocks_show_one_byte(result, blobs, at, v, w);
    }
    read_gives_what_blocks_show(found, blobs, first_byte, last_byte, bytes);
}

/// A block that is stored, with the bytes that its source reads to or, if they
/// are all zero, without them, says the same as before.
pub proof fn stored_block_says_the_same(b: BlockView, id: u64, blobs: Map<u64, Seq<u8>>)
    requires
        b.wf(blobs),
        b.last_byte < i64::MAX,
        id <= i64::MAX,
    ensures
        ({
            let bytes = b.source.bytes(blobs);
            let implicit = crate::storage::zero_filled(b.first_byte, b.last_byte, bytes);
            let stored = crate::storage::stored_block(id, b.first_byte, b.last_byte, !implicit);
            let blobs_after = if implicit {
                blobs
            } else {
                blobs.insert(id, bytes)
            };
            &&& stored.wf(blobs_after)
            &&& forall|at: int, value: u8| #[trigger]
                stored.says(blobs_after, at, value) <==> b.says(blobs, at, value)
        }),
{
    let bytes = b.source.bytes(blobs);
    let implicit = crate::storage::zero_filled(b.first_byte, b.last_byte, bytes);
    let stored = crate::storage::stored_block(id, b.first_byte, b.last_byte, !implicit);
    let blobs_after = if implicit {
        blobs
    } else {
        blobs.insert(id, bytes)
    };
    assert(stored.source.bytes(blobs_after) =~= bytes);
}

/// What lies before the truncation point of each block.
pub open spec fn trimmed_all(s: Seq<BlockView>, truncate_point: i64) -> Seq<BlockView>
    decreases s.len(),
{
    if s.len() == 0 {
        seq![]
    } else {
        let head = trimmed_all(s.drop_last(), truncate_point);
        match crate::storage::trimmed(s.last(), truncate_point) {
            Ok(t) => head.push(t),
            Err(_) => head,
        }
    }
}

/// Trimming blocks is clipping them to what comes before the truncation point.
proof fn lemma_trimmed_is_clipped(s: Seq<BlockView>, truncate_point: i64)
    requires
        truncate_point >= 1,
    ensures
        trimmed_all(s, truncate_point) == crate::blocks::clip_all(
            s,
            0,
            (truncate_point - 1) as u64,
        ),
    decreases s.len(),
{
    if s.len() > 0 {
        lemma_trimmed_is_clipped(s.drop_last(), truncate_point);
    }
}

/// Whether the block starts before this byte.
pub open spec fn starts_before(byte: int) -> spec_fn(BlockView) -> bool {
    |b: BlockView| b.first_byte < byte
}

/// Shrinking a file keeps exactly the bytes before the new end: the blocks
/// beyond it go, and those that span it are trimmed.
pub proof fn shrink_keeps_exactly_what_is_before_the_end(
    table: Seq<BlockView>,
    spanning: Seq<BlockView>,
    size: i64,
    blobs: Map<u64, Seq<u8>>,
)
    requires
        crate::content::all_wf(table, blobs),
        crate::content::no_overlap(table),
        distinct_ids(table),
        0 <= size,
        forall|b: BlockView| #[trigger]
            spanning.contains(b) <==> table.contains(b) && b.first_byte < size && b.last_byte
                >= size,
        crate::content::no_overlap(spanning),
    ensures
        ({
            let left = table.filter(starts_before(size as int));
            let result = table_after(
                left,
                crate::storage::ids(spanning),
                trimmed_all(spanning, size),
            );
            &&& crate::content::all_wf(result, blobs)
            &&& crate::content::no_overlap(result)
            &&& forall|b: BlockView| #[trigger] result.contains(b) ==> b.last_byte < size
            &&& forall|at: int, value: u8| #[trigger]
                crate::content::shows(result, blobs, at, value) <==> at < size
                    && crate::content::shows(table, blobs, at, value)
        }),
{
    let left = table.filter(starts_before(size as int));
    let gone = crate::storage::ids(spanning);
    let kept = left.filter(outside(gone));
    let trims = trimmed_all(spanning, size);
    let result = kept + trims;
    lemma_filter(table, starts_before(size as int));
    lemma_filter(left, outside(gone));
    lemma_ids(spanning);
    crate::content::lemma_add_contains(kept, trims);
    assert forall|b: BlockView| #[trigger] kept.contains(b) <==> table.contains(b) && b.last_byte
        < size by {
        if table.contains(b) && b.first_byte < size {
            assert(left.contains(b));
            if b.last_byte >= size {
                assert(spanning.contains(b));
                lemma_has_id(spanning, b);
                assert(gone.contains(b.id->0));
            } else {
                if gone.contains(b.id->0) {
                    let i = choose|i: int|
                        0 <= i < spanning.len() && (#[trigger] spanning[i]).id == b.id;
                    assert(spanning.contains(spanning[i]));
                    assert(spanning[i] == b);
                }
            }
        }
        if table.contains(b) && b.last_byte < size {
            assert(b.wf(blobs));
        }
    }
    if size == 0 {
        assert(spanning.len() == 0) by {
            if spanning.len() > 0 {
                assert(spanning.contains(spanning[0]));
            }
        }
        assert(kept.len() == 0) by {
            if kept.len() > 0 {
                assert(kept.contains(kept[0]));
            }
        }
        assert(result =~= seq![]);
        assert forall|at: int, value: u8| #[trigger]
            crate::content::shows(result, blobs, at, value) <==> at < size
                && crate::content::shows(table, blobs, at, value) by {
            if at < 0 && crate::content::shows(table, blobs, at, value) {
                let b = choose|b: BlockView| #[trigger]
                    table.contains(b) && b.says(blobs, at, value);
                assert(false);
            }
        }
    } else {
        let last = (size - 1) as u64;
        lemma_trimmed_is_clipped(spanning, size);
        assert forall|b: BlockView| #[trigger] spanning.contains(b) implies b.wf(blobs) by {
            assert(table.contains(b));
        }
        crate::content::clip_all_keeps_bytes_in_range(spanning, blobs, 0, last);
        assert forall|b: BlockView| #[trigger] result.contains(b) implies b.wf(blobs) by {
            if kept.contains(b) {
                assert(table.contains(b));
            }
        }
        lemma_clip_all_apart(spanning, blobs, 0, last);
        assert forall|i: int, j: int| 0 <= i < j < result.len() implies crate::content::apart(
            #[trigger] result[i],
            #[trigger] result[j],
        ) by {
            if j < kept.len() {
                assert(crate::content::apart(kept[i], kept[j]));
            } else if i >= kept.len() {
                assert(crate::content::apart(trims[i - kept.len()], trims[j - kept.len()]));
            } else {
                let b = kept[i];
                let p = trims[j - kept.len()];
                assert(kept.contains(b));
                assert(trims.contains(p));
                let x = choose|x: BlockView| #[trigger]
                    spanning.contains(x) && x.first_byte <= p.first_byte && p.last_byte
                        <= x.last_byte;
                assert(table.contains(x) && table.contains(b));
                let m = choose|m: int| 0 <= m < table.len() && table[m] == x;
                let k = choose|k: int| 0 <= k < table.len() && table[k] == b;
                assert(m != k);
                if m < k {
                    assert(crate::content::apart(table[m], table[k]));
                } else {
                    assert(crate::content::apart(table[k], table[m]));
                }
                assert(p.wf(blobs) && b.wf(blobs));
            }
        }
        assert forall|at: int, value: u8| #[trigger]
            crate::content::shows(result, blobs, at, value) <==> at < size
                && crate::content::shows(table, blobs, at, value) by {
            crate::content::lemma_shows_add(kept, trims, blobs, at, value);
            assert(crate::content::shows(trims, blobs, at, value) <==> 0 <= at <= last
                && crate::content::shows(spanning, blobs, at, value));
            if crate::content::shows(kept, blobs, at, value) {
                let b = choose|b: BlockView| #[trigger]
                    kept.contains(b) && b.says(blobs, at, value);
                assert(table.contains(b));
            }
            if crate::content::shows(spanning, blobs, at, value) {
                let b = choose|b: BlockView| #[trigger]
                    spanning.contains(b) && b.says(blobs, at, value);
                assert(table.contains(b));
            }
            if at < size && crate::content::shows(table, blobs, at, value) {
                let b = choose|b: BlockView| #[trigger]
                    table.contains(b) && b.says(blobs, at, value);
                if b.last_byte < size {
                    assert(kept.contains(b));
                } else {
                    assert(spanning.contains(b));
                }
            }
        }
    }
}

/// Clipping brings no overlap.
proof fn lemma_clip_all_apart(
    s: Seq<BlockView>,
    blobs: Map<u64, Seq<u8>>,
    first_byte: u64,
    last_byte: u64,
)
    requires
        crate::content::all_wf(s, blobs),
        crate::content::no_overlap(s),
        first_byte <= last_byte,
    ensures
        crate::content::no_overlap(crate::blocks::clip_all(s, first_byte, last_byte)),
    decreases s.len(),
{
    if s.len() > 0 {
        let head = s.drop_last();
        let b = s.last();
        crate::content::lemma_last_contains(s);
        assert(s.contains(b));
        assert forall|x: BlockView| #[trigger] head.contains(x) implies x.wf(blobs) by {
            assert(s.contains(x));
        }
        assert(crate::content::no_overlap(head));
        lemma_clip_all_apart(head, blobs, first_byte, last_byte);
        crate::content::clip_all_keeps_bytes_in_range(head, blobs, first_byte, last_byte);
        crate::content::clip_keeps_bytes_in_range(b, blobs, first_byte, last_byte);
        let left = crate::blocks::clip_all(head, first_byte, last_byte);
        let r = crate::blocks::clip_all(s, first_byte, last_byte);
        assert forall|i: int, j: int| 0 <= i < j < r.len() implies crate::content::apart(
            #[trigger] r[i],
            #[trigger] r[j],
        ) by {
            if j < left.len() {
                assert(crate::content::apart(left[i], left[j]));
            } else {
                let p = left[i];
                assert(left.contains(p));
                let x = choose|x: BlockView| #[trigger]
                    head.contains(x) && x.first_byte <= p.first_byte && p.last_byte <= x.last_byte;
                let m = choose|m: int| 0 <= m < head.len() && head[m] == x;
                assert(crate::content::apart(s[m], s[s.len() - 1]));
                assert(p.wf(blobs));
            }
        }
    }
}

/// The blocks of a file with zeros after the last one, stored under this
/// identifier, up to the end of a file of this size.
pub open spec fn filled(table: Seq<BlockView>, last: Option<i64>, size: i64, id: u64) -> Seq<
    BlockView,
> {
    match crate::storage::gap_to_fill(last, size) {
        Some((first, end)) => table.push(
            crate::storage::stored_block(id, first as u64, end as u64, false),
        ),
        None => table,
    }
}

/// Growing a file that was not empty keeps its bytes and shows zeros from the
/// end of its last block to the new end.
pub proof fn grow_adds_zeros_up_to_the_end(
    table: Seq<BlockView>,
    last: Option<i64>,
    size: i64,
    id: u64,
    blobs: Map<u64, Seq<u8>>,
)
    requires
        crate::content::all_wf(table, blobs),
        crate::content::no_overlap(table),
        0 < size,
        match last {
            Some(l) => {
                &&& 0 <= l < i64::MAX
                &&& forall|b: BlockView| #[trigger] table.contains(b) ==> b.last_byte <= l
            },
            None => table.len() == 0,
        },
    ensures
        ({
            let from = match last {
                Some(l) => l + 1,
                None => 0,
            };
            let result = filled(table, last, size, id);
            &&& crate::content::all_wf(result, blobs)
            &&& crate::content::no_overlap(result)
            &&& forall|b: BlockView| #[trigger]
                result.contains(b) ==> table.contains(b) || b.last_byte < size
            &&& forall|at: int, value: u8| #[trigger]
                crate::content::shows(result, blobs, at, value) <==> if from <= at < size {
                    value == 0
                } else {
                    crate::content::shows(table, blobs, at, value)
                }
        }),
{
    let from = match last {
        Some(l) => l + 1,
        None => 0,
    };
    match crate::storage::gap_to_fill(last, size) {
        Some((first, end)) => {
            let b = crate::storage::stored_block(id, first as u64, end as u64, false);
            let result = table.push(b);
            crate::content::lemma_push_contains(table, b);
            assert(b.source.bytes(blobs) =~= crate::blocks::zeros((end - first + 1) as nat));
            assert(b.wf(blobs));
            assert forall|i: int, j: int| 0 <= i < j < result.len() implies crate::content::apart(
                #[trigger] result[i],
                #[trigger] result[j],
            ) by {
                if j == table.len() {
                    assert(table.contains(table[i]));
                } else {
                    assert(crate::content::apart(table[i], table[j]));
                }
            }
            assert forall|at: int, value: u8| #[trigger]
                crate::content::shows(result, blobs, at, value) <==> if from <= at < size {
                    value == 0
                } else {
                    crate::content::shows(table, blobs, at, value)
                } by {
                crate::content::lemma_shows_last(result, blobs, at, value);
                assert(result.drop_last() =~= table);
                if from <= at && crate::content::shows(table, blobs, at, value) {
                    let x = choose|x: BlockView| #[trigger]
                        table.contains(x) && x.says(blobs, at, value);
                    assert(false);
                }
            }
        },
        None => {},
    }
}

/// New blocks show exactly the data that they were made of, in order.
pub proof fn chunks_show_the_data(
    start: u64,
    data: Seq<u8>,
    block_size: u64,
    blobs: Map<u64, Seq<u8>>,
)
    requires
        block_size > 0,
        start + data.len() <= i64::MAX,
    ensures
        ({
            let r = crate::storage::chunks(start, data, block_size);
            &&& crate::content::all_wf(r, blobs)
            &&& crate::content::in_order(r)
            &&& forall|b: BlockView| #[trigger]
                r.contains(b) ==> start <= b.first_byte && b.last_byte < start + data.len()
            &&& forall|at: int, value: u8| #[trigger]
                crate::content::shows(r, blobs, at, value) <==> start <= at < start + data.len()
                    && data[at - start] == value
        }),
    decreases data.len(),
{
    let r = crate::storage::chunks(start, data, block_size);
    if data.len() > 0 {
        let n = crate::storage::chunk_len(data.len(), block_size);
        let b = crate::storage::new_block(start, data.take(n as int));
        let next = (start + n) as u64;
        let rest = data.skip(n as int);
        let more = crate::storage::chunks(next, rest, block_size);
        lemma_new_block_wf(start, data.take(n as int), blobs);
        chunks_show_the_data(next, rest, block_size, blobs);
        crate::content::lemma_add_contains(seq![b], more);
        assert(r == seq![b] + more);
        assert(seq![b].contains(b)) by {
            assert(seq![b][0] == b);
        }
        assert forall|i: int, j: int| 0 <= i < j < r.len() implies (#[trigger] r[i]).last_byte < (
        #[trigger] r[j]).first_byte by {
            assert(r[j] == more[j - 1]);
            if i == 0 {
                assert(more.contains(more[j - 1]));
            } else {
                assert(r[i] == more[i - 1]);
            }
        }
        assert forall|at: int, value: u8| #[trigger]
            crate::content::shows(r, blobs, at, value) <==> start <= at < start + data.len()
                && data[at - start] == value by {
            crate::content::lemma_shows_add(seq![b], more, blobs, at, value);
            assert(crate::content::shows(seq![b], blobs, at, value) <==> b.says(blobs, at, value))
                by {
                assert(seq![b].contains(b));
            }
            assert(crate::content::shows(more, blobs, at, value) <==> next <= at < next
                + rest.len() && rest[at - next] == value);
            if next <= at < start + data.len() {
                assert(rest[at - next] == data[at - start]);
            }
        }
    }
}

/// An append to a file none of whose blocks reaches beyond its end keeps every
/// block and every byte of the file, and adds the data from that end on, in
/// blocks within the new end.
pub proof fn append_adds_data_at_the_end(
    table: Seq<BlockView>,
    file_size: i64,
    data: Seq<u8>,
    block_size: u64,
    blobs: Map<u64, Seq<u8>>,
)
    requires
        crate::content::all_wf(table, blobs),
        crate::content::no_overlap(table),
        block_size > 0,
        file_size >= 0,
        file_size + data.len() <= i64::MAX,
        forall|b: BlockView| #[trigger] table.contains(b) ==> b.last_byte < file_size,
    ensures
        ({
            let result = table + crate::storage::chunks(file_size as u64, data, block_size);
            &&& crate::content::all_wf(result, blobs)
            &&& crate::content::no_overlap(result)
            &&& forall|b: BlockView| #[trigger]
                result.contains(b) ==> b.last_byte < file_size + data.len()
            &&& forall|at: int, value: u8| #[trigger]
                crate::content::shows(result, blobs, at, value) <==> if file_size <= at < file_size
                    + data.len() {
                    data[at - file_size] == value
                } else {
                    crate::content::shows(table, blobs, at, value)
                }
        }),
{
    let start = file_size as u64;
    let added = crate::storage::chunks(start, data, block_size);
    let result = table + added;
    chunks_show_the_data(start, data, block_size, blobs);
    crate::content::lemma_add_contains(table, added);
    assert forall|i: int, j: int| 0 <= i < j < result.len() implies crate::content::apart(
        #[trigger] result[i],
        #[trigger] result[j],
    ) by {
        if j < table.len() {
            assert(crate::content::apart(table[i], table[j]));
        } else if i >= table.len() {
            assert(added[i - table.len()].last_byte < added[j - table.len()].first_byte);
        } else {
            assert(table.contains(table[i]));
            assert(added.contains(added[j - table.len()]));
        }
    }
    assert forall|at: int, value: u8| #[trigger]
        crate::content::shows(result, blobs, at, value) <==> if start <= at < start + data.len() {
            data[at - start] == value
        } else {
            crate::content::shows(table, blobs, at, value)
        } by {
        crate::content::lemma_shows_add(table, added, blobs, at, value);
        if start <= at && crate::content::shows(table, blobs, at, value) {
            let b = choose|b: BlockView| #[trigger] table.contains(b) && b.says(blobs, at, value);
            assert(false);
        }
    }
}

} // verus!
