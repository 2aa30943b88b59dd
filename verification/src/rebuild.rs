//! Crash recovery and allocation map rebuilding: what the walk of the node and
//! block B-trees marks in the allocation maps, page by page.

use vstd::prelude::*;
use crate::PstError;
use crate::amap::{
    amap_bit, amap_bit_index, amap_index, amap_not_found, amap_pages_marked, amap_pages_wf,
    mark_block_allocation, AllocationMapPageInfo, AMAP_BIT_COUNT, AMAP_DATA_SIZE, AMAP_FIRST_OFFSET,
};
use crate::ndb::block::{block_size, spec_block_size};
use crate::ndb::block_ref::{AnsiBlockRef, BlockRef, UnicodeBlockRef};
use crate::ndb::btree::{
    AnsiBTree, AnsiBTreeEntryPage, AnsiBlockBTree, AnsiBlockBTreeEntry, AnsiNodeBTree, BTreePage,
    BTreePageEntry, BlockBTreeEntry, UnicodeBTree, UnicodeBTreeEntryPage, UnicodeBlockBTree,
    UnicodeBlockBTreeEntry, UnicodeNodeBTree,
};
use crate::ndb::byte_index::ByteIndex;

verus! {

/// The space a mark of `m.1` bytes at file offset `m.0` takes: `block_size(m.1)`.
pub open spec fn mark_space(m: (u64, u16)) -> int {
    spec_block_size(m.1) as int
}

/// Whether the mark `m` covers bit `i` of allocation map page `k`.
pub open spec fn mark_covers(m: (u64, u16), k: int, i: int) -> bool {
    &&& amap_index(m.0) == k
    &&& amap_bit_index(m.0) <= i < amap_bit_index(m.0) + mark_space(m) / 64
}

/// Whether one of the marks covers bit `i` of allocation map page `k`.
pub open spec fn covered(marks: Seq<(u64, u16)>, k: int, i: int) -> bool {
    exists|j: int| 0 <= j < marks.len() && #[trigger] mark_covers(marks[j], k, i)
}

/// The space the marks take in allocation map page `k`.
pub open spec fn space_in(marks: Seq<(u64, u16)>, k: int) -> int
    decreases marks.len(),
{
    if marks.len() == 0 {
        0
    } else {
        space_in(marks.drop_last(), k) + if amap_index(marks.last().0) == k { mark_space(marks.last()) } else { 0 }
    }
}

/// `new` is `old` with every mark made: each page keeps its offset, loses the space
/// that the marks in it take, and has the bits they cover set, every other bit as before.
pub open spec fn all_marked(old: Seq<AllocationMapPageInfo>, new: Seq<AllocationMapPageInfo>, marks: Seq<(u64, u16)>) -> bool {
    &&& new.len() == old.len()
    &&& forall|k: int| 0 <= k < old.len() ==> {
        &&& (#[trigger] new[k])@.offset == old[k]@.offset
        &&& new[k]@.free_space == old[k]@.free_space - space_in(marks, k)
        &&& new[k]@.map_bits.len() == old[k]@.map_bits.len()
        &&& forall|i: int| 0 <= i < 8 * old[k]@.map_bits.len() ==> #[trigger] amap_bit(new[k]@.map_bits, i)
            == (amap_bit(old[k]@.map_bits, i) || covered(marks, k, i))
    }
}

/// The marks can be made: they lie past the first allocation map, each stays within
/// its map page, and no page runs out of free space.
pub open spec fn marks_fit(old: Seq<AllocationMapPageInfo>, marks: Seq<(u64, u16)>) -> bool {
    &&& forall|j: int| 0 <= j < marks.len() ==> (#[trigger] marks[j]).0 >= AMAP_FIRST_OFFSET
    &&& forall|j: int| 0 <= j < marks.len() && amap_index(marks[j].0) < old.len()
        ==> amap_bit_index(#[trigger] marks[j].0) + mark_space(marks[j]) / 64 <= AMAP_BIT_COUNT
    &&& forall|k: int| 0 <= k < old.len() ==> space_in(marks, k) <= (#[trigger] old[k])@.free_space
}

/// Whether every mark lies in one of the `n` allocation map pages.
pub open spec fn marks_mapped(marks: Seq<(u64, u16)>, n: int) -> bool {
    forall|j: int| 0 <= j < marks.len() ==> amap_index((#[trigger] marks[j]).0) < n
}

/// The space of a prefix of the marks is at most that of them all.
proof fn lemma_space_in_prefix(marks: Seq<(u64, u16)>, j: int, k: int)
    requires
        0 <= j <= marks.len(),
    ensures
        0 <= space_in(marks.subrange(0, j), k) <= space_in(marks, k),
    decreases marks.len(),
{
    if j < marks.len() {
        assert(marks.drop_last().subrange(0, j) =~= marks.subrange(0, j));
        lemma_space_in_prefix(marks.drop_last(), j, k);
    } else {
        assert(marks.subrange(0, j) =~= marks);
        if marks.len() > 0 {
            lemma_space_in_prefix(marks.drop_last(), j - 1, k);
            assert(marks.drop_last().subrange(0, j - 1) =~= marks.drop_last());
        }
    }
}

/// One more mark is covered exactly where it or the marks before it cover.
proof fn lemma_covered_push(marks: Seq<(u64, u16)>, j: int, k: int, i: int)
    requires
        0 <= j < marks.len(),
    ensures
        covered(marks.subrange(0, j + 1), k, i) == (covered(marks.subrange(0, j), k, i) || mark_covers(marks[j], k, i)),
{
    let p = marks.subrange(0, j);
    let q = marks.subrange(0, j + 1);
    if covered(q, k, i) {
        let w = choose|w: int| 0 <= w < q.len() && #[trigger] mark_covers(q[w], k, i);
        if w < j {
            assert(p[w] == q[w]);
            assert(mark_covers(p[w], k, i));
        }
    }
    if covered(p, k, i) {
        let w = choose|w: int| 0 <= w < p.len() && #[trigger] mark_covers(p[w], k, i);
        assert(q[w] == p[w]);
        assert(mark_covers(q[w], k, i));
    }
    if mark_covers(marks[j], k, i) {
        assert(q[j] == marks[j]);
        assert(mark_covers(q[j], k, i));
    }
}

/// Makes the marks one after another, each with `mark_block_allocation`; stops at the
/// first mark that no allocation map page of the list covers.
pub fn mark_all(marks: &[(u64, u16)], amap_pages: &mut Vec<AllocationMapPageInfo>) -> (r: Result<(), PstError>)
    requires
        amap_pages_wf(old(amap_pages)@),
        marks_fit(old(amap_pages)@, marks@),
    ensures
        amap_pages_wf(final(amap_pages)@),
        r is Ok <==> marks_mapped(marks@, old(amap_pages)@.len() as int),
        r is Ok ==> all_marked(old(amap_pages)@, final(amap_pages)@, marks@),
        r matches Err(e) ==> exists|j: int| 0 <= j < marks@.len()
            && amap_index((#[trigger] marks@[j]).0) >= old(amap_pages)@.len()
            && e == amap_not_found(marks@[j].0)
            && marks_mapped(marks@.subrange(0, j), old(amap_pages)@.len() as int),
{
    let ghost old_pages = amap_pages@;
    let n = marks.len();
    let mut j: usize = 0;
    proof {
        assert(marks@.subrange(0, 0) =~= Seq::<(u64, u16)>::empty());
        assert forall|k: int| 0 <= k < old_pages.len() implies {
            &&& (#[trigger] amap_pages@[k])@.offset == old_pages[k]@.offset
            &&& amap_pages@[k]@.free_space == old_pages[k]@.free_space - space_in(marks@.subrange(0, 0), k)
            &&& amap_pages@[k]@.map_bits.len() == old_pages[k]@.map_bits.len()
            &&& forall|i: int| 0 <= i < 8 * old_pages[k]@.map_bits.len() ==> #[trigger] amap_bit(amap_pages@[k]@.map_bits, i)
                == (amap_bit(old_pages[k]@.map_bits, i) || covered(marks@.subrange(0, 0), k, i))
        } by {}
    }
    while j < n
        invariant
            n == marks@.len(),
            j <= n,
            old_pages == old(amap_pages)@,
            marks_fit(old_pages, marks@),
            amap_pages_wf(amap_pages@),
            all_marked(old_pages, amap_pages@, marks@.subrange(0, j as int)),
            marks_mapped(marks@.subrange(0, j as int), old_pages.len() as int),
        decreases n - j,
    {
        let ghost cur = amap_pages@;
        let ghost pre = marks@.subrange(0, j as int);
        let ghost post = marks@.subrange(0, j + 1);
        let m = marks[j];
        proof {
            assert(post.drop_last() =~= pre);
            assert(post.last() == m);
            lemma_space_in_prefix(marks@, j + 1, amap_index(m.0));
            assert(spec_block_size((m.1 + 0) as u16) == spec_block_size(m.1));
        }
        match mark_block_allocation(m.0, m.1, 0, amap_pages) {
            Ok(()) => {},
            Err(e) => {
                proof {
                    assert(marks@[j as int] == m);
                    assert(cur.len() == old_pages.len());
                    assert(amap_index(marks@[j as int].0) >= old_pages.len());
                    assert(marks@.subrange(0, j as int) == pre);
                    assert(!marks_mapped(marks@, old_pages.len() as int));
                }
                return Err(e);
            },
        }
        proof {
            let k0 = amap_index(m.0);
            let new = amap_pages@;
            assert forall|j2: int| 0 <= j2 < post.len() implies amap_index((#[trigger] post[j2]).0) < old_pages.len() by {
                if j2 < j {
                    assert(post[j2] == pre[j2]);
                }
            }
            assert forall|k: int| 0 <= k < old_pages.len() implies {
                &&& (#[trigger] new[k])@.offset == old_pages[k]@.offset
                &&& new[k]@.free_space == old_pages[k]@.free_space - space_in(post, k)
                &&& new[k]@.map_bits.len() == old_pages[k]@.map_bits.len()
                &&& forall|i: int| 0 <= i < 8 * old_pages[k]@.map_bits.len() ==> #[trigger] amap_bit(new[k]@.map_bits, i)
                    == (amap_bit(old_pages[k]@.map_bits, i) || covered(post, k, i))
            } by {
                assert forall|i: int| 0 <= i < 8 * old_pages[k]@.map_bits.len() implies #[trigger] amap_bit(new[k]@.map_bits, i)
                    == (amap_bit(old_pages[k]@.map_bits, i) || covered(post, k, i)) by {
                    lemma_covered_push(marks@, j as int, k, i);
                    assert(marks@[j as int] == m);
                    assert(amap_bit(cur[k]@.map_bits, i) == (amap_bit(old_pages[k]@.map_bits, i) || covered(pre, k, i)));
                    if k == k0 {
                        assert(amap_bit(new[k]@.map_bits, i) == ((amap_bit_index(m.0) <= i < amap_bit_index(m.0) + mark_space(m) / 64)
                            || amap_bit(cur[k]@.map_bits, i)));
                    } else {
                        assert(new[k]@ == cur[k]@);
                        assert(!mark_covers(m, k, i));
                    }
                }
            }
        }
        j = j + 1;
    }
    proof {
        assert(marks@.subrange(0, n as int) =~= marks@);
    }
    Ok(())
}

/// The references that an intermediate page of a Unicode file leads to, in order.
pub open spec fn unicode_children(page: UnicodeBTreeEntryPage) -> Seq<(u64, u64)> {
    page@.entries.map_values(|e: (u64, (u64, u64))| e.1)
}

/// The references that an intermediate page of an ANSI file leads to, in order.
pub open spec fn ansi_children(page: AnsiBTreeEntryPage) -> Seq<(u32, u32)> {
    page@.entries.map_values(|e: (u32, (u32, u32))| e.1)
}

/// The children of a page of a Unicode B-tree: those of an intermediate page, none
/// for a leaf page.
pub open spec fn unicode_page_children<L: crate::ndb::btree::UnicodeBTreePage + BTreePage<Entry = E>, E: crate::ndb::btree::BTreeEntry>(
    page: UnicodeBTree<L, E>,
) -> Seq<(u64, u64)> {
    match page {
        UnicodeBTree::Intermediate(p) => unicode_children(*p),
        UnicodeBTree::Leaf(_, _) => Seq::empty(),
    }
}

/// The children of a page of an ANSI B-tree: those of an intermediate page, none
/// for a leaf page.
pub open spec fn ansi_page_children<L: crate::ndb::btree::AnsiBTreePage + BTreePage<Entry = E>, E: crate::ndb::btree::BTreeEntry>(
    page: AnsiBTree<L, E>,
) -> Seq<(u32, u32)> {
    match page {
        AnsiBTree::Intermediate(p) => ansi_children(*p),
        AnsiBTree::Leaf(_, _) => Seq::empty(),
    }
}

/// The references of the entries of an intermediate page of a Unicode file.
fn unicode_child_refs(page: &UnicodeBTreeEntryPage) -> (r: Vec<UnicodeBlockRef>)
    ensures
        r@.map_values(|b: UnicodeBlockRef| b@) == unicode_children(*page),
{
    let entries = page.entries();
    let mut refs: Vec<UnicodeBlockRef> = Vec::new();
    let mut i: usize = 0;
    while i < entries.len()
        invariant
            i <= entries@.len(),
            entries@.map_values(|e: crate::ndb::btree::UnicodeBTreePageEntry| e@) == page@.entries,
            refs@.map_values(|b: UnicodeBlockRef| b@) == unicode_children(*page).subrange(0, i as int),
        decreases entries@.len() - i,
    {
        let ghost prev = refs@;
        let b = entries[i].block();
        refs.push(b);
        proof {
            assert(page@.entries[i as int] == entries@[i as int]@);
            assert(refs@.map_values(|b: UnicodeBlockRef| b@) =~= prev.map_values(|b: UnicodeBlockRef| b@).push(b@));
            assert(unicode_children(*page).subrange(0, i + 1) =~= unicode_children(*page).subrange(0, i as int).push(b@));
        }
        i = i + 1;
    }
    assert(unicode_children(*page).subrange(0, i as int) =~= unicode_children(*page));
    refs
}

/// The references of the entries of an intermediate page of an ANSI file.
fn ansi_child_refs(page: &AnsiBTreeEntryPage) -> (r: Vec<AnsiBlockRef>)
    ensures
        r@.map_values(|b: AnsiBlockRef| b@) == ansi_children(*page),
{
    let entries = page.entries();
    let mut refs: Vec<AnsiBlockRef> = Vec::new();
    let mut i: usize = 0;
    while i < entries.len()
        invariant
            i <= entries@.len(),
            entries@.map_values(|e: crate::ndb::btree::AnsiBTreePageEntry| e@) == page@.entries,
            refs@.map_values(|b: AnsiBlockRef| b@) == ansi_children(*page).subrange(0, i as int),
        decreases entries@.len() - i,
    {
        let ghost prev = refs@;
        let b = entries[i].block();
        refs.push(b);
        proof {
            assert(page@.entries[i as int] == entries@[i as int]@);
            assert(refs@.map_values(|b: AnsiBlockRef| b@) =~= prev.map_values(|b: AnsiBlockRef| b@).push(b@));
            assert(ansi_children(*page).subrange(0, i + 1) =~= ansi_children(*page).subrange(0, i as int).push(b@));
        }
        i = i + 1;
    }
    assert(ansi_children(*page).subrange(0, i as int) =~= ansi_children(*page));
    refs
}

/// What marking a page of a B-tree at `offset` makes: the page itself, 512 bytes.
pub open spec fn page_mark(offset: u64) -> Seq<(u64, u16)> {
    seq![(offset, 512u16)]
}

/// The marks of a page of the block B-tree of a Unicode file at `offset`: the page,
/// then, for a leaf page, each block with its data and its 16-byte trailer.
pub open spec fn unicode_block_page_marks(offset: u64, page: UnicodeBlockBTree) -> Seq<(u64, u16)> {
    page_mark(offset) + match page {
        UnicodeBTree::Intermediate(_) => Seq::empty(),
        UnicodeBTree::Leaf(p, _) => p@.entries.map_values(
            |e: crate::ndb::btree::UnicodeBlockBTreeEntryModel| (e.block.1, (e.size + 16) as u16)),
    }
}

/// The marks of a page of the block B-tree of an ANSI file at `offset`: the page,
/// then, for a leaf page, each block with its data and its 12-byte trailer.
pub open spec fn ansi_block_page_marks(offset: u64, page: AnsiBlockBTree) -> Seq<(u64, u16)> {
    page_mark(offset) + match page {
        AnsiBTree::Intermediate(_) => Seq::empty(),
        AnsiBTree::Leaf(p, _) => p@.entries.map_values(
            |e: crate::ndb::btree::AnsiBlockBTreeEntryModel| (e.block.1 as u64, (e.size + 12) as u16)),
    }
}

/// After the marks of a page of the block B-tree of an ANSI file at `offset` are made:
/// the 8 slots of the page itself are allocated, and for a leaf page, so are the slots
/// of each of its blocks, `block_size(size + 12)` bytes (its data and 12-byte trailer)
/// from the block's byte index on.
pub proof fn lemma_ansi_block_page_marked(
    offset: u64,
    page: AnsiBlockBTree,
    old: Seq<AllocationMapPageInfo>,
    new: Seq<AllocationMapPageInfo>,
)
    requires
        ansi_block_sizes_fit(page),
        all_marked(old, new, ansi_block_page_marks(offset, page)),
    ensures
        forall|i: int| 0 <= amap_index(offset) < old.len() && amap_bit_index(offset) <= i < amap_bit_index(offset) + 8
            && i < 8 * old[amap_index(offset)]@.map_bits.len() ==> #[trigger] amap_bit(new[amap_index(offset)]@.map_bits, i),
        page matches AnsiBTree::Leaf(p, _) ==> forall|j: int, i: int|
            #![trigger p@.entries[j], amap_bit(new[amap_index(p@.entries[j].block.1 as u64)]@.map_bits, i)]
            0 <= j < p@.entries.len()
            && 0 <= amap_index(p@.entries[j].block.1 as u64) < old.len()
            && amap_bit_index(p@.entries[j].block.1 as u64) <= i
            && i < amap_bit_index(p@.entries[j].block.1 as u64) + spec_block_size((p@.entries[j].size + 12) as u16) / 64
            && i < 8 * old[amap_index(p@.entries[j].block.1 as u64)]@.map_bits.len()
            ==> amap_bit(new[amap_index(p@.entries[j].block.1 as u64)]@.map_bits, i),
{
    let marks = ansi_block_page_marks(offset, page);
    assert(spec_block_size(512u16) == 512);
    assert forall|i: int| 0 <= amap_index(offset) < old.len() && amap_bit_index(offset) <= i < amap_bit_index(offset) + 8
        && i < 8 * old[amap_index(offset)]@.map_bits.len() implies #[trigger] amap_bit(new[amap_index(offset)]@.map_bits, i) by {
        assert(marks[0] == (offset, 512u16));
        assert(mark_covers(marks[0], amap_index(offset), i));
    }
    if let AnsiBTree::Leaf(p, _) = page {
        assert forall|j: int, i: int|
            0 <= j < p@.entries.len()
            && 0 <= amap_index(p@.entries[j].block.1 as u64) < old.len()
            && amap_bit_index(p@.entries[j].block.1 as u64) <= i
            && i < amap_bit_index(p@.entries[j].block.1 as u64) + spec_block_size((p@.entries[j].size + 12) as u16) / 64
            && i < 8 * old[amap_index(p@.entries[j].block.1 as u64)]@.map_bits.len()
            implies #[trigger] amap_bit(new[amap_index(p@.entries[j].block.1 as u64)]@.map_bits, i) by {
            let e = p@.entries[j];
            assert(marks[j + 1] == (e.block.1 as u64, (e.size + 12) as u16));
            assert(mark_covers(marks[j + 1], amap_index(e.block.1 as u64), i));
        }
    }
}

/// After the marks of a page of the block B-tree of a Unicode file at `offset` are
/// made: the 8 slots of the page itself are allocated, and for a leaf page, so are the
/// slots of each of its blocks, `block_size(size + 16)` bytes (its data and 16-byte
/// trailer) from the block's byte index on.
pub proof fn lemma_unicode_block_page_marked(
    offset: u64,
    page: UnicodeBlockBTree,
    old: Seq<AllocationMapPageInfo>,
    new: Seq<AllocationMapPageInfo>,
)
    requires
        unicode_block_sizes_fit(page),
        all_marked(old, new, unicode_block_page_marks(offset, page)),
    ensures
        forall|i: int| 0 <= amap_index(offset) < old.len() && amap_bit_index(offset) <= i < amap_bit_index(offset) + 8
            && i < 8 * old[amap_index(offset)]@.map_bits.len() ==> #[trigger] amap_bit(new[amap_index(offset)]@.map_bits, i),
        page matches UnicodeBTree::Leaf(p, _) ==> forall|j: int, i: int|
            #![trigger p@.entries[j], amap_bit(new[amap_index(p@.entries[j].block.1)]@.map_bits, i)]
            0 <= j < p@.entries.len()
            && 0 <= amap_index(p@.entries[j].block.1) < old.len()
            && amap_bit_index(p@.entries[j].block.1) <= i
            && i < amap_bit_index(p@.entries[j].block.1) + spec_block_size((p@.entries[j].size + 16) as u16) / 64
            && i < 8 * old[amap_index(p@.entries[j].block.1)]@.map_bits.len()
            ==> amap_bit(new[amap_index(p@.entries[j].block.1)]@.map_bits, i),
{
    let marks = unicode_block_page_marks(offset, page);
    assert(spec_block_size(512u16) == 512);
    assert forall|i: int| 0 <= amap_index(offset) < old.len() && amap_bit_index(offset) <= i < amap_bit_index(offset) + 8
        && i < 8 * old[amap_index(offset)]@.map_bits.len() implies #[trigger] amap_bit(new[amap_index(offset)]@.map_bits, i) by {
        assert(marks[0] == (offset, 512u16));
        assert(mark_covers(marks[0], amap_index(offset), i));
    }
    if let UnicodeBTree::Leaf(p, _) = page {
        assert forall|j: int, i: int|
            0 <= j < p@.entries.len()
            && 0 <= amap_index(p@.entries[j].block.1) < old.len()
            && amap_bit_index(p@.entries[j].block.1) <= i
            && i < amap_bit_index(p@.entries[j].block.1) + spec_block_size((p@.entries[j].size + 16) as u16) / 64
            && i < 8 * old[amap_index(p@.entries[j].block.1)]@.map_bits.len()
            implies #[trigger] amap_bit(new[amap_index(p@.entries[j].block.1)]@.map_bits, i) by {
            let e = p@.entries[j];
            assert(marks[j + 1] == (e.block.1, (e.size + 16) as u16));
            assert(mark_covers(marks[j + 1], amap_index(e.block.1), i));
        }
    }
}

/// The blocks of a leaf page of a block B-tree have sizes that leave room for their
/// trailers of `trailer` bytes in a `u16`.
pub open spec fn unicode_block_sizes_fit(page: UnicodeBlockBTree) -> bool {
    page matches UnicodeBTree::Leaf(p, _) ==> forall|i: int| 0 <= i < p@.entries.len() ==> p@.entries[i].size + 16 <= u16::MAX
}

/// The blocks of a leaf page of a block B-tree have sizes that leave room for their
/// trailers in a `u16`.
pub open spec fn ansi_block_sizes_fit(page: AnsiBlockBTree) -> bool {
    page matches AnsiBTree::Leaf(p, _) ==> forall|i: int| 0 <= i < p@.entries.len() ==> p@.entries[i].size + 12 <= u16::MAX
}

/// The marks of the block entries of a leaf page of a Unicode file, after the page's own.
fn unicode_block_marks(offset: u64, entries: &[UnicodeBlockBTreeEntry]) -> (r: Vec<(u64, u16)>)
    requires
        forall|i: int| 0 <= i < entries@.len() ==> entries@[i]@.size + 16 <= u16::MAX,
    ensures
        r@ == page_mark(offset) + entries@.map_values(|e: UnicodeBlockBTreeEntry| e@).map_values(
            |e: crate::ndb::btree::UnicodeBlockBTreeEntryModel| (e.block.1, (e.size + 16) as u16)),
{
    let ghost target = entries@.map_values(|e: UnicodeBlockBTreeEntry| e@).map_values(
        |e: crate::ndb::btree::UnicodeBlockBTreeEntryModel| (e.block.1, (e.size + 16) as u16));
    let mut marks: Vec<(u64, u16)> = Vec::new();
    marks.push((offset, 512u16));
    let mut i: usize = 0;
    while i < entries.len()
        invariant
            i <= entries@.len(),
            forall|i: int| 0 <= i < entries@.len() ==> entries@[i]@.size + 16 <= u16::MAX,
            target == entries@.map_values(|e: UnicodeBlockBTreeEntry| e@).map_values(
                |e: crate::ndb::btree::UnicodeBlockBTreeEntryModel| (e.block.1, (e.size + 16) as u16)),
            marks@ == page_mark(offset) + target.subrange(0, i as int),
        decreases entries@.len() - i,
    {
        let e = entries[i];
        let m = (e.block().index().index(), e.size() + 16);
        marks.push(m);
        proof {
            assert(target[i as int] == m);
            assert(target.subrange(0, i + 1) =~= target.subrange(0, i as int).push(m));
        }
        i = i + 1;
    }
    assert(target.subrange(0, i as int) =~= target);
    marks
}

/// The marks of the block entries of a leaf page of an ANSI file, after the page's own.
fn ansi_block_marks(offset: u64, entries: &[AnsiBlockBTreeEntry]) -> (r: Vec<(u64, u16)>)
    requires
        forall|i: int| 0 <= i < entries@.len() ==> entries@[i]@.size + 12 <= u16::MAX,
    ensures
        r@ == page_mark(offset) + entries@.map_values(|e: AnsiBlockBTreeEntry| e@).map_values(
            |e: crate::ndb::btree::AnsiBlockBTreeEntryModel| (e.block.1 as u64, (e.size + 12) as u16)),
{
    let ghost target = entries@.map_values(|e: AnsiBlockBTreeEntry| e@).map_values(
        |e: crate::ndb::btree::AnsiBlockBTreeEntryModel| (e.block.1 as u64, (e.size + 12) as u16));
    let mut marks: Vec<(u64, u16)> = Vec::new();
    marks.push((offset, 512u16));
    let mut i: usize = 0;
    while i < entries.len()
        invariant
            i <= entries@.len(),
            forall|i: int| 0 <= i < entries@.len() ==> entries@[i]@.size + 12 <= u16::MAX,
            target == entries@.map_values(|e: AnsiBlockBTreeEntry| e@).map_values(
                |e: crate::ndb::btree::AnsiBlockBTreeEntryModel| (e.block.1 as u64, (e.size + 12) as u16)),
            marks@ == page_mark(offset) + target.subrange(0, i as int),
        decreases entries@.len() - i,
    {
        let e = entries[i];
        let m = (e.block().index().index() as u64, e.size() + 12);
        marks.push(m);
        proof {
            assert(target[i as int] == m);
            assert(target.subrange(0, i + 1) =~= target.subrange(0, i as int).push(m));
        }
        i = i + 1;
    }
    assert(target.subrange(0, i as int) =~= target);
    marks
}

/// Marks a page of the node B-tree of a Unicode file, stored at `offset`, in the
/// allocation maps, and gives the references of the pages below it, in order (none
/// for a leaf page).
pub fn mark_unicode_node_btree_page(
    offset: u64,
    page: &UnicodeNodeBTree,
    amap_pages: &mut Vec<AllocationMapPageInfo>,
) -> (r: Result<Vec<UnicodeBlockRef>, PstError>)
    requires
        amap_pages_wf(old(amap_pages)@),
        marks_fit(old(amap_pages)@, page_mark(offset)),
    ensures
        amap_pages_wf(final(amap_pages)@),
        r is Ok <==> marks_mapped(page_mark(offset), old(amap_pages)@.len() as int),
        r is Ok ==> all_marked(old(amap_pages)@, final(amap_pages)@, page_mark(offset)),
        r matches Ok(v) ==> v@.map_values(|b: UnicodeBlockRef| b@) == unicode_page_children(*page),
        r matches Err(e) ==> e == amap_not_found(offset),
{
    let marks = vec![(offset, 512u16)];
    assert(marks@ =~= page_mark(offset));
    match mark_all(marks.as_slice(), amap_pages) {
        Ok(()) => {},
        Err(e) => {
            proof {
                let j = choose|j: int| 0 <= j < marks@.len() && amap_index((#[trigger] marks@[j]).0) >= old(amap_pages)@.len()
                    && e == amap_not_found(marks@[j].0) && marks_mapped(marks@.subrange(0, j), old(amap_pages)@.len() as int);
                assert(j == 0);
            }
            return Err(e);
        },
    }
    match page {
        UnicodeBTree::Intermediate(p) => Ok(unicode_child_refs(p)),
        UnicodeBTree::Leaf(_, _) => {
            let v: Vec<UnicodeBlockRef> = Vec::new();
            assert(v@.map_values(|b: UnicodeBlockRef| b@) =~= Seq::<(u64, u64)>::empty());
            Ok(v)
        },
    }
}

/// Marks a page of the node B-tree of an ANSI file, stored at `offset`, in the
/// allocation maps, and gives the references of the pages below it, in order (none
/// for a leaf page).
pub fn mark_ansi_node_btree_page(
    offset: u64,
    page: &AnsiNodeBTree,
    amap_pages: &mut Vec<AllocationMapPageInfo>,
) -> (r: Result<Vec<AnsiBlockRef>, PstError>)
    requires
        amap_pages_wf(old(amap_pages)@),
        marks_fit(old(amap_pages)@, page_mark(offset)),
    ensures
        amap_pages_wf(final(amap_pages)@),
        r is Ok <==> marks_mapped(page_mark(offset), old(amap_pages)@.len() as int),
        r is Ok ==> all_marked(old(amap_pages)@, final(amap_pages)@, page_mark(offset)),
        r matches Ok(v) ==> v@.map_values(|b: AnsiBlockRef| b@) == ansi_page_children(*page),
        r matches Err(e) ==> e == amap_not_found(offset),
{
    let marks = vec![(offset, 512u16)];
    assert(marks@ =~= page_mark(offset));
    match mark_all(marks.as_slice(), amap_pages) {
        Ok(()) => {},
        Err(e) => {
            proof {
                let j = choose|j: int| 0 <= j < marks@.len() && amap_index((#[trigger] marks@[j]).0) >= old(amap_pages)@.len()
                    && e == amap_not_found(marks@[j].0) && marks_mapped(marks@.subrange(0, j), old(amap_pages)@.len() as int);
                assert(j == 0);
            }
            return Err(e);
        },
    }
    match page {
        AnsiBTree::Intermediate(p) => Ok(ansi_child_refs(p)),
        AnsiBTree::Leaf(_, _) => {
            let v: Vec<AnsiBlockRef> = Vec::new();
            assert(v@.map_values(|b: AnsiBlockRef| b@) =~= Seq::<(u32, u32)>::empty());
            Ok(v)
        },
    }
}

/// Marks a page of the block B-tree of a Unicode file, stored at `offset`, in the
/// allocation maps: the page, then, for a leaf page, each of its blocks with the
/// space `block_size` gives its data and trailer. Gives the references of the pages
/// below it, in order (none for a leaf page). Marking stops at the first page or block
/// that no allocation map page of the list covers.
pub fn mark_unicode_block_btree_page(
    offset: u64,
    page: &UnicodeBlockBTree,
    amap_pages: &mut Vec<AllocationMapPageInfo>,
) -> (r: Result<Vec<UnicodeBlockRef>, PstError>)
    requires
        amap_pages_wf(old(amap_pages)@),
        unicode_block_sizes_fit(*page),
        marks_fit(old(amap_pages)@, unicode_block_page_marks(offset, *page)),
    ensures
        amap_pages_wf(final(amap_pages)@),
        r is Ok <==> marks_mapped(unicode_block_page_marks(offset, *page), old(amap_pages)@.len() as int),
        r is Ok ==> all_marked(old(amap_pages)@, final(amap_pages)@, unicode_block_page_marks(offset, *page)),
        r matches Ok(v) ==> v@.map_values(|b: UnicodeBlockRef| b@) == unicode_page_children(*page),
        r matches Err(e) ==> ({
            let marks = unicode_block_page_marks(offset, *page);
            exists|j: int| 0 <= j < marks.len() && amap_index((#[trigger] marks[j]).0) >= old(amap_pages)@.len()
                && e == amap_not_found(marks[j].0) && marks_mapped(marks.subrange(0, j), old(amap_pages)@.len() as int)
        }),
{
    let marks = unicode_block_page_marks_of(offset, page);
    match mark_all(marks.as_slice(), amap_pages) {
        Ok(()) => {},
        Err(e) => return Err(e),
    }
    match page {
        UnicodeBTree::Intermediate(p) => Ok(unicode_child_refs(p)),
        UnicodeBTree::Leaf(_, _) => {
            let v: Vec<UnicodeBlockRef> = Vec::new();
            assert(v@.map_values(|b: UnicodeBlockRef| b@) =~= Seq::<(u64, u64)>::empty());
            Ok(v)
        },
    }
}

/// Marks a page of the block B-tree of an ANSI file, stored at `offset`, in the
/// allocation maps: the page, then, for a leaf page, each of its blocks with the
/// space `block_size` gives its data and trailer. Gives the references of the pages
/// below it, in order (none for a leaf page). Marking stops at the first page or block
/// that no allocation map page of the list covers.
pub fn mark_ansi_block_btree_page(
    offset: u64,
    page: &AnsiBlockBTree,
    amap_pages: &mut Vec<AllocationMapPageInfo>,
) -> (r: Result<Vec<AnsiBlockRef>, PstError>)
    requires
        amap_pages_wf(old(amap_pages)@),
        ansi_block_sizes_fit(*page),
        marks_fit(old(amap_pages)@, ansi_block_page_marks(offset, *page)),
    ensures
        amap_pages_wf(final(amap_pages)@),
        r is Ok <==> marks_mapped(ansi_block_page_marks(offset, *page), old(amap_pages)@.len() as int),
        r is Ok ==> all_marked(old(amap_pages)@, final(amap_pages)@, ansi_block_page_marks(offset, *page)),
        r matches Ok(v) ==> v@.map_values(|b: AnsiBlockRef| b@) == ansi_page_children(*page),
        r matches Err(e) ==> ({
            let marks = ansi_block_page_marks(offset, *page);
            exists|j: int| 0 <= j < marks.len() && amap_index((#[trigger] marks[j]).0) >= old(amap_pages)@.len()
                && e == amap_not_found(marks[j].0) && marks_mapped(marks.subrange(0, j), old(amap_pages)@.len() as int)
        }),
{
    let marks = ansi_block_page_marks_of(offset, page);
    match mark_all(marks.as_slice(), amap_pages) {
        Ok(()) => {},
        Err(e) => return Err(e),
    }
    match page {
        AnsiBTree::Intermediate(p) => Ok(ansi_child_refs(p)),
        AnsiBTree::Leaf(_, _) => {
            let v: Vec<AnsiBlockRef> = Vec::new();
            assert(v@.map_values(|b: AnsiBlockRef| b@) =~= Seq::<(u32, u32)>::empty());
            Ok(v)
        },
    }
}

/// Whether the marks can be made in the allocation map pages (see `marks_fit`), tested
/// before marking.
pub fn marks_fit_check(pages: &[AllocationMapPageInfo], marks: &[(u64, u16)]) -> (r: bool)
    ensures
        r == marks_fit(pages@, marks@),
{
    let n = pages.len();
    let m = marks.len();
    let mut j: usize = 0;
    while j < m
        invariant
            m == marks@.len(),
            n == pages@.len(),
            j <= m,
            forall|i: int| 0 <= i < j ==> (#[trigger] marks@[i]).0 >= AMAP_FIRST_OFFSET,
            forall|i: int| 0 <= i < j && amap_index(marks@[i].0) < n
                ==> amap_bit_index(#[trigger] marks@[i].0) + mark_space(marks@[i]) / 64 <= AMAP_BIT_COUNT,
        decreases m - j,
    {
        let (offset, size) = marks[j];
        if offset < AMAP_FIRST_OFFSET {
            return false;
        }
        let k = (offset - AMAP_FIRST_OFFSET) / AMAP_DATA_SIZE;
        if k < n as u64 {
            let bit = ((offset - AMAP_FIRST_OFFSET) % AMAP_DATA_SIZE) / 64;
            if bit + (block_size(size) / 64) as u64 > AMAP_BIT_COUNT as u64 {
                return false;
            }
        }
        j = j + 1;
    }
    let mut k: usize = 0;
    while k < n
        invariant
            m == marks@.len(),
            n == pages@.len(),
            k <= n,
            forall|i: int| 0 <= i < m ==> (#[trigger] marks@[i]).0 >= AMAP_FIRST_OFFSET,
            forall|q: int| 0 <= q < k ==> space_in(marks@, q) <= (#[trigger] pages@[q])@.free_space,
        decreases n - k,
    {
        let free = pages[k].free_space();
        let mut total: u64 = 0;
        let mut j: usize = 0;
        while j < m
            invariant
                m == marks@.len(),
                k < n,
                n == pages@.len(),
                free == pages@[k as int]@.free_space,
                j <= m,
                forall|i: int| 0 <= i < m ==> (#[trigger] marks@[i]).0 >= AMAP_FIRST_OFFSET,
                total == space_in(marks@.subrange(0, j as int), k as int),
                total <= free,
            decreases m - j,
        {
            let (offset, size) = marks[j];
            let ghost post = marks@.subrange(0, j + 1);
            proof {
                assert(post.drop_last() =~= marks@.subrange(0, j as int));
                assert(post.last() == marks@[j as int]);
            }
            if (offset - AMAP_FIRST_OFFSET) / AMAP_DATA_SIZE == k as u64 {
                let space = block_size(size) as u64;
                if space > free - total {
                    proof {
                        lemma_space_in_prefix(marks@, j + 1, k as int);
                    }
                    return false;
                }
                total = total + space;
            }
            j = j + 1;
        }
        proof {
            assert(marks@.subrange(0, m as int) =~= marks@);
        }
        k = k + 1;
    }
    true
}

/// The marks of a page of the block B-tree of a Unicode file at `offset`.
pub fn unicode_block_page_marks_of(offset: u64, page: &UnicodeBlockBTree) -> (r: Vec<(u64, u16)>)
    requires
        unicode_block_sizes_fit(*page),
    ensures
        r@ == unicode_block_page_marks(offset, *page),
{
    match page {
        UnicodeBTree::Intermediate(_) => {
            let m = vec![(offset, 512u16)];
            assert(m@ =~= unicode_block_page_marks(offset, *page));
            m
        },
        UnicodeBTree::Leaf(p, _) => {
            let entries = p.entries();
            assert forall|i: int| 0 <= i < entries@.len() implies entries@[i]@.size + 16 <= u16::MAX by {
                assert(entries@.map_values(|e: UnicodeBlockBTreeEntry| e@)[i] == entries@[i]@);
            }
            let m = unicode_block_marks(offset, entries);
            assert(m@ =~= unicode_block_page_marks(offset, *page));
            m
        },
    }
}

/// The marks of a page of the block B-tree of an ANSI file at `offset`.
pub fn ansi_block_page_marks_of(offset: u64, page: &AnsiBlockBTree) -> (r: Vec<(u64, u16)>)
    requires
        ansi_block_sizes_fit(*page),
    ensures
        r@ == ansi_block_page_marks(offset, *page),
{
    match page {
        AnsiBTree::Intermediate(_) => {
            let m = vec![(offset, 512u16)];
            assert(m@ =~= ansi_block_page_marks(offset, *page));
            m
        },
        AnsiBTree::Leaf(p, _) => {
            let entries = p.entries();
            assert forall|i: int| 0 <= i < entries@.len() implies entries@[i]@.size + 12 <= u16::MAX by {
                assert(entries@.map_values(|e: AnsiBlockBTreeEntry| e@)[i] == entries@[i]@);
            }
            let m = ansi_block_marks(offset, entries);
            assert(m@ =~= ansi_block_page_marks(offset, *page));
            m
        },
    }
}

} // verus!
