use vstd::prelude::*;

verus! {

/// The number of entries in the pool of area infos of a [`WorldInfo`].
pub const WORLD_AREA_INFO_CAPACITY: usize = 0x14;

/// The number of entries in the pool of block infos of a [`WorldInfo`].
pub const WORLD_BLOCK_INFO_CAPACITY: usize = 0x20;

/// The first `len` entries of `pool`.
fn initialized_prefix<T>(pool: &[T], len: u32) -> (r: &[T])
    requires
        len <= pool@.len(),
    ensures
        r@ == pool@.take(len as int),
{
    let (initialized, _) = pool.split_at(len as usize);
    initialized
}

/// The first `len` entries of `pool`, to be changed in place.
fn initialized_prefix_mut<T>(pool: &mut [T], len: u32) -> (r: &mut [T])
    requires
        len <= old(pool)@.len(),
    ensures
        r@ == old(pool)@.take(len as int),
        final(pool)@ == final(r)@ + old(pool)@.skip(len as int),
{
    let (initialized, _) = pool.split_at_mut(len as usize);
    initialized
}

/// Whether the blocks of two areas share no block.
pub open spec fn blocks_apart(a: WorldAreaInfo, b: WorldAreaInfo) -> bool {
    ||| a.block_info_length == 0
    ||| b.block_info_length == 0
    ||| a.world_block_index + a.block_info_length <= b.world_block_index
    ||| b.world_block_index + b.block_info_length <= a.world_block_index
}

/// The blocks of `area` among `blocks`.
pub open spec fn area_blocks<T>(blocks: Seq<T>, area: WorldAreaInfo) -> Seq<T> {
    blocks.subrange(area.world_block_index as int, area.world_block_index + area.block_info_length)
}

/// Every area's blocks lie within the first `n` blocks.
pub open spec fn areas_fit(areas: Seq<WorldAreaInfo>, n: int) -> bool {
    forall|i: int|
        0 <= i < areas.len() ==> #[trigger] areas[i].world_block_index + areas[i].block_info_length
            <= n
}

/// No two areas share a block.
pub open spec fn areas_apart(areas: Seq<WorldAreaInfo>) -> bool {
    forall|i: int, j: int| 0 <= i < j < areas.len() ==> blocks_apart(#[trigger] areas[i], #[trigger] areas[j])
}

/// One mutable reference to each element of `s`, in order.
fn element_refs<T>(s: &mut [T]) -> (r: Vec<&mut T>)
    ensures
        r.len() == old(s)@.len(),
        forall|i: int| 0 <= i < r.len() ==> *(#[trigger] r@[i]) == old(s)@[i],
        final(s)@ == Seq::new(r.len() as nat, |i: int| *final(r@[i])),
{
    let mut out: Vec<&mut T> = Vec::new();
    let mut rest = s;
    let ghost whole = old(s)@;
    while rest.len() > 0
        invariant
            out.len() + rest@.len() == whole.len(),
            rest@ == whole.skip(out.len() as int),
            forall|i: int| 0 <= i < out.len() ==> *(#[trigger] out@[i]) == whole[i],
            final(s)@ == Seq::new(out.len() as nat, |i: int| *final(out@[i])) + final(rest)@,
        decreases rest@.len(),
    {
        let current = rest;
        let (head, tail) = current.split_at_mut(1);
        let first = head.first_mut().unwrap();
        out.push(first);
        rest = tail;
        assert(Seq::new(out.len() as nat, |i: int| *final(out@[i])) =~= Seq::new(
            (out.len() - 1) as nat,
            |i: int| *final(out@[i]),
        ).push(*final(out@[out.len() - 1])));
    }
    out
}

/// The index of an area whose blocks start at block `k`, if one has any.
fn find_area_starting_at(areas: &[WorldAreaInfo], k: usize) -> (r: Option<usize>)
    ensures
        r matches Some(m) ==> m < areas@.len() && areas@[m as int].world_block_index == k
            && areas@[m as int].block_info_length > 0,
        r is None ==> forall|j: int|
            0 <= j < areas@.len() ==> !(#[trigger] areas@[j].world_block_index == k
                && areas@[j].block_info_length > 0),
{
    let mut i: usize = 0;
    while i < areas.len()
        invariant
            i <= areas@.len(),
            forall|j: int|
                0 <= j < i ==> !(#[trigger] areas@[j].world_block_index == k
                    && areas@[j].block_info_length > 0),
        decreases areas@.len() - i,
    {
        if areas[i].world_block_index as usize == k && areas[i].block_info_length > 0 {
            return Some(i);
        }
        i = i + 1;
    }
    None
}

/// One step of walking a pool of blocks from its start: a block that no area
/// holds, at its index, or the blocks of an area, by the area's index.
pub enum BlockSegment {
    Gap(int),
    Area(int),
}

/// Whether area `m` has at least one block and its blocks start at `k`.
pub open spec fn starts_at(areas: Seq<WorldAreaInfo>, m: int, k: int) -> bool {
    0 <= m < areas.len() && areas[m].world_block_index == k && areas[m].block_info_length > 0
}

/// The walk over blocks `k` up to `n` of a pool: at each block where an area
/// starts, that area's blocks; at every other block, the block alone.
pub open spec fn segments_from(areas: Seq<WorldAreaInfo>, n: int, k: int) -> Seq<BlockSegment>
    decreases n - k,
{
    if k >= n {
        Seq::empty()
    } else if exists|m: int| #[trigger] starts_at(areas, m, k) {
        let m = choose|m: int| #[trigger] starts_at(areas, m, k);
        let len = areas[m].block_info_length;
        if len > 0 && k + len <= n {
            seq![BlockSegment::Area(m)] + segments_from(areas, n, k + len)
        } else if len > 0 {
            seq![BlockSegment::Area(m)]
        } else {
            seq![BlockSegment::Gap(k)] + segments_from(areas, n, k + 1)
        }
    } else {
        seq![BlockSegment::Gap(k)] + segments_from(areas, n, k + 1)
    }
}

/// The blocks that a walk puts together: the pool's block for a gap, and the
/// area's `pieces` for an area.
pub open spec fn assemble<T>(
    pool: Seq<T>,
    segments: Seq<BlockSegment>,
    pieces: spec_fn(int) -> Seq<T>,
) -> Seq<T>
    decreases segments.len(),
{
    if segments.len() == 0 {
        Seq::empty()
    } else {
        assemble(pool, segments.drop_last(), pieces) + segment_blocks(
            pool,
            segments.last(),
            pieces,
        )
    }
}

/// The blocks of one step of a walk: the pool's block for a gap, and the
/// area's piece for an area.
pub open spec fn segment_blocks<T>(
    pool: Seq<T>,
    segment: BlockSegment,
    pieces: spec_fn(int) -> Seq<T>,
) -> Seq<T> {
    match segment {
        BlockSegment::Gap(k) => seq![pool[k]],
        BlockSegment::Area(m) => pieces(m),
    }
}

/// A pool whose areas' blocks are replaced by `pieces`: the blocks that no
/// area holds stay as they are in `pool`, and the blocks of each area, in
/// block order, become that area's piece.
pub open spec fn with_area_blocks<T>(
    pool: Seq<T>,
    areas: Seq<WorldAreaInfo>,
    pieces: spec_fn(int) -> Seq<T>,
) -> Seq<T> {
    assemble(pool, segments_from(areas, pool.len() as int, 0), pieces)
}

/// Every area that a walk passes is one of the areas.
proof fn lemma_walk_areas_in_range(areas: Seq<WorldAreaInfo>, n: int, k: int, i: int)
    requires
        0 <= i < segments_from(areas, n, k).len(),
    ensures
        segments_from(areas, n, k)[i] matches BlockSegment::Area(m) ==> 0 <= m < areas.len(),
    decreases n - k,
{
    if k < n {
        if exists|m: int| #[trigger] starts_at(areas, m, k) {
            let m = choose|m: int| #[trigger] starts_at(areas, m, k);
            let len = areas[m].block_info_length;
            if len > 0 && k + len <= n && i > 0 {
                lemma_walk_areas_in_range(areas, n, k + len, i - 1);
            }
        } else if i > 0 {
            lemma_walk_areas_in_range(areas, n, k + 1, i - 1);
        }
    }
}

/// Whether block `j` is one of the blocks of area `a`.
pub open spec fn holds_block(a: WorldAreaInfo, j: int) -> bool {
    a.world_block_index <= j < a.world_block_index + a.block_info_length
}

/// Putting together a walk that starts with one step gives that step's
/// blocks followed by the rest.
proof fn lemma_assemble_cons<T>(
    pool: Seq<T>,
    first: BlockSegment,
    rest: Seq<BlockSegment>,
    pieces: spec_fn(int) -> Seq<T>,
)
    ensures
        assemble(pool, seq![first] + rest, pieces) == segment_blocks(pool, first, pieces) + assemble(
            pool,
            rest,
            pieces,
        ),
    decreases rest.len(),
{
    let whole = seq![first] + rest;
    let head = segment_blocks(pool, first, pieces);
    if rest.len() == 0 {
        assert(whole.drop_last() =~= Seq::<BlockSegment>::empty());
        assert(whole.last() == first);
        assert(assemble(pool, whole, pieces) == assemble(pool, whole.drop_last(), pieces) + head);
        assert(assemble(pool, Seq::<BlockSegment>::empty(), pieces) == Seq::<T>::empty());
        assert(assemble(pool, whole, pieces) =~= head);
        assert(assemble(pool, rest, pieces) == Seq::<T>::empty());
        assert(head + Seq::<T>::empty() =~= head);
    } else {
        assert(whole.drop_last() =~= seq![first] + rest.drop_last());
        assert(whole.last() == rest.last());
        lemma_assemble_cons(pool, first, rest.drop_last(), pieces);
        let tail = segment_blocks(pool, rest.last(), pieces);
        assert(assemble(pool, whole, pieces) == assemble(pool, whole.drop_last(), pieces) + tail);
        assert(assemble(pool, rest, pieces) == assemble(pool, rest.drop_last(), pieces) + tail);
        assert(head + assemble(pool, rest.drop_last(), pieces) + tail =~= head + (assemble(
            pool,
            rest.drop_last(),
            pieces,
        ) + tail));
    }
}

/// The walk from block `k`, where no area with blocks straddles `k`, puts
/// each area's piece at the area's blocks and keeps every other block.
proof fn lemma_walk_from<T>(
    pool: Seq<T>,
    areas: Seq<WorldAreaInfo>,
    pieces: spec_fn(int) -> Seq<T>,
    k: int,
)
    requires
        areas_fit(areas, pool.len() as int),
        areas_apart(areas),
        forall|m: int| 0 <= m < areas.len() ==> (#[trigger] pieces(m)).len() == areas[m].block_info_length,
        0 <= k <= pool.len(),
        forall|m: int|
            0 <= m < areas.len() && areas[m].block_info_length > 0 && #[trigger] areas[m].world_block_index
                < k ==> areas[m].world_block_index + areas[m].block_info_length <= k,
    ensures
        ({
            let walked = assemble(pool, segments_from(areas, pool.len() as int, k), pieces);
            &&& walked.len() == pool.len() - k
            &&& forall|m: int, i: int|
                0 <= m < areas.len() && areas[m].world_block_index >= k && 0 <= i
                    < areas[m].block_info_length ==> walked[areas[m].world_block_index - k + i]
                    == #[trigger] pieces(m)[i]
            &&& forall|j: int|
                k <= j < pool.len() && (forall|m: int| 0 <= m < areas.len() ==> !#[trigger] holds_block(areas[m], j))
                    ==> walked[j - k] == #[trigger] pool[j]
        }),
    decreases pool.len() - k,
{
    let n = pool.len() as int;
    if k >= n {
        assert forall|m: int, i: int|
            #![trigger pieces(m)[i]]
            0 <= m < areas.len() && areas[m].world_block_index >= k && 0 <= i
                < areas[m].block_info_length implies false by {
            assert(areas[m].world_block_index + areas[m].block_info_length <= n);
        }
    } else if exists|c: int| #[trigger] starts_at(areas, c, k) {
        let c = choose|c: int| #[trigger] starts_at(areas, c, k);
        let len = areas[c].block_info_length as int;
        assert(areas[c].world_block_index + areas[c].block_info_length <= n);
        let rest = segments_from(areas, n, k + len);
        assert(segments_from(areas, n, k) == seq![BlockSegment::Area(c)] + rest);
        lemma_assemble_cons(pool, BlockSegment::Area(c), rest, pieces);
        assert forall|m: int|
            0 <= m < areas.len() && areas[m].block_info_length > 0 && #[trigger] areas[m].world_block_index
                < k + len implies areas[m].world_block_index + areas[m].block_info_length <= k + len by {
            if m != c && areas[m].world_block_index >= k {
                if m < c {
                    assert(blocks_apart(areas[m], areas[c]));
                } else {
                    assert(blocks_apart(areas[c], areas[m]));
                }
            }
        }
        lemma_walk_from(pool, areas, pieces, k + len);
        let walked = assemble(pool, segments_from(areas, n, k), pieces);
        let after = assemble(pool, rest, pieces);
        assert(walked == pieces(c) + after);
        assert forall|m: int, i: int|
            0 <= m < areas.len() && areas[m].world_block_index >= k && 0 <= i
                < areas[m].block_info_length implies walked[areas[m].world_block_index - k + i]
                == #[trigger] pieces(m)[i] by {
            if m != c {
                if m < c {
                    assert(blocks_apart(areas[m], areas[c]));
                } else {
                    assert(blocks_apart(areas[c], areas[m]));
                }
                assert(areas[m].world_block_index >= k + len);
                assert(pieces(m)[i] == after[areas[m].world_block_index - (k + len) + i]);
            }
        }
        assert forall|j: int|
            k <= j < n && (forall|m: int| 0 <= m < areas.len() ==> !#[trigger] holds_block(areas[m], j))
                implies walked[j - k] == #[trigger] pool[j] by {
            assert(!holds_block(areas[c], j));
            assert(pool[j] == after[j - (k + len)]);
        }
    } else {
        let rest = segments_from(areas, n, k + 1);
        assert(segments_from(areas, n, k) == seq![BlockSegment::Gap(k)] + rest);
        lemma_assemble_cons(pool, BlockSegment::Gap(k), rest, pieces);
        assert forall|m: int|
            0 <= m < areas.len() && areas[m].block_info_length > 0 && #[trigger] areas[m].world_block_index
                < k + 1 implies areas[m].world_block_index + areas[m].block_info_length <= k + 1 by {
            if areas[m].world_block_index == k {
                assert(starts_at(areas, m, k));
            }
        }
        lemma_walk_from(pool, areas, pieces, k + 1);
        let walked = assemble(pool, segments_from(areas, n, k), pieces);
        let after = assemble(pool, rest, pieces);
        assert(walked == seq![pool[k]] + after);
        assert forall|m: int, i: int|
            0 <= m < areas.len() && areas[m].world_block_index >= k && 0 <= i
                < areas[m].block_info_length implies walked[areas[m].world_block_index - k + i]
                == #[trigger] pieces(m)[i] by {
            if areas[m].world_block_index == k {
                assert(starts_at(areas, m, k));
            }
            assert(pieces(m)[i] == after[areas[m].world_block_index - (k + 1) + i]);
        }
        assert forall|j: int|
            k <= j < n && (forall|m: int| 0 <= m < areas.len() ==> !#[trigger] holds_block(areas[m], j))
                implies walked[j - k] == #[trigger] pool[j] by {
            if j > k {
                assert(pool[j] == after[j - (k + 1)]);
            }
        }
    }
}

/// Once every piece has as many blocks as its area, the pool with the areas'
/// blocks replaced holds each area's piece at exactly that area's blocks,
/// and every block that no area holds as it was.
pub proof fn lemma_area_blocks_in_place<T>(
    pool: Seq<T>,
    areas: Seq<WorldAreaInfo>,
    pieces: spec_fn(int) -> Seq<T>,
)
    requires
        areas_fit(areas, pool.len() as int),
        areas_apart(areas),
        forall|m: int| 0 <= m < areas.len() ==> (#[trigger] pieces(m)).len() == areas[m].block_info_length,
    ensures
        with_area_blocks(pool, areas, pieces).len() == pool.len(),
        forall|m: int|
            0 <= m < areas.len() ==> #[trigger] area_blocks(with_area_blocks(pool, areas, pieces), areas[m])
                == pieces(m),
        forall|j: int|
            0 <= j < pool.len() && (forall|m: int| 0 <= m < areas.len() ==> !#[trigger] holds_block(areas[m], j))
                ==> #[trigger] with_area_blocks(pool, areas, pieces)[j] == pool[j],
{
    lemma_walk_from(pool, areas, pieces, 0);
    let walked = with_area_blocks(pool, areas, pieces);
    assert forall|m: int| 0 <= m < areas.len() implies #[trigger] area_blocks(walked, areas[m])
        == pieces(m) by {
        assert(areas[m].world_block_index + areas[m].block_info_length <= pool.len());
        assert forall|i: int| 0 <= i < areas[m].block_info_length implies area_blocks(walked, areas[m])[i]
            == pieces(m)[i] by {
            assert(walked[areas[m].world_block_index - 0 + i] == pieces(m)[i]);
        }
        assert(area_blocks(walked, areas[m]) =~= pieces(m));
    }
    assert forall|j: int|
        0 <= j < pool.len() && (forall|m: int| 0 <= m < areas.len() ==> !#[trigger] holds_block(areas[m], j))
            implies #[trigger] walked[j] == pool[j] by {
        assert(walked[j - 0] == pool[j]);
    }
}

/// Putting a walk together depends only on the pieces of the areas in it.
proof fn lemma_assemble_same_pieces<T>(
    pool: Seq<T>,
    segments: Seq<BlockSegment>,
    p1: spec_fn(int) -> Seq<T>,
    p2: spec_fn(int) -> Seq<T>,
)
    requires
        forall|i: int|
            0 <= i < segments.len() ==> (#[trigger] segments[i] matches BlockSegment::Area(m) ==> p1(m)
                == p2(m)),
    ensures
        assemble(pool, segments, p1) == assemble(pool, segments, p2),
    decreases segments.len(),
{
    if segments.len() > 0 {
        let init = segments.drop_last();
        assert forall|i: int|
            0 <= i < init.len() implies (#[trigger] init[i] matches BlockSegment::Area(m) ==> p1(m)
                == p2(m)) by {
            assert(init[i] == segments[i]);
        }
        lemma_assemble_same_pieces(pool, init, p1, p2);
        let last = segments.last();
        assert(segments[segments.len() - 1] == last);
    }
}

/// Cuts `blocks` into the blocks of each area, in the order of `areas`; an
/// area without blocks gets an empty slice of its own. What is written
/// through the slices lands in `blocks`, in the places of the areas' blocks.
fn carve_area_blocks<'a>(blocks: &'a mut [WorldBlockInfo], areas: &[WorldAreaInfo]) -> (r: Vec<
    &'a mut [WorldBlockInfo],
>)
    requires
        areas_fit(areas@, old(blocks)@.len() as int),
        areas_apart(areas@),
    ensures
        r.len() == areas@.len(),
        forall|i: int| 0 <= i < r.len() ==> r@[i]@ == area_blocks(old(blocks)@, areas@[i]),
        final(blocks)@ == with_area_blocks(old(blocks)@, areas@, |m: int| final(r@[m])@),
{
    let ghost whole = old(blocks)@;
    let ghost n_blocks = whole.len() as int;
    let n = areas.len();
    let mut rest = blocks;
    let mut slots: Vec<Option<&'a mut [WorldBlockInfo]>> = Vec::new();
    let mut i: usize = 0;
    while i < n
        invariant
            n == areas@.len(),
            i <= n,
            slots.len() == i,
            rest@ == whole,
            final(blocks)@ == final(rest)@,
            areas_fit(areas@, whole.len() as int),
            forall|j: int|
                0 <= j < i ==> ((#[trigger] slots@[j] is Some) == (areas@[j].block_info_length
                    == 0)),
            forall|j: int|
                0 <= j < i ==> (#[trigger] slots@[j] matches Some(p) ==> p@ == area_blocks(
                    whole,
                    areas@[j],
                )),
        decreases n - i,
    {
        if areas[i].block_info_length == 0 {
            let empty: &'a mut [WorldBlockInfo] = &mut [];
            assert(empty@ =~= area_blocks(whole, areas@[i as int]));
            slots.push(Some(empty));
        } else {
            slots.push(None);
        }
        i = i + 1;
    }
    let total = rest.len();
    let mut cursor: usize = 0;
    let ghost mut segments: Seq<BlockSegment> = Seq::empty();
    assert(segments_from(areas@, n_blocks, 0) == segments + segments_from(areas@, n_blocks, 0));
    while cursor < total
        invariant
            n == areas@.len(),
            total == whole.len(),
            n_blocks == whole.len(),
            areas_fit(areas@, whole.len() as int),
            areas_apart(areas@),
            cursor <= total,
            rest@ == whole.skip(cursor as int),
            slots.len() == n,
            forall|j: int|
                0 <= j < n ==> (#[trigger] slots@[j] matches Some(p) ==> p@ == area_blocks(
                    whole,
                    areas@[j],
                )),
            forall|j: int|
                0 <= j < n && (areas@[j].block_info_length == 0 || areas@[j].world_block_index
                    < cursor) ==> #[trigger] slots@[j] is Some,
            forall|j: int|
                0 <= j < n && areas@[j].block_info_length > 0 && areas@[j].world_block_index
                    >= cursor ==> #[trigger] slots@[j] is None,
            forall|i: int|
                0 <= i < segments.len() ==> (#[trigger] segments[i] matches BlockSegment::Area(m) ==> 0
                    <= m < n && areas@[m].world_block_index < cursor
                    && areas@[m].block_info_length > 0),
            segments_from(areas@, n_blocks, 0) == segments + segments_from(
                areas@,
                n_blocks,
                cursor as int,
            ),
            final(blocks)@ == assemble(whole, segments, |m: int| final(slots@[m]->0)@)
                + final(rest)@,
        decreases total - cursor,
    {
        let ghost old_slots = slots@;
        let ghost old_segments = segments;
        let ghost old_pieces = |m: int| final(old_slots[m]->0)@;
        match find_area_starting_at(areas, cursor) {
            Some(m) => {
                proof {
                    assert forall|j: int|
                        #[trigger] starts_at(areas@, j, cursor as int) implies j == m by {
                        if j < m {
                            assert(blocks_apart(areas@[j], areas@[m as int]));
                        } else if j > m {
                            assert(blocks_apart(areas@[m as int], areas@[j]));
                        }
                    }
                    assert(starts_at(areas@, m as int, cursor as int));
                    let c = choose|c: int| #[trigger] starts_at(areas@, c, cursor as int);
                    assert(starts_at(areas@, c, cursor as int));
                    assert(c == m);
                }
                let len = areas[m].block_info_length as usize;
                let current = rest;
                let (piece, tail) = current.split_at_mut(len);
                assert(piece@ =~= area_blocks(whole, areas@[m as int]));
                slots.set(m, Some(piece));
                rest = tail;
                assert(rest@ =~= whole.skip(cursor + len));
                proof {
                    segments = old_segments.push(BlockSegment::Area(m as int));
                    assert(segments_from(areas@, n_blocks, cursor as int) == seq![
                        BlockSegment::Area(m as int),
                    ] + segments_from(areas@, n_blocks, cursor + len));
                    assert(old_segments + (seq![BlockSegment::Area(m as int)] + segments_from(
                        areas@,
                        n_blocks,
                        cursor + len,
                    )) =~= segments + segments_from(areas@, n_blocks, cursor + len));
                    let new_pieces = |k: int| final(slots@[k]->0)@;
                    assert forall|i: int|
                        0 <= i < old_segments.len() implies (#[trigger] old_segments[i] matches BlockSegment::Area(
                            k,
                        ) ==> old_pieces(k) == new_pieces(k)) by {
                        if let BlockSegment::Area(k) = old_segments[i] {
                            assert(k != m);
                            assert(slots@[k] == old_slots[k]);
                        }
                    }
                    lemma_assemble_same_pieces(whole, old_segments, old_pieces, new_pieces);
                    assert(segments.drop_last() =~= old_segments);
                    assert(new_pieces(m as int) == final(piece)@);
                }
                assert forall|j: int|
                    0 <= j < n && (areas@[j].block_info_length == 0 || areas@[j].world_block_index
                        < cursor + len) implies #[trigger] slots@[j] is Some by {
                    if j != m && areas@[j].block_info_length != 0 && areas@[j].world_block_index
                        >= cursor {
                        if j < m {
                            assert(blocks_apart(areas@[j], areas@[m as int]));
                        } else {
                            assert(blocks_apart(areas@[m as int], areas@[j]));
                        }
                    }
                }
                cursor = cursor + len;
            },
            None => {
                proof {
                    assert(!exists|c: int| #[trigger] starts_at(areas@, c, cursor as int));
                }
                let current = rest;
                let (gap, tail) = current.split_at_mut(1);
                assert(gap@ =~= seq![whole[cursor as int]]);
                rest = tail;
                assert(rest@ =~= whole.skip(cursor + 1));
                proof {
                    segments = old_segments.push(BlockSegment::Gap(cursor as int));
                    assert(old_segments + (seq![BlockSegment::Gap(cursor as int)] + segments_from(
                        areas@,
                        n_blocks,
                        cursor + 1,
                    )) =~= segments + segments_from(areas@, n_blocks, cursor + 1));
                    assert(segments.drop_last() =~= old_segments);
                }
                cursor = cursor + 1;
            },
        }
    }
    assert(segments + segments_from(areas@, n_blocks, cursor as int) =~= segments);
    let ghost end_slots = slots@;
    let mut out: Vec<&'a mut [WorldBlockInfo]> = Vec::new();
    while slots.len() > 0
        invariant
            n == areas@.len(),
            end_slots.len() == n,
            slots.len() + out.len() == n,
            forall|j: int| 0 <= j < slots.len() ==> #[trigger] slots@[j] == end_slots[j],
            forall|j: int|
                0 <= j < slots.len() ==> (#[trigger] slots@[j] matches Some(p) && p@ == area_blocks(
                    whole,
                    areas@[j],
                )),
            forall|j: int|
                slots.len() <= j < n ==> (#[trigger] end_slots[j] matches Some(p) && final(p)@
                    == final(out@[j - slots.len()])@),
            forall|j: int|
                0 <= j < out.len() ==> out@[j]@ == area_blocks(whole, areas@[j + slots.len()]),
        decreases slots.len(),
    {
        let ghost before = out@;
        let last = slots.pop().unwrap();
        assert(last == end_slots[slots.len() as int]);
        let piece = last.unwrap();
        assert(last == Some(piece));
        out.insert(0, piece);
        assert forall|j: int| 0 < j < out.len() implies #[trigger] out@[j] == before[j - 1] by {}
        assert forall|j: int| slots.len() <= j < n implies (#[trigger] end_slots[j] matches Some(p)
            && final(p)@ == final(out@[j - slots.len()])@) by {
            if j > slots.len() {
                assert(out@[j - slots.len()] == before[j - slots.len() - 1]);
            }
        }
    }
    proof {
        let end_pieces = |m: int| final(end_slots[m]->0)@;
        let out_pieces = |m: int| final(out@[m])@;
        assert forall|i: int|
            0 <= i < segments.len() implies (#[trigger] segments[i] matches BlockSegment::Area(m)
                ==> end_pieces(m) == out_pieces(m)) by {
            if let BlockSegment::Area(m) = segments[i] {
                assert(end_slots[m] matches Some(p) && final(p)@ == final(out@[m])@);
            }
        }
        lemma_assemble_same_pieces(whole, segments, end_pieces, out_pieces);
    }
    out
}

/// An ID that tells which event flags a block's events use.
#[derive(Clone, Copy, Debug, PartialEq, Eq, Structural, Hash)]
pub struct BlockId(pub u32);

impl BlockId {
    /// The event group that this block belongs to: bits 16 to 23.
    pub fn group(&self) -> (r: u8)
        ensures
            r == (self.0 >> 16) & 0xff,
    {
        proof {
            let x = self.0;
            assert((x >> 16u32) & 0xff <= 0xff) by (bit_vector);
        }
        ((self.0 >> 16) & 0xff) as u8
    }

    /// The area number that this block belongs to: bits 24 to 31.
    pub fn area(&self) -> (r: u8)
        ensures
            r == self.0 >> 24,
    {
        proof {
            let x = self.0;
            assert(x >> 24u32 <= 0xff) by (bit_vector);
        }
        (self.0 >> 24) as u8
    }
}

/// The two fields of a block ID are its top two bytes: the area number and
/// the event group that an ID is made of are read back unchanged, whatever
/// its lower two bytes hold.
pub proof fn lemma_block_id_fields(area: u8, group: u8, low: u16)
    ensures
        ((((area as u32) << 24u32) | ((group as u32) << 16u32) | (low as u32)) >> 24u32) == area,
        ((((area as u32) << 24u32) | ((group as u32) << 16u32) | (low as u32)) >> 16u32) & 0xff
            == group,
{
    let a = area as u32;
    let g = group as u32;
    let l = low as u32;
    assert(a <= 0xff && g <= 0xff && l <= 0xffff ==> ((a << 24u32) | (g << 16u32) | l) >> 24u32
        == a) by (bit_vector);
    assert(a <= 0xff && g <= 0xff && l <= 0xffff ==> (((a << 24u32) | (g << 16u32) | l)
        >> 16u32) & 0xff == g) by (bit_vector);
}

/// One area of the world: which blocks of the [`WorldInfo`] belong to it.
#[derive(Clone, Copy, Debug, PartialEq, Eq, Structural)]
pub struct WorldAreaInfo {
    /// The area's numeric identifier; the `XX00000` digits of its event flags.
    pub area_number: u8,
    /// The index of this area in [`WorldInfo::world_area_info`].
    pub world_area_index: u32,
    /// The index of this area's first block in [`WorldInfo::world_block_info`].
    pub world_block_index: u32,
    /// How many blocks, from the first, belong to this area.
    pub block_info_length: u32,
    /// A lock flag whose use is not yet known.
    pub is_lock: bool,
}

/// One block of the world.
#[derive(Clone, Copy, Debug, PartialEq, Eq, Structural)]
pub struct WorldBlockInfo {
    /// Which event flags this block refers to.
    pub block_id: BlockId,
    /// The index in [`WorldInfo::world_area_info`] of the area that holds this
    /// block.
    pub world_area_index: u32,
    /// The index of this block in [`WorldInfo::world_block_info`], which is
    /// also the index of its events in the event world's blocks.
    pub world_block_index: u32,
}

/// The areas and blocks of the loaded world. Both are kept in pools of fixed
/// size, of which only the first entries, as many as the matching length
/// says, are in use.
#[derive(Clone, Copy, Debug)]
pub struct WorldInfo {
    /// How many entries of [`WorldInfo::world_area_info`] are in use.
    pub world_area_info_len: u32,
    /// How many entries of [`WorldInfo::world_block_info`] are in use.
    pub world_block_info_len: u32,
    /// A lock flag whose use is not yet known.
    pub is_lock: bool,
    /// The pool of area infos.
    pub world_area_info: [WorldAreaInfo; 0x14],
    /// The pool of block infos.
    pub world_block_info: [WorldBlockInfo; 0x20],
}

impl WorldInfo {
    /// The count of area infos in use fits in its pool.
    pub open spec fn area_len_fits(&self) -> bool {
        self.world_area_info_len <= WORLD_AREA_INFO_CAPACITY
    }

    /// The count of block infos in use fits in its pool.
    pub open spec fn block_len_fits(&self) -> bool {
        self.world_block_info_len <= WORLD_BLOCK_INFO_CAPACITY
    }

    /// The area infos in use.
    pub open spec fn spec_area_info(&self) -> Seq<WorldAreaInfo> {
        self.world_area_info@.take(self.world_area_info_len as int)
    }

    /// The block infos in use.
    pub open spec fn spec_block_info(&self) -> Seq<WorldBlockInfo> {
        self.world_block_info@.take(self.world_block_info_len as int)
    }

    /// Both counts fit, and the blocks of every area in use are block infos
    /// in use.
    pub open spec fn areas_within_blocks(&self) -> bool {
        &&& self.area_len_fits()
        &&& self.block_len_fits()
        &&& forall|i: int|
            0 <= i < self.world_area_info_len ==> #[trigger] self.world_area_info@[i].world_block_index
                + self.world_area_info@[i].block_info_length <= self.world_block_info_len
    }

    /// The block infos of the area info `area`.
    pub open spec fn spec_blocks_of(&self, area: WorldAreaInfo) -> Seq<WorldBlockInfo> {
        self.world_block_info@.subrange(
            area.world_block_index as int,
            area.world_block_index + area.block_info_length,
        )
    }

    /// The area infos in use.
    pub fn area_info(&self) -> (r: &[WorldAreaInfo])
        requires
            self.area_len_fits(),
        ensures
            r@ == self.spec_area_info(),
    {
        initialized_prefix(self.world_area_info.as_slice(), self.world_area_info_len)
    }

    /// The area infos in use, to be changed in place.
    pub fn area_info_mut(&mut self) -> (r: &mut [WorldAreaInfo])
        requires
            old(self).area_len_fits(),
        ensures
            r@ == old(self).spec_area_info(),
            final(self).world_area_info@ == final(r)@ + old(self).world_area_info@.skip(
                old(self).world_area_info_len as int,
            ),
            final(self).world_area_info_len == old(self).world_area_info_len,
            final(self).world_block_info_len == old(self).world_block_info_len,
            final(self).world_block_info == old(self).world_block_info,
            final(self).is_lock == old(self).is_lock,
    {
        let len = self.world_area_info_len;
        initialized_prefix_mut(&mut self.world_area_info, len)
    }

    /// The block infos in use.
    pub fn block_info(&self) -> (r: &[WorldBlockInfo])
        requires
            self.block_len_fits(),
        ensures
            r@ == self.spec_block_info(),
    {
        initialized_prefix(self.world_block_info.as_slice(), self.world_block_info_len)
    }

    /// The block infos in use, to be changed in place.
    pub fn block_info_mut(&mut self) -> (r: &mut [WorldBlockInfo])
        requires
            old(self).block_len_fits(),
        ensures
            r@ == old(self).spec_block_info(),
            final(self).world_block_info@ == final(r)@ + old(self).world_block_info@.skip(
                old(self).world_block_info_len as int,
            ),
            final(self).world_area_info_len == old(self).world_area_info_len,
            final(self).world_block_info_len == old(self).world_block_info_len,
            final(self).world_area_info == old(self).world_area_info,
            final(self).is_lock == old(self).is_lock,
    {
        let len = self.world_block_info_len;
        initialized_prefix_mut(&mut self.world_block_info, len)
    }

    /// The area infos in use, each with the block infos that belong to it.
    pub fn area_and_block_info(&self) -> (r: Vec<(&WorldAreaInfo, &[WorldBlockInfo])>)
        requires
            self.areas_within_blocks(),
        ensures
            r.len() == self.world_area_info_len,
            forall|i: int|
                0 <= i < r.len() ==> *(#[trigger] r@[i]).0 == self.world_area_info@[i] && r@[i].1@
                    == self.spec_blocks_of(self.world_area_info@[i]),
    {
        let areas = self.area_info();
        let blocks = self.world_block_info.as_slice();
        let mut out: Vec<(&WorldAreaInfo, &[WorldBlockInfo])> = Vec::new();
        let mut i: usize = 0;
        while i < areas.len()
            invariant
                self.areas_within_blocks(),
                areas@ == self.spec_area_info(),
                blocks@ == self.world_block_info@,
                i <= areas@.len(),
                out.len() == i,
                forall|j: int|
                    0 <= j < i ==> *(#[trigger] out@[j]).0 == self.world_area_info@[j] && out@[j].1@
                        == self.spec_blocks_of(self.world_area_info@[j]),
            decreases areas@.len() - i,
        {
            let area = &areas[i];
            assert(area.world_block_index + area.block_info_length <= self.world_block_info_len);
            let start = area.world_block_index as usize;
            let end = start + area.block_info_length as usize;
            let (_, from_start) = blocks.split_at(start);
            let (own, _) = from_start.split_at(end - start);
            assert(own@ =~= self.spec_blocks_of(self.world_area_info@[i as int]));
            out.push((area, own));
            i = i + 1;
        }
        out
    }

    /// No two area infos in use share a block, and each one's blocks are
    /// block infos in use.
    pub open spec fn areas_own_their_blocks(&self) -> bool {
        &&& self.areas_within_blocks()
        &&& areas_apart(self.spec_area_info())
    }

    /// The area infos in use, each with the block infos that belong to it,
    /// all to be changed in place.
    pub fn area_and_block_info_mut(&mut self) -> (r: Vec<(&mut WorldAreaInfo, &mut [WorldBlockInfo])>)
        requires
            old(self).areas_own_their_blocks(),
        ensures
            r.len() == old(self).world_area_info_len,
            forall|i: int|
                0 <= i < r.len() ==> *(#[trigger] r@[i]).0 == old(self).world_area_info@[i] && r@[i].1@
                    == old(self).spec_blocks_of(old(self).world_area_info@[i]),
            forall|i: int|
                0 <= i < r.len() ==> final(self).world_area_info@[i] == *final(#[trigger] r@[i].0),
            forall|i: int|
                old(self).world_area_info_len <= i < WORLD_AREA_INFO_CAPACITY
                    ==> final(self).world_area_info@[i] == old(self).world_area_info@[i],
            final(self).world_block_info@ == with_area_blocks(
                old(self).world_block_info@,
                old(self).spec_area_info(),
                |m: int| final(r@[m].1)@,
            ),
            final(self).world_area_info_len == old(self).world_area_info_len,
            final(self).world_block_info_len == old(self).world_block_info_len,
            final(self).is_lock == old(self).is_lock,
    {
        let len = self.world_area_info_len;
        let snapshot: [WorldAreaInfo; 0x14] = self.world_area_info;
        let areas = initialized_prefix(snapshot.as_slice(), len);
        assert(areas_fit(areas@, WORLD_BLOCK_INFO_CAPACITY as int));
        let area_pool: &mut [WorldAreaInfo] = &mut self.world_area_info;
        let block_pool: &mut [WorldBlockInfo] = &mut self.world_block_info;
        let area_prefix = initialized_prefix_mut(area_pool, len);
        let mut area_refs = element_refs(area_prefix);
        let mut pieces = carve_area_blocks(block_pool, areas);
        let mut out: Vec<(&mut WorldAreaInfo, &mut [WorldBlockInfo])> = Vec::new();
        let ghost refs = area_refs@;
        let ghost carved = pieces@;
        while area_refs.len() > 0
            invariant
                area_refs.len() == pieces.len(),
                carved.len() == refs.len(),
                forall|j: int| 0 <= j < pieces.len() ==> #[trigger] pieces@[j] == carved[j],
                forall|j: int|
                    0 <= j < out.len() ==> #[trigger] out@[j].1 == carved[j + area_refs.len()],
                area_refs.len() + out.len() == refs.len(),
                refs.len() == areas@.len(),
                forall|j: int| 0 <= j < area_refs.len() ==> #[trigger] area_refs@[j] == refs[j],
                forall|j: int|
                    0 <= j < pieces.len() ==> pieces@[j]@ == area_blocks(old(self).world_block_info@, areas@[j]),
                forall|j: int|
                    0 <= j < out.len() ==> (#[trigger] out@[j]).0 == refs[j + area_refs.len()] && out@[j].1@
                        == area_blocks(old(self).world_block_info@, areas@[j + area_refs.len()]),
            decreases area_refs.len(),
        {
            let ghost before = out@;
            let a = area_refs.pop().unwrap();
            let p = pieces.pop().unwrap();
            let pair = (a, p);
            out.insert(0, pair);
            assert forall|j: int| 0 < j < out.len() implies #[trigger] out@[j] == before[j - 1] by {}
        }
        proof {
            let segments = segments_from(areas@, WORLD_BLOCK_INFO_CAPACITY as int, 0);
            let carved_pieces = |m: int| final(carved[m])@;
            let out_pieces = |m: int| final(out@[m].1)@;
            assert forall|i: int|
                0 <= i < segments.len() implies (#[trigger] segments[i] matches BlockSegment::Area(m)
                    ==> carved_pieces(m) == out_pieces(m)) by {
                if let BlockSegment::Area(m) = segments[i] {
                    lemma_walk_areas_in_range(areas@, WORLD_BLOCK_INFO_CAPACITY as int, 0, i);
                    assert(out@[m].1 == carved[m]);
                }
            }
            lemma_assemble_same_pieces(old(self).world_block_info@, segments, carved_pieces, out_pieces);
        }
        out
    }
}

/// An opaque structure of `N` bytes whose layout is not known.
#[derive(Clone, Copy, Debug)]
pub struct UnknownStruct<const N: usize> {
    /// The structure's bytes.
    pub bytes: [u8; N],
}

/// The resources of one area of the world.
pub type WorldAreaRes = UnknownStruct<0x108>;

/// The resources of one block of the world.
pub type WorldBlockRes = UnknownStruct<0x438>;

/// The loaded world together with its area and block resources, kept in
/// pools of fixed size as in [`WorldInfo`].
#[derive(Clone, Copy, Debug)]
pub struct WorldRes {
    /// The world's areas and blocks.
    pub world_info: WorldInfo,
    /// How many entries of [`WorldRes::world_area_res`] are in use.
    pub world_area_res_len: u32,
    /// How many entries of [`WorldRes::world_block_res`] are in use.
    pub world_block_res_len: u32,
    /// The pool of area resources.
    pub world_area_res: [WorldAreaRes; 0x14],
    /// The pool of block resources.
    pub world_block_res: [WorldBlockRes; 0x20],
}

/// The owner of the world info, which adds nothing to [`WorldRes`].
pub type WorldInfoOwner = WorldRes;

impl WorldRes {
    /// The count of area resources in use fits in its pool.
    pub open spec fn area_res_len_fits(&self) -> bool {
        self.world_area_res_len <= WORLD_AREA_INFO_CAPACITY
    }

    /// The count of block resources in use fits in its pool.
    pub open spec fn block_res_len_fits(&self) -> bool {
        self.world_block_res_len <= WORLD_BLOCK_INFO_CAPACITY
    }

    /// The area resources in use.
    pub fn area_res(&self) -> (r: &[WorldAreaRes])
        requires
            self.area_res_len_fits(),
        ensures
            r@ == self.world_area_res@.take(self.world_area_res_len as int),
    {
        initialized_prefix(self.world_area_res.as_slice(), self.world_area_res_len)
    }

    /// The area resources in use, to be changed in place.
    pub fn area_res_mut(&mut self) -> (r: &mut [WorldAreaRes])
        requires
            old(self).area_res_len_fits(),
        ensures
            r@ == old(self).world_area_res@.take(old(self).world_area_res_len as int),
            final(self).world_area_res@ == final(r)@ + old(self).world_area_res@.skip(
                old(self).world_area_res_len as int,
            ),
            final(self).world_info == old(self).world_info,
            final(self).world_area_res_len == old(self).world_area_res_len,
            final(self).world_block_res_len == old(self).world_block_res_len,
            final(self).world_block_res == old(self).world_block_res,
    {
        let len = self.world_area_res_len;
        initialized_prefix_mut(&mut self.world_area_res, len)
    }

    /// The block resources in use.
    pub fn block_res(&self) -> (r: &[WorldBlockRes])
        requires
            self.block_res_len_fits(),
        ensures
            r@ == self.world_block_res@.take(self.world_block_res_len as int),
    {
        initialized_prefix(self.world_block_res.as_slice(), self.world_block_res_len)
    }

    /// The block resources in use, to be changed in place.
    pub fn block_res_mut(&mut self) -> (r: &mut [WorldBlockRes])
        requires
            old(self).block_res_len_fits(),
        ensures
            r@ == old(self).world_block_res@.take(old(self).world_block_res_len as int),
            final(self).world_block_res@ == final(r)@ + old(self).world_block_res@.skip(
                old(self).world_block_res_len as int,
            ),
            final(self).world_info == old(self).world_info,
            final(self).world_area_res_len == old(self).world_area_res_len,
            final(self).world_block_res_len == old(self).world_block_res_len,
            final(self).world_area_res == old(self).world_area_res,
    {
        let len = self.world_block_res_len;
        initialized_prefix_mut(&mut self.world_block_res, len)
    }
}


/// The blocks that belong to an area in use are block infos in use: read
/// from the pool or from the block infos in use, they are the same entries,
/// and the area is the same entry of the pool and of the areas in use.
pub proof fn lemma_area_blocks_in_use(world: WorldInfo, i: int)
    requires
        world.areas_within_blocks(),
        0 <= i < world.world_area_info_len,
    ensures
        world.spec_area_info()[i] == world.world_area_info@[i],
        world.spec_blocks_of(world.world_area_info@[i]) == area_blocks(
            world.spec_block_info(),
            world.world_area_info@[i],
        ),
{
    let a = world.world_area_info@[i];
    assert(a.world_block_index + a.block_info_length <= world.world_block_info_len);
    assert(world.spec_blocks_of(a) =~= area_blocks(world.spec_block_info(), a));
}

} // verus!
