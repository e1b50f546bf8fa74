//! What holds of the allocator whatever the state and the request.

use crate::memory::{
    copy_forward, find_start_from, first_fit_from, fits, lemma_extend_wf, lemma_find_start, lemma_first_fit,
    lemma_free_wf, lemma_take_wf, need, pages_for, tiled, MemoryRegion, MemoryView, PAGE_SIZE,
};
use vstd::prelude::*;

verus! {

/// In a tiling, a region that comes later starts where an earlier one ends,
/// or behind that.
pub proof fn lemma_tiled_ordered(regions: Seq<MemoryRegion>, i: int, j: int)
    requires
        tiled(regions),
        0 <= i < j < regions.len(),
    ensures
        regions[i].end <= regions[j].start,
    decreases j - i,
{
    assert(regions[j - 1].end == regions[j].start);
    if i + 1 < j {
        lemma_tiled_ordered(regions, i, j - 1);
        assert(regions[j - 1].wf());
    }
}

/// No gap: in a well-formed memory every address below the end of the
/// prefix lies in a region.
pub proof fn lemma_no_gap(m: MemoryView, a: int) -> (i: int)
    requires
        m.wf(),
        0 <= a < m.prefix_end(),
    ensures
        0 <= i < m.regions.len(),
        m.regions[i].start <= a < m.regions[i].end,
{
    lemma_covering(m.regions, a, m.regions.len() - 1)
}

/// An address below the end of region `k` lies in one of the regions up to
/// `k`.
proof fn lemma_covering(regions: Seq<MemoryRegion>, a: int, k: int) -> (i: int)
    requires
        tiled(regions),
        0 <= k < regions.len(),
        0 <= a < regions[k].end,
    ensures
        0 <= i <= k,
        regions[i].start <= a < regions[i].end,
    decreases k,
{
    if regions[k].start <= a {
        k
    } else {
        assert(regions[k - 1].end == regions[k].start);
        lemma_covering(regions, a, k - 1)
    }
}

/// No overlap: in a well-formed memory no address lies in two regions.
pub proof fn lemma_no_overlap(m: MemoryView, a: int, i: int, j: int)
    requires
        m.wf(),
        0 <= i < m.regions.len(),
        0 <= j < m.regions.len(),
        m.regions[i].start <= a < m.regions[i].end,
        m.regions[j].start <= a < m.regions[j].end,
    ensures
        i == j,
{
    if i < j {
        lemma_tiled_ordered(m.regions, i, j);
    } else if j < i {
        lemma_tiled_ordered(m.regions, j, i);
    }
}

/// The index that `first_fit_from` finds is the only one that fits with
/// none that fits before it.
pub proof fn lemma_first_fit_is(regions: Seq<MemoryRegion>, n: int, i: int)
    requires
        0 <= i < regions.len(),
        fits(regions[i], n),
        forall|j: int| 0 <= j < i ==> !fits(#[trigger] regions[j], n),
    ensures
        first_fit_from(regions, n, 0) == i,
{
    lemma_first_fit(regions, n, 0);
}

/// In a tiling, the index that `find_start_from` finds is the only region
/// that starts at `ptr`.
pub proof fn lemma_find_start_is(regions: Seq<MemoryRegion>, ptr: u32, i: int)
    requires
        tiled(regions),
        0 <= i < regions.len(),
        regions[i].start == ptr,
    ensures
        find_start_from(regions, ptr, 0) == i,
{
    lemma_find_start(regions, ptr, 0);
    let k = find_start_from(regions, ptr, 0);
    if k < i {
        lemma_tiled_ordered(regions, k, i);
        assert(regions[k].wf());
    }
}

/// An allocation keeps the memory well formed, keeps what the buffer held,
/// never shrinks the buffer and, on failure, changes nothing.
pub proof fn lemma_allocate(m: MemoryView, size: u32)
    requires
        m.wf(),
    ensures
        m.allocate(size).0.wf(),
        m.allocate(size).0.maximum == m.maximum,
        m.allocate(size).0.bytes.len() >= m.bytes.len(),
        m.allocate(size).0.bytes.subrange(0, m.bytes.len() as int) == m.bytes,
        m.allocate(size).1 is None ==> m.allocate(size).0 == m,
{
    let n = need(size);
    lemma_first_fit(m.regions, n, 0);
    let i = first_fit_from(m.regions, n, 0);
    if i < m.regions.len() {
        lemma_take_wf(m, i, n);
    } else {
        let end = m.prefix_end() + pages_for(n) * PAGE_SIZE;
        if end <= m.bytes.len() || pages_for(end) <= m.limit() {
            lemma_extend_wf(m, end);
        }
    }
    assert(m.allocate(size).0.bytes.subrange(0, m.bytes.len() as int) =~= m.bytes);
}

/// The block that an allocation hands out is a region in use that starts at
/// the address returned and holds at least the bytes asked for.
pub proof fn lemma_allocate_block(m: MemoryView, size: u32) -> (i: int)
    requires
        m.wf(),
        m.allocate(size).1 is Some,
    ensures
        0 <= i < m.allocate(size).0.regions.len(),
        m.allocate(size).0.regions[i].start == m.allocate(size).1->0,
        !m.allocate(size).0.regions[i].free,
        m.allocate(size).0.regions[i].len() >= need(size),
        forall|j: int| 0 <= j < i ==> !fits(#[trigger] m.allocate(size).0.regions[j], need(size)),
{
    let n = need(size);
    lemma_first_fit(m.regions, n, 0);
    let i = first_fit_from(m.regions, n, 0);
    let after = m.allocate(size).0;
    if i < m.regions.len() {
        assert(m.regions[i].wf());
        assert forall|j: int| 0 <= j < i implies !fits(#[trigger] after.regions[j], n) by {
            assert(after.regions[j] == m.regions[j]);
        }
    } else {
        assert forall|j: int| 0 <= j < i implies !fits(#[trigger] after.regions[j], n) by {
            assert(after.regions[j] == m.regions[j]);
        }
        assert(pages_for(n) * PAGE_SIZE >= n);
    }
    i
}

/// Allocating, freeing the block at once and allocating the same size again
/// succeeds, hands out the same address and leaves the buffer as long as it
/// was after the first allocation: the freed region is used again.
pub proof fn lemma_allocate_free_allocate(m: MemoryView, size: u32)
    requires
        m.wf(),
        m.allocate(size).1 is Some,
    ensures
        m.allocate(size).0.free(m.allocate(size).1->0).1 is Some,
        m.allocate(size).0.free(m.allocate(size).1->0).0.allocate(size).1 == m.allocate(size).1,
        m.allocate(size).0.free(m.allocate(size).1->0).0.allocate(size).0.bytes == m.allocate(
            size,
        ).0.bytes,
{
    let n = need(size);
    let first = m.allocate(size).0;
    let p = m.allocate(size).1->0;
    lemma_allocate(m, size);
    let i = lemma_allocate_block(m, size);
    lemma_find_start_is(first.regions, p, i);
    let freed = first.free(p).0;
    assert(freed.regions[i].free);
    assert forall|j: int| 0 <= j < i implies !fits(#[trigger] freed.regions[j], n) by {
        assert(freed.regions[j] == first.regions[j]);
    }
    lemma_first_fit_is(freed.regions, n, i);
    lemma_free_wf(first, p);
}

/// With a cap of `cap` pages an allocation never takes the buffer past the
/// cap, and one that would need to fails and changes nothing.
pub proof fn lemma_maximum_enforced(m: MemoryView, size: u32, cap: u32)
    requires
        m.wf(),
        m.maximum == Some(cap),
    ensures
        m.allocate(size).0.bytes.len() > m.bytes.len() ==> m.allocate(size).0.bytes.len() <= cap
            * PAGE_SIZE,
        (first_fit_from(m.regions, need(size), 0) >= m.regions.len() && pages_for(
            m.prefix_end() + pages_for(need(size)) * PAGE_SIZE,
        ) > cap && m.prefix_end() + pages_for(need(size)) * PAGE_SIZE > m.bytes.len()) ==> m.allocate(
            size,
        ) == (m, None::<u32>),
{
    let n = need(size);
    lemma_first_fit(m.regions, n, 0);
    let end = m.prefix_end() + pages_for(n) * PAGE_SIZE;
    if m.allocate(size).0.bytes.len() > m.bytes.len() {
        assert(pages_for(end) <= cap);
        assert(pages_for(end) * PAGE_SIZE <= cap * PAGE_SIZE) by (nonlinear_arith)
            requires
                pages_for(end) <= cap,
        ;
    }
}

/// Freeing changes the one region that starts at the address and no other,
/// and leaves the buffer alone.
pub proof fn lemma_free_one_region(m: MemoryView, ptr: u32)
    requires
        m.wf(),
    ensures
        m.free(ptr).0.wf(),
        m.free(ptr).0.bytes == m.bytes,
        m.free(ptr).0.maximum == m.maximum,
        m.free(ptr).0.regions.len() == m.regions.len(),
        forall|j: int|
            0 <= j < m.regions.len() && m.regions[j].start != ptr ==> #[trigger] m.free(ptr).0.regions[j]
                == m.regions[j],
        m.free(ptr).1 is None ==> m.free(ptr).0 == m,
{
    lemma_free_wf(m, ptr);
    lemma_find_start(m.regions, ptr, 0);
}

/// Freeing an address twice fails the second time and changes nothing then.
pub proof fn lemma_double_free(m: MemoryView, ptr: u32)
    requires
        m.wf(),
        m.free(ptr).1 is Some,
    ensures
        m.free(ptr).0.free(ptr) == (m.free(ptr).0, None::<()>),
{
    lemma_find_start(m.regions, ptr, 0);
    lemma_free_wf(m, ptr);
    let i = find_start_from(m.regions, ptr, 0);
    lemma_find_start_is(m.free(ptr).0.regions, ptr, i);
}

/// A copy keeps the length of the buffer.
pub proof fn lemma_copy_forward_len(bytes: Seq<u8>, src: int, dst: int, n: int)
    ensures
        copy_forward(bytes, src, dst, n).len() == bytes.len(),
    decreases n,
{
    if n > 0 {
        lemma_copy_forward_len(bytes, src, dst, n - 1);
    }
}

/// A copy between ranges that do not overlap, both inside the buffer, puts
/// the source bytes at the target and leaves every other byte alone.
pub proof fn lemma_copy_forward_disjoint(bytes: Seq<u8>, src: int, dst: int, n: int)
    requires
        0 <= n,
        0 <= src,
        0 <= dst,
        src + n <= bytes.len(),
        dst + n <= bytes.len(),
        src + n <= dst || dst + n <= src,
    ensures
        copy_forward(bytes, src, dst, n).len() == bytes.len(),
        forall|k: int| 0 <= k < n ==> #[trigger] copy_forward(bytes, src, dst, n)[dst + k] == bytes[src + k],
        forall|k: int|
            0 <= k < bytes.len() && !(dst <= k < dst + n) ==> #[trigger] copy_forward(bytes, src, dst, n)[k]
                == bytes[k],
    decreases n,
{
    if n > 0 {
        lemma_copy_forward_disjoint(bytes, src, dst, n - 1);
        let before = copy_forward(bytes, src, dst, n - 1);
        assert(before[src + n - 1] == bytes[src + n - 1]);
        assert forall|k: int| 0 <= k < n implies #[trigger] copy_forward(bytes, src, dst, n)[dst + k]
            == bytes[src + k] by {
            if k < n - 1 {
                assert(before[dst + k] == bytes[src + k]);
            }
        }
    }
}

/// A reallocation keeps the memory well formed and the buffer at least as
/// long as it was, and on failure changes nothing.
pub proof fn lemma_realloc(m: MemoryView, ptr: u32, new_size: u32)
    requires
        m.wf(),
    ensures
        m.realloc(ptr, new_size).0.wf(),
        m.realloc(ptr, new_size).0.bytes.len() >= m.bytes.len(),
        m.realloc(ptr, new_size).0.regions == m.allocate(new_size).0.regions,
        m.realloc(ptr, new_size).1 == m.allocate(new_size).1,
        m.realloc(ptr, new_size).1 is None ==> m.realloc(ptr, new_size).0 == m,
{
    lemma_allocate(m, new_size);
    let (after, r) = m.allocate(new_size);
    if r is Some {
        lemma_copy_forward_len(after.bytes, ptr as int, r->0 as int, new_size as int);
    }
}

/// A write inside the buffer keeps the memory well formed, the regions as
/// they were and the buffer as long as it was.
pub proof fn lemma_write(m: MemoryView, ptr: u32, data: Seq<u8>)
    requires
        m.wf(),
        ptr + data.len() <= m.bytes.len(),
    ensures
        m.write(ptr, data).wf(),
        m.write(ptr, data).regions == m.regions,
        m.write(ptr, data).bytes.len() == m.bytes.len(),
        m.write(ptr, data).bytes.subrange(ptr as int, ptr + data.len()) == data,
{
    assert(m.write(ptr, data).bytes.subrange(ptr as int, ptr + data.len()) =~= data);
}

} // verus!
