//! The sandboxed linear memory of a process and its region allocator.

use vstd::prelude::*;

verus! {

/// Bytes in one page of linear memory.
pub const PAGE_SIZE: u32 = 65536;

/// The largest number of whole pages whose byte length still fits an address.
pub const MAX_PAGES: u32 = 65535;

/// A half-open range `[start, end)` of linear memory handed out as one block.
#[derive(Debug, Clone, Copy, PartialEq, Eq, Structural)]
pub struct MemoryRegion {
    pub start: u32,
    pub end: u32,
    pub free: bool,
}

impl MemoryRegion {
    /// A region is well formed when it holds at least one byte.
    pub open spec fn wf(self) -> bool {
        self.start < self.end
    }

    /// The number of bytes in the region.
    pub open spec fn len(self) -> int {
        self.end - self.start
    }

    /// The size of the region in bytes.
    pub fn size(self) -> (r: u32)
        requires
            self.start <= self.end,
        ensures
            r == self.len(),
    {
        self.end - self.start
    }

    /// Splits a free region in two. The first piece takes the first `size`
    /// bytes and is marked in use; the second piece is the remainder and
    /// stays free.
    pub fn split(self, size: u32) -> (r: (MemoryRegion, MemoryRegion))
        requires
            self.free,
            0 < size < self.len(),
        ensures
            r.0 == (MemoryRegion { start: self.start, end: (self.start + size) as u32, free: false }),
            r.1 == (MemoryRegion { start: (self.start + size) as u32, end: self.end, free: true }),
            r.0.wf(),
            r.1.wf(),
            r.0.len() == size,
            r.0.len() + r.1.len() == self.len(),
    {
        let first = MemoryRegion { start: self.start, end: self.start + size, free: false };
        let second = MemoryRegion { start: first.end, end: self.end, free: true };
        (first, second)
    }
}

/// `n` zero bytes.
pub open spec fn zeros(n: int) -> Seq<u8> {
    Seq::new(n as nat, |i: int| 0u8)
}

/// The number of bytes a request for `size` bytes is served with: a request
/// for nothing is served as a request for one byte, so that every block
/// handed out has an address of its own.
pub open spec fn need(size: u32) -> int {
    if size == 0 {
        1
    } else {
        size as int
    }
}

/// The number of whole pages that cover `bytes` bytes.
pub open spec fn pages_for(bytes: int) -> int {
    (bytes + PAGE_SIZE - 1) / (PAGE_SIZE as int)
}

/// Whether region `r` can serve a request for `n` bytes.
pub open spec fn fits(r: MemoryRegion, n: int) -> bool {
    r.free && r.len() >= n
}

/// The index of the first region at or after `k` that can serve `n` bytes,
/// or the number of regions when there is none.
pub open spec fn first_fit_from(regions: Seq<MemoryRegion>, n: int, k: int) -> int
    decreases regions.len() - k,
{
    if k < 0 || k >= regions.len() {
        regions.len() as int
    } else if fits(regions[k], n) {
        k
    } else {
        first_fit_from(regions, n, k + 1)
    }
}

/// The index of the first region at or after `k` that starts at `ptr`, or
/// the number of regions when there is none.
pub open spec fn find_start_from(regions: Seq<MemoryRegion>, ptr: u32, k: int) -> int
    decreases regions.len() - k,
{
    if k < 0 || k >= regions.len() {
        regions.len() as int
    } else if regions[k].start == ptr {
        k
    } else {
        find_start_from(regions, ptr, k + 1)
    }
}

/// The byte that a copy reads at `at`: what the buffer holds there, and zero
/// past its end.
pub open spec fn byte_at(bytes: Seq<u8>, at: int) -> u8 {
    if 0 <= at < bytes.len() {
        bytes[at]
    } else {
        0u8
    }
}

/// The buffer after the first `n` bytes at `src` were copied to `dst` one by
/// one, lowest address first. A byte whose target lies past the end of the
/// buffer is dropped.
pub open spec fn copy_forward(bytes: Seq<u8>, src: int, dst: int, n: int) -> Seq<u8>
    decreases n,
{
    if n <= 0 {
        bytes
    } else {
        let before = copy_forward(bytes, src, dst, n - 1);
        if 0 <= dst + n - 1 < before.len() {
            before.update(dst + n - 1, byte_at(before, src + n - 1))
        } else {
            before
        }
    }
}

/// The position of the first zero byte at or after `k`, or the length of the
/// buffer when there is none.
pub open spec fn nul_from(bytes: Seq<u8>, k: int) -> int
    decreases bytes.len() - k,
{
    if k < 0 || k >= bytes.len() {
        bytes.len() as int
    } else if bytes[k] == 0 {
        k
    } else {
        nul_from(bytes, k + 1)
    }
}

/// Whether a buffer of `len` bytes is a whole number of pages, and no more
/// than an address can reach.
pub open spec fn whole_pages(len: nat) -> bool {
    &&& len % (PAGE_SIZE as nat) == 0
    &&& len <= MAX_PAGES * PAGE_SIZE
}

/// Whether the regions lie one behind the other from address zero on, each
/// at least one byte long: no gap, no overlap.
pub open spec fn tiled(regions: Seq<MemoryRegion>) -> bool {
    &&& forall|i: int| 0 <= i < regions.len() ==> (#[trigger] regions[i]).wf()
    &&& regions.len() > 0 ==> regions[0].start == 0
    &&& forall|i: int, j: int|
        0 <= i && j == i + 1 && j < regions.len() ==> (#[trigger] regions[i]).end == (
        #[trigger] regions[j]).start
}

/// Why a memory could not be made.
#[derive(Debug, Clone, Copy, PartialEq, Eq, Structural)]
pub enum MemoryError {
    /// More pages were asked for than an address can reach.
    TooLarge,
    /// More pages were asked for than the cap allows.
    ExceedsMaximum,
}

impl MemoryError {
    /// A description of the error.
    pub fn message(&self) -> (r: &'static str)
        ensures
            r@ == (match *self {
                MemoryError::TooLarge => "initial size is beyond the address space"@,
                MemoryError::ExceedsMaximum => "initial size is beyond the maximum size"@,
            }),
    {
        match self {
            MemoryError::TooLarge => "initial size is beyond the address space",
            MemoryError::ExceedsMaximum => "initial size is beyond the maximum size",
        }
    }
}

/// A growable byte buffer that is always a whole number of pages long: the
/// raw linear memory that a [`Memory`] carves into regions.
pub struct LinearMemory {
    bytes: Vec<u8>,
    shared: bool,
}

impl View for LinearMemory {
    type V = Seq<u8>;

    closed spec fn view(&self) -> Seq<u8> {
        self.bytes@
    }
}

impl LinearMemory {
    /// Whether the buffer may be handed to several execution units.
    pub closed spec fn shared(&self) -> bool {
        self.shared
    }

    /// The buffer is a whole number of pages, and no more than an address
    /// can reach.
    pub open spec fn wf(&self) -> bool {
        whole_pages(self@.len())
    }

    /// A zeroed buffer of `initial` pages, or nothing when that is more than
    /// an address can reach.
    pub fn new(initial: u32, shared: bool) -> (r: Option<LinearMemory>)
        ensures
            r is Some <==> initial <= MAX_PAGES,
            r matches Some(m) ==> m.wf() && m@ == zeros(initial * PAGE_SIZE) && m.shared() == shared,
    {
        if initial > MAX_PAGES {
            return None;
        }
        assert(initial * PAGE_SIZE <= 0xFFFF_0000);
        let len: usize = (initial as usize) * (PAGE_SIZE as usize);
        let mut bytes: Vec<u8> = Vec::new();
        bytes.resize(len, 0u8);
        assert(bytes@ =~= zeros(initial * PAGE_SIZE));
        assert((initial * PAGE_SIZE) % (PAGE_SIZE as int) == 0) by (nonlinear_arith)
            requires
                PAGE_SIZE > 0,
        ;
        Some(LinearMemory { bytes, shared })
    }

    /// Whether the buffer may be handed to several execution units.
    pub fn is_shared(&self) -> (r: bool)
        ensures
            r == self.shared(),
    {
        self.shared
    }

    /// The length of the buffer in bytes.
    pub fn byte_length(&self) -> (r: u32)
        requires
            self.wf(),
        ensures
            r == self@.len(),
    {
        self.bytes.len() as u32
    }

    /// The length of the buffer in pages.
    pub fn pages(&self) -> (r: u32)
        requires
            self.wf(),
        ensures
            r == self@.len() / (PAGE_SIZE as nat),
            r <= MAX_PAGES,
    {
        (self.bytes.len() / (PAGE_SIZE as usize)) as u32
    }

    /// Grows the buffer by `delta` zeroed pages and returns the number of
    /// pages it had before. Nothing changes, and nothing is returned, when
    /// the buffer would pass what an address can reach.
    pub fn grow(&mut self, delta: u32) -> (r: Option<u32>)
        requires
            old(self).wf(),
        ensures
            final(self).wf(),
            final(self).shared() == old(self).shared(),
            r is Some <==> old(self)@.len() / (PAGE_SIZE as nat) + delta <= MAX_PAGES,
            r matches Some(before) ==> before == old(self)@.len() / (PAGE_SIZE as nat) && final(self)@
                == old(self)@ + zeros(delta * PAGE_SIZE),
            r is None ==> final(self)@ == old(self)@,
    {
        let before = self.pages();
        if delta > MAX_PAGES - before {
            return None;
        }
        let after: usize = ((before + delta) as usize) * (PAGE_SIZE as usize);
        assert(self.bytes@.len() == before * PAGE_SIZE);
        self.bytes.resize(after, 0u8);
        assert(self.bytes@ =~= old(self).bytes@ + zeros(delta * PAGE_SIZE));
        assert(((before + delta) * PAGE_SIZE) % (PAGE_SIZE as int) == 0) by (nonlinear_arith)
            requires
                PAGE_SIZE > 0,
        ;
        Some(before)
    }

    /// The bytes of the buffer.
    pub fn as_bytes(&self) -> (r: &[u8])
        ensures
            r@ == self@,
    {
        self.bytes.as_slice()
    }

    /// The byte at `index`.
    pub fn get_index(&self, index: u32) -> (r: u8)
        requires
            index < self@.len(),
        ensures
            r == self@[index as int],
    {
        self.bytes[index as usize]
    }

    /// Stores `value` at `index`.
    pub fn set_index(&mut self, index: u32, value: u8)
        requires
            index < old(self)@.len(),
        ensures
            final(self)@ == old(self)@.update(index as int, value),
            final(self).shared() == old(self).shared(),
    {
        self.bytes.set(index as usize, value);
    }

    /// A copy of the bytes in `[begin, end)`.
    pub fn slice(&self, begin: u32, end: u32) -> (r: Vec<u8>)
        requires
            begin <= end <= self@.len(),
        ensures
            r@ == self@.subrange(begin as int, end as int),
    {
        let mut out: Vec<u8> = Vec::new();
        let mut i: u32 = begin;
        while i < end
            invariant
                begin <= i <= end <= self.bytes@.len(),
                out@ == self.bytes@.subrange(begin as int, i as int),
            decreases end - i,
        {
            out.push(self.bytes[i as usize]);
            i += 1;
            assert(out@ =~= self.bytes@.subrange(begin as int, i as int));
        }
        out
    }

    /// Stores `data` at `offset`.
    pub fn set(&mut self, data: &[u8], offset: u32)
        requires
            offset + data@.len() <= old(self)@.len(),
        ensures
            final(self)@ == old(self)@.subrange(0, offset as int) + data@ + old(self)@.subrange(
                offset + data@.len(),
                old(self)@.len() as int,
            ),
            final(self).shared() == old(self).shared(),
    {
        let mut i: usize = 0;
        while i < data.len()
            invariant
                i <= data@.len(),
                offset + data@.len() <= old(self).bytes@.len(),
                self.shared == old(self).shared,
                self.bytes@.len() == old(self).bytes@.len(),
                self.bytes@ == old(self).bytes@.subrange(0, offset as int) + data@.subrange(0, i as int)
                    + old(self).bytes@.subrange(offset + i, old(self).bytes@.len() as int),
            decreases data@.len() - i,
        {
            assert(offset + i < self.bytes.len());
            self.bytes.set(offset as usize + i, data[i]);
            i += 1;
            assert(self.bytes@ =~= old(self).bytes@.subrange(0, offset as int) + data@.subrange(
                0,
                i as int,
            ) + old(self).bytes@.subrange(offset + i, old(self).bytes@.len() as int));
        }
        assert(data@.subrange(0, data@.len() as int) =~= data@);
    }
}

/// The mathematical state of a [`Memory`]: its regions in address order, the
/// bytes of its buffer and the cap on the buffer's size in pages.
pub struct MemoryView {
    pub regions: Seq<MemoryRegion>,
    pub bytes: Seq<u8>,
    pub maximum: Option<u32>,
}

impl MemoryView {
    /// The end of the part of the buffer that regions cover.
    pub open spec fn prefix_end(self) -> int {
        if self.regions.len() == 0 {
            0
        } else {
            self.regions.last().end as int
        }
    }

    /// The regions tile `[0, prefix_end)` without gap or overlap, that prefix
    /// lies inside the buffer, and the buffer is a whole number of pages.
    pub open spec fn wf(self) -> bool {
        &&& whole_pages(self.bytes.len())
        &&& tiled(self.regions)
        &&& self.prefix_end() <= self.bytes.len()
    }

    /// The number of pages in the buffer.
    pub open spec fn pages(self) -> int {
        self.bytes.len() as int / (PAGE_SIZE as int)
    }

    /// The largest number of pages the buffer may grow to.
    pub open spec fn limit(self) -> int {
        match self.maximum {
            Some(m) => if m < MAX_PAGES {
                m as int
            } else {
                MAX_PAGES as int
            },
            None => MAX_PAGES as int,
        }
    }

    /// The state after region `i` served a request for `n` bytes: the region
    /// is taken whole when it has exactly `n` bytes, and split otherwise.
    pub open spec fn take(self, i: int, n: int) -> MemoryView {
        let r = self.regions[i];
        if r.len() == n {
            MemoryView { regions: self.regions.update(i, MemoryRegion { free: false, ..r }), ..self }
        } else {
            let first = MemoryRegion { start: r.start, end: (r.start + n) as u32, free: false };
            let second = MemoryRegion { start: (r.start + n) as u32, end: r.end, free: true };
            MemoryView { regions: self.regions.update(i, first).insert(i + 1, second), ..self }
        }
    }

    /// The state after a new region in use was appended that ends at `end`,
    /// the buffer grown by whole zeroed pages as far as needed to hold it.
    pub open spec fn extend(self, end: int) -> MemoryView {
        MemoryView {
            regions: self.regions.push(
                MemoryRegion { start: self.prefix_end() as u32, end: end as u32, free: false },
            ),
            bytes: if end > self.bytes.len() {
                self.bytes + zeros(pages_for(end) * PAGE_SIZE - self.bytes.len())
            } else {
                self.bytes
            },
            ..self
        }
    }

    /// What `allocate` does. The first free region that is large enough serves
    /// the request. When there is none, a new region of whole pages is
    /// appended behind the last one; the buffer grows for it where it must,
    /// and the request fails, with nothing changed, where that growth would
    /// pass the limit.
    pub open spec fn allocate(self, size: u32) -> (MemoryView, Option<u32>) {
        let n = need(size);
        let i = first_fit_from(self.regions, n, 0);
        if i < self.regions.len() {
            (self.take(i, n), Some(self.regions[i].start))
        } else {
            let end = self.prefix_end() + pages_for(n) * PAGE_SIZE;
            if end <= self.bytes.len() || pages_for(end) <= self.limit() {
                (self.extend(end), Some(self.prefix_end() as u32))
            } else {
                (self, None)
            }
        }
    }

    /// What `free` does: the region that starts at `ptr` becomes free. It
    /// fails, with nothing changed, when no region starts there or the one
    /// that does is free already.
    pub open spec fn free(self, ptr: u32) -> (MemoryView, Option<()>) {
        let i = find_start_from(self.regions, ptr, 0);
        if i < self.regions.len() && !self.regions[i].free {
            (
                MemoryView {
                    regions: self.regions.update(i, MemoryRegion { free: true, ..self.regions[i] }),
                    ..self
                },
                Some(()),
            )
        } else {
            (self, None)
        }
    }

    /// What `realloc` does: a block of `new_size` bytes is allocated and the
    /// `new_size` bytes at `ptr` are copied into it. The old block stays as
    /// it is.
    pub open spec fn realloc(self, ptr: u32, new_size: u32) -> (MemoryView, Option<u32>) {
        let (after, r) = self.allocate(new_size);
        match r {
            Some(p) => (
                MemoryView {
                    bytes: copy_forward(after.bytes, ptr as int, p as int, new_size as int),
                    ..after
                },
                Some(p),
            ),
            None => (self, None),
        }
    }

    /// The buffer after `data` was written at `ptr`.
    pub open spec fn write(self, ptr: u32, data: Seq<u8>) -> MemoryView {
        MemoryView {
            bytes: self.bytes.subrange(0, ptr as int) + data + self.bytes.subrange(
                ptr + data.len(),
                self.bytes.len() as int,
            ),
            ..self
        }
    }
}

/// The text that `bytes` decode to as UTF-8 when every sequence that is not
/// valid UTF-8 is replaced by U+FFFD.
pub uninterp spec fn utf8_lossy(bytes: Seq<u8>) -> Seq<char>;

/// `String::from_utf8_lossy` of std, which decodes bytes as UTF-8 and puts
/// U+FFFD in place of what is not valid. The result is a function of the
/// bytes alone; on valid UTF-8 it is the text that the bytes encode.
#[verifier::external_body]
fn decode_lossy(bytes: &[u8]) -> (r: String)
    ensures
        r@ == utf8_lossy(bytes@),
        vstd::utf8::valid_utf8(bytes@) ==> r@ == vstd::utf8::decode_utf8(bytes@),
{
    String::from_utf8_lossy(bytes).into_owned()
}

/// The text in `bytes` that starts at `ptr` and ends before the next zero
/// byte, decoded as UTF-8 with U+FFFD in place of what is not valid. There
/// is none when no zero byte follows `ptr`.
pub fn string_at(bytes: &[u8], ptr: usize) -> (r: Option<String>)
    ensures
        r is Some <==> nul_from(bytes@, ptr as int) < bytes@.len(),
        r matches Some(text) ==> text@ == utf8_lossy(
            bytes@.subrange(ptr as int, nul_from(bytes@, ptr as int)),
        ),
{
    let mut end: usize = ptr;
    while end < bytes.len()
        invariant
            ptr <= end,
            nul_from(bytes@, ptr as int) == nul_from(bytes@, end as int),
        decreases bytes@.len() - end,
    {
        if bytes[end] == 0 {
            let text = vstd::slice::slice_subrange(bytes, ptr, end);
            return Some(decode_lossy(text));
        }
        end += 1;
    }
    None
}

/// The sandboxed memory of a process: a linear buffer, the cap on its size
/// and the regions that were carved out of it, in address order.
pub struct Memory {
    maximum: Option<u32>,
    inner: LinearMemory,
    regions: Vec<MemoryRegion>,
}

impl View for Memory {
    type V = MemoryView;

    closed spec fn view(&self) -> MemoryView {
        MemoryView { regions: self.regions@, bytes: self.inner@, maximum: self.maximum }
    }
}

impl Memory {
    /// The invariant of a memory: that of its view.
    pub open spec fn wf(&self) -> bool {
        self@.wf()
    }

    /// Whether the buffer may be handed to several execution units.
    pub closed spec fn shared(&self) -> bool {
        self.inner.shared()
    }

    /// A memory of `initial` zeroed pages and no regions, capped at `maximum`
    /// pages where one is given.
    pub fn new(initial: u32, maximum: Option<u32>, shared: bool) -> (r: Result<Memory, MemoryError>)
        ensures
            match r {
                Ok(m) => {
                    &&& initial <= MAX_PAGES
                    &&& maximum matches Some(cap) ==> initial <= cap
                    &&& m.wf()
                    &&& m.shared() == shared
                    &&& m@ == (MemoryView {
                        regions: Seq::empty(),
                        bytes: zeros(initial * PAGE_SIZE),
                        maximum,
                    })
                },
                Err(MemoryError::TooLarge) => initial > MAX_PAGES,
                Err(MemoryError::ExceedsMaximum) => initial <= MAX_PAGES && (maximum matches Some(cap)
                    && initial > cap),
            },
    {
        let inner = match LinearMemory::new(initial, shared) {
            Some(inner) => inner,
            None => {
                return Err(MemoryError::TooLarge);
            },
        };
        if let Some(cap) = maximum {
            if initial > cap {
                return Err(MemoryError::ExceedsMaximum);
            }
        }
        Ok(Memory { maximum, inner, regions: Vec::new() })
    }

    /// The same bookkeeping over another buffer: the regions and the cap are
    /// copied, the buffer is `inner`.
    pub fn new_inner(&self, inner: LinearMemory) -> (r: Memory)
        requires
            self.wf(),
            inner.wf(),
            self@.prefix_end() <= inner@.len(),
        ensures
            r.wf(),
            r.shared() == inner.shared(),
            r@ == (MemoryView { bytes: inner@, ..self@ }),
    {
        let regions = self.regions.clone();
        assert(regions@ =~= self.regions@);
        Memory { maximum: self.maximum, inner, regions }
    }

    /// The buffer.
    pub fn inner(&self) -> (r: &LinearMemory)
        ensures
            r@ == self@.bytes,
            r.shared() == self.shared(),
    {
        &self.inner
    }

    /// The regions, in address order.
    pub fn regions(&self) -> (r: &Vec<MemoryRegion>)
        ensures
            r@ == self@.regions,
    {
        &self.regions
    }

    /// The cap on the buffer's size in pages, where there is one.
    pub fn maximum(&self) -> (r: Option<u32>)
        ensures
            r == self@.maximum,
    {
        self.maximum
    }

    /// The length of the buffer in bytes.
    pub fn byte_length(&self) -> (r: u32)
        requires
            self.wf(),
        ensures
            r == self@.bytes.len(),
    {
        self.inner.byte_length()
    }

    /// The bytes in `[ptr, ptr + len)`.
    pub fn read(&self, ptr: u32, len: u32) -> (r: Vec<u8>)
        requires
            self.wf(),
            ptr + len <= self@.bytes.len(),
        ensures
            r@ == self@.bytes.subrange(ptr as int, ptr + len),
    {
        self.inner.slice(ptr, ptr + len)
    }

    /// The text that starts at `ptr` and ends before the next zero byte,
    /// decoded as UTF-8 with U+FFFD in place of what is not valid. There is
    /// none when no zero byte follows `ptr` in the buffer.
    pub fn read_str(&self, ptr: u32) -> (r: Option<String>)
        ensures
            r is Some <==> nul_from(self@.bytes, ptr as int) < self@.bytes.len(),
            r matches Some(text) ==> text@ == utf8_lossy(
                self@.bytes.subrange(ptr as int, nul_from(self@.bytes, ptr as int)),
            ),
    {
        string_at(self.inner.as_bytes(), ptr as usize)
    }

    /// Stores `data` at `ptr`.
    pub fn write(&mut self, ptr: u32, data: &[u8])
        requires
            old(self).wf(),
            ptr + data@.len() <= old(self)@.bytes.len(),
        ensures
            final(self).wf(),
            final(self).shared() == old(self).shared(),
            final(self)@ == old(self)@.write(ptr, data@),
    {
        self.inner.set(data, ptr);
    }

    /// The index of the first free region of at least `n` bytes, or the
    /// number of regions.
    fn first_fit(&self, n: u32) -> (i: usize)
        requires
            self.wf(),
        ensures
            i == first_fit_from(self@.regions, n as int, 0),
            i <= self@.regions.len(),
    {
        let mut i: usize = 0;
        while i < self.regions.len()
            invariant
                self.wf(),
                i <= self.regions@.len(),
                first_fit_from(self.regions@, n as int, 0) == first_fit_from(
                    self.regions@,
                    n as int,
                    i as int,
                ),
            decreases self.regions@.len() - i,
        {
            let region = self.regions[i];
            assert(self@.regions[i as int].wf());
            if region.free && region.size() >= n {
                return i;
            }
            i += 1;
        }
        i
    }

    /// Makes sure that the buffer holds `end` bytes, growing it by whole
    /// zeroed pages where it does not. Fails, with nothing changed, where
    /// that would take the buffer past its limit.
    fn grow(&mut self, end: u64) -> (r: Option<()>)
        requires
            old(self).wf(),
            end <= u32::MAX,
        ensures
            final(self).wf(),
            final(self).shared() == old(self).shared(),
            r is Some <==> (end <= old(self)@.bytes.len() || pages_for(end as int) <= old(self)@.limit()),
            r is Some ==> end <= final(self)@.bytes.len(),
            final(self)@ == (MemoryView {
                bytes: if r is Some && end > old(self)@.bytes.len() {
                    old(self)@.bytes + zeros(
                        pages_for(end as int) * PAGE_SIZE - old(self)@.bytes.len(),
                    )
                } else {
                    old(self)@.bytes
                },
                ..old(self)@
            }),
    {
        let len = self.inner.byte_length();
        if end <= len as u64 {
            return Some(());
        }
        let limit: u32 = match self.maximum {
            Some(m) => if m < MAX_PAGES {
                m
            } else {
                MAX_PAGES
            },
            None => MAX_PAGES,
        };
        let target: u64 = (end + (PAGE_SIZE as u64 - 1)) / (PAGE_SIZE as u64);
        if target > limit as u64 {
            return None;
        }
        let pages = self.inner.pages();
        assert(pages * PAGE_SIZE == len);
        assert(target > pages);
        let grown = self.inner.grow((target - pages as u64) as u32);
        assert(grown is Some);
        assert((target - pages) * PAGE_SIZE == target * PAGE_SIZE - len) by (nonlinear_arith)
            requires
                pages * PAGE_SIZE == len,
        ;
        Some(())
    }

    /// Allocates a block of `size` bytes and returns its address. The first
    /// free region that is large enough serves the request, split where it
    /// is larger. Where there is none, a region of whole pages is appended
    /// and the buffer grown for it. Fails, with nothing changed, where that
    /// would take the buffer past its limit.
    pub fn allocate(&mut self, size: u32) -> (r: Option<u32>)
        requires
            old(self).wf(),
        ensures
            final(self).wf(),
            final(self).shared() == old(self).shared(),
            (final(self)@, r) == old(self)@.allocate(size),
    {
        let n: u32 = if size == 0 {
            1
        } else {
            size
        };
        let i = self.first_fit(n);
        proof {
            lemma_first_fit(self@.regions, n as int, 0);
        }
        if i < self.regions.len() {
            let region = self.regions[i];
            assert(region.wf());
            if region.size() == n {
                self.regions.set(i, MemoryRegion { start: region.start, end: region.end, free: false });
            } else {
                let (first, second) = region.split(n);
                self.regions.set(i, first);
                self.regions.insert(i + 1, second);
            }
            proof {
                lemma_take_wf(old(self)@, i as int, n as int);
            }
            return Some(region.start);
        }
        let start: u32 = if self.regions.len() == 0 {
            0
        } else {
            self.regions[self.regions.len() - 1].end
        };
        let pages: u64 = (n as u64 - 1) / (PAGE_SIZE as u64) + 1;
        assert(pages == pages_for(n as int));
        let end: u64 = start as u64 + pages * (PAGE_SIZE as u64);
        if end > u32::MAX as u64 {
            assert(pages_for(end as int) > MAX_PAGES);
            return None;
        }
        match self.grow(end) {
            Some(_) => {
                self.regions.push(MemoryRegion { start, end: end as u32, free: false });
                proof {
                    lemma_extend_wf(old(self)@, end as int);
                }
                Some(start)
            },
            None => None,
        }
    }

    /// Copies `size` bytes from `src_ptr` to `dest_ptr`, one by one and
    /// lowest address first. Past the end of the buffer a source byte reads
    /// as zero and a target byte is dropped.
    fn copy(&mut self, src_ptr: u32, dest_ptr: u32, size: u32)
        requires
            old(self).wf(),
        ensures
            final(self).wf(),
            final(self).shared() == old(self).shared(),
            final(self)@ == (MemoryView {
                bytes: copy_forward(old(self)@.bytes, src_ptr as int, dest_ptr as int, size as int),
                ..old(self)@
            }),
    {
        let len = self.inner.byte_length();
        let mut i: u32 = 0;
        while i < size
            invariant
                i <= size,
                self.wf(),
                self.regions == old(self).regions,
                self.maximum == old(self).maximum,
                self.inner.shared() == old(self).inner.shared(),
                self.inner@.len() == len,
                self.inner@ == copy_forward(old(self).inner@, src_ptr as int, dest_ptr as int, i as int),
            decreases size - i,
        {
            let target: u64 = dest_ptr as u64 + i as u64;
            let source: u64 = src_ptr as u64 + i as u64;
            if target < len as u64 {
                let byte: u8 = if source < len as u64 {
                    self.inner.get_index(source as u32)
                } else {
                    0
                };
                self.inner.set_index(target as u32, byte);
            }
            i += 1;
        }
    }

    /// Allocates a block of `new_size` bytes, copies the `new_size` bytes at
    /// `ptr` into it and returns its address. The block at `ptr` stays as it
    /// is. Fails, with nothing changed, where the allocation fails.
    pub fn realloc(&mut self, ptr: u32, new_size: u32) -> (r: Option<u32>)
        requires
            old(self).wf(),
        ensures
            final(self).wf(),
            final(self).shared() == old(self).shared(),
            (final(self)@, r) == old(self)@.realloc(ptr, new_size),
    {
        match self.allocate(new_size) {
            Some(new_ptr) => {
                self.copy(ptr, new_ptr, new_size);
                Some(new_ptr)
            },
            None => None,
        }
    }

    /// Marks the region that starts at `ptr` as free. Fails, with nothing
    /// changed, when no region starts at `ptr` or the one that does is free
    /// already.
    pub fn free(&mut self, ptr: u32) -> (r: Option<()>)
        requires
            old(self).wf(),
        ensures
            final(self).wf(),
            final(self).shared() == old(self).shared(),
            (final(self)@, r) == old(self)@.free(ptr),
    {
        let mut i: usize = 0;
        while i < self.regions.len()
            invariant
                *self == *old(self),
                self.wf(),
                i <= self.regions@.len(),
                find_start_from(self.regions@, ptr, 0) == find_start_from(self.regions@, ptr, i as int),
            decreases self.regions@.len() - i,
        {
            let region = self.regions[i];
            if region.start == ptr {
                if region.free {
                    return None;
                }
                self.regions.set(i, MemoryRegion { start: region.start, end: region.end, free: true });
                proof {
                    lemma_free_wf(old(self)@, ptr);
                }
                return Some(());
            }
            i += 1;
        }
        None
    }
}

/// What `first_fit_from` finds: a region that fits, with none that fits
/// between `k` and it; or the end, with none that fits from `k` on.
pub proof fn lemma_first_fit(regions: Seq<MemoryRegion>, n: int, k: int)
    requires
        0 <= k <= regions.len(),
    ensures
        k <= first_fit_from(regions, n, k) <= regions.len(),
        first_fit_from(regions, n, k) < regions.len() ==> fits(regions[first_fit_from(regions, n, k)], n),
        forall|j: int| k <= j < first_fit_from(regions, n, k) ==> !fits(#[trigger] regions[j], n),
    decreases regions.len() - k,
{
    if k < regions.len() && !fits(regions[k], n) {
        lemma_first_fit(regions, n, k + 1);
    }
}

/// What `find_start_from` finds: a region that starts at `ptr`, with none
/// that does between `k` and it; or the end, with none from `k` on.
pub proof fn lemma_find_start(regions: Seq<MemoryRegion>, ptr: u32, k: int)
    requires
        0 <= k <= regions.len(),
    ensures
        k <= find_start_from(regions, ptr, k) <= regions.len(),
        find_start_from(regions, ptr, k) < regions.len() ==> regions[find_start_from(regions, ptr, k)].start
            == ptr,
        forall|j: int| k <= j < find_start_from(regions, ptr, k) ==> (#[trigger] regions[j]).start != ptr,
    decreases regions.len() - k,
{
    if k < regions.len() && regions[k].start != ptr {
        lemma_find_start(regions, ptr, k + 1);
    }
}

/// Serving a request from a region that fits keeps the regions a tiling of
/// the same prefix.
pub proof fn lemma_take_wf(m: MemoryView, i: int, n: int)
    requires
        m.wf(),
        0 <= i < m.regions.len(),
        0 < n,
        fits(m.regions[i], n),
    ensures
        m.take(i, n).wf(),
        m.take(i, n).prefix_end() == m.prefix_end(),
        m.take(i, n).bytes == m.bytes,
{
    let r = m.regions[i];
    let t = m.take(i, n).regions;
    assert(r.wf());
    if r.len() != n {
        assert forall|j: int| 0 <= j < t.len() implies (#[trigger] t[j]).wf() by {
            if j < i {
                assert(t[j] == m.regions[j]);
            } else if j > i + 1 {
                assert(t[j] == m.regions[j - 1]);
            }
        }
        assert forall|j: int, k: int| 0 <= j && k == j + 1 && k < t.len() implies (#[trigger] t[j]).end == (
        #[trigger] t[k]).start by {
            if k < i {
                assert(t[j] == m.regions[j] && t[k] == m.regions[k]);
            } else if k == i {
                assert(t[j] == m.regions[j] && m.regions[k] == r);
            } else if j == i + 1 {
                assert(t[k] == m.regions[k - 1] && m.regions[j - 1] == r);
            } else if j > i + 1 {
                assert(t[j] == m.regions[j - 1] && t[k] == m.regions[k - 1]);
            }
        }
    } else {
        assert forall|j: int| 0 <= j < t.len() implies (#[trigger] t[j]).wf() by {
            assert(m.regions[j].wf());
        }
        assert forall|j: int, k: int| 0 <= j && k == j + 1 && k < t.len() implies (#[trigger] t[j]).end == (
        #[trigger] t[k]).start by {
            assert(m.regions[j].end == m.regions[k].start);
        }
    }
}

/// Appending a region behind the last one, with the buffer grown to hold
/// it, keeps the regions a tiling.
pub proof fn lemma_extend_wf(m: MemoryView, end: int)
    requires
        m.wf(),
        m.prefix_end() < end,
        end <= m.bytes.len() || pages_for(end) <= m.limit(),
    ensures
        m.extend(end).wf(),
        m.extend(end).prefix_end() == end,
{
    let t = m.extend(end).regions;
    assert(t.last().end == end);
    assert forall|j: int| 0 <= j < t.len() implies (#[trigger] t[j]).wf() by {
        if j < m.regions.len() {
            assert(t[j] == m.regions[j]);
        }
    }
    assert forall|j: int, k: int| 0 <= j && k == j + 1 && k < t.len() implies (#[trigger] t[j]).end == (
    #[trigger] t[k]).start by {
        assert(t[j] == m.regions[j]);
        if k < m.regions.len() {
            assert(t[k] == m.regions[k]);
        }
    }
    if m.regions.len() > 0 {
        assert(t[0] == m.regions[0]);
    }
    if end > m.bytes.len() {
        assert(m.extend(end).bytes.len() == pages_for(end) * PAGE_SIZE);
        assert((pages_for(end) * PAGE_SIZE) % (PAGE_SIZE as int) == 0) by (nonlinear_arith)
            requires
                PAGE_SIZE > 0,
        ;
    }
}

/// Freeing a region keeps the regions a tiling of the same prefix.
pub proof fn lemma_free_wf(m: MemoryView, ptr: u32)
    requires
        m.wf(),
    ensures
        m.free(ptr).0.wf(),
        m.free(ptr).0.prefix_end() == m.prefix_end(),
        m.free(ptr).0.bytes == m.bytes,
{
    lemma_find_start(m.regions, ptr, 0);
    let t = m.free(ptr).0.regions;
    assert forall|j: int| 0 <= j < t.len() implies (#[trigger] t[j]).wf() by {
        assert(m.regions[j].wf());
    }
    assert forall|j: int, k: int| 0 <= j && k == j + 1 && k < t.len() implies (#[trigger] t[j]).end == (
    #[trigger] t[k]).start by {
        assert(m.regions[j].end == m.regions[k].start);
    }
}

} // verus!
