//! Materializing loadable regions into memory: a bounds-checked window
//! over the allocated span, zero-filled and then populated region by
//! region in table order, with the exact resulting contents stated as a
//! fold over the region sequence.

use vstd::prelude::*;

use crate::errors::LoadError;
use crate::image::LoadableRegion;

verus! {

/// An all-zero byte sequence of the given length.
pub open spec fn zeros(len: nat) -> Seq<u8> {
    Seq::new(len, |i: int| 0u8)
}

/// Window index `i` falls in the file-backed part of region `r` (the part
/// whose bytes come from the raw buffer), for a window based at `base`.
pub open spec fn region_covers(r: LoadableRegion, base: u64, i: int) -> bool {
    r.target_address - base <= i < r.target_address - base + r.source_length
}

/// The window contents after copying region `r`'s file bytes over `m`:
/// source bytes where `r`'s file-backed part lies, `m` unchanged
/// elsewhere.
pub open spec fn write_region(m: Seq<u8>, buf: Seq<u8>, base: u64, r: LoadableRegion) -> Seq<u8> {
    Seq::new(
        m.len(),
        |i: int|
            if region_covers(r, base, i) {
                buf[r.source_offset + (i - (r.target_address - base))]
            } else {
                m[i]
            },
    )
}

/// The window contents after zero-filling `len` bytes based at `base` and
/// then copying each region of `rs` in order.
pub open spec fn mem_after(rs: Seq<LoadableRegion>, buf: Seq<u8>, base: u64, len: nat) -> Seq<u8>
    decreases rs.len(),
{
    if rs.len() == 0 {
        zeros(len)
    } else {
        write_region(mem_after(rs.drop_last(), buf, base, len), buf, base, rs.last())
    }
}

/// Populating never changes the window's length.
pub proof fn lemma_mem_after_len(rs: Seq<LoadableRegion>, buf: Seq<u8>, base: u64, len: nat)
    ensures
        mem_after(rs, buf, base, len).len() == len,
    decreases rs.len(),
{
    if rs.len() > 0 {
        lemma_mem_after_len(rs.drop_last(), buf, base, len);
    }
}

/// Every region's file range lies inside a buffer of length `blen`.
pub open spec fn regions_in_bounds(rs: Seq<LoadableRegion>, blen: int) -> bool {
    forall|k: int|
        0 <= k < rs.len() ==> (#[trigger] rs[k]).source_offset + rs[k].source_length <= blen
}

/// Region `r` lies inside the window `[base, base + len)`.
pub open spec fn region_in_window(r: LoadableRegion, base: u64, len: nat) -> bool {
    &&& base <= r.target_address
    &&& r.target_address + r.memory_length <= base + len
}

/// A populated stretch of memory: `len` bytes that will sit at physical
/// address `base`, held here as plain bytes so every read and write is
/// bounds-checked.
pub struct MemoryWindow {
    pub base: u64,
    pub bytes: Vec<u8>,
}

impl View for MemoryWindow {
    type V = Seq<u8>;

    open spec fn view(&self) -> Seq<u8> {
        self.bytes@
    }
}

impl MemoryWindow {
    /// Number of bytes in the window.
    pub fn len(&self) -> (r: usize)
        ensures
            r == self@.len(),
    {
        self.bytes.len()
    }

    /// The byte that will sit at physical address `base + off`.
    pub fn read_byte(&self, off: usize) -> (r: u8)
        requires
            off < self@.len(),
        ensures
            r == self@[off as int],
    {
        self.bytes[off]
    }
}

/// Builds the populated window for the given regions: `len` zero bytes
/// based at `base`, then each region's file bytes copied to its target in
/// table order.
///
/// Every region's file range is checked against the raw buffer before any
/// byte is copied: a single out-of-bounds region yields
/// `CopyOutOfBounds` with no window built at all, so there is never a
/// partial copy.
#[verifier::loop_isolation(false)]
pub fn populate(buf: &[u8], regions: &Vec<LoadableRegion>, base: u64, len: usize) -> (r: Result<
    MemoryWindow,
    LoadError,
>)
    requires
        forall|k: int| 0 <= k < regions@.len() ==> (#[trigger] regions@[k]).wf(),
        forall|k: int|
            0 <= k < regions@.len() ==> region_in_window(#[trigger] regions@[k], base, len as nat),
        base + len <= u64::MAX,
    ensures
        match r {
            Ok(w) => {
                &&& regions_in_bounds(regions@, buf@.len() as int)
                &&& w.base == base
                &&& w@.len() == len
                &&& w@ == mem_after(regions@, buf@, base, len as nat)
            },
            Err(e) => {
                &&& e == LoadError::CopyOutOfBounds
                &&& !regions_in_bounds(regions@, buf@.len() as int)
            },
        },
{
    let buf_len: usize = buf.len();
    let mut k: usize = 0;
    while k < regions.len()
        invariant
            k <= regions@.len(),
            forall|j: int|
                0 <= j < k ==> (#[trigger] regions@[j]).source_offset + regions@[j].source_length
                    <= buf@.len(),
        decreases regions@.len() - k,
    {
        let r = regions[k];
        let blen: u64 = buf_len as u64;
        if r.source_length > blen || r.source_offset > blen - r.source_length {
            return Err(LoadError::CopyOutOfBounds);
        }
        k = k + 1;
    }
    assert(regions_in_bounds(regions@, buf@.len() as int));
    let mut bytes: Vec<u8> = Vec::new();
    while bytes.len() < len
        invariant
            bytes@.len() <= len,
            forall|i: int| 0 <= i < bytes@.len() ==> bytes@[i] == 0u8,
        decreases len - bytes@.len(),
    {
        bytes.push(0u8);
    }
    proof {
        assert(bytes@ =~= zeros(len as nat));
        assert(regions@.take(0) =~= Seq::<LoadableRegion>::empty());
    }
    let mut k: usize = 0;
    while k < regions.len()
        invariant
            k <= regions@.len(),
            bytes@.len() == len,
            regions_in_bounds(regions@, buf@.len() as int),
            bytes@ == mem_after(regions@.take(k as int), buf@, base, len as nat),
        decreases regions@.len() - k,
    {
        let r = regions[k];
        proof {
            assert(regions@[k as int].wf());
            assert(region_in_window(regions@[k as int], base, len as nat));
            assert(regions@[k as int].source_offset + regions@[k as int].source_length
                <= buf@.len());
            assert(buf@.len() == buf_len);
        }
        let start: usize = (r.target_address - base) as usize;
        let src: usize = r.source_offset as usize;
        let cnt: usize = r.source_length as usize;
        assert(start == r.target_address - base);
        assert(start + cnt <= len);
        assert(src + cnt <= buf@.len());
        let ghost prev = mem_after(regions@.take(k as int), buf@, base, len as nat);
        let mut j: usize = 0;
        while j < cnt
            invariant
                j <= cnt,
                bytes@.len() == len,
                start + cnt <= len,
                src + cnt <= buf@.len(),
                forall|i: int|
                    0 <= i < len ==> bytes@[i] == (if start <= i < start + j {
                        buf@[src + (i - start)]
                    } else {
                        prev[i]
                    }),
            decreases cnt - j,
        {
            let b = buf[src + j];
            bytes[start + j] = b;
            j = j + 1;
        }
        proof {
            lemma_mem_after_len(regions@.take(k as int), buf@, base, len as nat);
            assert(regions@.take(k as int + 1).drop_last() =~= regions@.take(k as int));
            assert(regions@.take(k as int + 1).last() == regions@[k as int]);
            assert(bytes@ =~= write_region(prev, buf@, base, regions@[k as int]));
        }
        k = k + 1;
    }
    proof {
        assert(regions@.take(regions@.len() as int) =~= regions@);
    }
    Ok(MemoryWindow { base, bytes })
}

/// Window index `i` falls in the file-backed part of some region.
pub open spec fn covered_by_some(rs: Seq<LoadableRegion>, base: u64, i: int) -> bool {
    exists|k: int| 0 <= k < rs.len() && region_covers(#[trigger] rs[k], base, i)
}

/// The memory ranges of `a` and `b` do not intersect.
pub open spec fn regions_disjoint(a: LoadableRegion, b: LoadableRegion) -> bool {
    ||| a.target_address + a.memory_length <= b.target_address
    ||| b.target_address + b.memory_length <= a.target_address
}

/// No two regions overlap in target address space. The image format
/// assumes this of its loadable entries; the parser does not check it,
/// so the exact-contents laws below take it as a hypothesis.
pub open spec fn all_disjoint(rs: Seq<LoadableRegion>) -> bool {
    forall|j: int, k: int|
        0 <= j < rs.len() && 0 <= k < rs.len() && j != k ==> regions_disjoint(
            #[trigger] rs[j],
            #[trigger] rs[k],
        )
}

/// Zero bytes: every window index outside all regions' file-backed parts
/// — a gap between regions, or the zero-initialized tail of a region —
/// holds zero after populating.
pub proof fn lemma_populated_zero(
    rs: Seq<LoadableRegion>,
    buf: Seq<u8>,
    base: u64,
    len: nat,
    i: int,
)
    requires
        0 <= i < len,
        !covered_by_some(rs, base, i),
    ensures
        mem_after(rs, buf, base, len)[i] == 0,
    decreases rs.len(),
{
    if rs.len() > 0 {
        let prefix = rs.drop_last();
        assert(!region_covers(rs[rs.len() - 1], base, i));
        assert(!covered_by_some(prefix, base, i)) by {
            if covered_by_some(prefix, base, i) {
                let k = choose|k: int|
                    0 <= k < prefix.len() && region_covers(#[trigger] prefix[k], base, i);
                assert(region_covers(rs[k], base, i));
            }
        }
        lemma_populated_zero(prefix, buf, base, len, i);
        lemma_mem_after_len(prefix, buf, base, len);
    }
}

/// Loaded bytes: when no two regions overlap, every window index in
/// region `k`'s file-backed part holds the corresponding raw-buffer byte
/// after populating.
pub proof fn lemma_populated_loaded(
    rs: Seq<LoadableRegion>,
    buf: Seq<u8>,
    base: u64,
    len: nat,
    k: int,
    i: int,
)
    requires
        forall|j: int| 0 <= j < rs.len() ==> (#[trigger] rs[j]).wf(),
        all_disjoint(rs),
        0 <= k < rs.len(),
        region_covers(rs[k], base, i),
        0 <= i < len,
    ensures
        mem_after(rs, buf, base, len)[i] == buf[rs[k].source_offset + (i - (rs[k].target_address
            - base))],
    decreases rs.len(),
{
    let prefix = rs.drop_last();
    lemma_mem_after_len(prefix, buf, base, len);
    if k == rs.len() - 1 {
        assert(mem_after(rs, buf, base, len) == write_region(
            mem_after(prefix, buf, base, len),
            buf,
            base,
            rs.last(),
        ));
    } else {
        assert(regions_disjoint(rs[k], rs[rs.len() - 1]));
        assert(!region_covers(rs[rs.len() - 1], base, i));
        lemma_populated_loaded(prefix, buf, base, len, k, i);
    }
}

/// Zero-padding: when no two regions overlap, every window index in a
/// region's memory range beyond its file-backed part — the
/// zero-initialized tail between `source_length` and `memory_length` —
/// holds zero after populating.
pub proof fn lemma_populated_bss(
    rs: Seq<LoadableRegion>,
    buf: Seq<u8>,
    base: u64,
    len: nat,
    k: int,
    i: int,
)
    requires
        forall|j: int| 0 <= j < rs.len() ==> (#[trigger] rs[j]).wf(),
        all_disjoint(rs),
        0 <= k < rs.len(),
        rs[k].target_address - base + rs[k].source_length <= i < rs[k].target_address - base
            + rs[k].memory_length,
        0 <= i < len,
    ensures
        mem_after(rs, buf, base, len)[i] == 0,
{
    assert forall|j: int| 0 <= j < rs.len() implies !region_covers(#[trigger] rs[j], base, i) by {
        if j != k {
            assert(regions_disjoint(rs[j], rs[k]));
            assert(rs[j].wf());
        }
    }
    assert(!covered_by_some(rs, base, i)) by {
        if covered_by_some(rs, base, i) {
            let j = choose|j: int| 0 <= j < rs.len() && region_covers(#[trigger] rs[j], base, i);
            assert(!region_covers(rs[j], base, i));
        }
    }
    lemma_populated_zero(rs, buf, base, len, i);
}

/// What the platform's fixed-address page allocator answered.
#[derive(Clone, Copy, Debug, PartialEq, Eq, Structural)]
pub enum AllocationOutcome {
    /// The exact requested physical range was granted.
    Granted,
    /// The platform could not grant that range; there is no relocation
    /// fallback.
    Denied,
}

/// Continues the pipeline after the fixed-address allocation request:
/// a denied request is fatal (`AddressUnavailable`) before anything is
/// zero-filled or copied; a granted one is populated exactly as
/// `populate` does.
pub fn populate_after_allocation(
    outcome: AllocationOutcome,
    buf: &[u8],
    regions: &Vec<LoadableRegion>,
    base: u64,
    len: usize,
) -> (r: Result<MemoryWindow, LoadError>)
    requires
        forall|k: int| 0 <= k < regions@.len() ==> (#[trigger] regions@[k]).wf(),
        forall|k: int|
            0 <= k < regions@.len() ==> region_in_window(#[trigger] regions@[k], base, len as nat),
        base + len <= u64::MAX,
    ensures
        match r {
            Ok(w) => {
                &&& outcome == AllocationOutcome::Granted
                &&& regions_in_bounds(regions@, buf@.len() as int)
                &&& w.base == base
                &&& w@.len() == len
                &&& w@ == mem_after(regions@, buf@, base, len as nat)
            },
            Err(e) => {
                ||| (outcome == AllocationOutcome::Denied && e == LoadError::AddressUnavailable)
                ||| (outcome == AllocationOutcome::Granted && e == LoadError::CopyOutOfBounds
                    && !regions_in_bounds(regions@, buf@.len() as int))
            },
        },
{
    match outcome {
        AllocationOutcome::Denied => Err(LoadError::AddressUnavailable),
        AllocationOutcome::Granted => populate(buf, regions, base, len),
    }
}

} // verus!
