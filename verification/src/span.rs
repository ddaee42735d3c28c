//! The load span: the minimal address interval covering every loadable
//! region, used to size and place the single fixed-address physical
//! allocation.

use vstd::prelude::*;

use crate::image::LoadableRegion;

verus! {

/// Byte size of one physical page, the allocator's granularity.
pub const PAGE_SIZE: u64 = 0x1000;

/// The number of pages that cover `len` bytes: the least page count whose
/// total size is at least `len`. `None` exactly when rounding `len` up to
/// a page boundary would wrap.
pub fn pages_needed(len: u64) -> (r: Option<u64>)
    ensures
        match r {
            Some(n) => {
                &&& len + 0xfff <= u64::MAX
                &&& n == (len + 0xfff) as u64 / PAGE_SIZE
                &&& n * PAGE_SIZE >= len
                &&& n * PAGE_SIZE < len + PAGE_SIZE
            },
            None => len + 0xfff > u64::MAX,
        },
{
    if len > u64::MAX - 0xfff {
        return None;
    }
    let n: u64 = (len + 0xfff) / PAGE_SIZE;
    proof {
        vstd::arithmetic::div_mod::lemma_fundamental_div_mod(len as int + 0xfff, PAGE_SIZE as int);
        assert(0 <= (len as int + 0xfff) % (PAGE_SIZE as int) < PAGE_SIZE as int);
    }
    Some(n)
}

/// The half-open address interval `[start, end)` that the loadable
/// regions occupy.
#[derive(Clone, Copy, Debug, PartialEq, Eq, Structural)]
pub struct LoadSpan {
    pub start: u64,
    pub end: u64,
}

impl LoadSpan {
    /// The span's byte length, when it fits the machine's address width;
    /// `None` exactly when it does not.
    pub fn byte_len(&self) -> (r: Option<usize>)
        requires
            self.start <= self.end,
        ensures
            match r {
                Some(n) => n == self.end - self.start,
                None => self.end - self.start > usize::MAX,
            },
    {
        let d: u64 = self.end - self.start;
        if d <= usize::MAX as u64 {
            Some(d as usize)
        } else {
            None
        }
    }
}

/// The least target address among the regions.
pub open spec fn span_start_of(rs: Seq<LoadableRegion>) -> int
    decreases rs.len(),
{
    if rs.len() <= 1 {
        rs[0].target_address as int
    } else if rs.last().target_address < span_start_of(rs.drop_last()) {
        rs.last().target_address as int
    } else {
        span_start_of(rs.drop_last())
    }
}

/// The greatest end address (`target_address + memory_length`) among the
/// regions.
pub open spec fn span_end_of(rs: Seq<LoadableRegion>) -> int
    decreases rs.len(),
{
    if rs.len() <= 1 {
        rs[0].target_address + rs[0].memory_length
    } else if rs.last().target_address + rs.last().memory_length > span_end_of(rs.drop_last()) {
        rs.last().target_address + rs.last().memory_length
    } else {
        span_end_of(rs.drop_last())
    }
}

/// Every region lies inside its sequence's span.
pub proof fn lemma_span_contains(rs: Seq<LoadableRegion>, k: int)
    requires
        0 <= k < rs.len(),
    ensures
        span_start_of(rs) <= rs[k].target_address,
        rs[k].target_address + rs[k].memory_length <= span_end_of(rs),
    decreases rs.len(),
{
    if rs.len() > 1 && k < rs.len() - 1 {
        lemma_span_contains(rs.drop_last(), k);
    }
}

/// The span is tight: both of its bounds are realized by some region.
pub proof fn lemma_span_tight(rs: Seq<LoadableRegion>)
    requires
        rs.len() > 0,
    ensures
        exists|j: int|
            0 <= j < rs.len() && (#[trigger] rs[j]).target_address == span_start_of(rs),
        exists|j: int|
            0 <= j < rs.len() && (#[trigger] rs[j]).target_address + rs[j].memory_length
                == span_end_of(rs),
    decreases rs.len(),
{
    if rs.len() == 1 {
        assert(rs[0].target_address == span_start_of(rs));
        assert(rs[0].target_address + rs[0].memory_length == span_end_of(rs));
    } else {
        lemma_span_tight(rs.drop_last());
        let prefix = rs.drop_last();
        let js = choose|j: int|
            0 <= j < prefix.len() && (#[trigger] prefix[j]).target_address == span_start_of(
                prefix,
            );
        let je = choose|j: int|
            0 <= j < prefix.len() && (#[trigger] prefix[j]).target_address
                + prefix[j].memory_length == span_end_of(prefix);
        if rs.last().target_address < span_start_of(prefix) {
            assert(rs[rs.len() - 1].target_address == span_start_of(rs));
        } else {
            assert(rs[js].target_address == span_start_of(rs));
        }
        if rs.last().target_address + rs.last().memory_length > span_end_of(prefix) {
            assert(rs[rs.len() - 1].target_address + rs[rs.len() - 1].memory_length
                == span_end_of(rs));
        } else {
            assert(rs[je].target_address + rs[je].memory_length == span_end_of(rs));
        }
    }
}

/// Computes the load span of the given regions: the minimal interval
/// `[start, end)` containing every region's memory range. Returns `None`
/// exactly when there is no region at all.
#[verifier::loop_isolation(false)]
pub fn load_span(regions: &Vec<LoadableRegion>) -> (r: Option<LoadSpan>)
    requires
        forall|k: int| 0 <= k < regions@.len() ==> (#[trigger] regions@[k]).wf(),
    ensures
        match r {
            Some(s) => {
                &&& regions@.len() > 0
                &&& s.start == span_start_of(regions@)
                &&& s.end == span_end_of(regions@)
                &&& s.start <= s.end
            },
            None => regions@.len() == 0,
        },
{
    if regions.len() == 0 {
        return None;
    }
    let first = regions[0];
    let mut start: u64 = first.target_address;
    let mut end: u64 = first.target_address + first.memory_length;
    let mut k: usize = 1;
    proof {
        assert(regions@.take(1).len() == 1);
        assert(regions@.take(1)[0] == regions@[0]);
    }
    while k < regions.len()
        invariant
            1 <= k <= regions@.len(),
            start == span_start_of(regions@.take(k as int)),
            end == span_end_of(regions@.take(k as int)),
            start <= end,
        decreases regions@.len() - k,
    {
        let r = regions[k];
        proof {
            assert(regions@.take(k as int + 1).drop_last() =~= regions@.take(k as int));
            assert(regions@.take(k as int + 1).last() == regions@[k as int]);
        }
        if r.target_address < start {
            start = r.target_address;
        }
        if r.target_address + r.memory_length > end {
            end = r.target_address + r.memory_length;
        }
        k = k + 1;
    }
    proof {
        assert(regions@.take(regions@.len() as int) =~= regions@);
    }
    Some(LoadSpan { start, end })
}

} // verus!
