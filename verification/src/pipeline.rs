//! The pipeline's pure joints: sizing the scratch buffer from file
//! metadata, checking a read for completeness, and turning a raw buffer
//! into a full load plan (entry address, regions, span) in one step.

use vstd::prelude::*;

use crate::errors::LoadError;
use crate::image::{
    entry_spec, parse_image, regions_spec, valid_image, LoadableRegion,
    lemma_regions_upto_wf,
};
use crate::memory::region_in_window;
use crate::span::{load_span, span_end_of, span_start_of, lemma_span_contains, LoadSpan};

verus! {

/// Sizes the scratch buffer from the file's recorded size: the byte
/// count to allocate, or `AllocationFailure` when the file is too large
/// to address on this machine.
pub fn scratch_len(file_size: u64) -> (r: Result<usize, LoadError>)
    ensures
        match r {
            Ok(n) => n == file_size,
            Err(e) => e == LoadError::AllocationFailure && file_size > usize::MAX,
        },
{
    if file_size <= usize::MAX as u64 {
        Ok(file_size as usize)
    } else {
        Err(LoadError::AllocationFailure)
    }
}

/// Accepts a read exactly when it delivered the whole file: anything
/// short (or long) is `IOError`.
pub fn check_full_read(expected: usize, actual: usize) -> (r: Result<(), LoadError>)
    ensures
        match r {
            Ok(()) => actual == expected,
            Err(e) => e == LoadError::IOError && actual != expected,
        },
{
    if actual == expected {
        Ok(())
    } else {
        Err(LoadError::IOError)
    }
}

/// Everything the allocator and copier need, extracted from the raw
/// buffer before it can be discarded: the entry address, the loadable
/// regions in table order, and their load span.
pub struct LoadPlan {
    pub entry: u64,
    pub regions: Vec<LoadableRegion>,
    pub span: LoadSpan,
}

/// Parses the raw buffer and computes the load span in one step.
///
/// Succeeds exactly on well-formed images with at least one loadable
/// region; everything else is `MalformedImage`, decided before any
/// memory is allocated or copied. On success the plan carries the entry
/// address verbatim from the fixed header offset, the regions in table
/// order, and the minimal span containing them, each region well-formed
/// and inside the span.
pub fn plan_load(buf: &[u8]) -> (r: Result<LoadPlan, LoadError>)
    ensures
        match r {
            Ok(p) => {
                &&& valid_image(buf@)
                &&& regions_spec(buf@).len() > 0
                &&& p.entry == entry_spec(buf@)
                &&& p.regions@ == regions_spec(buf@)
                &&& p.span.start == span_start_of(regions_spec(buf@))
                &&& p.span.end == span_end_of(regions_spec(buf@))
                &&& p.span.start <= p.span.end
                &&& forall|k: int|
                    0 <= k < p.regions@.len() ==> (#[trigger] p.regions@[k]).wf()
                        && region_in_window(
                        p.regions@[k],
                        p.span.start,
                        (p.span.end - p.span.start) as nat,
                    )
            },
            Err(e) => {
                &&& e == LoadError::MalformedImage
                &&& !(valid_image(buf@) && regions_spec(buf@).len() > 0)
            },
        },
{
    let parsed = match parse_image(buf) {
        Ok(p) => p,
        Err(e) => {
            return Err(e);
        },
    };
    proof {
        lemma_regions_upto_wf(buf@, crate::image::ph_count(buf@) as int);
    }
    let span = match load_span(&parsed.regions) {
        Some(s) => s,
        None => {
            return Err(LoadError::MalformedImage);
        },
    };
    proof {
        assert forall|k: int| 0 <= k < parsed.regions@.len() implies (
        #[trigger] parsed.regions@[k]).wf() && region_in_window(
            parsed.regions@[k],
            span.start,
            (span.end - span.start) as nat,
        ) by {
            lemma_span_contains(parsed.regions@, k);
        }
    }
    Ok(LoadPlan { entry: parsed.entry, regions: parsed.regions, span })
}

} // verus!
