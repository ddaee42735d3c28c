//! Core logic of a firmware-stage kernel loader: parsing a 64-bit
//! segmented executable image, computing the physical span its loadable
//! regions occupy, materializing those regions into a zero-filled memory
//! window, and sequencing the irreversible hand-off to the kernel's entry
//! point.
//!
//! All platform interaction (file reads, page allocation, retiring boot
//! services, the final jump) happens outside this crate; this crate works
//! on plain byte buffers and values and is fully verified.

use vstd::prelude::*;

pub mod errors;
pub mod handoff;
pub mod image;
pub mod memory;
pub mod pipeline;
pub mod span;

verus! {

} // verus!
