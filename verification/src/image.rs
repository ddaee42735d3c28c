//! Parsing of the 64-bit segmented executable image: the fixed-offset
//! header fields, the program-header table, and the loadable regions it
//! describes. Everything here works on a plain byte buffer.

use vstd::prelude::*;

use crate::errors::LoadError;

verus! {

/// Byte length of the fixed image header; the buffer must hold at least
/// this much to be recognizable.
pub const HEADER_LEN: usize = 64;

/// Offset of the entry-point address field in the fixed header.
pub const ENTRY_OFFSET: usize = 24;

/// Offset of the program-header table offset field.
pub const PH_OFF_OFFSET: usize = 32;

/// Offset of the program-header entry-size field.
pub const PH_ENTSIZE_OFFSET: usize = 54;

/// Offset of the program-header entry-count field.
pub const PH_COUNT_OFFSET: usize = 56;

/// Minimal size of one program-header table entry.
pub const PH_ENTRY_LEN: u16 = 56;

/// Program-header type tag that marks an entry as a loadable region.
pub const LOAD_TYPE: u32 = 1;

/// One contiguous piece of the image that must be materialized in memory:
/// `source_length` bytes taken from the raw buffer at `source_offset`,
/// placed at `target_address`, then zero-padded up to `memory_length`.
#[derive(Clone, Copy, Debug, PartialEq, Eq, Structural)]
pub struct LoadableRegion {
    pub source_offset: u64,
    pub source_length: u64,
    pub target_address: u64,
    pub memory_length: u64,
}

impl LoadableRegion {
    /// The record's invariant: the in-memory size covers the file-backed
    /// size (the tail is the zero-initialized part), and the region's end
    /// address does not wrap.
    pub open spec fn wf(self) -> bool {
        &&& self.source_length <= self.memory_length
        &&& self.target_address + self.memory_length <= u64::MAX
    }
}

/// The little-endian 16-bit value stored at byte offset `i`.
pub open spec fn u16_le(s: Seq<u8>, i: int) -> u16 {
    (s[i] as u16) | ((s[i + 1] as u16) << 8)
}

/// The little-endian 32-bit value stored at byte offset `i`.
pub open spec fn u32_le(s: Seq<u8>, i: int) -> u32 {
    (s[i] as u32) | ((s[i + 1] as u32) << 8) | ((s[i + 2] as u32) << 16) | ((s[i + 3] as u32)
        << 24)
}

/// The little-endian 64-bit value stored at byte offset `i`.
pub open spec fn u64_le(s: Seq<u8>, i: int) -> u64 {
    (s[i] as u64) | ((s[i + 1] as u64) << 8) | ((s[i + 2] as u64) << 16) | ((s[i + 3] as u64)
        << 24) | ((s[i + 4] as u64) << 32) | ((s[i + 5] as u64) << 40) | ((s[i + 6] as u64) << 48)
        | ((s[i + 7] as u64) << 56)
}

/// Reads the little-endian 16-bit value at `off`.
pub fn read_u16_le(buf: &[u8], off: usize) -> (r: u16)
    requires
        off + 2 <= buf@.len(),
    ensures
        r == u16_le(buf@, off as int),
{
    (buf[off] as u16) | ((buf[off + 1] as u16) << 8)
}

/// Reads the little-endian 32-bit value at `off`.
pub fn read_u32_le(buf: &[u8], off: usize) -> (r: u32)
    requires
        off + 4 <= buf@.len(),
    ensures
        r == u32_le(buf@, off as int),
{
    (buf[off] as u32) | ((buf[off + 1] as u32) << 8) | ((buf[off + 2] as u32) << 16) | ((buf[off
        + 3] as u32) << 24)
}

/// Reads the little-endian 64-bit value at `off`.
pub fn read_u64_le(buf: &[u8], off: usize) -> (r: u64)
    requires
        off + 8 <= buf@.len(),
    ensures
        r == u64_le(buf@, off as int),
{
    (buf[off] as u64) | ((buf[off + 1] as u64) << 8) | ((buf[off + 2] as u64) << 16) | ((buf[off
        + 3] as u64) << 24) | ((buf[off + 4] as u64) << 32) | ((buf[off + 5] as u64) << 40) | ((
    buf[off + 6] as u64) << 48) | ((buf[off + 7] as u64) << 56)
}

/// The buffer is long enough and starts with the expected magic and the
/// 64-bit word-width tag.
pub open spec fn magic_ok(s: Seq<u8>) -> bool {
    &&& s.len() >= HEADER_LEN
    &&& s[0] == 0x7f
    &&& s[1] == 0x45
    &&& s[2] == 0x4c
    &&& s[3] == 0x46
    &&& s[4] == 2
}

/// Offset of the program-header table, from the fixed header.
pub open spec fn ph_off(s: Seq<u8>) -> u64 {
    u64_le(s, PH_OFF_OFFSET as int)
}

/// Size of one program-header table entry, from the fixed header.
pub open spec fn ph_entsize(s: Seq<u8>) -> u16 {
    u16_le(s, PH_ENTSIZE_OFFSET as int)
}

/// Number of program-header table entries, from the fixed header.
pub open spec fn ph_count(s: Seq<u8>) -> u16 {
    u16_le(s, PH_COUNT_OFFSET as int)
}

/// The whole program-header table lies inside the buffer and its entries
/// are at least the minimal entry size.
pub open spec fn table_ok(s: Seq<u8>) -> bool {
    &&& ph_entsize(s) >= PH_ENTRY_LEN
    &&& ph_off(s) + ph_count(s) * ph_entsize(s) <= s.len()
}

/// Byte offset of table entry `k`.
pub open spec fn entry_base(s: Seq<u8>, k: int) -> int {
    ph_off(s) + k * ph_entsize(s)
}

/// Table entry `k` is marked "must be loaded into memory".
pub open spec fn is_load(s: Seq<u8>, k: int) -> bool {
    u32_le(s, entry_base(s, k)) == LOAD_TYPE
}

/// The loadable region described by table entry `k`.
pub open spec fn region_at(s: Seq<u8>, k: int) -> LoadableRegion {
    LoadableRegion {
        source_offset: u64_le(s, entry_base(s, k) + 8),
        target_address: u64_le(s, entry_base(s, k) + 16),
        source_length: u64_le(s, entry_base(s, k) + 32),
        memory_length: u64_le(s, entry_base(s, k) + 40),
    }
}

/// Every loadable entry of the table satisfies the region invariant.
pub open spec fn regions_ok(s: Seq<u8>) -> bool {
    forall|k: int| 0 <= k < ph_count(s) && is_load(s, k) ==> (#[trigger] region_at(s, k)).wf()
}

/// The buffer is a well-formed image: recognizable header, table in
/// bounds, and well-formed loadable entries.
pub open spec fn valid_image(s: Seq<u8>) -> bool {
    &&& magic_ok(s)
    &&& table_ok(s)
    &&& regions_ok(s)
}

/// The entry-point address stored at the fixed header offset.
pub open spec fn entry_spec(s: Seq<u8>) -> u64 {
    u64_le(s, ENTRY_OFFSET as int)
}

/// The loadable regions among the first `n` table entries, in table
/// order.
pub open spec fn regions_upto(s: Seq<u8>, n: int) -> Seq<LoadableRegion>
    decreases n,
{
    if n <= 0 {
        Seq::empty()
    } else if is_load(s, n - 1) {
        regions_upto(s, n - 1).push(region_at(s, n - 1))
    } else {
        regions_upto(s, n - 1)
    }
}

/// All loadable regions of the image, in table order.
pub open spec fn regions_spec(s: Seq<u8>) -> Seq<LoadableRegion> {
    regions_upto(s, ph_count(s) as int)
}

/// The result of parsing a well-formed image: its entry-point address and
/// its loadable regions in table order.
pub struct ParsedImage {
    pub entry: u64,
    pub regions: Vec<LoadableRegion>,
}

/// Interprets the raw buffer as a 64-bit segmented executable image.
///
/// Succeeds exactly on well-formed images, returning the entry-point
/// address read verbatim from the fixed header offset and the loadable
/// regions in their table order; every other buffer is rejected as
/// `MalformedImage` (so a bad image never reaches allocation or copying).
#[verifier::loop_isolation(false)]
pub fn parse_image(buf: &[u8]) -> (r: Result<ParsedImage, LoadError>)
    ensures
        match r {
            Ok(p) => {
                &&& valid_image(buf@)
                &&& p.entry == entry_spec(buf@)
                &&& p.regions@ == regions_spec(buf@)
            },
            Err(e) => {
                &&& e == LoadError::MalformedImage
                &&& !valid_image(buf@)
            },
        },
{
    if buf.len() < HEADER_LEN {
        return Err(LoadError::MalformedImage);
    }
    if buf[0] != 0x7f || buf[1] != 0x45 || buf[2] != 0x4c || buf[3] != 0x46 || buf[4] != 2 {
        return Err(LoadError::MalformedImage);
    }
    let phoff: u64 = read_u64_le(buf, PH_OFF_OFFSET);
    let entsize: u16 = read_u16_le(buf, PH_ENTSIZE_OFFSET);
    let count: u16 = read_u16_le(buf, PH_COUNT_OFFSET);
    if entsize < PH_ENTRY_LEN {
        return Err(LoadError::MalformedImage);
    }
    let blen: u64 = buf.len() as u64;
    proof {
        assert((count as int) * (entsize as int) <= 0xffff * 0xffff) by (nonlinear_arith)
            requires
                count as int <= 0xffff,
                entsize as int <= 0xffff,
        ;
    }
    if phoff > blen || (count as u64) * (entsize as u64) > blen - phoff {
        return Err(LoadError::MalformedImage);
    }
    let entry: u64 = read_u64_le(buf, ENTRY_OFFSET);
    let mut regions: Vec<LoadableRegion> = Vec::new();
    let mut k: u16 = 0;
    while k < count
        invariant
            regions@ == regions_upto(buf@, k as int),
            k <= count,
            forall|j: int|
                0 <= j < k && is_load(buf@, j) ==> (#[trigger] region_at(buf@, j)).wf(),
        decreases count - k,
    {
        proof {
            assert((k as int) * (entsize as int) + entsize as int <= (count as int) * (
            entsize as int)) by (nonlinear_arith)
                requires
                    k as int + 1 <= count as int,
                    entsize as int >= 0,
            ;
        }
        let base64: u64 = phoff + (k as u64) * (entsize as u64);
        assert(base64 + entsize <= blen);
        let base: usize = base64 as usize;
        assert(base + entsize <= buf@.len());
        if read_u32_le(buf, base) == LOAD_TYPE {
            let source_offset: u64 = read_u64_le(buf, base + 8);
            let target_address: u64 = read_u64_le(buf, base + 16);
            let source_length: u64 = read_u64_le(buf, base + 32);
            let memory_length: u64 = read_u64_le(buf, base + 40);
            if source_length > memory_length || target_address > u64::MAX - memory_length {
                assert(!region_at(buf@, k as int).wf());
                return Err(LoadError::MalformedImage);
            }
            let region = LoadableRegion { source_offset, source_length, target_address, memory_length };
            assert(region == region_at(buf@, k as int));
            regions.push(region);
        }
        k = k + 1;
    }
    Ok(ParsedImage { entry, regions })
}

/// In a well-formed image, every parsed region satisfies the region
/// invariant.
pub proof fn lemma_regions_upto_wf(s: Seq<u8>, n: int)
    requires
        regions_ok(s),
        n <= ph_count(s),
    ensures
        forall|k: int|
            0 <= k < regions_upto(s, n).len() ==> (#[trigger] regions_upto(s, n)[k]).wf(),
    decreases n,
{
    if n > 0 {
        lemma_regions_upto_wf(s, n - 1);
        let prev = regions_upto(s, n - 1);
        let cur = regions_upto(s, n);
        assert forall|k: int| 0 <= k < cur.len() implies (#[trigger] cur[k]).wf() by {
            if is_load(s, n - 1) {
                assert(cur == prev.push(region_at(s, n - 1)));
                if k < prev.len() {
                    assert(cur[k] == prev[k]);
                } else {
                    assert(cur[k] == region_at(s, n - 1));
                    assert(region_at(s, n - 1).wf());
                }
            } else {
                assert(cur == prev);
            }
        }
    }
}

/// Re-reading the same image is idempotent: any two parse results drawn
/// from the same bytes carry the identical entry address and the
/// identical region list, because `parse_image` pins both to functions of
/// the bytes alone.
pub proof fn lemma_parse_deterministic(
    s: Seq<u8>,
    entry1: u64,
    regions1: Seq<LoadableRegion>,
    entry2: u64,
    regions2: Seq<LoadableRegion>,
)
    requires
        entry1 == entry_spec(s),
        regions1 == regions_spec(s),
        entry2 == entry_spec(s),
        regions2 == regions_spec(s),
    ensures
        entry1 == entry2,
        regions1 == regions2,
{
}

} // verus!
