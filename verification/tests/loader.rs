use kernel_loader::errors::LoadError;
use kernel_loader::handoff::{HandoffAction, HandoffSequencer, Phase, RetireOutcome};
use kernel_loader::image::{parse_image, LoadableRegion};
use kernel_loader::memory::{populate, populate_after_allocation, AllocationOutcome};
use kernel_loader::pipeline::{check_full_read, plan_load, scratch_len};
use kernel_loader::span::{load_span, pages_needed, LoadSpan};

/// One program-header table entry of a test image.
struct Entry {
    ptype: u32,
    offset: u64,
    vaddr: u64,
    filesz: u64,
    memsz: u64,
}

/// Builds a minimal 64-bit image: fixed header, program-header table at
/// offset 64, padded to `total_len` bytes with `fill`.
fn build_image(entry_addr: u64, entries: &[Entry], total_len: usize, fill: u8) -> Vec<u8> {
    let phoff: u64 = 64;
    let entsize: u16 = 56;
    let table_end = phoff as usize + entries.len() * entsize as usize;
    assert!(total_len >= table_end);
    let mut buf = vec![fill; total_len];
    buf[0] = 0x7f;
    buf[1] = 0x45;
    buf[2] = 0x4c;
    buf[3] = 0x46;
    buf[4] = 2;
    buf[24..32].copy_from_slice(&entry_addr.to_le_bytes());
    buf[32..40].copy_from_slice(&phoff.to_le_bytes());
    buf[54..56].copy_from_slice(&entsize.to_le_bytes());
    buf[56..58].copy_from_slice(&(entries.len() as u16).to_le_bytes());
    for (k, e) in entries.iter().enumerate() {
        let base = phoff as usize + k * entsize as usize;
        buf[base..base + 4].copy_from_slice(&e.ptype.to_le_bytes());
        buf[base + 8..base + 16].copy_from_slice(&e.offset.to_le_bytes());
        buf[base + 16..base + 24].copy_from_slice(&e.vaddr.to_le_bytes());
        buf[base + 32..base + 40].copy_from_slice(&e.filesz.to_le_bytes());
        buf[base + 40..base + 48].copy_from_slice(&e.memsz.to_le_bytes());
    }
    buf
}

/// The two-region image of the end-to-end scenario: region 1 is 0x100
/// file bytes at 0x100000, region 2 is 0x20 file bytes padded to 0x60 at
/// 0x101000.
fn scenario_image() -> Vec<u8> {
    build_image(
        0x100008,
        &[
            Entry { ptype: 1, offset: 0x40, vaddr: 0x100000, filesz: 0x100, memsz: 0x100 },
            Entry { ptype: 1, offset: 0x140, vaddr: 0x101000, filesz: 0x20, memsz: 0x60 },
        ],
        0x160,
        0xab,
    )
}

#[test]
fn parse_rejects_short_buffer() {
    assert!(matches!(parse_image(&[]), Err(LoadError::MalformedImage)));
    assert!(matches!(parse_image(&[0x7f, 0x45]), Err(LoadError::MalformedImage)));
    assert!(matches!(parse_image(&[0u8; 63]), Err(LoadError::MalformedImage)));
}

#[test]
fn parse_rejects_bad_magic() {
    let mut buf = scenario_image();
    buf[1] = 0x46;
    assert!(matches!(parse_image(&buf), Err(LoadError::MalformedImage)));
    let mut buf2 = scenario_image();
    buf2[4] = 1;
    assert!(matches!(parse_image(&buf2), Err(LoadError::MalformedImage)));
}

#[test]
fn parse_rejects_truncated_table() {
    // The header claims two 56-byte entries at offset 64, but the buffer
    // ends inside the table.
    let full = scenario_image();
    assert!(matches!(parse_image(&full[..100]), Err(LoadError::MalformedImage)));
}

#[test]
fn parse_rejects_small_entry_size() {
    let mut buf = scenario_image();
    buf[54..56].copy_from_slice(&40u16.to_le_bytes());
    assert!(matches!(parse_image(&buf), Err(LoadError::MalformedImage)));
}

#[test]
fn parse_rejects_memsz_below_filesz() {
    let buf = build_image(
        0x1000,
        &[Entry { ptype: 1, offset: 0x40, vaddr: 0x100000, filesz: 0x60, memsz: 0x20 }],
        0xa0,
        0,
    );
    assert!(matches!(parse_image(&buf), Err(LoadError::MalformedImage)));
}

#[test]
fn parse_reads_entry_verbatim() {
    // Scenario B: the entry field at the fixed header offset is used as
    // given, independent of region contents.
    let buf = scenario_image();
    let parsed = parse_image(&buf).unwrap();
    assert_eq!(parsed.entry, 0x100008);
}

#[test]
fn parse_extracts_regions_in_table_order() {
    let buf = scenario_image();
    let parsed = parse_image(&buf).unwrap();
    assert_eq!(parsed.regions.len(), 2);
    assert_eq!(
        parsed.regions[0],
        LoadableRegion {
            source_offset: 0x40,
            source_length: 0x100,
            target_address: 0x100000,
            memory_length: 0x100,
        }
    );
    assert_eq!(
        parsed.regions[1],
        LoadableRegion {
            source_offset: 0x140,
            source_length: 0x20,
            target_address: 0x101000,
            memory_length: 0x60,
        }
    );
}

#[test]
fn parse_skips_non_loadable_entries() {
    let buf = build_image(
        0x2000,
        &[
            Entry { ptype: 4, offset: 0x40, vaddr: 0x200000, filesz: 0x10, memsz: 0x10 },
            Entry { ptype: 1, offset: 0x40, vaddr: 0x100000, filesz: 0x10, memsz: 0x10 },
            Entry { ptype: 2, offset: 0x40, vaddr: 0x300000, filesz: 0x10, memsz: 0x10 },
        ],
        0x120,
        0,
    );
    let parsed = parse_image(&buf).unwrap();
    assert_eq!(parsed.regions.len(), 1);
    assert_eq!(parsed.regions[0].target_address, 0x100000);
}

#[test]
fn parse_twice_is_identical() {
    let buf = scenario_image();
    let first = parse_image(&buf).unwrap();
    let second = parse_image(&buf).unwrap();
    assert_eq!(first.entry, second.entry);
    assert_eq!(first.regions, second.regions);
}

#[test]
fn span_of_scenario_image() {
    let buf = scenario_image();
    let parsed = parse_image(&buf).unwrap();
    let span = load_span(&parsed.regions).unwrap();
    assert_eq!(span, LoadSpan { start: 0x100000, end: 0x101060 });
    assert_eq!(span.byte_len(), Some(0x1060));
}

#[test]
fn span_of_no_regions_is_none() {
    assert_eq!(load_span(&Vec::new()), None);
}

#[test]
fn plan_rejects_image_without_loadable_regions() {
    let buf = build_image(0x1000, &[], 0x40 + 24, 0);
    assert!(parse_image(&buf).is_ok());
    assert!(matches!(plan_load(&buf), Err(LoadError::MalformedImage)));
}

#[test]
fn populated_window_matches_scenario() {
    // Scenario A, end to end: the populated span is [0x100000, 0x101060),
    // loaded bytes where the regions' file bytes lie and zero elsewhere.
    let buf = scenario_image();
    let plan = plan_load(&buf).unwrap();
    let len = plan.span.byte_len().unwrap();
    let w = populate(&buf, &plan.regions, plan.span.start, len).unwrap();
    assert_eq!(w.base, 0x100000);
    assert_eq!(w.len(), 0x1060);
    // Region 1's 0x100 file bytes, taken from offset 0x40.
    for i in 0..0x100usize {
        assert_eq!(w.read_byte(i), buf[0x40 + i]);
    }
    // The gap between the regions is zero.
    for i in 0x100..0x1000usize {
        assert_eq!(w.read_byte(i), 0);
    }
    // Region 2's 0x20 file bytes, taken from offset 0x140.
    for i in 0..0x20usize {
        assert_eq!(w.read_byte(0x1000 + i), buf[0x140 + i]);
    }
    // Region 2's zero-initialized tail: addresses [0x101020, 0x101060).
    for i in 0x1020..0x1060usize {
        assert_eq!(w.read_byte(i), 0);
    }
}

#[test]
fn populate_rejects_out_of_bounds_region() {
    // A region whose file range runs past the buffer is refused before
    // any copy.
    let buf = build_image(
        0x1000,
        &[Entry { ptype: 1, offset: 0x70, vaddr: 0x100000, filesz: 0x100, memsz: 0x100 }],
        0xa0,
        0,
    );
    let plan = plan_load(&buf).unwrap();
    let len = plan.span.byte_len().unwrap();
    let r = populate(&buf, &plan.regions, plan.span.start, len);
    assert!(matches!(r, Err(LoadError::CopyOutOfBounds)));
}

#[test]
fn denied_allocation_is_fatal_before_any_copy() {
    let buf = scenario_image();
    let plan = plan_load(&buf).unwrap();
    let len = plan.span.byte_len().unwrap();
    let r = populate_after_allocation(
        AllocationOutcome::Denied,
        &buf,
        &plan.regions,
        plan.span.start,
        len,
    );
    assert!(matches!(r, Err(LoadError::AddressUnavailable)));
}

#[test]
fn granted_allocation_populates() {
    let buf = scenario_image();
    let plan = plan_load(&buf).unwrap();
    let len = plan.span.byte_len().unwrap();
    let w = populate_after_allocation(
        AllocationOutcome::Granted,
        &buf,
        &plan.regions,
        plan.span.start,
        len,
    )
    .unwrap();
    assert_eq!(w.len(), 0x1060);
}

#[test]
fn pages_cover_the_span() {
    assert_eq!(pages_needed(0), Some(0));
    assert_eq!(pages_needed(1), Some(1));
    assert_eq!(pages_needed(0x1000), Some(1));
    assert_eq!(pages_needed(0x1001), Some(2));
    assert_eq!(pages_needed(0x1060), Some(2));
    assert_eq!(pages_needed(u64::MAX), None);
}

#[test]
fn scratch_len_checks_address_width() {
    assert_eq!(scratch_len(0x1000), Ok(0x1000));
    if (usize::MAX as u64) < u64::MAX {
        assert_eq!(scratch_len(u64::MAX), Err(LoadError::AllocationFailure));
    }
}

#[test]
fn short_read_is_io_error() {
    assert_eq!(check_full_read(100, 100), Ok(()));
    assert_eq!(check_full_read(100, 99), Err(LoadError::IOError));
}

#[test]
fn handoff_jumps_when_retire_succeeds() {
    let mut s = HandoffSequencer::new();
    assert_eq!(s.phase, Phase::Init);
    s.mark_loaded(0x100008);
    assert_eq!(s.phase, Phase::Loaded);
    let a = s.on_retire_attempt(RetireOutcome::Retired);
    assert_eq!(a, HandoffAction::Jump(0x100008));
    assert_eq!(s.phase, Phase::ServicesRetired);
}

#[test]
fn handoff_retries_once_then_fails() {
    let mut s = HandoffSequencer::new();
    s.mark_loaded(0xcafe);
    let first = s.on_retire_attempt(RetireOutcome::Stale);
    assert_eq!(first, HandoffAction::RetryRetire);
    assert_eq!(s.phase, Phase::Loaded);
    let second = s.on_retire_attempt(RetireOutcome::Stale);
    assert_eq!(second, HandoffAction::Fatal(LoadError::HandoffRejected));
}

#[test]
fn handoff_retry_then_success_jumps() {
    let mut s = HandoffSequencer::new();
    s.mark_loaded(0xbeef);
    assert_eq!(s.on_retire_attempt(RetireOutcome::Stale), HandoffAction::RetryRetire);
    assert_eq!(s.on_retire_attempt(RetireOutcome::Retired), HandoffAction::Jump(0xbeef));
}
