use procmod_hook::nearby::{round_up, within_range, NearAction, NearSearch, MAX_DELTA, PROBES, STEP};
use procmod_hook::Error;

#[test]
fn within_range_edges() {
    assert!(within_range(0x1000, 0x1000));
    assert!(within_range(0x1000 + MAX_DELTA, 0x1000));
    assert!(!within_range(0x1000 + MAX_DELTA + 1, 0x1000));
    assert!(within_range(0x1000, 0x1000 + MAX_DELTA));
    assert!(!within_range(0x1000, 0x1000 + MAX_DELTA + 1));
}

#[test]
fn round_up_to_pages() {
    assert_eq!(round_up(0, 4096), 0);
    assert_eq!(round_up(1, 4096), 4096);
    assert_eq!(round_up(64, 4096), 4096);
    assert_eq!(round_up(4096, 4096), 4096);
    assert_eq!(round_up(4097, 4096), 8192);
    assert_eq!(round_up(64, STEP), 0x10000);
}

#[test]
fn round_up_with_odd_alignment_masks() {
    // With an alignment that is not a power of two the mask is applied as is.
    assert_eq!(round_up(5, 3), (5 + 2) & !2usize);
}

#[test]
fn search_probes_alternately_above_and_below() {
    let mut s = NearSearch::new(0x1234_5678);
    assert_eq!(s.start(), NearAction::MapAt(0x1235_0000));
    assert_eq!(s.on_mapped(None), NearAction::MapAt(0x1233_0000));
    assert_eq!(s.on_mapped(Some(0)), NearAction::MapAt(0x1236_0000));
    assert_eq!(s.on_mapped(None), NearAction::MapAt(0x1232_0000));
}

#[test]
fn search_keeps_near_mapping_and_releases_far_one() {
    let mut s = NearSearch::new(0x4000_0000);
    assert_eq!(s.start(), NearAction::MapAt(0x4001_0000));
    let far = 0x4000_0000 + MAX_DELTA + 0x10000;
    assert_eq!(s.on_mapped(Some(far)), NearAction::UnmapAt(far));
    assert_eq!(s.on_unmapped(), NearAction::MapAt(0x3FFF_0000));
    assert_eq!(s.on_mapped(Some(0x3FFF_0000)), NearAction::Done(Ok(0x3FFF_0000)));
}

#[test]
fn search_skips_null_candidate() {
    // Target in the lowest step: the first downward candidate wraps; the
    // candidate at zero is never asked for.
    let mut s = NearSearch::new(0x10000);
    assert_eq!(s.start(), NearAction::MapAt(0x20000));
    // The next candidate, 0x10000 - 0x10000 = 0, is skipped.
    assert_eq!(s.on_mapped(None), NearAction::MapAt(0x30000));
}

#[test]
fn search_gives_up_after_all_probes() {
    let mut s = NearSearch::new(0x7000_0000_0000);
    let mut action = s.start();
    let mut maps = 0usize;
    loop {
        match action {
            NearAction::MapAt(_) => {
                maps += 1;
                action = s.on_mapped(None);
            }
            NearAction::UnmapAt(_) => unreachable!(),
            NearAction::Done(r) => {
                assert_eq!(r, Err(Error::TrampolineAlloc));
                break;
            }
        }
    }
    assert_eq!(maps, PROBES);
}

#[test]
fn search_below_zero_wraps_around() {
    let mut s = NearSearch::new(0x5000);
    assert_eq!(s.start(), NearAction::MapAt(0x10000));
    assert_eq!(s.on_mapped(None), NearAction::MapAt(0usize.wrapping_sub(0x10000)));
    // A mapping that far away is given back.
    let far = 0usize.wrapping_sub(0x10000);
    assert_eq!(s.on_mapped(Some(far)), NearAction::UnmapAt(far));
}
