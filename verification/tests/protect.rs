use procmod_hook::protect::{page_range, unix_protect_outcome, windows_protect_outcome};
use procmod_hook::Error;

#[test]
fn page_range_single_page() {
    assert_eq!(page_range(0x1234, 5, 0x1000), (0x1000, 0x1000));
}

#[test]
fn page_range_straddles_pages() {
    assert_eq!(page_range(0x1FFE, 5, 0x1000), (0x1000, 0x2000));
}

#[test]
fn page_range_aligned_start_and_end() {
    assert_eq!(page_range(0x3000, 0x1000, 0x1000), (0x3000, 0x1000));
    assert_eq!(page_range(0x3000, 0, 0x1000), (0x3000, 0));
}

#[test]
fn unix_status_codes() {
    assert_eq!(unix_protect_outcome(0), Ok(()));
    assert_eq!(unix_protect_outcome(-1), Err(Error::ProtectFailed));
    assert_eq!(unix_protect_outcome(1), Err(Error::ProtectFailed));
}

#[test]
fn windows_status_codes() {
    assert_eq!(windows_protect_outcome(1, 0x20), Ok(0x20));
    assert_eq!(windows_protect_outcome(0, 0x20), Err(Error::ProtectFailed));
}
