use apple_aslrtool::{compute_slide, Failure};

#[test]
fn slide_is_distance_above_base() {
    assert_eq!(compute_slide(Some(0x1_0000_8000), 0x1_0000_0000), Ok(0x8000));
    assert_eq!(compute_slide(Some(0x1_2345_6000), 0x1_0000_0000), Ok(0x2345_6000));
}

#[test]
fn slide_of_one_byte() {
    assert_eq!(compute_slide(Some(0x1_0000_0001), 0x1_0000_0000), Ok(1));
}

#[test]
fn slide_equal_to_base_is_unavailable() {
    assert_eq!(compute_slide(Some(0x1_0000_0000), 0x1_0000_0000), Err(Failure::SlideUnavailable));
}

#[test]
fn slide_below_base_is_unavailable() {
    assert_eq!(compute_slide(Some(0x8000), 0x1_0000_0000), Err(Failure::SlideUnavailable));
    assert_eq!(compute_slide(Some(0), 1), Err(Failure::SlideUnavailable));
}

#[test]
fn failed_region_query_is_unavailable() {
    assert_eq!(compute_slide(None, 0x1_0000_0000), Err(Failure::SlideUnavailable));
    assert_eq!(compute_slide(None, 0), Err(Failure::SlideUnavailable));
}

#[test]
fn slide_keeps_low_32_bits() {
    assert_eq!(compute_slide(Some(0x3_0000_0005), 0x1_0000_0000), Ok(5));
    assert_eq!(compute_slide(Some(u64::MAX), 0), Ok(0xFFFF_FFFF));
}
