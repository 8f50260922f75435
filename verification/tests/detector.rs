use gakumas_screenshot::detector::{
    calculate_brightness, calculate_histogram, cancelled_message, gray_level, pixel_luma,
    threshold_bright_pixels, Brightness, PollCheck, Recorded, Wait, WaitPhase, WaitStart,
    WaitTarget, APPEARANCE_POLL_MS, DEFAULT_BRIGHTNESS_MILLI, DEFAULT_SIMILARITY_PERMILLE,
    ENABLED_POLL_MS,
};

fn pixels(list: &[[u8; 4]]) -> Vec<u8> {
    list.iter().flat_map(|p| p.iter().copied()).collect()
}

#[test]
fn test_threshold_bright_pixels() {
    // Create a small test image
    let img = pixels(&[
        // Pixel 0: Dark (should become white)
        [100, 100, 100, 255],
        // Pixel 1: Bright white (should become black)
        [250, 250, 250, 255],
        // Pixel 2: One channel dark (should become white)
        [250, 250, 100, 255],
    ]);

    let result = threshold_bright_pixels(&img, 190);

    assert_eq!(result[0], 255, "Dark pixel should become white");
    assert_eq!(result[1], 0, "Bright pixel should become black");
    assert_eq!(result[2], 255, "Partially dark pixel should become white");
}

#[test]
fn threshold_is_strict_and_ignores_alpha() {
    let img = pixels(&[[190, 255, 255, 0], [191, 191, 191, 0], [255, 255, 190, 255]]);
    assert_eq!(threshold_bright_pixels(&img, 190), vec![255, 0, 255]);
    assert_eq!(threshold_bright_pixels(&img, 255), vec![255, 255, 255]);
    assert_eq!(threshold_bright_pixels(&[1, 2, 3], 0), Vec::<u8>::new());
}

#[test]
fn luma_weights_are_those_of_the_formula() {
    assert_eq!(pixel_luma(255, 0, 0), 76_245);
    assert_eq!(pixel_luma(0, 255, 0), 149_685);
    assert_eq!(pixel_luma(0, 0, 255), 29_070);
    assert_eq!(pixel_luma(10, 20, 30), 2_990 + 11_740 + 3_420);
    assert_eq!(pixel_luma(255, 255, 255), 255_000);
    assert_eq!(gray_level(255, 0, 0), 76);
    assert_eq!(gray_level(0, 255, 0), 149);
    assert_eq!(gray_level(0, 0, 255), 29);
}

#[test]
fn brightness_of_equal_channels_is_their_value() {
    for v in [0u8, 1, 92, 97, 128, 254, 255] {
        assert_eq!(pixel_luma(v, v, v), 1000 * v as u32);
        assert_eq!(gray_level(v, v, v), v);
        for count in [1usize, 2, 1000] {
            let img: Vec<u8> = pixels(&vec![[v, v, v, 7]; count]);
            let b = calculate_brightness(&img);
            assert_eq!(b.pixels, count as u64);
            assert_eq!(b.total_milli, 1000 * v as u128 * count as u128);
            assert_eq!(b.mean_milli(), 1000 * v as u128);
        }
    }
}

#[test]
fn brightness_is_the_mean_luma() {
    let img = pixels(&[[255, 0, 0, 255], [0, 255, 0, 255], [0, 0, 255, 255], [10, 20, 30, 0]]);
    let b = calculate_brightness(&img);
    assert_eq!(b, Brightness { total_milli: 76_245 + 149_685 + 29_070 + 18_150, pixels: 4 });
    assert_eq!(b.mean_milli(), 68_287);
    assert!(b.exceeds(68_287));
    assert!(!b.exceeds(68_288));
    // bytes behind the last whole pixel are not looked at
    let mut longer = img.clone();
    longer.extend([255, 255, 255]);
    assert_eq!(calculate_brightness(&longer), b);
}

#[test]
fn an_empty_region_has_no_brightness() {
    let b = calculate_brightness(&[]);
    assert_eq!(b, Brightness { total_milli: 0, pixels: 0 });
    assert_eq!(b.mean_milli(), 0);
    assert!(!b.exceeds(0));
}

#[test]
fn the_enabled_button_is_told_from_the_dimmed_one() {
    let dimmed = calculate_brightness(&pixels(&vec![[92, 92, 92, 255]; 64]));
    let enabled = calculate_brightness(&pixels(&vec![[97, 97, 97, 255]; 64]));
    let at_threshold = calculate_brightness(&pixels(&vec![[95, 95, 95, 255]; 64]));
    assert_eq!(DEFAULT_BRIGHTNESS_MILLI, 95_000);
    assert_eq!(DEFAULT_SIMILARITY_PERMILLE, 850);
    assert!(!dimmed.exceeds(DEFAULT_BRIGHTNESS_MILLI));
    assert!(enabled.exceeds(DEFAULT_BRIGHTNESS_MILLI));
    assert!(!at_threshold.exceeds(DEFAULT_BRIGHTNESS_MILLI));
}

#[test]
fn histogram_counts_pixels_by_gray_level() {
    let img = pixels(&[
        [0, 0, 0, 255],
        [255, 255, 255, 255],
        [255, 0, 0, 255],
        [76, 76, 76, 1],
        [0, 0, 0, 0],
    ]);
    let h = calculate_histogram(&img);
    assert_eq!(h.bins.len(), 256);
    assert_eq!(h.pixels, 5);
    assert_eq!(h.bins[0], 2);
    assert_eq!(h.bins[76], 2);
    assert_eq!(h.bins[255], 1);
    assert_eq!(h.bins.iter().sum::<u64>(), 5);
    let empty = calculate_histogram(&[9, 9]);
    assert_eq!(empty.pixels, 0);
    assert_eq!(empty.bins, vec![0u64; 256]);
}

#[test]
fn waits_begin_as_the_reference_allows() {
    let poll = |target, phase| WaitStart::Poll(Wait { target, phase, timeout_ms: 30_000 });
    for target in [WaitTarget::StartPage, WaitTarget::Loading, WaitTarget::ResultPage] {
        assert_eq!(Wait::begin(target, true, 30_000, 500), poll(target, WaitPhase::Appearance));
    }
    assert_eq!(Wait::begin(WaitTarget::StartPage, false, 30_000, 500), WaitStart::Satisfied);
    assert_eq!(
        Wait::begin(WaitTarget::Loading, false, 30_000, 500),
        poll(WaitTarget::Loading, WaitPhase::Enabled)
    );
    assert_eq!(Wait::begin(WaitTarget::ResultPage, false, 30_000, 500), WaitStart::Delay(500));
}

#[test]
fn cancellation_is_looked_at_before_the_time() {
    let wait = Wait { target: WaitTarget::Loading, phase: WaitPhase::Enabled, timeout_ms: 1000 };
    assert_eq!(wait.check(true, 0), PollCheck::Cancelled);
    assert_eq!(wait.check(true, 5000), PollCheck::Cancelled);
    assert_eq!(wait.check(false, 0), PollCheck::Sample);
    assert_eq!(wait.check(false, 1000), PollCheck::Sample);
    assert_eq!(wait.check(false, 1001), PollCheck::TimedOut);
    assert_eq!(wait.check(false, u64::MAX), PollCheck::TimedOut);
}

#[test]
fn loading_waits_for_appearance_then_brightness() {
    let mut wait = match Wait::begin(WaitTarget::Loading, true, 30_000, 0) {
        WaitStart::Poll(wait) => wait,
        other => panic!("{:?}", other),
    };
    assert_eq!(wait.record(false), Recorded::Retry(APPEARANCE_POLL_MS));
    assert_eq!(wait.phase, WaitPhase::Appearance);
    assert_eq!(wait.record(true), Recorded::NextPhase);
    assert_eq!(wait.phase, WaitPhase::Enabled);
    assert_eq!(wait.record(false), Recorded::Retry(ENABLED_POLL_MS));
    assert_eq!(wait.record(true), Recorded::Satisfied);
    assert_eq!(
        wait,
        Wait { target: WaitTarget::Loading, phase: WaitPhase::Enabled, timeout_ms: 30_000 }
    );
    assert_eq!(APPEARANCE_POLL_MS, 100);
    assert_eq!(ENABLED_POLL_MS, 200);
}

#[test]
fn page_waits_end_with_the_appearance() {
    for target in [WaitTarget::StartPage, WaitTarget::ResultPage] {
        let mut wait = Wait { target, phase: WaitPhase::Appearance, timeout_ms: 1 };
        assert_eq!(wait.record(false), Recorded::Retry(100));
        assert_eq!(wait.record(true), Recorded::Satisfied);
        assert_eq!(wait.phase, WaitPhase::Appearance);
    }
}

#[test]
fn timeouts_say_what_was_waited_for() {
    let message = |target, phase, timeout_ms| Wait { target, phase, timeout_ms }.timeout_message();
    assert_eq!(
        message(WaitTarget::StartPage, WaitPhase::Appearance, 30_000),
        "Timeout waiting for rehearsal page after 30000ms"
    );
    assert_eq!(
        message(WaitTarget::ResultPage, WaitPhase::Appearance, 0),
        "Timeout waiting for result page after 0ms"
    );
    assert_eq!(
        message(WaitTarget::Loading, WaitPhase::Appearance, 1500),
        "Timeout waiting for Skip button (phase 1) after 1500ms"
    );
    assert_eq!(
        message(WaitTarget::Loading, WaitPhase::Enabled, u64::MAX),
        "Timeout waiting for Skip enabled (phase 2) after 18446744073709551615ms"
    );
    assert_eq!(cancelled_message(), "Abort requested");
}
