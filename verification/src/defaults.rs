//! The values that the settings of the automation have where the settings
//! file does not give them, as far as they are whole numbers and texts.
//! Thresholds are with the detector.

use vstd::prelude::*;

verus! {

/// The threshold above which a pixel counts as bright text when an image is
/// readied for recognition.
pub fn default_ocr_threshold() -> (threshold: u8)
    ensures
        threshold == 190,
{
    190
}

/// The time that the waits for the start page and for the end of loading
/// may take, in milliseconds.
pub fn default_loading_timeout_ms() -> (ms: u64)
    ensures
        ms == 30_000,
{
    30_000
}

/// The time that the wait for the result page may take, in milliseconds.
pub fn default_result_timeout_ms() -> (ms: u64)
    ensures
        ms == 30_000,
{
    30_000
}

/// The delay that stands in for the wait for the result page where there is
/// no reference template, in milliseconds.
pub fn default_capture_delay_ms() -> (ms: u64)
    ensures
        ms == 500,
{
    500
}

/// Where the reference template of the Start button is kept.
pub fn default_start_button_reference() -> (path: String)
    ensures
        path@ == "resources/template/rehearsal/start_button_ref.png"@,
{
    String::from_str("resources/template/rehearsal/start_button_ref.png")
}

/// Where the reference template of the Skip button is kept.
pub fn default_skip_button_reference() -> (path: String)
    ensures
        path@ == "resources/template/rehearsal/skip_button_ref.png"@,
{
    String::from_str("resources/template/rehearsal/skip_button_ref.png")
}

/// Where the reference template of the End button is kept.
pub fn default_end_button_reference() -> (path: String)
    ensures
        path@ == "resources/template/rehearsal/end_button_ref.png"@,
{
    String::from_str("resources/template/rehearsal/end_button_ref.png")
}

} // verus!
