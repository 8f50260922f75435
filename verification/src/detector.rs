//! The detector: what a captured region looks like, in whole numbers, and
//! the decisions of the waits that poll a region until it looks as it
//! should.
//!
//! A region is given by its pixels: four bytes each, red, green, blue and
//! alpha. Brightness is the luma `0.299 R + 0.587 G + 0.114 B`; it is kept
//! in thousandths, so that sums and means are exact.

use vstd::prelude::*;
use crate::text::{decimal_text, push_decimal};

verus! {

/// The weights of red, green and blue in the luma, in thousandths.
pub const RED_WEIGHT: u32 = 299;

pub const GREEN_WEIGHT: u32 = 587;

pub const BLUE_WEIGHT: u32 = 114;

/// The number of gray levels, and of bins of a histogram.
pub const GRAY_LEVELS: usize = 256;

/// The pause between two looks at a region while waiting for an element
/// to appear, in milliseconds.
pub const APPEARANCE_POLL_MS: u64 = 100;

/// The pause between two looks at a region while waiting for an element
/// to become enabled, in milliseconds.
pub const ENABLED_POLL_MS: u64 = 200;

/// The similarity, in thousandths, from which on an element counts as
/// shown, where nothing else is configured.
pub const DEFAULT_SIMILARITY_PERMILLE: u32 = 850;

/// The brightness, in thousandths, above which a button counts as enabled,
/// where nothing else is configured.
pub const DEFAULT_BRIGHTNESS_MILLI: u32 = 95_000;

/// The luma of a pixel, in thousandths.
pub open spec fn luma_milli(r: u8, g: u8, b: u8) -> nat {
    (299 * r + 587 * g + 114 * b) as nat
}

/// The gray level of a pixel: its luma, rounded down.
pub open spec fn gray_level_spec(r: u8, g: u8, b: u8) -> nat {
    luma_milli(r, g, b) / 1000
}

/// The number of whole pixels in a buffer.
pub open spec fn pixel_count(rgba: Seq<u8>) -> nat {
    rgba.len() / 4
}

/// The luma, in thousandths, of the pixel with the number `k`.
pub open spec fn luma_at(rgba: Seq<u8>, k: int) -> nat {
    luma_milli(rgba[4 * k], rgba[4 * k + 1], rgba[4 * k + 2])
}

/// The gray level of the pixel with the number `k`.
pub open spec fn gray_at(rgba: Seq<u8>, k: int) -> nat {
    gray_level_spec(rgba[4 * k], rgba[4 * k + 1], rgba[4 * k + 2])
}

/// The sum of the lumas of the first `pixels` pixels, in thousandths.
pub open spec fn luma_sum(rgba: Seq<u8>, pixels: nat) -> nat
    decreases pixels,
{
    if pixels == 0 {
        0
    } else {
        luma_sum(rgba, (pixels - 1) as nat) + luma_at(rgba, pixels - 1)
    }
}

/// How many of the first `pixels` pixels have the gray level `level`.
pub open spec fn gray_count(rgba: Seq<u8>, pixels: nat, level: nat) -> nat
    decreases pixels,
{
    if pixels == 0 {
        0
    } else {
        gray_count(rgba, (pixels - 1) as nat, level) + if gray_at(rgba, pixels - 1) == level {
            1nat
        } else {
            0nat
        }
    }
}

/// Whether every pixel of a buffer has red, green and blue equal to `v`.
pub open spec fn is_uniform(rgba: Seq<u8>, v: u8) -> bool {
    forall|k: int|
        0 <= k < pixel_count(rgba) ==> #[trigger] rgba[4 * k] == v && rgba[4 * k + 1] == v
            && rgba[4 * k + 2] == v
}

/// The luma of a pixel, in thousandths.
pub fn pixel_luma(r: u8, g: u8, b: u8) -> (luma: u32)
    ensures
        luma == luma_milli(r, g, b),
        luma <= 255_000,
        r == g && g == b ==> luma == 1000 * r,
{
    RED_WEIGHT * r as u32 + GREEN_WEIGHT * g as u32 + BLUE_WEIGHT * b as u32
}

/// The gray level of a pixel. A pixel with red, green and blue equal has
/// that value as its gray level.
pub fn gray_level(r: u8, g: u8, b: u8) -> (level: u8)
    ensures
        level == gray_level_spec(r, g, b),
        r == g && g == b ==> level == r,
{
    (pixel_luma(r, g, b) / 1000) as u8
}

/// The brightness of a region as an exact fraction: the sum of the lumas
/// of its pixels, in thousandths, over their number.
#[derive(Debug, Clone, Copy, PartialEq, Eq, Structural)]
pub struct Brightness {
    /// The sum of the lumas of all pixels, in thousandths.
    pub total_milli: u128,
    /// The number of pixels.
    pub pixels: u64,
}

impl Brightness {
    /// Whether the mean luma lies above `threshold_milli` thousandths. A
    /// region without pixels has the brightness zero.
    pub open spec fn exceeds_spec(self, threshold_milli: u32) -> bool {
        self.pixels > 0 && self.total_milli > threshold_milli * self.pixels
    }

    /// The mean luma in thousandths, rounded down; zero without pixels.
    pub open spec fn mean_milli_spec(self) -> int {
        if self.pixels == 0 {
            0
        } else {
            self.total_milli as int / self.pixels as int
        }
    }

    /// Whether the mean luma lies above `threshold_milli` thousandths.
    pub fn exceeds(&self, threshold_milli: u32) -> (b: bool)
        ensures
            b == self.exceeds_spec(threshold_milli),
    {
        assert(threshold_milli * self.pixels <= 0xFFFF_FFFF * 0xFFFF_FFFF_FFFF_FFFF)
            by (nonlinear_arith)
            requires
                0 <= threshold_milli <= 0xFFFF_FFFF,
                0 <= self.pixels <= 0xFFFF_FFFF_FFFF_FFFF,
        ;
        self.pixels > 0 && self.total_milli > threshold_milli as u128 * self.pixels as u128
    }

    /// The mean luma in thousandths, rounded down.
    pub fn mean_milli(&self) -> (mean: u128)
        ensures
            mean == self.mean_milli_spec(),
    {
        if self.pixels == 0 {
            0
        } else {
            self.total_milli / self.pixels as u128
        }
    }
}

/// In a region whose pixels all have red, green and blue equal to `v`, the
/// sum of the lumas is `v` for every pixel: the brightness is `v` exactly.
pub proof fn lemma_uniform_brightness(rgba: Seq<u8>, v: u8, pixels: nat)
    requires
        is_uniform(rgba, v),
        pixels <= pixel_count(rgba),
    ensures
        luma_sum(rgba, pixels) == 1000 * v * pixels,
    decreases pixels,
{
    if pixels > 0 {
        let before = (pixels - 1) as nat;
        lemma_uniform_brightness(rgba, v, before);
        let k = pixels - 1;
        assert(rgba[4 * k] == v && rgba[4 * k + 1] == v && rgba[4 * k + 2] == v);
        assert(luma_at(rgba, k) == 1000 * v);
        assert(luma_sum(rgba, pixels) == luma_sum(rgba, before) + luma_at(rgba, k));
        assert(1000 * v * before + 1000 * v == 1000 * v * pixels) by (nonlinear_arith)
            requires
                before + 1 == pixels,
        ;
    } else {
        assert(1000 * v * pixels == 0) by (nonlinear_arith)
            requires
                pixels == 0,
        ;
    }
}

/// Measures the brightness of a region. Bytes behind the last whole pixel
/// are not looked at.
pub fn calculate_brightness(rgba: &[u8]) -> (brightness: Brightness)
    ensures
        brightness.pixels == pixel_count(rgba@),
        brightness.total_milli == luma_sum(rgba@, pixel_count(rgba@)),
        forall|v: u8|
            is_uniform(rgba@, v) ==> brightness.total_milli == 1000 * v * brightness.pixels,
{
    let pixels: usize = rgba.len() / 4;
    let mut total: u128 = 0;
    let mut k: usize = 0;
    while k < pixels
        invariant
            k <= pixels,
            pixels == pixel_count(rgba@),
            4 * pixels <= rgba@.len() <= usize::MAX,
            total == luma_sum(rgba@, k as nat),
            total <= 255_000 * k,
        decreases pixels - k,
    {
        let luma = pixel_luma(rgba[4 * k], rgba[4 * k + 1], rgba[4 * k + 2]);
        total = total + luma as u128;
        k += 1;
    }
    proof {
        assert forall|v: u8| is_uniform(rgba@, v) implies total == 1000 * v * pixels by {
            lemma_uniform_brightness(rgba@, v, pixels as nat);
        }
    }
    Brightness { total_milli: total, pixels: pixels as u64 }
}

/// The gray-level histogram of a region: for every gray level the number
/// of pixels that have it.
#[derive(Debug, Clone, PartialEq)]
pub struct Histogram {
    /// The number of pixels of each gray level, from 0 to 255.
    pub bins: Vec<u64>,
    /// The number of pixels.
    pub pixels: u64,
}

/// The sum of the first `levels` bins.
pub open spec fn bin_total(bins: Seq<u64>, levels: nat) -> nat
    decreases levels,
{
    if levels == 0 {
        0
    } else {
        bin_total(bins, (levels - 1) as nat) + bins[levels - 1] as nat
    }
}

impl Histogram {
    /// There is a bin for every gray level.
    pub open spec fn wf(&self) -> bool {
        self.bins@.len() == GRAY_LEVELS
    }

    /// Whether the histogram is that of the region `rgba`.
    pub open spec fn describes(&self, rgba: Seq<u8>) -> bool {
        &&& self.wf()
        &&& self.pixels == pixel_count(rgba)
        &&& forall|level: int|
            0 <= level < GRAY_LEVELS ==> #[trigger] self.bins@[level] == gray_count(
                rgba,
                pixel_count(rgba),
                level as nat,
            )
    }
}

/// The sum of the counts of the gray levels below `levels` is the number
/// of pixels with such a gray level; over all levels it is the number of
/// pixels.
pub proof fn lemma_gray_counts_total(rgba: Seq<u8>, pixels: nat, bins: Seq<u64>, levels: nat)
    requires
        levels <= 256,
        bins.len() == 256,
        forall|level: int|
            0 <= level < 256 ==> #[trigger] bins[level] == gray_count(rgba, pixels, level as nat),
    ensures
        bin_total(bins, levels) == below_count(rgba, pixels, levels),
        levels == 256 ==> bin_total(bins, levels) == pixels,
    decreases levels,
{
    if levels > 0 {
        lemma_gray_counts_total(rgba, pixels, bins, (levels - 1) as nat);
        lemma_below_count_step(rgba, pixels, (levels - 1) as nat);
    } else {
        lemma_below_count_zero(rgba, pixels);
    }
    if levels == 256 {
        lemma_below_count_all(rgba, pixels);
    }
}

/// How many of the first `pixels` pixels have a gray level below `levels`.
pub open spec fn below_count(rgba: Seq<u8>, pixels: nat, levels: nat) -> nat
    decreases pixels,
{
    if pixels == 0 {
        0
    } else {
        below_count(rgba, (pixels - 1) as nat, levels) + if gray_at(rgba, pixels - 1) < levels {
            1nat
        } else {
            0nat
        }
    }
}

proof fn lemma_below_count_zero(rgba: Seq<u8>, pixels: nat)
    ensures
        below_count(rgba, pixels, 0) == 0,
    decreases pixels,
{
    if pixels > 0 {
        lemma_below_count_zero(rgba, (pixels - 1) as nat);
    }
}

proof fn lemma_below_count_step(rgba: Seq<u8>, pixels: nat, level: nat)
    ensures
        below_count(rgba, pixels, level + 1) == below_count(rgba, pixels, level) + gray_count(
            rgba,
            pixels,
            level,
        ),
    decreases pixels,
{
    if pixels > 0 {
        lemma_below_count_step(rgba, (pixels - 1) as nat, level);
    }
}

proof fn lemma_below_count_all(rgba: Seq<u8>, pixels: nat)
    ensures
        below_count(rgba, pixels, 256) == pixels,
    decreases pixels,
{
    if pixels > 0 {
        lemma_below_count_all(rgba, (pixels - 1) as nat);
        let k = pixels - 1;
        assert(luma_milli(rgba[4 * k], rgba[4 * k + 1], rgba[4 * k + 2]) <= 255_000);
        assert(gray_at(rgba, k) <= 255);
    }
}

/// Counts the pixels of a region by gray level. Bytes behind the last
/// whole pixel are not looked at.
pub fn calculate_histogram(rgba: &[u8]) -> (histogram: Histogram)
    ensures
        histogram.describes(rgba@),
        bin_total(histogram.bins@, 256) == histogram.pixels,
{
    let pixels: usize = rgba.len() / 4;
    let mut bins: Vec<u64> = Vec::new();
    let mut level: usize = 0;
    while level < GRAY_LEVELS
        invariant
            level <= GRAY_LEVELS,
            bins@.len() == level,
            forall|l: int| 0 <= l < level ==> #[trigger] bins@[l] == 0,
        decreases GRAY_LEVELS - level,
    {
        bins.push(0);
        level += 1;
    }
    let mut k: usize = 0;
    while k < pixels
        invariant
            k <= pixels,
            pixels == pixel_count(rgba@),
            4 * pixels <= rgba@.len() <= usize::MAX,
            bins@.len() == GRAY_LEVELS,
            forall|l: int|
                0 <= l < GRAY_LEVELS ==> #[trigger] bins@[l] == gray_count(
                    rgba@,
                    k as nat,
                    l as nat,
                ),
            forall|l: int| 0 <= l < GRAY_LEVELS ==> #[trigger] bins@[l] <= k,
        decreases pixels - k,
    {
        let level = gray_level(rgba[4 * k], rgba[4 * k + 1], rgba[4 * k + 2]) as usize;
        let count = bins[level];
        bins.set(level, count + 1);
        k += 1;
    }
    proof {
        lemma_gray_counts_total(rgba@, pixels as nat, bins@, 256);
    }
    Histogram { bins, pixels: pixels as u64 }
}

/// Turns a region into black text on white: a pixel whose red, green and
/// blue all lie above the threshold becomes black (0), every other pixel
/// white (255). The result has one byte for every pixel.
pub fn threshold_bright_pixels(rgba: &[u8], threshold: u8) -> (luma: Vec<u8>)
    ensures
        luma@.len() == pixel_count(rgba@),
        forall|k: int|
            0 <= k < luma@.len() ==> #[trigger] luma@[k] == if rgba@[4 * k] > threshold && rgba@[4
                * k + 1] > threshold && rgba@[4 * k + 2] > threshold {
                0u8
            } else {
                255u8
            },
{
    let pixels: usize = rgba.len() / 4;
    let mut luma: Vec<u8> = Vec::new();
    let mut k: usize = 0;
    while k < pixels
        invariant
            k <= pixels,
            pixels == pixel_count(rgba@),
            4 * pixels <= rgba@.len() <= usize::MAX,
            luma@.len() == k,
            forall|j: int|
                0 <= j < k ==> #[trigger] luma@[j] == if rgba@[4 * j] > threshold && rgba@[4 * j
                    + 1] > threshold && rgba@[4 * j + 2] > threshold {
                    0u8
                } else {
                    255u8
                },
        decreases pixels - k,
    {
        let bright = rgba[4 * k] > threshold && rgba[4 * k + 1] > threshold && rgba[4 * k + 2]
            > threshold;
        luma.push(
            if bright {
                0
            } else {
                255
            },
        );
        k += 1;
    }
    luma
}

/// What a wait is for.
#[derive(Debug, Clone, Copy, PartialEq, Eq, Structural)]
pub enum WaitTarget {
    /// The start page, known by its Start button.
    StartPage,
    /// The end of loading, known by the Skip button being shown and
    /// enabled.
    Loading,
    /// The result page, known by its End button.
    ResultPage,
}

/// What a wait looks at.
#[derive(Debug, Clone, Copy, PartialEq, Eq, Structural)]
pub enum WaitPhase {
    /// Whether the region is similar enough to the reference template.
    Appearance,
    /// Whether the region is bright enough.
    Enabled,
}

/// A wait that polls.
#[derive(Debug, Clone, Copy, PartialEq, Eq, Structural)]
pub struct Wait {
    /// What is waited for.
    pub target: WaitTarget,
    /// What is looked at now.
    pub phase: WaitPhase,
    /// The time that the wait may take in all, in milliseconds.
    pub timeout_ms: u64,
}

/// How a wait begins.
#[derive(Debug, Clone, Copy, PartialEq, Eq, Structural)]
pub enum WaitStart {
    /// There is nothing to wait for: go on at once.
    Satisfied,
    /// Sleep for so many milliseconds, then go on.
    Delay(u64),
    /// Poll.
    Poll(Wait),
}

/// What the top of a round of polling decides.
#[derive(Debug, Clone, Copy, PartialEq, Eq, Structural)]
pub enum PollCheck {
    /// Cancellation was requested: the wait ends as cancelled.
    Cancelled,
    /// The time is up: the wait ends as timed out.
    TimedOut,
    /// Look at the region.
    Sample,
}

/// What follows a look at the region.
#[derive(Debug, Clone, Copy, PartialEq, Eq, Structural)]
pub enum Recorded {
    /// The wait is over: what was waited for is there.
    Satisfied,
    /// The element is shown; go on at once with the next phase.
    NextPhase,
    /// Not yet: sleep for so many milliseconds, then poll again.
    Retry(u64),
}

/// How the wait for `target` begins. Without a reference template the
/// appearance of an element cannot be told: the wait for the start page is
/// then left out, the wait for the result page becomes a fixed delay, and
/// the wait for the end of loading looks at the brightness only.
pub open spec fn begin_spec(
    target: WaitTarget,
    has_reference: bool,
    timeout_ms: u64,
    fallback_delay_ms: u64,
) -> WaitStart {
    if has_reference {
        WaitStart::Poll(Wait { target, phase: WaitPhase::Appearance, timeout_ms })
    } else {
        match target {
            WaitTarget::StartPage => WaitStart::Satisfied,
            WaitTarget::Loading => WaitStart::Poll(
                Wait { target, phase: WaitPhase::Enabled, timeout_ms },
            ),
            WaitTarget::ResultPage => WaitStart::Delay(fallback_delay_ms),
        }
    }
}

/// What the top of a round decides: cancellation is looked at first, then
/// the time.
pub open spec fn check_spec(cancelled: bool, elapsed_ms: u64, timeout_ms: u64) -> PollCheck {
    if cancelled {
        PollCheck::Cancelled
    } else if elapsed_ms > timeout_ms {
        PollCheck::TimedOut
    } else {
        PollCheck::Sample
    }
}

/// The pause between two looks in a phase.
pub open spec fn poll_interval_spec(phase: WaitPhase) -> u64 {
    match phase {
        WaitPhase::Appearance => APPEARANCE_POLL_MS,
        WaitPhase::Enabled => ENABLED_POLL_MS,
    }
}

/// What follows a look: where the condition is not met, a pause; where it
/// is met, the end of the wait, or for the end of loading the step from
/// appearance to brightness.
pub open spec fn record_spec(wait: Wait, met: bool) -> (Wait, Recorded) {
    if !met {
        (wait, Recorded::Retry(poll_interval_spec(wait.phase)))
    } else if wait.target == WaitTarget::Loading && wait.phase == WaitPhase::Appearance {
        (Wait { phase: WaitPhase::Enabled, ..wait }, Recorded::NextPhase)
    } else {
        (wait, Recorded::Satisfied)
    }
}

/// What a wait that ran out of time says it waited for.
pub open spec fn timeout_subject(wait: Wait) -> Seq<char> {
    match wait.target {
        WaitTarget::StartPage => "rehearsal page"@,
        WaitTarget::ResultPage => "result page"@,
        WaitTarget::Loading => match wait.phase {
            WaitPhase::Appearance => "Skip button (phase 1)"@,
            WaitPhase::Enabled => "Skip enabled (phase 2)"@,
        },
    }
}

/// The description of a wait that ran out of time.
pub open spec fn timeout_message_spec(wait: Wait) -> Seq<char> {
    "Timeout waiting for "@ + timeout_subject(wait) + " after "@ + decimal_text(
        wait.timeout_ms as nat,
    ) + "ms"@
}

/// The description of a wait that was cancelled.
pub open spec fn cancelled_message_spec() -> Seq<char> {
    "Abort requested"@
}

impl Wait {
    /// How the wait for `target` begins.
    pub fn begin(target: WaitTarget, has_reference: bool, timeout_ms: u64, fallback_delay_ms: u64) -> (start:
        WaitStart)
        ensures
            start == begin_spec(target, has_reference, timeout_ms, fallback_delay_ms),
    {
        if has_reference {
            WaitStart::Poll(Wait { target, phase: WaitPhase::Appearance, timeout_ms })
        } else {
            match target {
                WaitTarget::StartPage => WaitStart::Satisfied,
                WaitTarget::Loading => WaitStart::Poll(
                    Wait { target, phase: WaitPhase::Enabled, timeout_ms },
                ),
                WaitTarget::ResultPage => WaitStart::Delay(fallback_delay_ms),
            }
        }
    }

    /// The top of a round: whether to stop, and why, or to look at the
    /// region. Cancellation wins over everything, also over a time that is
    /// up.
    pub fn check(&self, cancelled: bool, elapsed_ms: u64) -> (verdict: PollCheck)
        ensures
            verdict == check_spec(cancelled, elapsed_ms, self.timeout_ms),
            cancelled ==> verdict == PollCheck::Cancelled,
    {
        if cancelled {
            PollCheck::Cancelled
        } else if elapsed_ms > self.timeout_ms {
            PollCheck::TimedOut
        } else {
            PollCheck::Sample
        }
    }

    /// Records whether the look at the region met the condition of the
    /// phase.
    pub fn record(&mut self, met: bool) -> (next: Recorded)
        ensures
            (*final(self), next) == record_spec(*old(self), met),
    {
        if !met {
            Recorded::Retry(self.poll_interval())
        } else {
            match (self.target, self.phase) {
                (WaitTarget::Loading, WaitPhase::Appearance) => {
                    self.phase = WaitPhase::Enabled;
                    Recorded::NextPhase
                },
                _ => Recorded::Satisfied,
            }
        }
    }

    /// The pause between two looks in the current phase.
    pub fn poll_interval(&self) -> (ms: u64)
        ensures
            ms == poll_interval_spec(self.phase),
    {
        match self.phase {
            WaitPhase::Appearance => APPEARANCE_POLL_MS,
            WaitPhase::Enabled => ENABLED_POLL_MS,
        }
    }

    /// The description of the wait having run out of time.
    pub fn timeout_message(&self) -> (message: String)
        ensures
            message@ == timeout_message_spec(*self),
    {
        let mut message = String::from_str("Timeout waiting for ");
        match self.target {
            WaitTarget::StartPage => message.append("rehearsal page"),
            WaitTarget::ResultPage => message.append("result page"),
            WaitTarget::Loading => match self.phase {
                WaitPhase::Appearance => message.append("Skip button (phase 1)"),
                WaitPhase::Enabled => message.append("Skip enabled (phase 2)"),
            },
        }
        message.append(" after ");
        push_decimal(&mut message, self.timeout_ms);
        message.append("ms");
        message
    }
}

/// The description of a wait that was cancelled.
pub fn cancelled_message() -> (message: String)
    ensures
        message@ == cancelled_message_spec(),
{
    String::from_str("Abort requested")
}

} // verus!
