//! The media clock and the unit conversions between it, milliseconds and
//! buffer indices.
//!
//! The media clock is a 48 kHz counter held in 32 bits that wraps around.
//! Every ordering question on it goes through the directed difference
//! `rtc_delta`, read as an unsigned offset.  Wall-clock instants are
//! milliseconds since the Unix epoch, and durations are milliseconds.
use vstd::prelude::*;

verus! {

/// Ticks of the media clock per millisecond.
pub const RTC_TICKS_PER_MS: u64 = 48;

/// Stored (16 kHz mono) samples per millisecond.
pub const SAMPLES_PER_MS: usize = 16;

/// Interleaved input channels per frame.
pub const INPUT_CHANNELS: usize = 2;

/// Input frames (48 kHz) folded into one stored sample (16 kHz).
pub const FRAMES_PER_SAMPLE: usize = 3;

/// Interleaved input values consumed per stored sample.
pub const INPUT_VALUES_PER_SAMPLE: usize = FRAMES_PER_SAMPLE * INPUT_CHANNELS;

/// Largest value an input channel value can take.
pub const INPUT_MAX: i32 = 32767;

/// The media-clock ticks covering `ms` milliseconds, reduced modulo 2^32.
pub open spec fn rtc_of_ms(ms: int) -> u32 {
    ((ms * RTC_TICKS_PER_MS as int) % 0x1_0000_0000int) as u32
}

/// The directed distance from `from` forward to `to` on the wrapping clock.
pub open spec fn rtc_delta(from: u32, to: u32) -> u32 {
    to.wrapping_sub(from)
}

/// `ts` moved forward by `ms` milliseconds on the wrapping clock.
pub open spec fn rtc_advance(ts: u32, ms: int) -> u32 {
    ts.wrapping_add(rtc_of_ms(ms))
}

/// Index in the stored buffer of the media instant `ts`, for a buffer whose
/// sample 0 sits at `start`.
pub open spec fn rtc_index(start: u32, ts: u32) -> int {
    rtc_delta(start, ts) as int * SAMPLES_PER_MS as int / RTC_TICKS_PER_MS as int
}

/// The largest index that `rtc_index` can give.
pub open spec fn max_rtc_index() -> int {
    u32::MAX as int * SAMPLES_PER_MS as int / RTC_TICKS_PER_MS as int
}

/// Stored samples produced from `n` interleaved input values.
pub open spec fn samples_of_input(n: int) -> int {
    n / INPUT_VALUES_PER_SAMPLE as int
}

/// Whole milliseconds covered by `n` stored samples.
pub open spec fn ms_of_samples(n: int) -> int {
    n / SAMPLES_PER_MS as int
}

/// A wall-clock instant moved forward by `ms`, held at the largest instant.
pub open spec fn wall_advance(t: u64, ms: u64) -> u64 {
    if t + ms <= u64::MAX {
        (t + ms) as u64
    } else {
        u64::MAX
    }
}

/// Converts a duration into media-clock ticks, wrapping modulo 2^32.
pub fn duration_to_rtc(duration_ms: u64) -> (r: u32)
    ensures
        r == rtc_of_ms(duration_ms as int),
{
    assert(duration_ms as int * 48 <= u64::MAX as int * 48) by (nonlinear_arith);
    let ticks: u128 = duration_ms as u128 * RTC_TICKS_PER_MS as u128;
    (ticks % 0x1_0000_0000u128) as u32
}

/// Index in the stored buffer of the media instant `ts2`, for a buffer whose
/// sample 0 sits at `ts1`.
pub fn rtc_timestamp_to_index(ts1: u32, ts2: u32) -> (r: usize)
    ensures
        r as int == rtc_index(ts1, ts2),
        r as int <= max_rtc_index(),
{
    let delta: u64 = ts2.wrapping_sub(ts1) as u64;
    (delta * SAMPLES_PER_MS as u64 / RTC_TICKS_PER_MS) as usize
}

/// Stored samples produced from `samples` interleaved input values.
pub fn discord_samples_to_whisper_samples(samples: usize) -> (r: usize)
    ensures
        r as int == samples_of_input(samples as int),
{
    samples / INPUT_VALUES_PER_SAMPLE
}

/// Whole milliseconds covered by `num_samples` stored samples.
pub fn samples_to_duration(num_samples: usize) -> (r: u64)
    ensures
        r as int == ms_of_samples(num_samples as int),
{
    (num_samples / SAMPLES_PER_MS) as u64
}

/// Moves a wall-clock instant forward, holding at the largest instant.
pub fn wall_clock_advance(t: u64, ms: u64) -> (r: u64)
    ensures
        r == wall_advance(t, ms),
{
    t.saturating_add(ms)
}

} // verus!
