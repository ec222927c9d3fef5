//! One speaker's rolling audio buffer and its transcription bookkeeping.
//!
//! Input is 16-bit stereo at 48 kHz; the buffer holds one value per 16 kHz
//! mono sample.  A stored value is the sum of the two channels of the first
//! frame of each group of three, held at `-2 * INPUT_MAX`, so `v` stands
//! for the level `v / (2 * INPUT_MAX)`, which lies in [-1, 1]; turning it
//! into a float is left to the consumer of a request.  The hold keeps that
//! range at the cost of unity gain on the one input that needs it, a
//! constant -32768, which comes out as -1.
use vstd::prelude::*;

use crate::clock::{
    discord_samples_to_whisper_samples, duration_to_rtc, max_rtc_index, ms_of_samples,
    rtc_advance, rtc_delta, rtc_index, rtc_timestamp_to_index, samples_of_input,
    samples_to_duration, wall_advance, wall_clock_advance, INPUT_VALUES_PER_SAMPLE,
    INPUT_MAX, SAMPLES_PER_MS,
};
use crate::transcript::{Transcription, TranscriptionView};

verus! {

/// Audio kept past the end of the buffer within which late packets are still
/// accepted, in ms.
pub const AUDIO_TO_RECORD_MS: u64 = 30000;

/// Crossing a multiple of this buffer length triggers a request, in ms.
pub const AUTO_TRANSCRIPTION_PERIOD_MS: u64 = 5000;

/// Segments that ended this long before a request was made are final, in ms.
pub const FINALIZE_CUTOFF_MS: u64 = 1000;

/// Stored samples reserved up front: thirty seconds of audio.
pub const AUDIO_BUFFER_SAMPLES: usize = 480000;

/// What a slice remembers of the last transcription it asked for.
#[derive(Clone, Copy, PartialEq, Eq, Structural, Debug)]
pub struct LastRequestInfo {
    /// Wall-clock instant of sample 0 of the requested audio.
    pub start_time: u64,
    /// Length of the requested audio, in ms.
    pub original_duration: u64,
    /// Audio dropped from the head of the buffer since the request, in ms.
    pub audio_trimmed_since_request: u64,
    pub in_progress: bool,
    /// Wall-clock instant at which the request was made.
    pub requested_at: u64,
    pub final_request: bool,
}

impl LastRequestInfo {
    /// The part of the requested audio still in the buffer, in ms.
    pub open spec fn effective(self) -> u64 {
        if self.audio_trimmed_since_request <= self.original_duration {
            (self.original_duration - self.audio_trimmed_since_request) as u64
        } else {
            0
        }
    }

    /// The part of the requested audio still in the buffer, in ms: the
    /// requested length less what was trimmed since, and 0 once more was
    /// trimmed than requested.
    pub fn effective_duration(&self) -> (r: u64)
        ensures
            r == self.effective(),
    {
        self.original_duration.saturating_sub(self.audio_trimmed_since_request)
    }
}

/// A transcription request: the buffered samples, their length in ms, and
/// the wall-clock instant of the first of them.
pub type RequestView = (Seq<i32>, u64, u64);

pub open spec fn request_view(r: Option<(Vec<i32>, u64, u64)>) -> Option<RequestView> {
    match r {
        Some(x) => Some((x.0@, x.1, x.2)),
        None => None,
    }
}

/// The smallest stored value: the level -1.
pub open spec fn min_sample() -> int {
    -2 * INPUT_MAX as int
}

/// The stored value for the `k`-th group of interleaved input values: the
/// two channels of its first frame, summed, and held at the level -1.
pub open spec fn frame_sample(frames: Seq<i16>, k: int) -> i32 {
    let sum = frames[INPUT_VALUES_PER_SAMPLE as int * k] as int + frames[INPUT_VALUES_PER_SAMPLE
        as int * k + 1] as int;
    (if sum < min_sample() {
        min_sample()
    } else {
        sum
    }) as i32
}

/// `audio` with the samples made from `frames` written from index `at` on,
/// grown with silence where it is too short.
pub open spec fn resampled(audio: Seq<i32>, at: int, frames: Seq<i16>) -> Seq<i32> {
    let n = samples_of_input(frames.len() as int);
    let len = if audio.len() >= at + n {
        audio.len() as int
    } else {
        at + n
    };
    Seq::new(
        len as nat,
        |i: int|
            if at <= i < at + n {
                frame_sample(frames, i - at)
            } else if i < audio.len() {
                audio[i]
            } else {
                0
            },
    )
}

/// The state of a slice.
pub ghost struct SliceView {
    pub audio: Seq<i32>,
    pub finalized: bool,
    pub last_request: Option<LastRequestInfo>,
    pub slice_id: u64,
    /// Media-clock and wall-clock instants of sample 0.
    pub start_time: Option<(u32, u64)>,
    pub tentative: Option<TranscriptionView>,
}

impl SliceView {
    /// A slice with nothing in it.
    pub open spec fn fresh(slice_id: u64) -> SliceView {
        SliceView {
            audio: Seq::empty(),
            finalized: false,
            last_request: None,
            slice_id,
            start_time: None,
            tentative: None,
        }
    }

    pub open spec fn cleared(self) -> SliceView {
        SliceView::fresh(self.slice_id)
    }

    /// Length of the buffered audio, in whole ms.
    pub open spec fn duration(self) -> int {
        ms_of_samples(self.audio.len() as int)
    }

    pub open spec fn start_wall(self) -> u64 {
        match self.start_time {
            Some(p) => p.1,
            None => 0,
        }
    }

    /// Whether audio stamped `ts` belongs to this slice: anywhere from
    /// sample 0 up to the window that follows the buffered audio.  An empty
    /// slice takes anything.
    pub open spec fn fits(self, ts: u32) -> bool {
        match self.start_time {
            None => true,
            Some(p) => rtc_delta(p.0, ts) < rtc_delta(
                p.0,
                rtc_advance(p.0, self.duration() + AUDIO_TO_RECORD_MS as int),
            ),
        }
    }

    /// Buffer index at which audio stamped `ts` is written.
    pub open spec fn write_index(self, ts: u32) -> int {
        match self.start_time {
            None => 0,
            Some(p) => rtc_index(p.0, ts),
        }
    }

    /// The slice after audio stamped `ts` arrives at wall-clock time `now`.
    pub open spec fn added(self, ts: u32, frames: Seq<i16>, now: u64) -> SliceView {
        if !self.fits(ts) {
            self
        } else {
            SliceView {
                audio: resampled(self.audio, self.write_index(ts), frames),
                finalized: false,
                start_time: match self.start_time {
                    None => Some((ts, now)),
                    Some(p) => Some(p),
                },
                ..self
            }
        }
    }

    /// Effective length of the last request, 0 when there was none.
    pub open spec fn last_effective(self) -> u64 {
        match self.last_request {
            Some(r) => r.effective(),
            None => 0,
        }
    }

    pub open spec fn request_in_progress(self) -> bool {
        match self.last_request {
            Some(r) => r.in_progress,
            None => false,
        }
    }

    /// Whether a transcription should be asked for now.
    pub open spec fn ready(self, user_idle: bool) -> bool {
        if self.start_time is None {
            false
        } else if self.finalized {
            true
        } else if user_idle {
            true
        } else if self.request_in_progress() {
            false
        } else {
            self.duration() / (AUTO_TRANSCRIPTION_PERIOD_MS as int) != (self.last_effective() as int)
                / (AUTO_TRANSCRIPTION_PERIOD_MS as int)
        }
    }

    /// Whether the last request covered exactly the audio buffered now.
    pub open spec fn is_duplicate(self) -> bool {
        match self.last_request {
            Some(r) => r.start_time == self.start_wall() && r.original_duration
                == self.duration(),
            None => false,
        }
    }

    /// The request handed out by `make_transcription_request`.
    pub open spec fn request_out(self, user_idle: bool) -> Option<RequestView> {
        if self.ready(user_idle) && !self.is_duplicate() {
            Some((self.audio, self.duration() as u64, self.start_wall()))
        } else {
            None
        }
    }

    /// The slice after `make_transcription_request` at wall-clock time `now`.
    pub open spec fn requested(self, user_idle: bool, now: u64) -> SliceView {
        if !self.ready(user_idle) {
            self
        } else if self.is_duplicate() {
            if self.finalized {
                SliceView {
                    last_request: Some(
                        LastRequestInfo { final_request: true, ..self.last_request.unwrap() },
                    ),
                    ..self
                }
            } else {
                self
            }
        } else {
            SliceView {
                last_request: Some(
                    LastRequestInfo {
                        start_time: self.start_wall(),
                        original_duration: self.duration() as u64,
                        audio_trimmed_since_request: 0,
                        in_progress: true,
                        requested_at: now,
                        final_request: self.finalized,
                    },
                ),
                ..self
            }
        }
    }

    /// The slice after the first `d` ms of audio are dropped.
    pub open spec fn discarded(self, d: u64) -> SliceView {
        if d >= self.duration() {
            self.cleared()
        } else {
            SliceView {
                audio: self.audio.subrange(d * SAMPLES_PER_MS as int, self.audio.len() as int),
                start_time: match self.start_time {
                    Some(p) => Some((rtc_advance(p.0, d as int), wall_advance(p.1, d))),
                    None => None,
                },
                last_request: match self.last_request {
                    Some(r) => Some(
                        LastRequestInfo {
                            audio_trimmed_since_request: if r.audio_trimmed_since_request + d
                                <= u64::MAX {
                                (r.audio_trimmed_since_request + d) as u64
                            } else {
                                u64::MAX
                            },
                            ..r
                        },
                    ),
                    None => None,
                },
                ..self
            }
        }
    }

    /// Whether the kept tentative transcript covers exactly the buffer.
    pub open spec fn tentative_current(self) -> bool {
        match self.tentative {
            Some(t) => t.audio_duration == self.duration(),
            None => false,
        }
    }

    /// The slice after its speaker was declared silent.
    pub open spec fn finalized_state(self) -> SliceView {
        if self.tentative_current() {
            self.cleared()
        } else {
            SliceView { finalized: true, tentative: None, ..self }
        }
    }

    /// What `finalize` hands back.
    pub open spec fn finalize_out(self) -> Option<TranscriptionView> {
        if self.tentative_current() {
            self.tentative
        } else {
            None
        }
    }

    /// Whether a response answers the outstanding request.
    pub open spec fn accepts(self, m: TranscriptionView) -> bool {
        match self.last_request {
            Some(r) => r.start_time == m.start_timestamp && r.original_duration
                == m.audio_duration,
            None => false,
        }
    }

    /// Instant by which a segment must end to be final: none for a final
    /// request, else a fixed time before the request was made.
    pub open spec fn cutoff(self) -> Option<u64> {
        let r = self.last_request.unwrap();
        if r.final_request {
            None
        } else if r.requested_at >= FINALIZE_CUTOFF_MS {
            Some((r.requested_at - FINALIZE_CUTOFF_MS) as u64)
        } else {
            Some(0)
        }
    }

    /// The slice after the model failed on the outstanding request.
    pub open spec fn request_failed(self) -> SliceView {
        match self.last_request {
            Some(r) => SliceView {
                last_request: Some(LastRequestInfo { in_progress: false, ..r }),
                ..self
            },
            None => self,
        }
    }

    /// The slice after the response `m` arrives.  The tail is kept only
    /// while it covers exactly the audio left.
    pub open spec fn responded(self, m: TranscriptionView) -> SliceView {
        if !self.accepts(m) {
            self
        } else {
            let cut = self.cutoff();
            let answered = SliceView {
                last_request: Some(
                    LastRequestInfo { in_progress: false, ..self.last_request.unwrap() },
                ),
                ..self
            };
            let trimmed = answered.discarded(m.head(cut).audio_duration);
            SliceView {
                tentative: if trimmed.duration() == m.tail(cut).audio_duration {
                    Some(m.tail(cut))
                } else {
                    None
                },
                ..trimmed
            }
        }
    }

    /// The finalized transcript handed back for the response `m`.
    pub open spec fn response_out(self, m: TranscriptionView) -> Option<TranscriptionView> {
        if self.accepts(m) && m.head(self.cutoff()).segments.len() > 0 {
            Some(m.head(self.cutoff()))
        } else {
            None
        }
    }
}

/// Writes the samples made from `frames` into `audio` from index `at` on,
/// growing it with silence where it is too short.
fn resample_into(audio: &mut Vec<i32>, at: usize, frames: &[i16])
    requires
        at + samples_of_input(frames@.len() as int) <= usize::MAX,
    ensures
        final(audio)@ == resampled(old(audio)@, at as int, frames@),
{
    let input_len = frames.len();
    let n = discord_samples_to_whisper_samples(input_len);
    let end = at + n;
    let ghost before = audio@;
    while audio.len() < end
        invariant
            before == old(audio)@,
            before.len() <= audio@.len(),
            audio@.len() <= end || audio@.len() == before.len(),
            forall|i: int| 0 <= i < before.len() ==> audio@[i] == before[i],
            forall|i: int| before.len() <= i < audio@.len() ==> audio@[i] == 0,
        decreases end - audio@.len(),
    {
        audio.push(0);
    }
    let mut k: usize = 0;
    while k < n
        invariant
            before == old(audio)@,
            n == samples_of_input(frames@.len() as int),
            input_len == frames@.len(),
            end == at + n,
            k <= n,
            audio@.len() == resampled(before, at as int, frames@).len(),
            forall|i: int|
                0 <= i < audio@.len() ==> audio@[i] == if at <= i < at + k {
                    frame_sample(frames@, i - at)
                } else if i < before.len() {
                    before[i]
                } else {
                    0
                },
        decreases n - k,
    {
        assert(6 * k + 1 < input_len) by (nonlinear_arith)
            requires
                k < n,
                n == input_len / 6,
        ;
        let base: usize = INPUT_VALUES_PER_SAMPLE * k;
        let sum: i32 = frames[base] as i32 + frames[base + 1] as i32;
        let v: i32 = if sum < -2 * INPUT_MAX {
            -2 * INPUT_MAX
        } else {
            sum
        };
        audio[at + k] = v;
        k += 1;
    }
    assert(audio@ =~= resampled(before, at as int, frames@));
}

/// One speaker's rolling audio buffer.
#[derive(Clone, Debug, PartialEq, Eq)]
pub struct AudioSlice {
    pub audio: Vec<i32>,
    pub finalized: bool,
    pub last_request: Option<LastRequestInfo>,
    pub slice_id: u64,
    /// Media-clock and wall-clock instants of sample 0.
    pub start_time: Option<(u32, u64)>,
    pub tentative_transcript_opt: Option<Transcription>,
}

impl View for AudioSlice {
    type V = SliceView;

    open spec fn view(&self) -> SliceView {
        SliceView {
            audio: self.audio@,
            finalized: self.finalized,
            last_request: self.last_request,
            slice_id: self.slice_id,
            start_time: self.start_time,
            tentative: match self.tentative_transcript_opt {
                Some(t) => Some(t@),
                None => None,
            },
        }
    }
}

/// A copy of the samples in `audio`.
fn copy_samples(audio: &Vec<i32>) -> (r: Vec<i32>)
    ensures
        r@ == audio@,
{
    let mut r: Vec<i32> = Vec::with_capacity(audio.len());
    let mut i: usize = 0;
    while i < audio.len()
        invariant
            i <= audio.len(),
            r@ == audio@.subrange(0, i as int),
        decreases audio.len() - i,
    {
        r.push(audio[i]);
        i += 1;
        assert(r@ =~= audio@.subrange(0, i as int));
    }
    assert(r@ =~= audio@);
    r
}

/// The samples of `audio` from index `from` on.
fn samples_from(audio: &Vec<i32>, from: usize) -> (r: Vec<i32>)
    requires
        from <= audio.len(),
    ensures
        r@ == audio@.subrange(from as int, audio@.len() as int),
{
    let mut r: Vec<i32> = Vec::with_capacity(AUDIO_BUFFER_SAMPLES);
    let mut i: usize = from;
    while i < audio.len()
        invariant
            from <= i <= audio.len(),
            r@ == audio@.subrange(from as int, i as int),
        decreases audio.len() - i,
    {
        r.push(audio[i]);
        i += 1;
        assert(r@ =~= audio@.subrange(from as int, i as int));
    }
    r
}

impl AudioSlice {
    /// An empty slice.
    pub fn new(slice_id: u64) -> (r: AudioSlice)
        ensures
            r@ == SliceView::fresh(slice_id),
    {
        let r = AudioSlice {
            audio: Vec::with_capacity(AUDIO_BUFFER_SAMPLES),
            finalized: false,
            last_request: None,
            slice_id,
            start_time: None,
            tentative_transcript_opt: None,
        };
        assert(r@ =~= SliceView::fresh(slice_id));
        r
    }

    /// Returns the slice to the state of a new one, keeping its identifier.
    pub fn clear(&mut self)
        ensures
            final(self)@ == old(self)@.cleared(),
    {
        self.audio.clear();
        self.finalized = false;
        self.last_request = None;
        self.start_time = None;
        self.tentative_transcript_opt = None;
        assert(self@ =~= old(self)@.cleared());
    }

    /// Length of the buffered audio, in whole ms.
    pub fn buffer_duration(&self) -> (r: u64)
        ensures
            r == self@.duration(),
    {
        samples_to_duration(self.audio.len())
    }

    /// True if audio stamped `rtc_timestamp` lies within the bounds of this
    /// slice: from its start up to the window that follows its buffered
    /// audio, compared as directed offsets on the wrapping clock.  An empty
    /// slice fits any timestamp.
    pub fn fits_within_this_slice(&self, rtc_timestamp: u32) -> (r: bool)
        ensures
            r == self@.fits(rtc_timestamp),
    {
        match self.start_time {
            Some((start_rtc, _)) => {
                let buffered = self.buffer_duration();
                let len = self.audio.len();
                assert(len as int / 16 <= u64::MAX / 16) by (nonlinear_arith)
                    requires
                        len <= u64::MAX,
                ;
                let span_ms = buffered + AUDIO_TO_RECORD_MS;
                let end = start_rtc.wrapping_add(duration_to_rtc(span_ms));
                rtc_timestamp.wrapping_sub(start_rtc) < end.wrapping_sub(start_rtc)
            },
            None => true,
        }
    }

    /// Adds interleaved stereo input stamped `rtc_timestamp`, received at
    /// wall-clock time `now`.  Audio outside the slice's bounds is dropped.
    /// Otherwise the first audio fixes the slice's start, and later audio is
    /// written at its offset from the start: gaps become silence and late
    /// packets fill in place.
    pub fn add_audio(&mut self, rtc_timestamp: u32, discord_audio: &[i16], now: u64)
        requires
            samples_of_input(discord_audio@.len() as int) + max_rtc_index() <= usize::MAX,
        ensures
            final(self)@ == old(self)@.added(rtc_timestamp, discord_audio@, now),
    {
        if !self.fits_within_this_slice(rtc_timestamp) {
            return;
        }
        self.finalized = false;
        let start_index: usize;
        match self.start_time {
            Some((start_rtc, _)) => {
                start_index = rtc_timestamp_to_index(start_rtc, rtc_timestamp);
            },
            None => {
                self.start_time = Some((rtc_timestamp, now));
                start_index = 0;
            },
        }
        self.resample_audio_from_discord_to_whisper(start_index, discord_audio);
        assert(self@ =~= old(self)@.added(rtc_timestamp, discord_audio@, now));
    }

    /// Converts input audio (48 kHz stereo) into buffer samples (16 kHz
    /// mono) written from `start_index` on, inserting silence before them
    /// where the buffer is shorter.
    fn resample_audio_from_discord_to_whisper(&mut self, start_index: usize, discord_audio: &[i16])
        requires
            start_index + samples_of_input(discord_audio@.len() as int) <= usize::MAX,
        ensures
            final(self)@ == (SliceView {
                audio: resampled(old(self)@.audio, start_index as int, discord_audio@),
                ..old(self)@
            }),
    {
        resample_into(&mut self.audio, start_index, discord_audio);
    }

    fn is_ready_for_transcription(&self, user_idle: bool) -> (r: bool)
        ensures
            r == self@.ready(user_idle),
    {
        if self.start_time.is_none() {
            return false;
        }
        if self.finalized {
            return true;
        }
        if user_idle {
            return true;
        }
        if let Some(last_request) = &self.last_request {
            if last_request.in_progress {
                return false;
            }
        }
        let current_period = self.buffer_duration() / AUTO_TRANSCRIPTION_PERIOD_MS;
        let last_period = match &self.last_request {
            Some(last_request) => last_request.effective_duration() / AUTO_TRANSCRIPTION_PERIOD_MS,
            None => 0,
        };
        current_period != last_period
    }

    /// Asks for a transcription of the buffered audio, at wall-clock time
    /// `now`, when one is due: the speaker fell silent, or the buffer
    /// crossed a period boundary since the last request and none is in
    /// flight.  A request identical to the last one is not repeated, though
    /// a final one marks the last as final.  Returns the samples, their
    /// length in ms and the wall-clock instant of the first.
    pub fn make_transcription_request(&mut self, user_idle: bool, now: u64) -> (r: Option<
        (Vec<i32>, u64, u64),
    >)
        ensures
            request_view(r) == old(self)@.request_out(user_idle),
            final(self)@ == old(self)@.requested(user_idle, now),
    {
        if !self.is_ready_for_transcription(user_idle) {
            return None;
        }
        let start_time = match self.start_time {
            Some((_, wall)) => wall,
            None => 0,
        };
        let duration = self.buffer_duration();
        let new_request = LastRequestInfo {
            start_time,
            original_duration: duration,
            audio_trimmed_since_request: 0,
            in_progress: true,
            requested_at: now,
            final_request: self.finalized,
        };
        if let Some(last_request) = &mut self.last_request {
            if last_request.start_time == new_request.start_time
                && last_request.original_duration == new_request.original_duration {
                if new_request.final_request {
                    last_request.final_request = true;
                }
                assert(self@ =~= old(self)@.requested(user_idle, now));
                return None;
            }
        }
        self.last_request = Some(new_request);
        let snapshot = copy_samples(&self.audio);
        assert(self@ =~= old(self)@.requested(user_idle, now));
        Some((snapshot, duration, start_time))
    }

    /// Drops the first `duration` ms of audio and moves the start forward by
    /// as much on both clocks; all of it when that is the whole buffer or
    /// more.  The drop counts against the last request.
    pub fn discard_audio(&mut self, duration: u64)
        ensures
            final(self)@ == old(self)@.discarded(duration),
    {
        if duration >= self.buffer_duration() {
            self.clear();
            return;
        }
        let len = self.audio.len();
        assert(duration * 16 <= len) by (nonlinear_arith)
            requires
                duration < len / 16,
        ;
        let discard_idx: usize = duration as usize * SAMPLES_PER_MS;
        self.audio = samples_from(&self.audio, discard_idx);
        if let Some((start_rtc, start_wall)) = self.start_time {
            self.start_time = Some(
                (
                    start_rtc.wrapping_add(duration_to_rtc(duration)),
                    wall_clock_advance(start_wall, duration),
                ),
            );
        }
        if let Some(last_request) = &mut self.last_request {
            last_request.audio_trimmed_since_request =
            last_request.audio_trimmed_since_request.saturating_add(duration);
        }
        assert(self@ =~= old(self)@.discarded(duration));
    }

    /// Called when the speaker was declared silent.  Hands back the kept
    /// tentative transcript, and empties the slice, when it covers exactly
    /// the buffered audio; otherwise drops it and waits for the next
    /// response.
    pub fn finalize(&mut self) -> (r: Option<Transcription>)
        ensures
            final(self)@ == old(self)@.finalized_state(),
            r matches Some(t) ==> old(self)@.finalize_out() == Some(t@),
            r is None ==> old(self)@.finalize_out() is None,
    {
        self.finalized = true;
        let tentative = match self.tentative_transcript_opt.take() {
            Some(t) => t,
            None => {
                assert(self@ =~= old(self)@.finalized_state());
                return None;
            },
        };
        if tentative.audio_duration != self.buffer_duration() {
            assert(self@ =~= old(self)@.finalized_state());
            return None;
        }
        self.clear();
        Some(tentative)
    }

    /// The model failed on the outstanding request: it is no longer in
    /// flight, and the audio stays for the next attempt.
    pub fn request_failed(&mut self)
        ensures
            final(self)@ == old(self)@.request_failed(),
    {
        if let Some(last_request) = &mut self.last_request {
            last_request.in_progress = false;
        }
        assert(self@ =~= old(self)@.request_failed());
    }

    /// Reconciles a transcript returned by the model.  One that does not
    /// answer the last request is ignored.  Otherwise the segments that
    /// ended long enough before the request (all of them for a final one)
    /// are final: their audio is dropped from the buffer and they are handed
    /// back.  The rest is kept as tentative while it still covers exactly
    /// the buffered audio; a tail of no audio is kept when the drop emptied
    /// the buffer.
    pub fn handle_transcription_response(&mut self, message: &Transcription) -> (r: Option<
        Transcription,
    >)
        ensures
            final(self)@ == old(self)@.responded(message@),
            r matches Some(t) ==> old(self)@.response_out(message@) == Some(t@),
            r is None ==> old(self)@.response_out(message@) is None,
    {
        let cutoff = match &mut self.last_request {
            Some(last_request) => {
                if last_request.start_time != message.start_timestamp
                    || message.audio_duration != last_request.original_duration {
                    return None;
                }
                last_request.in_progress = false;
                if last_request.final_request {
                    None
                } else {
                    Some(last_request.requested_at.saturating_sub(FINALIZE_CUTOFF_MS))
                }
            },
            None => {
                return None;
            },
        };
        let ghost answered = self@;
        proof {
            assert(cutoff == old(self)@.cutoff());
            assert(answered =~= SliceView {
                last_request: Some(
                    LastRequestInfo { in_progress: false, ..old(self)@.last_request.unwrap() },
                ),
                ..old(self)@
            });
        }
        let (finalized_transcript, tentative_transcript) = message.split_at_end_time(cutoff);
        self.discard_audio(finalized_transcript.audio_duration);
        if self.buffer_duration() == tentative_transcript.audio_duration {
            self.tentative_transcript_opt = Some(tentative_transcript);
        } else {
            self.tentative_transcript_opt = None;
        }
        assert(self@ =~= old(self)@.responded(message@));
        if finalized_transcript.is_empty() {
            None
        } else {
            Some(finalized_transcript)
        }
    }
}

} // verus!
