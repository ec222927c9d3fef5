//! Properties that relate the slice operations to one another, proved over
//! the spec functions that the operations' contracts use.
use vstd::prelude::*;

use crate::audio_slice::SliceView;
use crate::clock::{rtc_delta, rtc_index, rtc_of_ms, samples_of_input, wall_advance};
use crate::transcript::TranscriptionView;
use crate::voice_activity::{due_ids, due_pred, is_due, mark_heard, silenced, SpeakerActivity};

verus! {

/// In-window audio that ends no earlier than the buffer (it may start
/// earlier and overlap it) leaves the buffer ending exactly where that audio
/// ends: at its offset from the slice's start (measured on the media clock)
/// plus its own length.
pub proof fn lemma_forward_add_ends_with_frame(s: SliceView, ts: u32, frames: Seq<i16>, now: u64)
    requires
        s.fits(ts),
        s.write_index(ts) + samples_of_input(frames.len() as int) >= s.audio.len(),
    ensures
        s.added(ts, frames, now).audio.len() == s.write_index(ts) + samples_of_input(
            frames.len() as int,
        ),
        s.added(ts, frames, now).start_time == match s.start_time {
            None => Some((ts, now)),
            Some(p) => Some(p),
        },
{
}

/// One arrival of audio: media timestamp, interleaved input values, and the
/// wall-clock instant of arrival.
pub type Arrival = (u32, Seq<i16>, u64);

/// The slice after the arrivals `steps`, in order.
pub open spec fn added_all(s: SliceView, steps: Seq<Arrival>) -> SliceView
    decreases steps.len(),
{
    if steps.len() == 0 {
        s
    } else {
        let a = steps.last();
        added_all(s, steps.drop_last()).added(a.0, a.1, a.2)
    }
}

/// Whether every arrival of `steps` fits the slice as it stands then and
/// ends no earlier than its buffered audio: arrivals may overlap, but the
/// end of the audio never moves back.
pub open spec fn ends_forward(s: SliceView, steps: Seq<Arrival>) -> bool
    decreases steps.len(),
{
    if steps.len() == 0 {
        true
    } else {
        let a = steps.last();
        let p = added_all(s, steps.drop_last());
        &&& ends_forward(s, steps.drop_last())
        &&& p.fits(a.0)
        &&& p.write_index(a.0) + samples_of_input(a.1.len() as int) >= p.audio.len()
    }
}

/// Where sample 0 of an empty slice lands after the arrivals `steps`.
pub open spec fn first_start(steps: Seq<Arrival>) -> (u32, u64) {
    (steps[0].0, steps[0].2)
}

proof fn lemma_start_after_arrivals(steps: Seq<Arrival>, id: u64)
    requires
        steps.len() > 0,
        ends_forward(SliceView::fresh(id), steps),
    ensures
        added_all(SliceView::fresh(id), steps).start_time == Some(first_start(steps)),
    decreases steps.len(),
{
    if steps.len() > 1 {
        lemma_start_after_arrivals(steps.drop_last(), id);
        assert(steps.drop_last()[0] == steps[0]);
    } else {
        assert(steps.drop_last().len() == 0);
    }
}

/// After any run of in-window arrivals into a new slice whose ends never
/// move back, sample 0 sits at the first arrival's instants, and the buffer
/// ends exactly where the last arrival ends: at its media-clock offset from
/// sample 0 (in 16 kHz samples, rounded down) plus its own length.
pub proof fn lemma_forward_run_ends_with_last_frame(id: u64, steps: Seq<Arrival>)
    requires
        steps.len() > 0,
        ends_forward(SliceView::fresh(id), steps),
    ensures
        added_all(SliceView::fresh(id), steps).start_time == Some(first_start(steps)),
        added_all(SliceView::fresh(id), steps).audio.len() == rtc_index(
            first_start(steps).0,
            steps.last().0,
        ) + samples_of_input(steps.last().1.len() as int),
{
    lemma_start_after_arrivals(steps, id);
    let p = added_all(SliceView::fresh(id), steps.drop_last());
    if steps.len() > 1 {
        lemma_start_after_arrivals(steps.drop_last(), id);
        assert(steps.drop_last()[0] == steps[0]);
    } else {
        assert(steps.drop_last().len() == 0);
        assert(rtc_delta(steps[0].0, steps[0].0) == 0);
    }
    let a = steps.last();
    lemma_forward_add_ends_with_frame(p, a.0, a.1, a.2);
}

/// Dropping `d` ms from a buffer that holds more than `d` ms shortens it by
/// exactly `d` ms of samples and moves its start forward by exactly `d` on
/// both clocks (the wall clock holding at its largest instant).
pub proof fn lemma_discard_moves_start(s: SliceView, d: u64)
    requires
        d < s.duration(),
    ensures
        s.discarded(d).audio.len() == s.audio.len() - d * 16,
        s.discarded(d).audio == s.audio.subrange(d * 16, s.audio.len() as int),
        s.start_time is None ==> s.discarded(d).start_time is None,
        s.start_time matches Some(p) ==> {
            let q = s.discarded(d).start_time.unwrap();
            &&& rtc_delta(p.0, q.0) == rtc_of_ms(d as int)
            &&& q.1 == wall_advance(p.1, d)
            &&& p.1 + d <= u64::MAX ==> q.1 == p.1 + d
        },
{
    assert(d * 16 <= s.audio.len()) by (nonlinear_arith)
        requires
            d < s.audio.len() / 16,
    ;
}

/// For any response that a slice accepts, the finalized head and the
/// tentative tail together cover exactly the response's audio.
pub proof fn lemma_accepted_split_covers_response(s: SliceView, m: TranscriptionView)
    requires
        s.accepts(m),
    ensures
        m.head(s.cutoff()).audio_duration + m.tail(s.cutoff()).audio_duration == m.audio_duration,
        s.response_out(m) is Some ==> s.response_out(m).unwrap() == m.head(s.cutoff()),
{
}

/// Two responses that do not answer the outstanding request are both
/// ignored: nothing is handed back and the slice is unchanged.
pub proof fn lemma_unmatched_responses_ignored(s: SliceView, m1: TranscriptionView, m2: TranscriptionView)
    requires
        !s.accepts(m1),
        !s.accepts(m2),
    ensures
        s.response_out(m1) is None,
        s.responded(m1).response_out(m2) is None,
        s.responded(m1).responded(m2) == s,
{
}

/// Clearing a slice and then adding audio gives the same state as adding
/// that audio to a new slice with the same identifier.
pub proof fn lemma_clear_then_add_is_fresh_add(s: SliceView, ts: u32, frames: Seq<i16>, now: u64)
    ensures
        s.cleared().added(ts, frames, now) == SliceView::fresh(s.slice_id).added(ts, frames, now),
{
}

/// Asking for a transcription twice, with nothing added and no response in
/// between, hands out nothing the second time.
pub proof fn lemma_request_twice_gives_nothing(s: SliceView, user_idle: bool, now1: u64, now2: u64)
    requires
        s.audio.len() <= usize::MAX,
    ensures
        s.requested(user_idle, now1).request_out(user_idle) is None,
        s.requested(user_idle, now1).requested(user_idle, now2).audio == s.audio,
        s.requested(user_idle, now1).requested(user_idle, now2).start_time == s.start_time,
{
    assert(s.audio.len() / 16 <= u64::MAX) by (nonlinear_arith)
        requires
            s.audio.len() <= usize::MAX,
            usize::MAX <= u64::MAX,
    ;
}

proof fn lemma_filter_none(s: Seq<SpeakerActivity>, p: spec_fn(SpeakerActivity) -> bool)
    requires
        forall|i: int| 0 <= i < s.len() ==> !p(s[i]),
    ensures
        s.filter(p).len() == 0,
    decreases s.len(),
{
    reveal(Seq::filter);
    if s.len() > 0 {
        lemma_filter_none(s.drop_last(), p);
    }
}

/// A speaker reported silent is reported once: no later poll reports it
/// again until audio from it arrives, and a second poll at the same instant
/// reports nobody.  Audio from the speaker makes it eligible again.
pub proof fn lemma_silence_reported_once(
    s: Seq<SpeakerActivity>,
    timeout: u64,
    now1: u64,
    now2: u64,
    user_id: u64,
    heard_at: u64,
)
    ensures
        forall|i: int|
            0 <= i < s.len() && is_due(s[i], now1, timeout) ==> !is_due(
                silenced(s, now1, timeout)[i],
                now2,
                timeout,
            ),
        due_ids(silenced(s, now1, timeout), now1, timeout).len() == 0,
        forall|i: int|
            0 <= i < mark_heard(silenced(s, now1, timeout), user_id, heard_at).len()
                && mark_heard(silenced(s, now1, timeout), user_id, heard_at)[i].user_id == user_id
                ==> mark_heard(silenced(s, now1, timeout), user_id, heard_at)[i].speaking,
{
    let q = silenced(s, now1, timeout);
    assert forall|i: int| 0 <= i < q.len() implies !due_pred(now1, timeout)(q[i]) by {}
    lemma_filter_none(q, due_pred(now1, timeout));
}

} // verus!
