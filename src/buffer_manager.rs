//! Routes decoded audio, silence signals and model responses to the slice
//! of each speaker, and collects the requests and finalized transcripts
//! that result.
use vstd::prelude::*;

use crate::audio_slice::{AudioSlice, SliceView};
use crate::clock::{max_rtc_index, samples_of_input};
use crate::transcript::{Transcription, TranscriptionView};

verus! {

/// Bytes in one group of input values that makes a stored sample: three
/// stereo frames of two little-endian bytes each.
pub const PCM_BYTES_PER_GROUP: usize = 12;

/// The 16-bit signed value of two little-endian bytes.
pub open spec fn le_i16(lo: u8, hi: u8) -> i16 {
    let v = lo as int + 256 * hi as int;
    (if v >= 32768 {
        v - 65536
    } else {
        v
    }) as i16
}

/// The values of 16-bit little-endian PCM.
pub open spec fn pcm_values(pcm: Seq<u8>) -> Seq<i16> {
    Seq::new((pcm.len() / 2) as nat, |k: int| le_i16(pcm[2 * k], pcm[2 * k + 1]))
}

/// Reads 16-bit little-endian interleaved stereo PCM.  A frame whose length
/// is not a whole number of sample groups is malformed and gives nothing.
pub fn decode_pcm(pcm: &[u8]) -> (r: Option<Vec<i16>>)
    ensures
        pcm@.len() % 12 != 0 ==> r is None,
        pcm@.len() % 12 == 0 ==> (r matches Some(v) && v@ == pcm_values(pcm@)),
{
    let len = pcm.len();
    if len % PCM_BYTES_PER_GROUP != 0 {
        return None;
    }
    let half = len / 2;
    let mut out: Vec<i16> = Vec::with_capacity(half);
    let mut k: usize = 0;
    while k < half
        invariant
            len == pcm@.len(),
            half == len / 2,
            k <= half,
            out@ == pcm_values(pcm@).subrange(0, k as int),
        decreases half - k,
    {
        let lo = pcm[2 * k];
        let hi = pcm[2 * k + 1];
        let v: i32 = lo as i32 + 256 * hi as i32;
        let value: i16 = if v >= 32768 {
            (v - 65536) as i16
        } else {
            v as i16
        };
        out.push(value);
        k += 1;
        assert(out@ =~= pcm_values(pcm@).subrange(0, k as int));
    }
    assert(out@ =~= pcm_values(pcm@));
    Some(out)
}

/// A request for the model, tagged with the slice it belongs to.
#[derive(Clone, Debug, PartialEq, Eq)]
pub struct TranscriptionRequest {
    pub slice_id: u64,
    /// Wall-clock instant of the first sample.
    pub start_wall: u64,
    /// Length of the audio, in ms.
    pub duration_ms: u64,
    /// Samples as stored by the slice.
    pub audio: Vec<i32>,
}

/// A finalized transcript of one speaker.
#[derive(Clone, Debug, PartialEq, Eq)]
pub struct FinalizedEvent {
    pub user_id: u64,
    pub transcript: Transcription,
}

/// The slice of one speaker.
#[derive(Clone, Debug, PartialEq, Eq)]
pub struct SpeakerSlice {
    pub user_id: u64,
    pub slice: AudioSlice,
    /// The speaker went silent: finalize once no request is in flight.
    pub finalize_pending: bool,
}

pub ghost struct SpeakerSliceView {
    pub user_id: u64,
    pub slice: SliceView,
    pub finalize_pending: bool,
}

impl View for SpeakerSlice {
    type V = SpeakerSliceView;

    open spec fn view(&self) -> SpeakerSliceView {
        SpeakerSliceView {
            user_id: self.user_id,
            slice: self.slice@,
            finalize_pending: self.finalize_pending,
        }
    }
}

pub open spec fn entry_views(s: Seq<SpeakerSlice>) -> Seq<SpeakerSliceView> {
    s.map_values(|e: SpeakerSlice| e@)
}

/// Whether `s` holds an entry for `user_id`.
pub open spec fn has_user(s: Seq<SpeakerSliceView>, user_id: u64) -> bool {
    exists|i: int| 0 <= i < s.len() && s[i].user_id == user_id
}

/// Whether `s` holds an entry whose slice has identifier `slice_id`.
pub open spec fn has_slice(s: Seq<SpeakerSliceView>, slice_id: u64) -> bool {
    exists|i: int| 0 <= i < s.len() && s[i].slice.slice_id == slice_id
}

/// An entry after audio stamped `ts` arrived for it at `now`.
pub open spec fn audio_step(e: SpeakerSliceView, ts: u32, frames: Seq<i16>, now: u64) -> SpeakerSliceView {
    SpeakerSliceView {
        user_id: e.user_id,
        slice: e.slice.added(ts, frames, now).requested(false, now),
        finalize_pending: false,
    }
}

/// The request made after audio stamped `ts` arrived for `e` at `now`.
pub open spec fn audio_request(e: SpeakerSliceView, ts: u32, frames: Seq<i16>, now: u64) -> Option<(Seq<i32>, u64, u64)> {
    e.slice.added(ts, frames, now).request_out(false)
}

/// Whether `q` is the tagged form of `v` for slice `slice_id`.
pub open spec fn tags(q: Option<TranscriptionRequest>, v: Option<(Seq<i32>, u64, u64)>, slice_id: u64) -> bool {
    match q {
        Some(q) => v == Some((q.audio@, q.duration_ms, q.start_wall)) && q.slice_id == slice_id,
        None => v is None,
    }
}

/// A new entry for `user_id` whose slice gets identifier `slice_id`.
pub open spec fn new_entry(user_id: u64, slice_id: u64) -> SpeakerSliceView {
    SpeakerSliceView { user_id, slice: SliceView::fresh(slice_id), finalize_pending: false }
}

/// An entry whose speaker went silent, once no request is in flight: the
/// slice is finalized, and when that leaves audio a final request is made
/// at `now`; the entry stays pending while that request is in flight.
pub open spec fn settled(e: SpeakerSliceView, now: u64) -> SpeakerSliceView {
    let s = e.slice.finalized_state().requested(true, now);
    SpeakerSliceView { slice: s, finalize_pending: s.request_in_progress(), ..e }
}

/// The transcript that finalizing hands back when settling `e`.
pub open spec fn settle_event(e: SpeakerSliceView) -> Option<TranscriptionView> {
    e.slice.finalize_out()
}

/// The final request made when settling `e`.
pub open spec fn settle_request(e: SpeakerSliceView) -> Option<(Seq<i32>, u64, u64)> {
    e.slice.finalized_state().request_out(true)
}

/// An entry after its speaker went silent at `now`: a request for all of
/// the audio is made, and the entry waits for it, or settles at once when
/// none is in flight.
pub open spec fn silent_step(e: SpeakerSliceView, now: u64) -> SpeakerSliceView {
    let w = SpeakerSliceView { slice: e.slice.requested(true, now), finalize_pending: true, ..e };
    if w.slice.request_in_progress() {
        w
    } else {
        settled(w, now)
    }
}

/// The request made when the speaker of `e` went silent at `now`.
pub open spec fn silent_request(e: SpeakerSliceView, now: u64) -> Option<(Seq<i32>, u64, u64)> {
    let w = SpeakerSliceView { slice: e.slice.requested(true, now), finalize_pending: true, ..e };
    if w.slice.request_in_progress() {
        e.slice.request_out(true)
    } else {
        settle_request(w)
    }
}

/// The transcript handed back when the speaker of `e` went silent at `now`.
pub open spec fn silent_event(e: SpeakerSliceView, now: u64) -> Option<TranscriptionView> {
    let w = SpeakerSliceView { slice: e.slice.requested(true, now), finalize_pending: true, ..e };
    if w.slice.request_in_progress() {
        None
    } else {
        settle_event(w)
    }
}

/// Whether the response `m` lets a pending entry settle.
pub open spec fn settles_after(e: SpeakerSliceView, m: TranscriptionView) -> bool {
    e.finalize_pending && !e.slice.responded(m).request_in_progress()
}

/// An entry after the response `m` arrived for its slice at `now`.
pub open spec fn response_step(e: SpeakerSliceView, m: TranscriptionView, now: u64) -> SpeakerSliceView {
    let w = SpeakerSliceView { slice: e.slice.responded(m), ..e };
    if settles_after(e, m) {
        settled(w, now)
    } else {
        w
    }
}

/// The request made after the response `m` arrived.
pub open spec fn response_request(e: SpeakerSliceView, m: TranscriptionView) -> Option<(Seq<i32>, u64, u64)> {
    let w = SpeakerSliceView { slice: e.slice.responded(m), ..e };
    if settles_after(e, m) {
        settle_request(w)
    } else {
        None
    }
}

pub open spec fn option_seq(o: Option<TranscriptionView>) -> Seq<TranscriptionView> {
    match o {
        Some(t) => seq![t],
        None => Seq::empty(),
    }
}

/// The transcripts handed back for the response `m`: its finalized head,
/// then what settling gives.
pub open spec fn response_events(e: SpeakerSliceView, m: TranscriptionView) -> Seq<TranscriptionView> {
    let w = SpeakerSliceView { slice: e.slice.responded(m), ..e };
    let last = if settles_after(e, m) {
        settle_event(w)
    } else {
        None
    };
    option_seq(e.slice.response_out(m)) + option_seq(last)
}

pub open spec fn event_views(v: Seq<FinalizedEvent>) -> Seq<(u64, TranscriptionView)> {
    v.map_values(|ev: FinalizedEvent| (ev.user_id, ev.transcript@))
}

/// Every transcript of `ts`, attributed to `user_id`.
pub open spec fn attributed(user_id: u64, ts: Seq<TranscriptionView>) -> Seq<(u64, TranscriptionView)> {
    ts.map_values(|t: TranscriptionView| (user_id, t))
}

/// The speakers' slices.
#[derive(Clone, Debug, PartialEq, Eq)]
pub struct BufferManager {
    pub speakers: Vec<SpeakerSlice>,
    /// Identifier that the next new slice gets.
    pub next_slice_id: u64,
}

impl BufferManager {
    pub open spec fn entries(&self) -> Seq<SpeakerSliceView> {
        entry_views(self.speakers@)
    }

    /// Speakers are unique, and so are slice identifiers, all below the
    /// next one.
    pub open spec fn wf(&self) -> bool {
        &&& forall|i: int, j: int|
            0 <= i < self.entries().len() && 0 <= j < self.entries().len() && i != j
                ==> self.entries()[i].user_id != self.entries()[j].user_id
        &&& forall|i: int, j: int|
            0 <= i < self.entries().len() && 0 <= j < self.entries().len() && i != j
                ==> self.entries()[i].slice.slice_id != self.entries()[j].slice.slice_id
        &&& forall|i: int|
            0 <= i < self.entries().len() ==> self.entries()[i].slice.slice_id < self.next_slice_id
    }

    /// A manager with no speaker.
    pub fn new() -> (r: BufferManager)
        ensures
            r.wf(),
            r.entries() == Seq::<SpeakerSliceView>::empty(),
    {
        let r = BufferManager { speakers: Vec::new(), next_slice_id: 0 };
        assert(r.entries() =~= Seq::<SpeakerSliceView>::empty());
        r
    }

    fn put_back(&mut self, i: usize, e: SpeakerSlice)
        requires
            i <= old(self).speakers@.len(),
        ensures
            final(self).speakers@ == old(self).speakers@.insert(i as int, e),
            final(self).next_slice_id == old(self).next_slice_id,
    {
        self.speakers.insert(i, e);
    }

    /// Routes a frame of 16-bit little-endian stereo PCM from `user_id`,
    /// stamped `rtc_timestamp` and received at `now`, to the speaker's
    /// slice, made on first use; then asks that slice for a transcription.
    /// A malformed frame is dropped.
    pub fn on_audio(&mut self, user_id: u64, rtc_timestamp: u32, pcm: &[u8], now: u64) -> (r: Option<TranscriptionRequest>)
        requires
            old(self).wf(),
            old(self).next_slice_id < u64::MAX,
            samples_of_input(pcm@.len() as int / 2) + max_rtc_index() <= usize::MAX,
        ensures
            final(self).wf(),
            pcm@.len() % 12 != 0 ==> r is None && final(self).entries() == old(self).entries()
                && final(self).next_slice_id == old(self).next_slice_id,
            pcm@.len() % 12 == 0 ==> {
                let frames = pcm_values(pcm@);
                let old_e = old(self).entries();
                &&& forall|i: int|
                    0 <= i < old_e.len() && old_e[i].user_id == user_id ==> {
                        &&& final(self).entries() == old_e.update(i, audio_step(old_e[i], rtc_timestamp, frames, now))
                        &&& tags(r, audio_request(old_e[i], rtc_timestamp, frames, now), old_e[i].slice.slice_id)
                    }
                &&& has_user(old_e, user_id) ==> final(self).next_slice_id == old(self).next_slice_id
                &&& !has_user(old_e, user_id) ==> {
                    let e = new_entry(user_id, old(self).next_slice_id);
                    &&& final(self).entries() == old_e.push(audio_step(e, rtc_timestamp, frames, now))
                    &&& final(self).next_slice_id == old(self).next_slice_id + 1
                    &&& tags(r, audio_request(e, rtc_timestamp, frames, now), old(self).next_slice_id)
                }
            },
    {
        let frames = match decode_pcm(pcm) {
            Some(f) => f,
            None => {
                return None;
            },
        };
        let ghost old_e = self.entries();
        let i = match self.find_user(user_id) {
            Some(i) => i,
            None => {
                let fresh = SpeakerSlice {
                    user_id,
                    slice: AudioSlice::new(self.next_slice_id),
                    finalize_pending: false,
                };
                self.speakers.push(fresh);
                self.next_slice_id = self.next_slice_id + 1;
                proof {
                    assert(self.entries() =~= old_e.push(new_entry(user_id, old(self).next_slice_id)));
                }
                self.speakers.len() - 1
            },
        };
        let ghost mid = self.entries();
        let mut e = self.speakers.remove(i);
        proof {
            assert(e@ == mid[i as int]);
        }
        e.slice.add_audio(rtc_timestamp, frames.as_slice(), now);
        let made = e.slice.make_transcription_request(false, now);
        e.finalize_pending = false;
        let slice_id = e.slice.slice_id;
        self.put_back(i, e);
        proof {
            assert(self.entries() =~= mid.update(i as int, audio_step(mid[i as int], rtc_timestamp, pcm_values(pcm@), now)));
            assert forall|k: int| 0 <= k < old_e.len() && old_e[k].user_id == user_id implies k == i by {
                if has_user(old_e, user_id) {
                    assert(mid == old_e);
                }
            }
        }
        match made {
            Some((audio, duration_ms, start_wall)) => Some(TranscriptionRequest { slice_id, start_wall, duration_ms, audio }),
            None => None,
        }
    }

    /// Settles a pending entry with no request in flight: finalizes its
    /// slice and, when audio is left, asks for a final transcription.
    fn settle(e: &mut SpeakerSlice, now: u64) -> (r: (Option<TranscriptionRequest>, Option<Transcription>))
        ensures
            final(e)@ == settled(old(e)@, now),
            tags(r.0, settle_request(old(e)@), old(e)@.slice.slice_id),
            match r.1 {
                Some(t) => settle_event(old(e)@) == Some(t@),
                None => settle_event(old(e)@) is None,
            },
    {
        let done = e.slice.finalize();
        let made = e.slice.make_transcription_request(true, now);
        e.finalize_pending = match &e.slice.last_request {
            Some(request) => request.in_progress,
            None => false,
        };
        let slice_id = e.slice.slice_id;
        let request = match made {
            Some((audio, duration_ms, start_wall)) => Some(TranscriptionRequest { slice_id, start_wall, duration_ms, audio }),
            None => None,
        };
        (request, done)
    }

    /// The speaker `user_id` went silent at `now`: asks the speaker's slice
    /// for a transcription of all of its audio, and settles the slice at
    /// once when no request is in flight.  Otherwise it settles when the
    /// outstanding response arrives.
    pub fn on_silent(&mut self, user_id: u64, now: u64) -> (r: (Option<TranscriptionRequest>, Option<FinalizedEvent>))
        requires
            old(self).wf(),
        ensures
            final(self).wf(),
            final(self).next_slice_id == old(self).next_slice_id,
            !has_user(old(self).entries(), user_id) ==> r.0 is None && r.1 is None
                && final(self).entries() == old(self).entries(),
            forall|i: int|
                0 <= i < old(self).entries().len() && old(self).entries()[i].user_id == user_id ==> {
                    let e = old(self).entries()[i];
                    &&& final(self).entries() == old(self).entries().update(i, silent_step(e, now))
                    &&& tags(r.0, silent_request(e, now), e.slice.slice_id)
                    &&& match r.1 {
                        Some(ev) => silent_event(e, now) == Some(ev.transcript@) && ev.user_id == user_id,
                        None => silent_event(e, now) is None,
                    }
                },
    {
        let ghost old_e = self.entries();
        let i = match self.find_user(user_id) {
            Some(i) => i,
            None => {
                return (None, None);
            },
        };
        let mut e = self.speakers.remove(i);
        proof {
            assert(e@ == old_e[i as int]);
        }
        let made = e.slice.make_transcription_request(true, now);
        e.finalize_pending = true;
        let in_flight = match &e.slice.last_request {
            Some(request) => request.in_progress,
            None => false,
        };
        let slice_id = e.slice.slice_id;
        let mut event: Option<FinalizedEvent> = None;
        let request = if in_flight {
            match made {
                Some((audio, duration_ms, start_wall)) => Some(TranscriptionRequest { slice_id, start_wall, duration_ms, audio }),
                None => None,
            }
        } else {
            let (request, done) = Self::settle(&mut e, now);
            if let Some(transcript) = done {
                event = Some(FinalizedEvent { user_id, transcript });
            }
            request
        };
        self.put_back(i, e);
        proof {
            assert(self.entries() =~= old_e.update(i as int, silent_step(old_e[i as int], now)));
        }
        (request, event)
    }

    /// Routes a response of the model, received at `now`, to the slice
    /// `slice_id`.  Hands back the finalized transcripts that result (the
    /// response's finalized head, then what settling gives) and the final
    /// request that settling makes.  A response for a slice that is gone is
    /// dropped.
    pub fn on_response(&mut self, slice_id: u64, message: &Transcription, now: u64) -> (r: (Vec<FinalizedEvent>, Option<TranscriptionRequest>))
        requires
            old(self).wf(),
        ensures
            final(self).wf(),
            final(self).next_slice_id == old(self).next_slice_id,
            !has_slice(old(self).entries(), slice_id) ==> r.0@.len() == 0 && r.1 is None
                && final(self).entries() == old(self).entries(),
            forall|i: int|
                0 <= i < old(self).entries().len() && old(self).entries()[i].slice.slice_id == slice_id ==> {
                    let e = old(self).entries()[i];
                    &&& final(self).entries() == old(self).entries().update(i, response_step(e, message@, now))
                    &&& event_views(r.0@) == attributed(e.user_id, response_events(e, message@))
                    &&& tags(r.1, response_request(e, message@), slice_id)
                },
    {
        let ghost old_e = self.entries();
        let mut out: Vec<FinalizedEvent> = Vec::new();
        let i = match self.find_slice(slice_id) {
            Some(i) => i,
            None => {
                assert(event_views(out@) =~= Seq::empty());
                return (out, None);
            },
        };
        let mut e = self.speakers.remove(i);
        proof {
            assert(e@ == old_e[i as int]);
        }
        let user_id = e.user_id;
        let ghost e0 = e@;
        if let Some(transcript) = e.slice.handle_transcription_response(message) {
            out.push(FinalizedEvent { user_id, transcript });
        }
        proof {
            assert(event_views(out@) =~= attributed(user_id, option_seq(e0.slice.response_out(message@))));
        }
        let in_flight = match &e.slice.last_request {
            Some(request) => request.in_progress,
            None => false,
        };
        let mut request: Option<TranscriptionRequest> = None;
        if e.finalize_pending && !in_flight {
            let (made, done) = Self::settle(&mut e, now);
            request = made;
            if let Some(transcript) = done {
                out.push(FinalizedEvent { user_id, transcript });
            }
        }
        self.put_back(i, e);
        proof {
            assert(self.entries() =~= old_e.update(i as int, response_step(old_e[i as int], message@, now)));
            assert(event_views(out@) =~= attributed(user_id, response_events(e0, message@)));
        }
        (out, request)
    }

    /// The model failed on the request of slice `slice_id`: the request is
    /// no longer in flight and the slice keeps its audio.
    pub fn on_model_failure(&mut self, slice_id: u64)
        requires
            old(self).wf(),
        ensures
            final(self).wf(),
            final(self).next_slice_id == old(self).next_slice_id,
            !has_slice(old(self).entries(), slice_id) ==> final(self).entries() == old(self).entries(),
            forall|i: int|
                0 <= i < old(self).entries().len() && old(self).entries()[i].slice.slice_id == slice_id
                    ==> final(self).entries() == old(self).entries().update(
                    i,
                    SpeakerSliceView { slice: old(self).entries()[i].slice.request_failed(), ..old(self).entries()[i] },
                ),
    {
        let ghost old_e = self.entries();
        let i = match self.find_slice(slice_id) {
            Some(i) => i,
            None => {
                return;
            },
        };
        let mut e = self.speakers.remove(i);
        proof {
            assert(e@ == old_e[i as int]);
        }
        e.slice.request_failed();
        self.put_back(i, e);
        proof {
            assert(self.entries() =~= old_e.update(
                i as int,
                SpeakerSliceView { slice: old_e[i as int].slice.request_failed(), ..old_e[i as int] },
            ));
        }
    }

    /// Drops the slice of `user_id`, idle for too long.
    pub fn evict(&mut self, user_id: u64)
        requires
            old(self).wf(),
        ensures
            final(self).wf(),
            final(self).next_slice_id == old(self).next_slice_id,
            !has_user(final(self).entries(), user_id),
            !has_user(old(self).entries(), user_id) ==> final(self).entries() == old(self).entries(),
            forall|i: int|
                0 <= i < old(self).entries().len() && old(self).entries()[i].user_id == user_id
                    ==> final(self).entries() == old(self).entries().remove(i),
    {
        let ghost old_e = self.entries();
        match self.find_user(user_id) {
            Some(i) => {
                self.speakers.remove(i);
                proof {
                    let after = self.entries();
                    assert(after =~= old_e.remove(i as int));
                    assert forall|k: int| 0 <= k < after.len() implies after[k].user_id != user_id by {
                        let ik = if k < i { k } else { k + 1 };
                        assert(after[k] == old_e[ik]);
                    }
                    assert forall|a: int, b: int|
                        0 <= a < after.len() && 0 <= b < after.len() && a != b implies
                        after[a].user_id != after[b].user_id && after[a].slice.slice_id != after[b].slice.slice_id by {
                        let ia = if a < i { a } else { a + 1 };
                        let ib = if b < i { b } else { b + 1 };
                        assert(after[a] == old_e[ia]);
                        assert(after[b] == old_e[ib]);
                    }
                    assert forall|k: int| 0 <= k < after.len() implies after[k].slice.slice_id < self.next_slice_id by {
                        let ik = if k < i { k } else { k + 1 };
                        assert(after[k] == old_e[ik]);
                    }
                }
            },
            None => {},
        }
    }

    /// Index of the entry of `user_id`, if there is one.
    fn find_user(&self, user_id: u64) -> (r: Option<usize>)
        requires
            self.wf(),
        ensures
            r matches Some(i) ==> i < self.entries().len() && self.entries()[i as int].user_id
                == user_id,
            r is None ==> !has_user(self.entries(), user_id),
    {
        let mut i: usize = 0;
        while i < self.speakers.len()
            invariant
                i <= self.speakers@.len(),
                forall|k: int| 0 <= k < i ==> self.entries()[k].user_id != user_id,
            decreases self.speakers@.len() - i,
        {
            if self.speakers[i].user_id == user_id {
                return Some(i);
            }
            i += 1;
        }
        None
    }

    /// Index of the entry whose slice has identifier `slice_id`, if there is
    /// one.
    fn find_slice(&self, slice_id: u64) -> (r: Option<usize>)
        requires
            self.wf(),
        ensures
            r matches Some(i) ==> i < self.entries().len() && self.entries()[i as int].slice.slice_id
                == slice_id,
            r is None ==> !has_slice(self.entries(), slice_id),
    {
        let mut i: usize = 0;
        while i < self.speakers.len()
            invariant
                i <= self.speakers@.len(),
                forall|k: int| 0 <= k < i ==> self.entries()[k].slice.slice_id != slice_id,
            decreases self.speakers@.len() - i,
        {
            if self.speakers[i].slice.slice_id == slice_id {
                return Some(i);
            }
            i += 1;
        }
        None
    }
}

} // verus!
