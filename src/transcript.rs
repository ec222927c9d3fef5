//! Transcripts returned by the speech model, and their split into a
//! finalized head and a tentative tail.
//!
//! Segment times are millisecond offsets from the transcript's
//! `start_timestamp`, the wall-clock instant of sample 0 of the audio that
//! produced it.
use vstd::prelude::*;

use crate::clock::{wall_advance, wall_clock_advance};

verus! {

/// One recognised stretch of speech.
#[derive(Clone, Debug, PartialEq, Eq)]
pub struct Segment {
    pub text: String,
    /// Offset of the segment's start, in ms from the transcript's start.
    pub t_start: u64,
    /// Offset of the segment's end, in ms from the transcript's start.
    pub t_end: u64,
    pub tokens: Vec<i32>,
}

pub ghost struct SegmentView {
    pub text: Seq<char>,
    pub t_start: u64,
    pub t_end: u64,
    pub tokens: Seq<i32>,
}

impl View for Segment {
    type V = SegmentView;

    open spec fn view(&self) -> SegmentView {
        SegmentView {
            text: self.text@,
            t_start: self.t_start,
            t_end: self.t_end,
            tokens: self.tokens@,
        }
    }
}

/// A transcript of a contiguous stretch of audio.
#[derive(Clone, Debug, PartialEq, Eq)]
pub struct Transcription {
    /// Wall-clock instant (ms since the epoch) of the audio's first sample.
    pub start_timestamp: u64,
    /// Length of the transcribed audio, in ms.
    pub audio_duration: u64,
    pub segments: Vec<Segment>,
}

pub ghost struct TranscriptionView {
    pub start_timestamp: u64,
    pub audio_duration: u64,
    pub segments: Seq<SegmentView>,
}

pub open spec fn segment_views(segments: Seq<Segment>) -> Seq<SegmentView> {
    segments.map_values(|s: Segment| s@)
}

impl View for Transcription {
    type V = TranscriptionView;

    open spec fn view(&self) -> TranscriptionView {
        TranscriptionView {
            start_timestamp: self.start_timestamp,
            audio_duration: self.audio_duration,
            segments: segment_views(self.segments@),
        }
    }
}

/// Whether a segment of a transcript starting at `start` ends on or before
/// `cutoff`; with no cutoff every segment is final.
pub open spec fn ends_by(start: u64, s: SegmentView, cutoff: Option<u64>) -> bool {
    match cutoff {
        None => true,
        Some(c) => start + s.t_end <= c,
    }
}

/// The latest end offset among `segs`, 0 when there are none.
pub open spec fn latest_end(segs: Seq<SegmentView>) -> u64
    decreases segs.len(),
{
    if segs.len() == 0 {
        0
    } else {
        let rest = latest_end(segs.drop_last());
        if segs.last().t_end > rest {
            segs.last().t_end
        } else {
            rest
        }
    }
}

/// `s` with its offsets moved back by `d`, held at 0.
pub open spec fn shift_back(s: SegmentView, d: u64) -> SegmentView {
    SegmentView {
        text: s.text,
        t_start: if s.t_start >= d { (s.t_start - d) as u64 } else { 0 },
        t_end: if s.t_end >= d { (s.t_end - d) as u64 } else { 0 },
        tokens: s.tokens,
    }
}

/// Selects the segments of a transcript starting at `start` that end by `cutoff`.
pub open spec fn final_pred(start: u64, cutoff: Option<u64>) -> spec_fn(SegmentView) -> bool {
    |s: SegmentView| ends_by(start, s, cutoff)
}

/// Selects the segments of a transcript starting at `start` that end after `cutoff`.
pub open spec fn later_pred(start: u64, cutoff: Option<u64>) -> spec_fn(SegmentView) -> bool {
    |s: SegmentView| !ends_by(start, s, cutoff)
}

/// Every segment of `segs` with its offsets moved back by `d`.
pub open spec fn shift_all(segs: Seq<SegmentView>, d: u64) -> Seq<SegmentView> {
    segs.map_values(|s: SegmentView| shift_back(s, d))
}

impl TranscriptionView {
    /// The segments that end by `cutoff`, in order.
    pub open spec fn final_segments(self, cutoff: Option<u64>) -> Seq<SegmentView> {
        self.segments.filter(final_pred(self.start_timestamp, cutoff))
    }

    /// The segments that end after `cutoff`, in order.
    pub open spec fn later_segments(self, cutoff: Option<u64>) -> Seq<SegmentView> {
        self.segments.filter(later_pred(self.start_timestamp, cutoff))
    }

    /// How much of the audio the final segments cover: up to the latest end
    /// among them, and never past the whole audio.
    pub open spec fn final_duration(self, cutoff: Option<u64>) -> u64 {
        let e = latest_end(self.final_segments(cutoff));
        if e <= self.audio_duration {
            e
        } else {
            self.audio_duration
        }
    }

    /// The finalized head: the final segments over the audio they cover.
    pub open spec fn head(self, cutoff: Option<u64>) -> TranscriptionView {
        TranscriptionView {
            start_timestamp: self.start_timestamp,
            audio_duration: self.final_duration(cutoff),
            segments: self.final_segments(cutoff),
        }
    }

    /// The tentative tail: the remaining segments over the remaining audio,
    /// with times taken from the tail's own start.
    pub open spec fn tail(self, cutoff: Option<u64>) -> TranscriptionView {
        let d = self.final_duration(cutoff);
        TranscriptionView {
            start_timestamp: wall_advance(self.start_timestamp, d),
            audio_duration: (self.audio_duration - d) as u64,
            segments: shift_all(self.later_segments(cutoff), d),
        }
    }
}

/// Copies a token list.
fn copy_tokens(tokens: &Vec<i32>) -> (r: Vec<i32>)
    ensures
        r@ == tokens@,
{
    let mut r: Vec<i32> = Vec::new();
    let mut i: usize = 0;
    while i < tokens.len()
        invariant
            i <= tokens.len(),
            r@ == tokens@.subrange(0, i as int),
        decreases tokens.len() - i,
    {
        r.push(tokens[i]);
        i += 1;
        assert(r@ =~= tokens@.subrange(0, i as int));
    }
    assert(r@ =~= tokens@);
    r
}

impl Segment {
    /// A copy of this segment with its offsets moved back by `d`, held at 0.
    pub fn shifted_back(&self, d: u64) -> (r: Segment)
        ensures
            r@ == shift_back(self@, d),
    {
        Segment {
            text: self.text.clone(),
            t_start: self.t_start.saturating_sub(d),
            t_end: self.t_end.saturating_sub(d),
            tokens: copy_tokens(&self.tokens),
        }
    }
}

/// Whether a segment of a transcript starting at `start` ends by `cutoff`.
fn segment_ends_by(start: u64, s: &Segment, cutoff: Option<u64>) -> (r: bool)
    ensures
        r == ends_by(start, s@, cutoff),
{
    match cutoff {
        None => true,
        Some(c) => c >= start && s.t_end <= c - start,
    }
}

proof fn lemma_filter_step(segs: Seq<SegmentView>, i: int, pred: spec_fn(SegmentView) -> bool)
    requires
        0 <= i < segs.len(),
    ensures
        segs.subrange(0, i + 1).filter(pred) == if pred(segs[i]) {
            segs.subrange(0, i).filter(pred).push(segs[i])
        } else {
            segs.subrange(0, i).filter(pred)
        },
{
    reveal(Seq::filter);
    let s = segs.subrange(0, i + 1);
    assert(s.drop_last() =~= segs.subrange(0, i));
    assert(s.last() == segs[i]);
    assert(s.filter(pred) == if pred(s.last()) {
        s.drop_last().filter(pred).push(s.last())
    } else {
        s.drop_last().filter(pred)
    });
}

proof fn lemma_latest_end_push(segs: Seq<SegmentView>, s: SegmentView)
    ensures
        latest_end(segs.push(s)) == if s.t_end > latest_end(segs) {
            s.t_end
        } else {
            latest_end(segs)
        },
{
    assert(segs.push(s).drop_last() =~= segs);
}

impl Transcription {
    /// Whether the transcript holds no segment.
    pub fn is_empty(&self) -> (r: bool)
        ensures
            r == (self@.segments.len() == 0),
    {
        self.segments.len() == 0
    }

    /// Splits the transcript into the segments that end by `cutoff` (all of
    /// them when there is none) and the rest.  The finalized head covers the
    /// audio up to the latest end among its segments; the tentative tail
    /// covers what remains, so the two durations add up to the whole.
    pub fn split_at_end_time(&self, cutoff: Option<u64>) -> (r: (Transcription, Transcription))
        ensures
            r.0@ == self@.head(cutoff),
            r.1@ == self@.tail(cutoff),
            r.0@.audio_duration + r.1@.audio_duration == self@.audio_duration,
    {
        let ghost v = self@;
        let mut head: Vec<Segment> = Vec::new();
        let mut rest: Vec<Segment> = Vec::new();
        let mut latest: u64 = 0;
        let mut i: usize = 0;
        while i < self.segments.len()
            invariant
                v == self@,
                i <= self.segments.len(),
                segment_views(head@) == v.segments.subrange(0, i as int).filter(final_pred(v.start_timestamp, cutoff)),
                segment_views(rest@) == v.segments.subrange(0, i as int).filter(later_pred(v.start_timestamp, cutoff)),
                latest == latest_end(segment_views(head@)),
            decreases self.segments.len() - i,
        {
            let seg = &self.segments[i];
            proof {
                lemma_filter_step(v.segments, i as int, final_pred(v.start_timestamp, cutoff));
                lemma_filter_step(v.segments, i as int, later_pred(v.start_timestamp, cutoff));
                assert(v.segments[i as int] == seg@);
                assert(final_pred(v.start_timestamp, cutoff)(seg@) == ends_by(v.start_timestamp, seg@, cutoff));
                assert(later_pred(v.start_timestamp, cutoff)(seg@) == !ends_by(v.start_timestamp, seg@, cutoff));
            }
            if segment_ends_by(self.start_timestamp, seg, cutoff) {
                let ghost before = segment_views(head@);
                head.push(seg.shifted_back(0));
                proof {
                    assert(shift_back(seg@, 0) =~= seg@);
                    assert(segment_views(head@) =~= before.push(seg@));
                    lemma_latest_end_push(before, seg@);
                }
                if seg.t_end > latest {
                    latest = seg.t_end;
                }
            } else {
                let ghost before = segment_views(rest@);
                rest.push(seg.shifted_back(0));
                proof {
                    assert(shift_back(seg@, 0) =~= seg@);
                    assert(segment_views(rest@) =~= before.push(seg@));
                }
            }
            i += 1;
        }
        proof {
            assert(v.segments.subrange(0, i as int) =~= v.segments);
        }
        let head_duration: u64 = if latest <= self.audio_duration {
            latest
        } else {
            self.audio_duration
        };
        let mut tail: Vec<Segment> = Vec::new();
        let ghost later = v.later_segments(cutoff);
        let mut j: usize = 0;
        while j < rest.len()
            invariant
                j <= rest.len(),
                segment_views(rest@) == later,
                segment_views(tail@) == shift_all(later.subrange(0, j as int), head_duration),
            decreases rest.len() - j,
        {
            let ghost before = segment_views(tail@);
            let ghost old_tail = tail@;
            proof {
                assert(segment_views(rest@)[j as int] == rest@[j as int]@);
            }
            let moved = rest[j].shifted_back(head_duration);
            tail.push(moved);
            proof {
                assert(tail@ == old_tail.push(moved));
                assert(rest@[j as int]@ == later[j as int]);
                assert(moved@ == shift_back(later[j as int], head_duration));
                assert(segment_views(tail@) =~= before.push(shift_back(later[j as int], head_duration)));
                assert(segment_views(tail@) =~= shift_all(later.subrange(0, j + 1), head_duration));
            }
            j += 1;
        }
        proof {
            assert(later.subrange(0, j as int) =~= later);
        }
        let head_part = Transcription {
            start_timestamp: self.start_timestamp,
            audio_duration: head_duration,
            segments: head,
        };
        let tail_part = Transcription {
            start_timestamp: wall_clock_advance(self.start_timestamp, head_duration),
            audio_duration: self.audio_duration - head_duration,
            segments: tail,
        };
        proof {
            assert(head_part@ =~= v.head(cutoff));
            assert(tail_part@ =~= v.tail(cutoff));
        }
        (head_part, tail_part)
    }
}

} // verus!
