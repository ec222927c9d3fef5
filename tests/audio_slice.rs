use discrivener::audio_slice::{AudioSlice, LastRequestInfo};
use discrivener::transcript::{Segment, Transcription};

const T: u32 = 48;
const W: usize = 16;
const INPUT_VALUES_PER_MS: usize = 96;

fn stereo(ms: usize, value: i16) -> Vec<i16> {
    vec![value; ms * INPUT_VALUES_PER_MS]
}

fn segment(text: &str, t_start: u64, t_end: u64) -> Segment {
    Segment {
        text: text.to_string(),
        t_start,
        t_end,
        tokens: vec![1, 2, 3],
    }
}

#[test]
fn test_discard_audio() {
    let mut slice = AudioSlice::new(123);
    slice.start_time = Some((1000 * T, 1_000_000));
    slice.audio = vec![0; 1000 * W];
    assert_eq!(slice.buffer_duration(), 1000);

    slice.discard_audio(500);

    assert_eq!(slice.buffer_duration(), 500);
    assert_eq!(slice.audio.len(), 500 * W);
    let time = slice.start_time.unwrap().0;
    // the start moves forward by the 500 ms that were dropped
    assert_eq!(time, 1500 * T);
    assert_eq!(slice.start_time.unwrap().1, 1_000_500);
}

#[test]
fn test_add_audio() {
    let mut slice = AudioSlice::new(234);
    slice.start_time = Some((1000 * T, 1_000_000));
    slice.audio = vec![0; 1000 * W];
    assert_eq!(slice.buffer_duration(), 1000);

    slice.add_audio(2000 * T, &stereo(500, 1), 5);

    assert_eq!(slice.buffer_duration(), 1500);
    assert_eq!(slice.audio.len(), 1500 * W);
    let time = slice.start_time.unwrap().0;
    assert_eq!(time, 1000 * T);

    slice.add_audio(4000 * T, &stereo(500, 1), 5);

    assert_eq!(slice.buffer_duration(), 3500);
    assert_eq!(slice.audio.len(), 3500 * W);
    let time = slice.start_time.unwrap().0;
    assert_eq!(time, 1000 * T);

    // 8000 ms lies 3500 ms past the buffer's end, inside the 30 s window
    slice.add_audio(8000 * T, &stereo(500, 1), 5);

    assert_eq!(slice.buffer_duration(), 7500);
    assert_eq!(slice.audio.len(), 7500 * W);
    let time = slice.start_time.unwrap().0;
    assert_eq!(time, 1000 * T);

    assert!(slice.fits_within_this_slice(1000 * T));
    assert!(!slice.fits_within_this_slice(999 * T));
    assert!(slice.fits_within_this_slice(6499 * T));
    assert!(slice.fits_within_this_slice(6500 * T));
    // the window ends 30 s after the 7500 ms of buffered audio
    assert!(slice.fits_within_this_slice((1000 + 7500 + 30000) * T - 1));
    assert!(!slice.fits_within_this_slice((1000 + 7500 + 30000) * T));
}

#[test]
fn basic_append() {
    let mut slice = AudioSlice::new(1);
    slice.add_audio(1000 * T, &stereo(500, 0), 77);
    assert_eq!(slice.buffer_duration(), 500);
    assert_eq!(slice.audio.len(), 500 * W);
    assert_eq!(slice.start_time, Some((1000 * T, 77)));
    assert!(!slice.finalized);
}

#[test]
fn contiguous_second_append() {
    let mut slice = AudioSlice::new(1);
    slice.add_audio(1000 * T, &stereo(500, 0), 77);
    slice.add_audio(1500 * T, &stereo(500, 0), 99);
    assert_eq!(slice.buffer_duration(), 1000);
    assert_eq!(slice.start_time, Some((1000 * T, 77)));
}

#[test]
fn gap_fill_with_silence() {
    let mut slice = AudioSlice::new(1);
    slice.add_audio(1000 * T, &stereo(100, 5), 0);
    slice.add_audio(1500 * T, &stereo(100, 7), 0);
    assert_eq!(slice.buffer_duration(), 600);
    assert!(slice.audio[..100 * W].iter().all(|&v| v == 10));
    assert!(slice.audio[100 * W..500 * W].iter().all(|&v| v == 0));
    assert!(slice.audio[500 * W..600 * W].iter().all(|&v| v == 14));
}

#[test]
fn late_packet_fills_in_place() {
    let mut slice = AudioSlice::new(1);
    slice.add_audio(1000 * T, &stereo(100, 5), 0);
    slice.add_audio(1500 * T, &stereo(100, 7), 0);
    slice.add_audio(1200 * T, &stereo(100, 3), 0);
    assert_eq!(slice.buffer_duration(), 600);
    assert!(slice.audio[200 * W..300 * W].iter().all(|&v| v == 6));
    assert!(slice.audio[300 * W..500 * W].iter().all(|&v| v == 0));
}

#[test]
fn sample_takes_first_frame_of_each_group() {
    let mut slice = AudioSlice::new(1);
    let frames: Vec<i16> = vec![32767, 32767, 1, 2, 3, 4, -32768, -32768, 9, 9, 9, 9, 5, -6];
    slice.add_audio(0, &frames, 0);
    // two full groups of three stereo frames; the trailing pair is ignored,
    // and the second sum is held at the level -1
    assert_eq!(slice.audio, vec![65534, -65534]);
}

#[test]
fn samples_stay_within_unit_level() {
    let mut slice = AudioSlice::new(1);
    let frames: Vec<i16> = vec![
        -32768, -32767, 0, 0, 0, 0, -32767, -32767, 0, 0, 0, 0, -32766, -32767, 0, 0, 0, 0,
    ];
    slice.add_audio(0, &frames, 0);
    assert_eq!(slice.audio, vec![-65534, -65534, -65533]);
    let limit = 2 * 32767;
    assert!(slice.audio.iter().all(|&v| -limit <= v && v <= limit));
}

#[test]
fn discard_aligns_clocks() {
    let mut slice = AudioSlice::new(1);
    slice.add_audio(1000 * T, &stereo(500, 0), 40);
    slice.add_audio(1500 * T, &stereo(500, 0), 40);
    slice.discard_audio(500);
    assert_eq!(slice.buffer_duration(), 500);
    assert_eq!(slice.start_time, Some((1500 * T, 540)));
}

#[test]
fn discard_everything_clears() {
    let mut slice = AudioSlice::new(9);
    slice.add_audio(1000 * T, &stereo(500, 1), 40);
    slice.make_transcription_request(true, 50);
    slice.discard_audio(500);
    assert_eq!(slice, AudioSlice::new(9));
}

#[test]
fn discard_counts_against_last_request() {
    let mut slice = AudioSlice::new(1);
    slice.add_audio(0, &stereo(5000, 0), 10);
    assert!(slice.make_transcription_request(false, 20).is_some());
    slice.discard_audio(1200);
    let request = slice.last_request.unwrap();
    assert_eq!(request.audio_trimmed_since_request, 1200);
    assert_eq!(request.effective_duration(), 3800);
}

#[test]
fn discard_wraps_media_clock() {
    let mut slice = AudioSlice::new(1);
    let start = u32::MAX - 10;
    slice.add_audio(start, &stereo(1000, 0), 10);
    slice.discard_audio(100);
    assert_eq!(slice.start_time, Some((start.wrapping_add(100 * T), 110)));
    assert!(slice.fits_within_this_slice(start.wrapping_add(100 * T)));
    assert!(!slice.fits_within_this_slice(start));
}

#[test]
fn period_triggered_request() {
    let mut slice = AudioSlice::new(1);
    slice.add_audio(0, &stereo(4999, 0), 10);
    assert!(slice.make_transcription_request(false, 20).is_none());
    slice.add_audio(4999 * T, &stereo(2, 0), 10);
    let (audio, duration, start) = slice.make_transcription_request(false, 30).unwrap();
    assert_eq!(duration, 5001);
    assert_eq!(start, 10);
    assert_eq!(audio.len(), 5001 * W);
    let request = slice.last_request.unwrap();
    assert_eq!(
        request,
        LastRequestInfo {
            start_time: 10,
            original_duration: 5001,
            audio_trimmed_since_request: 0,
            in_progress: true,
            requested_at: 30,
            final_request: false,
        }
    );
}

#[test]
fn stale_response_ignored() {
    let mut slice = AudioSlice::new(1);
    slice.add_audio(0, &stereo(5000, 0), 10_000);
    let (_, duration, start) = slice.make_transcription_request(false, 15_000).unwrap();
    assert_eq!(duration, 5000);
    slice.add_audio(5000 * T, &stereo(1000, 0), 10_000);

    let response = Transcription {
        start_timestamp: start,
        audio_duration: 5000,
        segments: vec![segment("hello", 0, 4000), segment("there", 4000, 4900)],
    };
    let done = slice.handle_transcription_response(&response).unwrap();
    // the cutoff is 14 000: only the first segment (ending at 14 000) is final
    assert_eq!(done.segments, vec![segment("hello", 0, 4000)]);
    assert_eq!(done.audio_duration, 4000);
    assert_eq!(slice.buffer_duration(), 2000);
    assert_eq!(slice.start_time, Some((4000 * T, 14_000)));
    // the tail covers 1000 ms but 2000 ms are buffered: it is dropped
    assert!(slice.tentative_transcript_opt.is_none());
    assert!(!slice.last_request.unwrap().in_progress);

    let before = slice.clone();
    let stale = Transcription {
        start_timestamp: start,
        audio_duration: 4000,
        segments: vec![segment("late", 0, 100)],
    };
    assert!(slice.handle_transcription_response(&stale).is_none());
    assert_eq!(slice, before);
}

#[test]
fn out_of_window_drop() {
    let mut slice = AudioSlice::new(1);
    slice.start_time = Some((1000 * T, 0));
    let before = slice.clone();
    slice.add_audio(999 * T, &stereo(20, 1), 5);
    assert_eq!(slice, before);
    slice.add_audio((1000 + 30000) * T + 1, &stereo(20, 1), 5);
    assert_eq!(slice, before);
    slice.add_audio((1000 + 30000) * T - 1, &stereo(20, 1), 5);
    assert_ne!(slice, before);
}

#[test]
fn buffer_ends_with_each_in_order_frame() {
    let mut slice = AudioSlice::new(1);
    let mut ts: u32 = 1000 * T;
    let mut end_ms: usize = 0;
    for (i, ms) in [20usize, 20, 40, 60, 20].iter().enumerate() {
        // every other frame leaves a 10 ms gap before it
        if i % 2 == 1 {
            ts += 10 * T;
            end_ms += 10;
        }
        slice.add_audio(ts, &stereo(*ms, 1), 0);
        ts += *ms as u32 * T;
        end_ms += ms;
        assert_eq!(slice.audio.len(), end_ms * W);
        assert_eq!(slice.buffer_duration(), end_ms as u64);
    }
}

#[test]
fn buffer_ends_with_overlapping_frames() {
    let mut slice = AudioSlice::new(1);
    // each frame starts inside the previous one but ends after it
    for (start_ms, ms) in [(0u32, 100usize), (60, 100), (150, 20), (160, 40)] {
        slice.add_audio(start_ms * T, &stereo(ms, 1), 0);
        assert_eq!(slice.audio.len(), (start_ms as usize + ms) * W);
    }
    assert_eq!(slice.buffer_duration(), 200);
    assert_eq!(slice.start_time.unwrap().0, 0);
}

#[test]
fn discard_shortens_by_exact_amount() {
    let mut slice = AudioSlice::new(1);
    slice.add_audio(7 * T, &stereo(900, 1), 100);
    slice.discard_audio(333);
    assert_eq!(slice.audio.len(), (900 - 333) * W);
    assert_eq!(slice.start_time, Some((340 * T, 433)));
}

#[test]
fn accepted_response_durations_add_up() {
    let mut slice = AudioSlice::new(1);
    slice.add_audio(0, &stereo(6000, 0), 50_000);
    let (_, duration, start) = slice.make_transcription_request(false, 56_500).unwrap();
    let response = Transcription {
        start_timestamp: start,
        audio_duration: duration,
        segments: vec![segment("a", 0, 3000), segment("b", 3000, 5800)],
    };
    let (head, tail) = response.split_at_end_time(Some(55_500));
    assert_eq!(head.audio_duration + tail.audio_duration, duration);
    let done = slice.handle_transcription_response(&response).unwrap();
    assert_eq!(done, head);
    // no new audio arrived: the tail is kept as tentative
    assert_eq!(slice.tentative_transcript_opt, Some(tail));
    assert_eq!(slice.buffer_duration(), 3000);
}

#[test]
fn two_unmatched_responses_leave_slice_alone() {
    let mut slice = AudioSlice::new(1);
    slice.add_audio(0, &stereo(5000, 0), 10);
    slice.make_transcription_request(false, 20).unwrap();
    let before = slice.clone();
    let wrong_start = Transcription {
        start_timestamp: 11,
        audio_duration: 5000,
        segments: vec![segment("x", 0, 10)],
    };
    let wrong_duration = Transcription {
        start_timestamp: 10,
        audio_duration: 4999,
        segments: vec![segment("y", 0, 10)],
    };
    assert!(slice.handle_transcription_response(&wrong_start).is_none());
    assert!(slice.handle_transcription_response(&wrong_duration).is_none());
    assert_eq!(slice, before);
}

#[test]
fn response_without_request_ignored() {
    let mut slice = AudioSlice::new(1);
    slice.add_audio(0, &stereo(100, 0), 10);
    let before = slice.clone();
    let response = Transcription {
        start_timestamp: 10,
        audio_duration: 100,
        segments: vec![segment("x", 0, 10)],
    };
    assert!(slice.handle_transcription_response(&response).is_none());
    assert_eq!(slice, before);
}

#[test]
fn clear_then_add_matches_new_slice() {
    let mut slice = AudioSlice::new(42);
    slice.add_audio(0, &stereo(3000, 3), 10);
    slice.make_transcription_request(true, 20);
    slice.finalize();
    slice.clear();
    slice.add_audio(500 * T, &stereo(40, 2), 99);
    let mut fresh = AudioSlice::new(42);
    fresh.add_audio(500 * T, &stereo(40, 2), 99);
    assert_eq!(slice, fresh);
}

#[test]
fn request_twice_returns_nothing_the_second_time() {
    let mut slice = AudioSlice::new(1);
    slice.add_audio(0, &stereo(700, 0), 10);
    assert!(slice.make_transcription_request(true, 20).is_some());
    assert!(slice.make_transcription_request(true, 21).is_none());

    let mut idle = AudioSlice::new(2);
    idle.add_audio(0, &stereo(700, 0), 10);
    assert!(idle.make_transcription_request(false, 20).is_none());
    assert!(idle.make_transcription_request(false, 21).is_none());
}

#[test]
fn request_waits_for_in_flight_unless_idle() {
    let mut slice = AudioSlice::new(1);
    slice.add_audio(0, &stereo(5000, 0), 10);
    assert!(slice.make_transcription_request(false, 20).is_some());
    slice.add_audio(5000 * T, &stereo(5000, 0), 10);
    // a period boundary was crossed, but a request is in flight
    assert!(slice.make_transcription_request(false, 30).is_none());
    // the speaker fell silent: a second, overlapping request goes out
    let (_, duration, _) = slice.make_transcription_request(true, 40).unwrap();
    assert_eq!(duration, 10000);
}

#[test]
fn empty_slice_never_requests() {
    let mut slice = AudioSlice::new(1);
    assert!(slice.make_transcription_request(true, 5).is_none());
    slice.finalized = true;
    assert!(slice.make_transcription_request(true, 5).is_none());
}

#[test]
fn duplicate_final_request_marks_last_final() {
    let mut slice = AudioSlice::new(1);
    slice.add_audio(0, &stereo(800, 0), 10);
    assert!(slice.make_transcription_request(true, 20).is_some());
    assert!(!slice.last_request.unwrap().final_request);
    assert!(slice.finalize().is_none());
    assert!(slice.finalized);
    assert!(slice.make_transcription_request(false, 30).is_none());
    assert!(slice.last_request.unwrap().final_request);
}

#[test]
fn final_response_finalizes_every_segment() {
    let mut slice = AudioSlice::new(1);
    slice.add_audio(0, &stereo(800, 0), 10_000);
    slice.finalized = true;
    let (_, duration, start) = slice.make_transcription_request(false, 10_800).unwrap();
    let response = Transcription {
        start_timestamp: start,
        audio_duration: duration,
        segments: vec![segment("all", 0, 700), segment("done", 700, 800)],
    };
    let done = slice.handle_transcription_response(&response).unwrap();
    assert_eq!(done.segments.len(), 2);
    assert_eq!(done.audio_duration, 800);
    assert!(slice.audio.is_empty());
    assert_eq!(slice.start_time, None);
    assert_eq!(slice.last_request, None);
    // the empty tail covers exactly the empty buffer: it is kept
    let tail = slice.tentative_transcript_opt.clone().unwrap();
    assert_eq!(tail.audio_duration, 0);
    assert!(tail.segments.is_empty());
    // finalizing hands it back and leaves a fresh slice
    assert_eq!(slice.finalize(), Some(tail));
    assert_eq!(slice, AudioSlice::new(1));
}

#[test]
fn tail_kept_when_head_drains_buffer() {
    let mut slice = AudioSlice::new(1);
    slice.add_audio(0, &stereo(1000, 0), 90_000);
    let (_, duration, start) = slice.make_transcription_request(true, 100_000).unwrap();
    let response = Transcription {
        start_timestamp: start,
        audio_duration: duration,
        segments: vec![segment("now", 0, 1000), segment("later", 1000, 200_000)],
    };
    let done = slice.handle_transcription_response(&response).unwrap();
    assert_eq!(done.segments, vec![segment("now", 0, 1000)]);
    assert_eq!(slice.buffer_duration(), 0);
    let tail = slice.tentative_transcript_opt.clone().unwrap();
    assert_eq!(tail.audio_duration, 0);
    assert_eq!(tail.segments, vec![segment("later", 0, 199_000)]);
    assert_eq!(slice.finalize(), Some(tail));
}

#[test]
fn finalize_returns_current_tentative() {
    let mut slice = AudioSlice::new(3);
    slice.add_audio(0, &stereo(6000, 0), 50_000);
    let (_, duration, start) = slice.make_transcription_request(false, 56_000).unwrap();
    let response = Transcription {
        start_timestamp: start,
        audio_duration: duration,
        segments: vec![segment("a", 0, 2000), segment("b", 2000, 5500)],
    };
    slice.handle_transcription_response(&response).unwrap();
    let tentative = slice.finalize().unwrap();
    assert_eq!(tentative.start_timestamp, 52_000);
    assert_eq!(tentative.audio_duration, 4000);
    assert_eq!(tentative.segments, vec![segment("b", 0, 3500)]);
    assert_eq!(slice, AudioSlice::new(3));
}

#[test]
fn finalize_drops_outdated_tentative() {
    let mut slice = AudioSlice::new(3);
    slice.add_audio(0, &stereo(6000, 0), 50_000);
    let (_, duration, start) = slice.make_transcription_request(false, 56_000).unwrap();
    let response = Transcription {
        start_timestamp: start,
        audio_duration: duration,
        segments: vec![segment("a", 0, 2000), segment("b", 2000, 5500)],
    };
    slice.handle_transcription_response(&response).unwrap();
    assert!(slice.tentative_transcript_opt.is_some());
    slice.add_audio(6000 * T, &stereo(20, 0), 0);
    assert!(slice.finalize().is_none());
    assert!(slice.finalized);
    assert!(slice.tentative_transcript_opt.is_none());
    assert_eq!(slice.buffer_duration(), 4020);
}

#[test]
fn effective_duration_subtracts_trim() {
    let request = LastRequestInfo {
        start_time: 0,
        original_duration: 5000,
        audio_trimmed_since_request: 1500,
        in_progress: false,
        requested_at: 0,
        final_request: false,
    };
    assert_eq!(request.effective_duration(), 3500);
    let over = LastRequestInfo { audio_trimmed_since_request: 6000, ..request };
    assert_eq!(over.effective_duration(), 0);
}

#[test]
fn failed_request_no_longer_in_flight() {
    let mut slice = AudioSlice::new(1);
    slice.add_audio(0, &stereo(5000, 0), 10);
    assert!(slice.make_transcription_request(false, 20).is_some());
    slice.request_failed();
    assert!(!slice.last_request.unwrap().in_progress);
    assert_eq!(slice.buffer_duration(), 5000);
    let mut empty = AudioSlice::new(2);
    empty.request_failed();
    assert_eq!(empty, AudioSlice::new(2));
}
