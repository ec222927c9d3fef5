use discrivener::buffer_manager::{decode_pcm, BufferManager};
use discrivener::transcript::{Segment, Transcription};

const T: u32 = 48;

fn pcm(ms: usize, value: i16) -> Vec<u8> {
    let mut out = Vec::new();
    for _ in 0..ms * 96 {
        out.extend_from_slice(&value.to_le_bytes());
    }
    out
}

#[test]
fn decode_reads_little_endian() {
    let bytes: Vec<u8> = vec![0x01, 0x00, 0xff, 0xff, 0x00, 0x80, 0xff, 0x7f, 0x34, 0x12, 0, 0];
    assert_eq!(decode_pcm(&bytes), Some(vec![1, -1, -32768, 32767, 0x1234, 0]));
}

#[test]
fn decode_rejects_malformed_frame() {
    assert_eq!(decode_pcm(&[0u8; 13]), None);
    assert_eq!(decode_pcm(&[]), Some(vec![]));
}

#[test]
fn audio_routes_to_slice_per_speaker() {
    let mut manager = BufferManager::new();
    assert!(manager.on_audio(10, 1000 * T, &pcm(100, 1), 5).is_none());
    assert!(manager.on_audio(20, 7 * T, &pcm(200, 1), 6).is_none());
    assert!(manager.on_audio(10, 1100 * T, &pcm(100, 1), 7).is_none());
    assert_eq!(manager.speakers.len(), 2);
    assert_eq!(manager.speakers[0].user_id, 10);
    assert_eq!(manager.speakers[0].slice.slice_id, 0);
    assert_eq!(manager.speakers[0].slice.buffer_duration(), 200);
    assert_eq!(manager.speakers[1].slice.slice_id, 1);
    assert_eq!(manager.speakers[1].slice.buffer_duration(), 200);
    assert_eq!(manager.next_slice_id, 2);
}

#[test]
fn malformed_frame_dropped() {
    let mut manager = BufferManager::new();
    assert!(manager.on_audio(10, 0, &[1, 2, 3], 5).is_none());
    assert!(manager.speakers.is_empty());
}

#[test]
fn period_crossing_emits_request() {
    let mut manager = BufferManager::new();
    manager.on_audio(10, 0, &pcm(4990, 0), 100);
    let request = manager.on_audio(10, 4990 * T, &pcm(20, 0), 200).unwrap();
    assert_eq!(request.slice_id, 0);
    assert_eq!(request.start_wall, 100);
    assert_eq!(request.duration_ms, 5010);
    assert_eq!(request.audio.len(), 5010 * 16);
}

#[test]
fn silence_then_response_finalizes() {
    let mut manager = BufferManager::new();
    manager.on_audio(10, 0, &pcm(800, 0), 1000);
    let (request, event) = manager.on_silent(10, 3000);
    let request = request.unwrap();
    assert!(event.is_none());
    assert_eq!(request.duration_ms, 800);
    assert!(manager.speakers[0].finalize_pending);
    let response = Transcription {
        start_timestamp: request.start_wall,
        audio_duration: request.duration_ms,
        segments: vec![Segment { text: "hi".to_string(), t_start: 0, t_end: 700, tokens: vec![] }],
    };
    let (events, next) = manager.on_response(request.slice_id, &response, 4000);
    assert!(next.is_none());
    // the head covers 700 ms; the empty 100 ms tail is what finalizing returns
    assert_eq!(events.len(), 2);
    assert_eq!(events[0].user_id, 10);
    assert_eq!(events[0].transcript.segments.len(), 1);
    assert_eq!(events[0].transcript.audio_duration, 700);
    assert_eq!(events[1].transcript.audio_duration, 100);
    assert!(events[1].transcript.segments.is_empty());
    assert!(!manager.speakers[0].finalize_pending);
    assert!(manager.speakers[0].slice.audio.is_empty());
}

#[test]
fn silence_of_unknown_speaker_does_nothing() {
    let mut manager = BufferManager::new();
    let (request, event) = manager.on_silent(3, 10);
    assert!(request.is_none() && event.is_none());
}

#[test]
fn response_for_evicted_slice_dropped() {
    let mut manager = BufferManager::new();
    manager.on_audio(10, 0, &pcm(100, 0), 1000);
    manager.evict(10);
    assert!(manager.speakers.is_empty());
    let response = Transcription { start_timestamp: 1000, audio_duration: 100, segments: vec![] };
    let (events, request) = manager.on_response(0, &response, 2000);
    assert!(events.is_empty() && request.is_none());
    manager.on_audio(10, 0, &pcm(100, 0), 1000);
    assert_eq!(manager.speakers[0].slice.slice_id, 1);
}

#[test]
fn model_failure_keeps_audio() {
    let mut manager = BufferManager::new();
    manager.on_audio(10, 0, &pcm(800, 0), 1000);
    let (request, _) = manager.on_silent(10, 3000);
    let request = request.unwrap();
    manager.on_model_failure(request.slice_id);
    let slice = &manager.speakers[0].slice;
    assert!(!slice.last_request.unwrap().in_progress);
    assert_eq!(slice.buffer_duration(), 800);
    manager.on_model_failure(99);
    assert_eq!(manager.speakers[0].slice.buffer_duration(), 800);
}

#[test]
fn silence_waits_for_in_flight_request() {
    let mut manager = BufferManager::new();
    let first = manager.on_audio(10, 0, &pcm(6000, 0), 50_000).unwrap();
    assert_eq!(first.duration_ms, 6000);
    // the same audio is already being transcribed: wait for it
    let (request, event) = manager.on_silent(10, 56_000);
    assert!(request.is_none() && event.is_none());
    assert!(manager.speakers[0].finalize_pending);
    let response = Transcription {
        start_timestamp: first.start_wall,
        audio_duration: first.duration_ms,
        segments: vec![
            Segment { text: "a".to_string(), t_start: 0, t_end: 2000, tokens: vec![] },
            Segment { text: "b".to_string(), t_start: 2000, t_end: 5500, tokens: vec![] },
        ],
    };
    let (events, request) = manager.on_response(first.slice_id, &response, 57_000);
    // nothing ended a second before the request, so all is tentative; it
    // covers the whole buffer, so finalizing hands it back and drains the slice
    assert!(request.is_none());
    assert_eq!(events.len(), 1);
    assert_eq!(events[0].transcript.segments.len(), 2);
    assert_eq!(events[0].transcript.audio_duration, 6000);
    assert!(!manager.speakers[0].finalize_pending);
    assert!(manager.speakers[0].slice.audio.is_empty());
}

#[test]
fn silence_after_late_audio_overlaps_requests() {
    let mut manager = BufferManager::new();
    let first = manager.on_audio(10, 0, &pcm(6000, 0), 50_000).unwrap();
    assert!(manager.on_audio(10, 6000 * T, &pcm(20, 0), 56_100).is_none());
    let (second, _) = manager.on_silent(10, 56_200);
    let second = second.unwrap();
    assert_eq!(second.duration_ms, 6020);
    let segments = vec![
        Segment { text: "a".to_string(), t_start: 0, t_end: 2000, tokens: vec![] },
        Segment { text: "b".to_string(), t_start: 2000, t_end: 5500, tokens: vec![] },
    ];
    let stale = Transcription {
        start_timestamp: first.start_wall,
        audio_duration: first.duration_ms,
        segments: segments.clone(),
    };
    let (events, request) = manager.on_response(first.slice_id, &stale, 57_000);
    assert!(events.is_empty() && request.is_none());
    let fresh = Transcription {
        start_timestamp: second.start_wall,
        audio_duration: second.duration_ms,
        segments,
    };
    let (events, request) = manager.on_response(second.slice_id, &fresh, 58_000);
    assert!(request.is_none());
    assert_eq!(events.len(), 2);
    assert_eq!(events[0].transcript.audio_duration, 2000);
    assert_eq!(events[1].transcript.audio_duration, 4020);
    assert_eq!(events[1].transcript.start_timestamp, 52_000);
    assert!(manager.speakers[0].slice.audio.is_empty());
}

#[test]
fn settling_with_outdated_tentative_asks_for_final_transcript() {
    let mut manager = BufferManager::new();
    let first = manager.on_audio(10, 0, &pcm(6000, 0), 50_000).unwrap();
    manager.on_audio(10, 6000 * T, &pcm(20, 0), 56_100);
    manager.speakers[0].finalize_pending = true;
    let response = Transcription {
        start_timestamp: first.start_wall,
        audio_duration: first.duration_ms,
        segments: vec![Segment { text: "a".to_string(), t_start: 0, t_end: 5900, tokens: vec![] }],
    };
    let (events, request) = manager.on_response(first.slice_id, &response, 57_000);
    assert!(events.is_empty());
    let request = request.unwrap();
    assert_eq!(request.duration_ms, 6020);
    let slice = &manager.speakers[0].slice;
    assert!(slice.finalized);
    assert!(slice.last_request.unwrap().final_request);
    assert!(manager.speakers[0].finalize_pending);
}
