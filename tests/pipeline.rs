use whisper_stream::pcm::decode_pcm16;
use whisper_stream::session::{acknowledgment, Inbound, Reaction, Session};
use whisper_stream::speech::{silence_run, SpeechBuffer, CAPACITY, MIN_SAMPLES};
use whisper_stream::transcript::{alignment_marker, render_transcript, TranscriptSegment};

fn frame_of(samples: &[i16]) -> Vec<u8> {
    let mut out = Vec::new();
    for s in samples {
        out.extend_from_slice(&s.to_le_bytes());
    }
    out
}

fn converted_stand_in(n: usize) -> Vec<u32> {
    (0..n).map(|i| 0x3f00_0000u32 + i as u32).collect()
}

#[test]
fn silence_run_is_sixteen_zero_samples_per_ms() {
    let r = silence_run(2000);
    assert_eq!(r.len(), 32000);
    assert!(r.iter().all(|&x| x == 0));
    assert_eq!(silence_run(1).len(), 16);
    assert!(silence_run(0).is_empty());
}

#[test]
fn append_below_capacity_keeps_everything() {
    let mut b = SpeechBuffer::new();
    b.append(&vec![1, 2, 3]);
    b.append(&vec![4]);
    assert_eq!(b.len(), 4);
    assert_eq!(b.snapshot_and_clear(), vec![1, 2, 3, 4]);
}

#[test]
fn overflow_keeps_the_latest_samples_in_order() {
    let mut b = SpeechBuffer::new();
    let first: Vec<u32> = (0..400_000u32).collect();
    let second: Vec<u32> = (400_000..480_010u32).collect();
    b.append(&first);
    b.append(&second);
    assert_eq!(b.len(), CAPACITY);
    let held = b.snapshot_and_clear();
    assert_eq!(held.len(), 480_000);
    let expected: Vec<u32> = (10..480_010u32).collect();
    assert_eq!(held, expected);
}

#[test]
fn second_snapshot_is_empty() {
    let mut b = SpeechBuffer::new();
    b.append(&vec![7, 8, 9]);
    assert_eq!(b.snapshot_and_clear(), vec![7, 8, 9]);
    assert!(b.snapshot_and_clear().is_empty());
    assert_eq!(b.len(), 0);
}

#[test]
fn drain_below_one_second_skips_but_empties() {
    let mut b = SpeechBuffer::new();
    b.append(&converted_stand_in(MIN_SAMPLES - 1));
    assert!(b.drain_for_transcription().is_none());
    assert_eq!(b.len(), 0);
}

#[test]
fn drain_of_one_second_hands_it_on_and_empties() {
    let mut b = SpeechBuffer::new();
    let s = converted_stand_in(16000);
    b.append(&s);
    assert_eq!(b.drain_for_transcription(), Some(s));
    assert_eq!(b.len(), 0);
    assert!(b.drain_for_transcription().is_none());
}

#[test]
fn idle_timeout_dispatches_once_per_period() {
    let mut s = Session::new(0);
    assert!(matches!(s.step(Inbound::IdleTimeout, 1500), Reaction::Dispatch));
    assert_eq!(s.last_ms, 1500);
    assert!(matches!(s.step(Inbound::IdleTimeout, 3000), Reaction::Dispatch));
    assert!(s.open);
}

#[test]
fn scenario_one_second_frame_without_gap() {
    let samples: Vec<i16> = (0..48_000).map(|i| ((i % 200) as i16 - 100) * 50).collect();
    let bytes = frame_of(&samples);
    assert_eq!(bytes.len(), 96_000);
    let mut s = Session::new(10);
    match s.step(Inbound::Binary(bytes), 10) {
        Reaction::Ingest { elapsed_ms, pcm } => {
            assert_eq!(elapsed_ms, 0);
            assert_eq!(pcm.len(), 48_000);
            assert_eq!(pcm, samples);
            let mut b = SpeechBuffer::new();
            b.ingest(elapsed_ms, &converted_stand_in(16_000));
            let held = b.snapshot_and_clear();
            assert_eq!(held.len(), 16_000);
            assert!(held.iter().all(|&x| x != 0));
        }
        _ => panic!("a binary frame must be ingested"),
    }
    assert_eq!(acknowledgment(), "ok");
}

#[test]
fn scenario_gap_of_two_seconds_then_frame() {
    let mut s = Session::new(0);
    let bytes = frame_of(&[100, -100, 300]);
    match s.step(Inbound::Binary(bytes), 2000) {
        Reaction::Ingest { elapsed_ms, pcm } => {
            assert_eq!(elapsed_ms, 2000);
            assert_eq!(pcm, vec![100, -100, 300]);
            let mut b = SpeechBuffer::new();
            let conv = converted_stand_in(5);
            b.ingest(elapsed_ms, &conv);
            let held = b.snapshot_and_clear();
            assert_eq!(held.len(), 32_005);
            assert!(held[..32_000].iter().all(|&x| x == 0));
            assert_eq!(&held[32_000..], &conv[..]);
        }
        _ => panic!("a binary frame must be ingested"),
    }
}

#[test]
fn scenario_three_idle_timeouts_without_frames() {
    let mut s = Session::new(0);
    let mut b = SpeechBuffer::new();
    for k in 1..=3u64 {
        assert!(matches!(s.step(Inbound::IdleTimeout, 1500 * k), Reaction::Dispatch));
        assert!(b.drain_for_transcription().is_none());
        assert_eq!(b.len(), 0);
    }
}

#[test]
fn elapsed_is_measured_from_previous_reaction_point() {
    let mut s = Session::new(100);
    assert!(matches!(s.step(Inbound::NonBinary, 400), Reaction::Ignore));
    match s.step(Inbound::Binary(vec![1, 0]), 1000) {
        Reaction::Ingest { elapsed_ms, pcm } => {
            assert_eq!(elapsed_ms, 600);
            assert_eq!(pcm, vec![1]);
        }
        _ => panic!("a binary frame must be ingested"),
    }
    assert!(matches!(s.step(Inbound::IdleTimeout, 2500), Reaction::Dispatch));
    match s.step(Inbound::Binary(vec![]), 2600) {
        Reaction::Ingest { elapsed_ms, pcm } => {
            assert_eq!(elapsed_ms, 100);
            assert!(pcm.is_empty());
        }
        _ => panic!("a binary frame must be ingested"),
    }
}

#[test]
fn elapsed_is_clamped_at_zero() {
    let mut s = Session::new(500);
    match s.step(Inbound::Binary(vec![0, 0]), 200) {
        Reaction::Ingest { elapsed_ms, .. } => assert_eq!(elapsed_ms, 0),
        _ => panic!("a binary frame must be ingested"),
    }
}

#[test]
fn closed_channel_stops_the_session() {
    let mut s = Session::new(0);
    assert!(matches!(s.step(Inbound::Closed, 5), Reaction::Stop));
    assert!(!s.open);
    assert!(matches!(s.step(Inbound::IdleTimeout, 5000), Reaction::Stop));
    assert!(matches!(s.step(Inbound::Binary(vec![1, 2]), 6000), Reaction::Stop));
}

#[test]
fn channel_error_fails_the_session() {
    let mut s = Session::new(0);
    assert!(matches!(s.step(Inbound::Failed, 5), Reaction::Fail));
    assert!(!s.open);
}

#[test]
fn decodes_little_endian_pcm16() {
    let r = decode_pcm16(&vec![0x01, 0x00, 0xff, 0xff, 0x00, 0x80, 0xff, 0x7f, 0x34, 0x12, 0x05]);
    assert_eq!(r, vec![1, -1, -32768, 32767, 0x1234]);
    assert!(decode_pcm16(&vec![]).is_empty());
    assert!(decode_pcm16(&vec![9]).is_empty());
}

#[test]
fn renders_one_segment() {
    let seg = TranscriptSegment { text: String::from(" hello"), start: 0, end: 150, marker: -1 };
    assert_eq!(seg.render(), "[0 - 150 (-1)]:  hello");
    let seg = TranscriptSegment { text: String::new(), start: i64::MIN, end: i64::MAX, marker: 42 };
    assert_eq!(
        seg.render(),
        "[-9223372036854775808 - 9223372036854775807 (42)]: "
    );
}

#[test]
fn renders_segments_run_together() {
    let segs = vec![
        TranscriptSegment { text: String::from(" a"), start: 0, end: 10, marker: 3 },
        TranscriptSegment { text: String::from(" b"), start: 10, end: 20, marker: -1 },
    ];
    assert_eq!(render_transcript(&segs), "[0 - 10 (3)]:  a[10 - 20 (-1)]:  b");
    assert_eq!(render_transcript(&vec![]), "");
}

#[test]
fn alignment_marker_falls_back_to_minus_one() {
    assert_eq!(alignment_marker(Some(3), Some(77)), 77);
    assert_eq!(alignment_marker(Some(3), None), -1);
    assert_eq!(alignment_marker(Some(0), Some(77)), -1);
    assert_eq!(alignment_marker(None, Some(77)), -1);
}

