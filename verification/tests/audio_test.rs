use pick_up_sound_text::audio::{pcm_from_le_bytes, pcm_to_le_bytes, ChunkPlan, FileAudioSource};
use pick_up_sound_text::error::AppError;

const S: u128 = 1_000_000_000;

#[test]
fn pcm_encoding_is_little_endian() {
    assert_eq!(pcm_to_le_bytes(&[1, -1, 256, i16::MIN, i16::MAX]), vec![1, 0, 255, 255, 0, 1, 0, 128, 255, 127]);
}

#[test]
fn pcm_decoding_drops_odd_byte() {
    assert_eq!(pcm_from_le_bytes(&[1, 0, 255, 255, 0x34, 0x12, 9]), vec![1, -1, 0x1234]);
    assert_eq!(pcm_from_le_bytes(&[]), Vec::<i16>::new());
}

#[test]
fn pcm_roundtrip() {
    let pcm: Vec<i16> = vec![0, 1, -1, 12345, -12345, i16::MIN, i16::MAX];
    assert_eq!(pcm_from_le_bytes(&pcm_to_le_bytes(&pcm)), pcm);
}

#[test]
fn chunks_step_ten_minutes_with_overlap() {
    let mut src = FileAudioSource::new("a.mp4".to_string(), 1500 * S);
    assert!(src.supports_seek());
    assert_eq!(src.total_duration(), Some(1500 * S));
    assert_eq!(src.video_path(), "a.mp4");

    let p = src.plan_next_chunk().unwrap();
    assert_eq!(p, ChunkPlan { start_ns: 0, duration_ns: 605 * S });
    let c = src.finish_chunk(vec![1, 2]);
    assert_eq!(c.pcm, vec![1, 2]);
    assert_eq!(c.content_time_ms, 0);
    assert_eq!(c.wall_time_ms, 0);

    let p = src.plan_next_chunk().unwrap();
    assert_eq!(p, ChunkPlan { start_ns: 600 * S, duration_ns: 605 * S });
    let c = src.finish_chunk(vec![]);
    assert_eq!(c.content_time_ms, 600_000);

    // The last chunk is cut at the end of the file.
    let p = src.plan_next_chunk().unwrap();
    assert_eq!(p, ChunkPlan { start_ns: 1200 * S, duration_ns: 300 * S });
    src.finish_chunk(vec![]);

    match src.plan_next_chunk() {
        Err(AppError::AudioSource(m)) => assert_eq!(m, "End of file"),
        other => panic!("expected end of file, got {:?}", other),
    }
}

#[test]
fn last_segment_boundary() {
    let mut src = FileAudioSource::new("a.mp4".to_string(), 30 * S);
    src.seek(29 * S).unwrap();
    let p = src.plan_next_chunk().unwrap();
    assert_eq!(p, ChunkPlan { start_ns: 29 * S, duration_ns: S });
    let c = src.finish_chunk(vec![]);
    assert_eq!(c.content_time_ms, 29_000);
    assert!(src.plan_next_chunk().is_err());
}

#[test]
fn seek_past_end_is_refused() {
    let mut src = FileAudioSource::new("a.mp4".to_string(), 30 * S);
    match src.seek(31 * S) {
        Err(AppError::AudioSource(m)) => assert_eq!(m, "Seek position beyond file duration"),
        other => panic!("expected a seek error, got {:?}", other),
    }
    assert_eq!(src.position_ns(), 0);
    assert!(src.seek(30 * S).is_ok());
    assert_eq!(src.position_ns(), 30 * S);
    assert!(src.plan_next_chunk().is_err());
}
