use pick_up_sound_text::checkpoint::{Checkpoint, SegmentProgress, SegmentStatus};

#[test]
fn test_next_pending_segment() {
    let mut checkpoint = Checkpoint::new("test_task".to_string(), "test.mp4".to_string());

    checkpoint.segments.push(SegmentProgress {
        segment_id: 0,
        start_time_ms: 0,
        end_time_ms: 600_000,
        status: SegmentStatus::Completed,
        subtitle_file: "segment_0.srt".to_string(),
    });

    checkpoint.segments.push(SegmentProgress {
        segment_id: 1,
        start_time_ms: 595_000,
        end_time_ms: 1_200_000,
        status: SegmentStatus::Pending,
        subtitle_file: "segment_1.srt".to_string(),
    });

    assert_eq!(checkpoint.next_pending_segment(), Some(1));
}

fn seg(id: usize, status: SegmentStatus) -> SegmentProgress {
    SegmentProgress {
        segment_id: id,
        start_time_ms: 0,
        end_time_ms: 0,
        status,
        subtitle_file: String::new(),
    }
}

#[test]
fn new_checkpoint_has_nothing_pending() {
    let c = Checkpoint::new("t".to_string(), "v.mp4".to_string());
    assert_eq!(c.task_id, "t");
    assert_eq!(c.video_path, "v.mp4");
    assert!(c.segments.is_empty());
    assert_eq!(c.next_pending_segment(), None);
}

#[test]
fn first_pending_wins() {
    let mut c = Checkpoint::new("t".to_string(), "v.mp4".to_string());
    c.segments.push(seg(7, SegmentStatus::Failed));
    c.segments.push(seg(9, SegmentStatus::Pending));
    c.segments.push(seg(3, SegmentStatus::Pending));
    assert_eq!(c.next_pending_segment(), Some(9));
}

#[test]
fn no_pending_segment() {
    let mut c = Checkpoint::new("t".to_string(), "v.mp4".to_string());
    c.segments.push(seg(0, SegmentStatus::Processing));
    c.segments.push(seg(1, SegmentStatus::Completed));
    assert_eq!(c.next_pending_segment(), None);
}
