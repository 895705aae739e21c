//! Per-task progress record used to resume processing of a video.

use vstd::prelude::*;

verus! {

/// Processing status of one segment of the video.
#[derive(Clone, Copy, Debug, PartialEq, Eq, Structural)]
pub enum SegmentStatus {
    Pending,
    Processing,
    Completed,
    Failed,
}

/// Progress of one segment: its time range in milliseconds, its status and
/// the subtitle file written for it.
#[derive(Clone, Debug)]
pub struct SegmentProgress {
    pub segment_id: usize,
    pub start_time_ms: i64,
    pub end_time_ms: i64,
    pub status: SegmentStatus,
    pub subtitle_file: String,
}

/// The progress record of one task.
#[derive(Clone, Debug)]
pub struct Checkpoint {
    pub task_id: String,
    pub video_path: String,
    pub segments: Vec<SegmentProgress>,
}

/// Position `i` holds the first pending segment of `segs`.
pub open spec fn is_first_pending(segs: Seq<SegmentProgress>, i: int) -> bool {
    &&& 0 <= i < segs.len()
    &&& segs[i].status == SegmentStatus::Pending
    &&& forall|j: int| 0 <= j < i ==> segs[j].status != SegmentStatus::Pending
}

impl Checkpoint {
    /// A record for `task_id` on `video_path`, with no segments yet.
    pub fn new(task_id: String, video_path: String) -> (r: Checkpoint)
        ensures
            r.task_id == task_id,
            r.video_path == video_path,
            r.segments@.len() == 0,
    {
        Checkpoint { task_id, video_path, segments: Vec::new() }
    }

    /// The id of the first segment still pending, or `None` when no segment
    /// is pending.
    pub fn next_pending_segment(&self) -> (r: Option<usize>)
        ensures
            match r {
                Some(id) => exists|i: int|
                    is_first_pending(self.segments@, i) && #[trigger] self.segments@[i].segment_id == id,
                None => forall|i: int|
                    0 <= i < self.segments@.len() ==> #[trigger] self.segments@[i].status
                        != SegmentStatus::Pending,
            },
    {
        let n = self.segments.len();
        let mut i: usize = 0;
        while i < n
            invariant
                i <= n,
                n == self.segments@.len(),
                forall|j: int| 0 <= j < i ==> #[trigger] self.segments@[j].status != SegmentStatus::Pending,
            decreases n - i,
        {
            if self.segments[i].status == SegmentStatus::Pending {
                assert(is_first_pending(self.segments@, i as int));
                return Some(self.segments[i].segment_id);
            }
            i = i + 1;
        }
        None
    }
}

} // verus!
