//! Audio from a video file: 16-bit little-endian PCM coding and the plan
//! that cuts the file into overlapping chunks.

use vstd::prelude::*;
use crate::error::{AppError, ErrorView};

verus! {

/// A chunk of 16 kHz mono audio, with where it starts on the content
/// timeline and on the wall clock.
#[derive(Clone, Debug)]
pub struct AudioChunk {
    pub pcm: Vec<i16>,
    pub content_time_ms: i64,
    pub wall_time_ms: i64,
}

/// The sample coded by the little-endian byte pair `(lo, hi)`.
pub open spec fn sample_from_le(lo: u8, hi: u8) -> i16 {
    let u = lo + 256 * hi;
    if u < 32768 {
        u as i16
    } else {
        (u - 65536) as i16
    }
}

/// The two's-complement value of a sample as an unsigned 16-bit number.
pub open spec fn sample_bits(s: i16) -> int {
    if s < 0 {
        s + 65536
    } else {
        s as int
    }
}

/// The little-endian bytes of each sample, in order.
pub open spec fn pcm_le_bytes(pcm: Seq<i16>) -> Seq<u8> {
    Seq::new(
        2 * pcm.len(),
        |i: int|
            if i % 2 == 0 {
                (sample_bits(pcm[i / 2]) % 256) as u8
            } else {
                (sample_bits(pcm[i / 2]) / 256) as u8
            },
    )
}

/// The samples coded by consecutive byte pairs; a trailing odd byte is
/// ignored.
pub open spec fn pcm_from_bytes(bytes: Seq<u8>) -> Seq<i16> {
    Seq::new(bytes.len() / 2, |i: int| sample_from_le(bytes[2 * i], bytes[2 * i + 1]))
}

/// Decodes 16-bit little-endian PCM: one sample per consecutive byte pair,
/// a trailing odd byte ignored.
pub fn pcm_from_le_bytes(bytes: &[u8]) -> (pcm: Vec<i16>)
    ensures
        pcm@ == pcm_from_bytes(bytes@),
{
    let len = bytes.len();
    let n = len / 2;
    let mut out: Vec<i16> = Vec::new();
    let mut i: usize = 0;
    while i < n
        invariant
            i <= n,
            len == bytes@.len(),
            n == len / 2,
            out@ == pcm_from_bytes(bytes@).take(i as int),
        decreases n - i,
    {
        let lo = bytes[2 * i];
        let hi = bytes[2 * i + 1];
        let u: i32 = lo as i32 + 256 * (hi as i32);
        let s: i16 = if u < 32768 { u as i16 } else { (u - 65536) as i16 };
        out.push(s);
        i = i + 1;
        assert(out@ =~= pcm_from_bytes(bytes@).take(i as int));
    }
    assert(pcm_from_bytes(bytes@).take(n as int) =~= pcm_from_bytes(bytes@));
    out
}

/// Encodes samples as 16-bit little-endian PCM.
pub fn pcm_to_le_bytes(pcm: &[i16]) -> (bytes: Vec<u8>)
    requires
        2 * pcm@.len() <= usize::MAX,
    ensures
        bytes@ == pcm_le_bytes(pcm@),
{
    let n = pcm.len();
    let mut out: Vec<u8> = Vec::new();
    let mut i: usize = 0;
    while i < n
        invariant
            i <= n,
            n == pcm@.len(),
            2 * n <= usize::MAX,
            out@ == pcm_le_bytes(pcm@).take(2 * i),
        decreases n - i,
    {
        let s = pcm[i];
        let u: i32 = if s < 0 { s as i32 + 65536 } else { s as i32 };
        out.push((u % 256) as u8);
        out.push((u / 256) as u8);
        i = i + 1;
        assert(out@ =~= pcm_le_bytes(pcm@).take(2 * i));
    }
    assert(pcm_le_bytes(pcm@).take(2 * n) =~= pcm_le_bytes(pcm@));
    out
}

/// Decoding the encoding of any samples gives them back.
pub proof fn law_pcm_roundtrip(pcm: Seq<i16>)
    ensures
        pcm_from_bytes(pcm_le_bytes(pcm)) == pcm,
{
    let b = pcm_le_bytes(pcm);
    assert forall|i: int| 0 <= i < pcm.len() implies #[trigger] pcm_from_bytes(b)[i] == pcm[i] by {
        assert((2 * i) / 2 == i);
        assert((2 * i + 1) / 2 == i);
        assert((2 * i) % 2 == 0);
        assert((2 * i + 1) % 2 == 1);
        let u = sample_bits(pcm[i]);
        assert(u % 256 + 256 * (u / 256) == u);
    }
    assert(pcm_from_bytes(b) =~= pcm);
}

/// Length of each chunk without its overlap: ten minutes.
pub const SEGMENT_NANOS: u128 = 600_000_000_000;

/// Audio each chunk shares with the next: five seconds.
pub const OVERLAP_NANOS: u128 = 5_000_000_000;

/// The longest duration a `std::time::Duration` holds, in nanoseconds.
pub const MAX_DURATION_NANOS: u128 = 18446744073709551615999999999;

/// Where to cut the next chunk: its start and length in nanoseconds.
#[derive(Clone, Copy, Debug, PartialEq, Eq)]
pub struct ChunkPlan {
    pub start_ns: u128,
    pub duration_ns: u128,
}

/// Cuts a video's audio into chunks of ten minutes plus five seconds of
/// overlap, each chunk starting ten minutes after the previous one. Times are
/// on the file's own timeline, in nanoseconds.
pub struct FileAudioSource {
    video_path: String,
    current_position_ns: u128,
    total_duration_ns: u128,
    segment_duration_ns: u128,
    overlap_duration_ns: u128,
}

/// A [`FileAudioSource`] as values: path, position, total length, chunk step
/// and overlap.
pub struct AudioSourceView {
    pub video_path: Seq<char>,
    pub position_ns: nat,
    pub total_ns: nat,
    pub segment_ns: nat,
    pub overlap_ns: nat,
}

impl View for FileAudioSource {
    type V = AudioSourceView;

    closed spec fn view(&self) -> AudioSourceView {
        AudioSourceView {
            video_path: self.video_path@,
            position_ns: self.current_position_ns as nat,
            total_ns: self.total_duration_ns as nat,
            segment_ns: self.segment_duration_ns as nat,
            overlap_ns: self.overlap_duration_ns as nat,
        }
    }
}

/// Length of the chunk starting at the current position: the chunk step
/// plus the overlap, cut short at the end of the file.
pub open spec fn chunk_duration(v: AudioSourceView) -> nat {
    if v.segment_ns + v.overlap_ns <= v.total_ns - v.position_ns {
        v.segment_ns + v.overlap_ns
    } else {
        (v.total_ns - v.position_ns) as nat
    }
}

/// Chunks cover the file without gaps: a chunk never runs past the end of
/// the file; when the next chunk starts before the end, this one runs on
/// into it by the overlap; otherwise this one reaches the end.
pub proof fn law_chunks_cover_file(v: AudioSourceView)
    requires
        v.position_ns < v.total_ns,
        v.segment_ns == SEGMENT_NANOS,
        v.overlap_ns == OVERLAP_NANOS,
    ensures
        v.position_ns + chunk_duration(v) <= v.total_ns,
        v.position_ns + v.segment_ns + v.overlap_ns <= v.total_ns ==> v.position_ns + chunk_duration(v)
            == v.position_ns + v.segment_ns + v.overlap_ns,
        v.position_ns + v.segment_ns < v.total_ns ==> v.position_ns + chunk_duration(v) > v.position_ns
            + v.segment_ns,
        v.position_ns + v.segment_ns >= v.total_ns ==> v.position_ns + chunk_duration(v) == v.total_ns,
{
}

pub open spec fn end_of_file_text() -> Seq<char> {
    "End of file"@
}

pub open spec fn seek_beyond_text() -> Seq<char> {
    "Seek position beyond file duration"@
}

impl FileAudioSource {
    #[verifier::type_invariant]
    spec fn bounded(&self) -> bool {
        &&& self.total_duration_ns <= MAX_DURATION_NANOS
        &&& self.segment_duration_ns == SEGMENT_NANOS
        &&& self.overlap_duration_ns == OVERLAP_NANOS
        &&& self.current_position_ns <= MAX_DURATION_NANOS + SEGMENT_NANOS
    }

    /// A source for `video_path`, whose audio lasts `total_duration_ns`,
    /// positioned at its start.
    pub fn new(video_path: String, total_duration_ns: u128) -> (r: FileAudioSource)
        requires
            total_duration_ns <= MAX_DURATION_NANOS,
        ensures
            r@.video_path == video_path@,
            r@.position_ns == 0,
            r@.total_ns == total_duration_ns,
            r@.segment_ns == SEGMENT_NANOS,
            r@.overlap_ns == OVERLAP_NANOS,
    {
        FileAudioSource {
            video_path,
            current_position_ns: 0,
            total_duration_ns,
            segment_duration_ns: SEGMENT_NANOS,
            overlap_duration_ns: OVERLAP_NANOS,
        }
    }

    /// The path of the video file.
    pub fn video_path(&self) -> (r: String)
        ensures
            self@.segment_ns == SEGMENT_NANOS,
            self@.overlap_ns == OVERLAP_NANOS,
            r@ == self@.video_path,
    {
        proof {
            use_type_invariant(self);
        }
        self.video_path.clone()
    }

    /// Where the next chunk starts.
    pub fn position_ns(&self) -> (r: u128)
        ensures
            r == self@.position_ns,
    {
        self.current_position_ns
    }

    /// Where the next chunk lies, or the end-of-file error once the position
    /// has reached the end: the chunk starts at the position and lasts the
    /// chunk step plus the overlap, cut short at the end of the file.
    pub fn plan_next_chunk(&self) -> (r: Result<ChunkPlan, AppError>)
        ensures
            self@.segment_ns == SEGMENT_NANOS,
            self@.overlap_ns == OVERLAP_NANOS,
            match r {
                Ok(p) => {
                    &&& self@.position_ns < self@.total_ns
                    &&& p.start_ns == self@.position_ns
                    &&& p.duration_ns == chunk_duration(self@)
                },
                Err(e) => self@.position_ns >= self@.total_ns && e@ == ErrorView::AudioSource(
                    end_of_file_text(),
                ),
            },
    {
        proof {
            use_type_invariant(self);
        }
        if self.current_position_ns >= self.total_duration_ns {
            let msg = String::from_str("End of file");
            return Err(AppError::AudioSource(msg));
        }
        let remaining = self.total_duration_ns - self.current_position_ns;
        let full = self.segment_duration_ns + self.overlap_duration_ns;
        let duration_ns = if full <= remaining { full } else { remaining };
        Ok(ChunkPlan { start_ns: self.current_position_ns, duration_ns })
    }

    /// The chunk of audio `pcm` cut at the current position, which is where
    /// it starts on both timelines (in whole milliseconds); the position then
    /// moves on by one chunk step (without the overlap).
    pub fn finish_chunk(&mut self, pcm: Vec<i16>) -> (c: AudioChunk)
        requires
            old(self)@.position_ns < old(self)@.total_ns,
        ensures
            old(self)@.segment_ns == SEGMENT_NANOS,
            old(self)@.overlap_ns == OVERLAP_NANOS,
            c.pcm@ == pcm@,
            c.content_time_ms == (old(self)@.position_ns / 1_000_000) as i64,
            c.wall_time_ms == (old(self)@.position_ns / 1_000_000) as i64,
            final(self)@ == (AudioSourceView {
                position_ns: old(self)@.position_ns + old(self)@.segment_ns,
                ..old(self)@
            }),
    {
        proof {
            use_type_invariant(&*self);
        }
        let ms = self.current_position_ns / 1_000_000;
        let c = AudioChunk { pcm, content_time_ms: ms as i64, wall_time_ms: ms as i64 };
        self.current_position_ns = self.current_position_ns + self.segment_duration_ns;
        c
    }

    /// Moves to `pos_ns`; a position past the end of the file is refused and
    /// leaves the source as it was.
    pub fn seek(&mut self, pos_ns: u128) -> (r: Result<(), AppError>)
        ensures
            old(self)@.segment_ns == SEGMENT_NANOS,
            old(self)@.overlap_ns == OVERLAP_NANOS,
            match r {
                Ok(()) => pos_ns <= old(self)@.total_ns && final(self)@ == (AudioSourceView {
                    position_ns: pos_ns as nat,
                    ..old(self)@
                }),
                Err(e) => pos_ns > old(self)@.total_ns && final(self)@ == old(self)@ && e@
                    == ErrorView::AudioSource(seek_beyond_text()),
            },
    {
        proof {
            use_type_invariant(&*self);
        }
        if pos_ns > self.total_duration_ns {
            return Err(AppError::AudioSource(String::from_str("Seek position beyond file duration")));
        }
        self.current_position_ns = pos_ns;
        Ok(())
    }

    /// A file source can always seek.
    pub fn supports_seek(&self) -> (r: bool)
        ensures
            r,
    {
        true
    }

    /// The length of the file's audio.
    pub fn total_duration(&self) -> (r: Option<u128>)
        ensures
            r == Some(self@.total_ns as u128),
    {
        Some(self.total_duration_ns)
    }
}

} // verus!
