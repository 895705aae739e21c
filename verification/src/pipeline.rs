//! File-mode pipeline: overlap de-duplication between consecutive
//! recognition results and the state machine that drives
//! audio -> recognition -> translation -> subtitle entries.

use vstd::prelude::*;
use crate::asr::{AsrConfig, AsrEvent, AsrEventView};
use crate::error::{error_message, AppError, ErrorView};
use crate::subtitle::{lemma_entry_views_update, lemma_entry_views_push, lemma_entry_views_take, entry_views, EntryView, SubtitleEntry, SubtitleStatus};
use crate::translate::{TranslateRequest, TranslateRequestView};
use crate::text::{lemma_string_views_push, string_views, 
    collect_chars, eq_ascii_nocase, is_unicode_whitespace, lemma_trim_end_len_bound, to_ascii_lower,
    trim_end_len, trim_end_spec,
};

verus! {

/// The last `k` characters of `p` equal the first `k` characters of `n`,
/// ignoring ASCII case.
pub open spec fn overlap_matches(p: Seq<char>, n: Seq<char>, k: int) -> bool {
    forall|i: int| 0 <= i < k ==> #[trigger] eq_ascii_nocase(p[p.len() - k + i], n[i])
}

/// The largest `k <= upper` for which `overlap_matches` holds, or 0.
pub open spec fn best_overlap(p: Seq<char>, n: Seq<char>, upper: nat) -> nat
    decreases upper,
{
    if upper == 0 {
        0
    } else if overlap_matches(p, n, upper as int) {
        upper
    } else {
        best_overlap(p, n, (upper - 1) as nat)
    }
}

pub open spec fn min_nat(a: nat, b: nat) -> nat {
    if a <= b { a } else { b }
}

/// What `dedup_overlap(prev, next, max_overlap)` returns: `next` without its
/// longest prefix (at most `max_overlap` characters) that equals, up to ASCII
/// case, a suffix of `prev` with its trailing whitespace removed.
pub open spec fn dedup_overlap_spec(prev: Seq<char>, next: Seq<char>, max_overlap: nat) -> Seq<char> {
    if prev.len() == 0 || next.len() == 0 || max_overlap == 0 {
        next
    } else {
        let p = trim_end_spec(prev);
        let upper = min_nat(min_nat(max_overlap, p.len()), next.len());
        next.skip(best_overlap(p, next, upper) as int)
    }
}

pub proof fn lemma_best_overlap_bound(p: Seq<char>, n: Seq<char>, upper: nat)
    ensures
        best_overlap(p, n, upper) <= upper,
        best_overlap(p, n, upper) == 0 || overlap_matches(p, n, best_overlap(p, n, upper) as int),
    decreases upper,
{
    if upper > 0 && !overlap_matches(p, n, upper as int) {
        lemma_best_overlap_bound(p, n, (upper - 1) as nat);
    }
}

/// Whether the last `k` characters of `p` equal the first `k` of `n` up to
/// ASCII case.
fn overlap_matches_exec(p: &Vec<char>, n: &Vec<char>, k: usize) -> (r: bool)
    requires
        k <= p@.len(),
        k <= n@.len(),
    ensures
        r == overlap_matches(p@, n@, k as int),
{
    let plen = p.len();
    let start = plen - k;
    let mut i: usize = 0;
    while i < k
        invariant
            i <= k,
            k <= p@.len(),
            k <= n@.len(),
            start + k == plen,
            plen == p@.len(),
            forall|j: int| 0 <= j < i ==> #[trigger] eq_ascii_nocase(p@[p@.len() - k + j], n@[j]),
        decreases k - i,
    {
        if to_ascii_lower(p[start + i]) != to_ascii_lower(n[i]) {
            assert(!eq_ascii_nocase(p@[p@.len() - k + i], n@[i as int]));
            return false;
        }
        i = i + 1;
    }
    true
}

/// Number of characters of `s` left once trailing whitespace is removed.
fn trim_end_count(s: &Vec<char>) -> (r: usize)
    ensures
        r == trim_end_len(s@),
{
    let mut end = s.len();
    assert(s@.take(end as int) =~= s@);
    while end > 0 && crate::text::is_whitespace_char(s[end - 1])
        invariant
            end <= s@.len(),
            trim_end_len(s@) == trim_end_len(s@.take(end as int)),
        decreases end,
    {
        assert(s@.take(end as int).drop_last() =~= s@.take(end - 1));
        end = end - 1;
    }
    proof {
        if end > 0 {
            assert(!is_unicode_whitespace(s@.take(end as int).last()));
        }
        assert(s@.take(s@.len() as int) =~= s@);
    }
    end
}

/// De-duplicate overlap between two consecutive recognition results.
///
/// Finds the longest suffix of `prev` (trailing whitespace removed) that is
/// also a prefix of `next`, comparing characters up to ASCII case and
/// looking at no more than `max_overlap` characters, and returns `next` with
/// that prefix stripped. When `prev` or `next` is empty, or `max_overlap` is
/// zero, `next` comes back unchanged.
pub fn dedup_overlap(prev: &str, next: &str, max_overlap: usize) -> (r: String)
    ensures
        r@ == dedup_overlap_spec(prev@, next@, max_overlap as nat),
{
    if prev.is_empty() || next.is_empty() || max_overlap == 0 {
        return next.to_owned();
    }
    let prev_all = collect_chars(prev);
    let next_chars = collect_chars(next);
    let p_len = trim_end_count(&prev_all);
    proof {
        lemma_trim_end_len_bound(prev@);
    }
    let mut prev_chars: Vec<char> = Vec::new();
    let mut j: usize = 0;
    while j < p_len
        invariant
            j <= p_len,
            p_len <= prev_all@.len(),
            prev_chars@ == prev_all@.take(j as int),
        decreases p_len - j,
    {
        prev_chars.push(prev_all[j]);
        j = j + 1;
        assert(prev_chars@ =~= prev_all@.take(j as int));
    }
    let ghost p = trim_end_spec(prev@);
    assert(prev_chars@ == p);

    let mut upper = max_overlap;
    if prev_chars.len() < upper {
        upper = prev_chars.len();
    }
    if next_chars.len() < upper {
        upper = next_chars.len();
    }
    let mut best: usize = 0;
    let mut k: usize = 0;
    while k < upper
        invariant
            k <= upper,
            upper <= prev_chars@.len(),
            upper <= next_chars@.len(),
            best as nat == best_overlap(prev_chars@, next_chars@, k as nat),
        decreases upper - k,
    {
        let kk = k + 1;
        if overlap_matches_exec(&prev_chars, &next_chars, kk) {
            best = kk;
        }
        k = kk;
    }
    proof {
        lemma_best_overlap_bound(prev_chars@, next_chars@, upper as nat);
    }
    let n_len = next_chars.len();
    next.substring_char(best, n_len).to_owned()
}


/// Where the processing of a file stands.
#[derive(Clone, Debug, PartialEq)]
pub enum PipelineState {
    Idle,
    Processing,
    Completed,
    Exported,
    Failed(String),
}

/// A [`PipelineState`] with the failure message as a character sequence.
pub enum PipelineStateView {
    Idle,
    Processing,
    Completed,
    Exported,
    Failed(Seq<char>),
}

impl View for PipelineState {
    type V = PipelineStateView;

    open spec fn view(&self) -> PipelineStateView {
        match self {
            PipelineState::Idle => PipelineStateView::Idle,
            PipelineState::Processing => PipelineStateView::Processing,
            PipelineState::Completed => PipelineStateView::Completed,
            PipelineState::Exported => PipelineStateView::Exported,
            PipelineState::Failed(m) => PipelineStateView::Failed(m@),
        }
    }
}

impl PipelineState {
    /// A state with the same variant and message.
    pub fn duplicate(&self) -> (r: PipelineState)
        ensures
            r@ == self@,
    {
        match self {
            PipelineState::Idle => PipelineState::Idle,
            PipelineState::Processing => PipelineState::Processing,
            PipelineState::Completed => PipelineState::Completed,
            PipelineState::Exported => PipelineState::Exported,
            PipelineState::Failed(m) => PipelineState::Failed(m.clone()),
        }
    }
}

/// What the pipeline is waiting for.
#[derive(Clone, Copy, Debug, PartialEq, Eq, Structural)]
pub enum Phase {
    /// Not started.
    Ready,
    /// Waiting for the next audio chunk.
    AwaitChunk,
    /// Waiting for a recognition stream to start and take the chunk's audio.
    AwaitAsrStart,
    /// Waiting for the next recognition event.
    AwaitAsrEvent,
    /// Waiting for the translation of a final recognition result.
    AwaitTranslation,
    /// Waiting for the translation of a de-duplicated first line.
    AwaitRetranslation,
    /// Done, successfully or not.
    Finished,
}

/// What happened outside since the last step.
#[derive(Debug)]
pub enum PipelineEvent {
    /// Processing was asked to start.
    Start,
    /// The audio source produced a chunk starting at these times.
    ChunkReady { content_time_ms: i64, wall_time_ms: i64 },
    /// The audio source failed; an end-of-file error ends processing normally.
    AudioFailed(AppError),
    /// A recognition stream started and took the chunk's audio.
    AsrStarted,
    /// Starting the recognition stream or sending it audio failed.
    AsrStartFailed(AppError),
    /// The recognition stream produced an event.
    Asr(AsrEvent),
    /// Reading the recognition stream failed.
    AsrFailed(AppError),
    /// The translation service answered with this text.
    Translated(String),
    /// The translation service failed.
    TranslateFailed(AppError),
}

pub enum PipelineEventView {
    Start,
    ChunkReady { content_time_ms: i64, wall_time_ms: i64 },
    AudioFailed(ErrorView),
    AsrStarted,
    AsrStartFailed(ErrorView),
    Asr(AsrEventView),
    AsrFailed(ErrorView),
    Translated(Seq<char>),
    TranslateFailed(ErrorView),
}

impl View for PipelineEvent {
    type V = PipelineEventView;

    open spec fn view(&self) -> PipelineEventView {
        match self {
            PipelineEvent::Start => PipelineEventView::Start,
            PipelineEvent::ChunkReady { content_time_ms, wall_time_ms } => PipelineEventView::ChunkReady {
                content_time_ms: *content_time_ms,
                wall_time_ms: *wall_time_ms,
            },
            PipelineEvent::AudioFailed(e) => PipelineEventView::AudioFailed(e@),
            PipelineEvent::AsrStarted => PipelineEventView::AsrStarted,
            PipelineEvent::AsrStartFailed(e) => PipelineEventView::AsrStartFailed(e@),
            PipelineEvent::Asr(a) => PipelineEventView::Asr(a@),
            PipelineEvent::AsrFailed(e) => PipelineEventView::AsrFailed(e@),
            PipelineEvent::Translated(t) => PipelineEventView::Translated(t@),
            PipelineEvent::TranslateFailed(e) => PipelineEventView::TranslateFailed(e@),
        }
    }
}

/// What the driver of the pipeline must do next.
#[derive(Debug)]
pub enum PipelineAction {
    /// Ask the audio source for its next chunk.
    FetchChunk,
    /// Start a recognition stream with [`PipelineCore::asr_config`] and send
    /// it the current chunk's audio.
    StartAsr,
    /// Read the next event of the recognition stream.
    NextAsrEvent,
    /// Send this request to the translation service.
    Translate(TranslateRequest),
    /// Stop, with this result.
    Finish(Result<(), AppError>),
}

pub enum PipelineActionView {
    FetchChunk,
    StartAsr,
    NextAsrEvent,
    Translate(TranslateRequestView),
    /// `None` for success, else the error.
    Finish(Option<ErrorView>),
}

impl View for PipelineAction {
    type V = PipelineActionView;

    open spec fn view(&self) -> PipelineActionView {
        match self {
            PipelineAction::FetchChunk => PipelineActionView::FetchChunk,
            PipelineAction::StartAsr => PipelineActionView::StartAsr,
            PipelineAction::NextAsrEvent => PipelineActionView::NextAsrEvent,
            PipelineAction::Translate(r) => PipelineActionView::Translate(r@),
            PipelineAction::Finish(Ok(())) => PipelineActionView::Finish(None),
            PipelineAction::Finish(Err(e)) => PipelineActionView::Finish(Some(e@)),
        }
    }
}

/// The pipeline's decisions and the data they depend on. A driver feeds it
/// events with [`PipelineCore::step`] and performs the actions it returns.
pub struct PipelineCore {
    state: PipelineState,
    phase: Phase,
    entries: Vec<SubtitleEntry>,
    previous: Vec<SubtitleEntry>,
    segment: Vec<SubtitleEntry>,
    chunk_content_ms: i64,
    chunk_wall_ms: i64,
    pending_text: String,
    pending_start_ms: i64,
    pending_end_ms: i64,
    asr_config: AsrConfig,
    target_lang: String,
}

/// The data of a [`PipelineCore`] as mathematical values.
pub struct CoreView {
    pub state: PipelineStateView,
    pub phase: Phase,
    /// Entries committed so far, in order.
    pub entries: Seq<EntryView>,
    /// The entries of the last committed chunk.
    pub previous: Seq<EntryView>,
    /// The entries of the chunk in progress.
    pub segment: Seq<EntryView>,
    pub chunk_content_ms: i64,
    pub chunk_wall_ms: i64,
    pub pending_text: Seq<char>,
    pub pending_start_ms: i64,
    pub pending_end_ms: i64,
    pub target_lang: Seq<char>,
}

impl View for PipelineCore {
    type V = CoreView;

    closed spec fn view(&self) -> CoreView {
        CoreView {
            state: self.state@,
            phase: self.phase,
            entries: entry_views(self.entries@),
            previous: entry_views(self.previous@),
            segment: entry_views(self.segment@),
            chunk_content_ms: self.chunk_content_ms,
            chunk_wall_ms: self.chunk_wall_ms,
            pending_text: self.pending_text@,
            pending_start_ms: self.pending_start_ms,
            pending_end_ms: self.pending_end_ms,
            target_lang: self.target_lang@,
        }
    }
}

/// Longest overlap, in characters, looked for between consecutive chunks.
pub const MAX_OVERLAP_CHARS: usize = 50;

/// Number of earlier lines sent as translation context.
pub const CONTEXT_LINES: usize = 10;

pub open spec fn auto_lang() -> Seq<char> {
    seq!['a', 'u', 't', 'o']
}

pub open spec fn end_of_file_message() -> Seq<char> {
    "End of file"@
}

/// The audio source's way of saying that the file has no more audio.
pub open spec fn is_end_of_file(e: ErrorView) -> bool {
    e == ErrorView::AudioSource(end_of_file_message())
}

/// `a + b`, held within the range of `i64`.
pub open spec fn sat_add(a: i64, b: i64) -> i64 {
    if a + b > i64::MAX {
        i64::MAX
    } else if a + b < i64::MIN {
        i64::MIN
    } else {
        (a + b) as i64
    }
}

/// The sources of the last (up to) `CONTEXT_LINES` previous entries, most
/// recent first.
pub open spec fn context_of(prev: Seq<EntryView>) -> Seq<Seq<char>> {
    let n = if prev.len() < 10 { prev.len() } else { 10 };
    Seq::new(n, |i: int| prev[prev.len() - 1 - i].source)
}

/// The translation request for `text` in state `m`.
pub open spec fn request_for(m: CoreView, text: Seq<char>) -> TranslateRequestView {
    TranslateRequestView {
        text,
        source_lang: auto_lang(),
        target_lang: m.target_lang,
        context: context_of(m.previous),
        has_glossary: false,
    }
}

/// The entry for the pending final result, translated as `translated`.
pub open spec fn entry_for(m: CoreView, translated: Seq<char>) -> EntryView {
    EntryView {
        content_start_ms: sat_add(m.chunk_content_ms, m.pending_start_ms),
        content_end_ms: sat_add(m.chunk_content_ms, m.pending_end_ms),
        wall_start: sat_add(m.chunk_wall_ms, m.pending_start_ms),
        wall_end: sat_add(m.chunk_wall_ms, m.pending_end_ms),
        source: m.pending_text,
        translated,
        status: SubtitleStatus::Final,
    }
}

/// `d * num / den` rounded toward zero.
pub open spec fn share(d: int, num: nat, den: nat) -> int {
    if d >= 0 {
        d * num / (den as int)
    } else {
        -((-d) * num / (den as int))
    }
}

/// The de-duplicated first line of the chunk in progress.
pub open spec fn deduped_first(m: CoreView) -> Seq<char> {
    dedup_overlap_spec(m.previous.last().source, m.segment[0].source, 50)
}

/// The first line of the chunk in progress overlaps the last committed line
/// and must be shortened and translated again.
pub open spec fn needs_retranslation(m: CoreView) -> bool {
    &&& m.previous.len() > 0
    &&& m.segment.len() > 0
    &&& deduped_first(m).len() > 0
    &&& deduped_first(m) != m.segment[0].source
}

/// `first` with its source replaced by its suffix `d`, and its start times
/// moved forward in proportion to the characters removed.
pub open spec fn shortened(first: EntryView, d: Seq<char>) -> EntryView {
    let removed = (first.source.len() - d.len()) as nat;
    let total = first.source.len();
    EntryView {
        content_start_ms: (first.content_start_ms + share(
            first.content_end_ms - first.content_start_ms,
            removed,
            total,
        )) as i64,
        wall_start: (first.wall_start + share(first.wall_end - first.wall_start, removed, total)) as i64,
        source: d,
        ..first
    }
}

/// `m` with the chunk in progress committed.
pub open spec fn commit(m: CoreView) -> CoreView {
    CoreView {
        phase: Phase::AwaitChunk,
        entries: m.entries + m.segment,
        previous: m.segment,
        segment: seq![],
        ..m
    }
}

/// `m` stopped with state `st`.
pub open spec fn stop(m: CoreView, st: PipelineStateView) -> CoreView {
    CoreView { state: st, phase: Phase::Finished, ..m }
}

/// A pipeline that has not started and has no entries, translating into
/// `target_lang`.
pub open spec fn initial_core(target_lang: Seq<char>) -> CoreView {
    CoreView {
        state: PipelineStateView::Idle,
        phase: Phase::Ready,
        entries: seq![],
        previous: seq![],
        segment: seq![],
        chunk_content_ms: 0,
        chunk_wall_ms: 0,
        pending_text: seq![],
        pending_start_ms: 0,
        pending_end_ms: 0,
        target_lang,
    }
}

/// Whether event `e` is one the pipeline waits for in phase `p`.
pub open spec fn accepts(p: Phase, e: PipelineEventView) -> bool {
    match e {
        PipelineEventView::Start => p == Phase::Ready,
        PipelineEventView::ChunkReady { .. } => p == Phase::AwaitChunk,
        PipelineEventView::AudioFailed(_) => p == Phase::AwaitChunk,
        PipelineEventView::AsrStarted => p == Phase::AwaitAsrStart,
        PipelineEventView::AsrStartFailed(_) => p == Phase::AwaitAsrStart,
        PipelineEventView::Asr(_) => p == Phase::AwaitAsrEvent,
        PipelineEventView::AsrFailed(_) => p == Phase::AwaitAsrEvent,
        PipelineEventView::Translated(_) => p == Phase::AwaitTranslation || p
            == Phase::AwaitRetranslation,
        PipelineEventView::TranslateFailed(_) => p == Phase::AwaitTranslation || p
            == Phase::AwaitRetranslation,
    }
}

/// The message for a recognition error event: `code: message`.
pub open spec fn asr_error_text(code: Seq<char>, message: Seq<char>) -> Seq<char> {
    code + seq![':', ' '] + message
}

/// The pipeline's next state and action after event `e` in state `m`.
pub open spec fn transition(m: CoreView, e: PipelineEventView) -> (CoreView, PipelineActionView) {
    match e {
        PipelineEventView::Start => (
            CoreView { state: PipelineStateView::Processing, phase: Phase::AwaitChunk, ..m },
            PipelineActionView::FetchChunk,
        ),
        PipelineEventView::ChunkReady { content_time_ms, wall_time_ms } => (
            CoreView {
                phase: Phase::AwaitAsrStart,
                chunk_content_ms: content_time_ms,
                chunk_wall_ms: wall_time_ms,
                segment: seq![],
                ..m
            },
            PipelineActionView::StartAsr,
        ),
        PipelineEventView::AudioFailed(err) => if is_end_of_file(err) {
            (stop(m, PipelineStateView::Completed), PipelineActionView::Finish(None))
        } else {
            (
                stop(m, PipelineStateView::Failed(error_message(err))),
                PipelineActionView::Finish(Some(err)),
            )
        },
        PipelineEventView::AsrStarted => (
            CoreView { phase: Phase::AwaitAsrEvent, ..m },
            PipelineActionView::NextAsrEvent,
        ),
        PipelineEventView::AsrStartFailed(err) => (
            CoreView { phase: Phase::Finished, ..m },
            PipelineActionView::Finish(Some(err)),
        ),
        PipelineEventView::Asr(ev) => match ev {
            AsrEventView::Partial { .. } => (m, PipelineActionView::NextAsrEvent),
            AsrEventView::Final { text, ts_start_ms, ts_end_ms } => (
                CoreView {
                    phase: Phase::AwaitTranslation,
                    pending_text: text,
                    pending_start_ms: ts_start_ms,
                    pending_end_ms: ts_end_ms,
                    ..m
                },
                PipelineActionView::Translate(request_for(m, text)),
            ),
            AsrEventView::Error { code, message } => (
                stop(m, PipelineStateView::Failed(asr_error_text(code, message))),
                PipelineActionView::Finish(Some(ErrorView::Asr(asr_error_text(code, message)))),
            ),
            AsrEventView::EndOfStream => if needs_retranslation(m) {
                (
                    CoreView {
                        phase: Phase::AwaitRetranslation,
                        segment: m.segment.update(0, shortened(m.segment[0], deduped_first(m))),
                        ..m
                    },
                    PipelineActionView::Translate(request_for(m, deduped_first(m))),
                )
            } else {
                (commit(m), PipelineActionView::FetchChunk)
            },
        },
        PipelineEventView::AsrFailed(err) => (
            stop(m, PipelineStateView::Failed(error_message(err))),
            PipelineActionView::Finish(Some(err)),
        ),
        PipelineEventView::Translated(t) => if m.phase == Phase::AwaitTranslation {
            (
                CoreView {
                    phase: Phase::AwaitAsrEvent,
                    segment: m.segment.push(entry_for(m, t)),
                    ..m
                },
                PipelineActionView::NextAsrEvent,
            )
        } else {
            (
                commit(
                    CoreView {
                        segment: if m.segment.len() > 0 {
                            m.segment.update(0, EntryView { translated: t, ..m.segment[0] })
                        } else {
                            m.segment
                        },
                        ..m
                    },
                ),
                PipelineActionView::FetchChunk,
            )
        },
        PipelineEventView::TranslateFailed(err) => (
            CoreView { phase: Phase::Finished, ..m },
            PipelineActionView::Finish(Some(err)),
        ),
    }
}

/// The result of `dedup_overlap_spec` is a suffix of `next`, and it is all of
/// `next` exactly when no prefix was removed.
pub proof fn lemma_dedup_suffix(prev: Seq<char>, next: Seq<char>, max_overlap: nat)
    ensures
        exists|k: nat|
            k <= next.len() && #[trigger] next.skip(k as int) == dedup_overlap_spec(prev, next, max_overlap),
        dedup_overlap_spec(prev, next, max_overlap).len() <= next.len(),
{
    if prev.len() == 0 || next.len() == 0 || max_overlap == 0 {
        assert(next.skip(0) =~= next);
    } else {
        let p = trim_end_spec(prev);
        let upper = min_nat(min_nat(max_overlap, p.len()), next.len());
        lemma_best_overlap_bound(p, next, upper);
        let k = best_overlap(p, next, upper);
        assert(next.skip(k as int) == dedup_overlap_spec(prev, next, max_overlap));
    }
}

/// Two texts of the same length whose characters agree up to ASCII case.
pub open spec fn same_up_to_case(s: Seq<char>, t: Seq<char>) -> bool {
    s.len() == t.len() && forall|i: int| 0 <= i < s.len() ==> #[trigger] eq_ascii_nocase(s[i], t[i])
}

/// Characters equal up to ASCII case are both whitespace or both not.
proof fn lemma_nocase_whitespace(a: char, b: char)
    requires
        eq_ascii_nocase(a, b),
    ensures
        is_unicode_whitespace(a) == is_unicode_whitespace(b),
{
}

proof fn lemma_trim_end_nocase(s: Seq<char>, t: Seq<char>)
    requires
        same_up_to_case(s, t),
    ensures
        trim_end_len(s) == trim_end_len(t),
    decreases s.len(),
{
    if s.len() > 0 {
        assert(eq_ascii_nocase(s[s.len() - 1], t[t.len() - 1]));
        lemma_nocase_whitespace(s.last(), t.last());
        assert(same_up_to_case(s.drop_last(), t.drop_last())) by {
            assert forall|i: int| 0 <= i < s.drop_last().len() implies #[trigger] eq_ascii_nocase(
                s.drop_last()[i],
                t.drop_last()[i],
            ) by {
                assert(eq_ascii_nocase(s[i], t[i]));
            }
        }
        lemma_trim_end_nocase(s.drop_last(), t.drop_last());
    }
}

proof fn lemma_best_overlap_nocase(p: Seq<char>, p2: Seq<char>, n: Seq<char>, n2: Seq<char>, upper: nat)
    requires
        same_up_to_case(p, p2),
        same_up_to_case(n, n2),
        upper <= p.len(),
        upper <= n.len(),
    ensures
        best_overlap(p, n, upper) == best_overlap(p2, n2, upper),
    decreases upper,
{
    if upper > 0 {
        let k = upper as int;
        assert(overlap_matches(p, n, k) == overlap_matches(p2, n2, k)) by {
            if overlap_matches(p, n, k) {
                assert forall|i: int| 0 <= i < k implies #[trigger] eq_ascii_nocase(p2[p2.len() - k + i], n2[i]) by {
                    assert(eq_ascii_nocase(p[p.len() - k + i], n[i]));
                    assert(eq_ascii_nocase(p[p.len() - k + i], p2[p.len() - k + i]));
                    assert(eq_ascii_nocase(n[i], n2[i]));
                }
            }
            if overlap_matches(p2, n2, k) {
                assert forall|i: int| 0 <= i < k implies #[trigger] eq_ascii_nocase(p[p.len() - k + i], n[i]) by {
                    assert(eq_ascii_nocase(p2[p2.len() - k + i], n2[i]));
                    assert(eq_ascii_nocase(p[p.len() - k + i], p2[p.len() - k + i]));
                    assert(eq_ascii_nocase(n[i], n2[i]));
                }
            }
        }
        lemma_best_overlap_nocase(p, p2, n, n2, (upper - 1) as nat);
    }
}

/// Case jitter never changes how much `dedup_overlap` strips: with `prev`
/// changed in ASCII case the result is the same, and with `next` changed in
/// ASCII case too it has the same length.
pub proof fn law_dedup_ignores_case(
    prev: Seq<char>,
    prev2: Seq<char>,
    next: Seq<char>,
    next2: Seq<char>,
    max_overlap: nat,
)
    requires
        same_up_to_case(prev, prev2),
        same_up_to_case(next, next2),
    ensures
        dedup_overlap_spec(prev2, next, max_overlap) == dedup_overlap_spec(prev, next, max_overlap),
        dedup_overlap_spec(prev2, next2, max_overlap).len() == dedup_overlap_spec(prev, next, max_overlap).len(),
{
    if prev.len() > 0 && next.len() > 0 && max_overlap > 0 {
        lemma_trim_end_nocase(prev, prev2);
        lemma_trim_end_len_bound(prev);
        let p = trim_end_spec(prev);
        let p2 = trim_end_spec(prev2);
        assert(same_up_to_case(p, p2)) by {
            assert forall|i: int| 0 <= i < p.len() implies #[trigger] eq_ascii_nocase(p[i], p2[i]) by {
                assert(eq_ascii_nocase(prev[i], prev2[i]));
            }
        }
        assert(same_up_to_case(next, next)) by {
            assert forall|i: int| 0 <= i < next.len() implies #[trigger] eq_ascii_nocase(next[i], next[i]) by {}
        }
        let upper = min_nat(min_nat(max_overlap, p.len()), next.len());
        lemma_best_overlap_nocase(p, p2, next, next, upper);
        lemma_best_overlap_nocase(p, p2, next, next2, upper);
        lemma_best_overlap_bound(p, next, upper);
    }
}

/// Whether `e` is the audio source's end-of-file error.
fn is_end_of_file_error(e: &AppError) -> (r: bool)
    ensures
        r == is_end_of_file(e@),
{
    match e {
        AppError::AudioSource(m) => {
            let eof = String::from_str("End of file");
            *m == eof
        },
        _ => false,
    }
}

/// `code: message`.
fn asr_error_message(code: &String, message: &String) -> (r: String)
    ensures
        r@ == asr_error_text(code@, message@),
{
    let mut out = code.clone();
    crate::text::push_char(&mut out, ':');
    crate::text::push_char(&mut out, ' ');
    out.append(message.as_str());
    out
}

fn sat_add_exec(a: i64, b: i64) -> (r: i64)
    ensures
        r == sat_add(a, b),
{
    let s: i128 = a as i128 + b as i128;
    if s > 9223372036854775807 {
        9223372036854775807
    } else if s < -9223372036854775808 {
        -9223372036854775808
    } else {
        s as i64
    }
}

/// `start` moved toward `end` by `num / den` of the distance, the move
/// rounded toward zero.
fn shift_toward(start: i64, end: i64, num: usize, den: usize) -> (r: i64)
    requires
        num <= den,
        den > 0,
    ensures
        r == start + share(end - start, num as nat, den as nat),
{
    let d: i128 = end as i128 - start as i128;
    let mag: u128 = if d >= 0 { d as u128 } else { (0 - d) as u128 };
    assert(mag <= 0xffff_ffff_ffff_ffffu128);
    assert(mag * (num as u128) <= 0xffff_ffff_ffff_ffffu128 * 0xffff_ffff_ffff_ffffu128) by (nonlinear_arith)
        requires
            mag <= 0xffff_ffff_ffff_ffffu128,
            num as u128 <= 0xffff_ffff_ffff_ffffu128,
    ;
    let prod: u128 = mag * (num as u128);
    let q: u128 = prod / (den as u128);
    assert(q <= mag) by (nonlinear_arith)
        requires
            q as int == (mag as int * num as int) / (den as int),
            num <= den,
            den > 0,
    {
        assert((mag as int) * (num as int) <= (mag as int) * (den as int));
        assert((mag as int) * (den as int) / (den as int) == mag as int);
    }
    if d >= 0 {
        (start as i128 + q as i128) as i64
    } else {
        (start as i128 - q as i128) as i64
    }
}

impl PipelineCore {
    /// A pipeline that has not started, with recognition settings and target
    /// language taken from `config`.
    pub fn new(config: &crate::config::AppConfig) -> (r: PipelineCore)
        ensures
            r@ == initial_core(config.translate.target_lang@),
            r.asr_config_view() == (
                config.asr.provider@,
                config.asr.model@,
                config.asr.api_key@,
                config.asr.language@,
            ),
    {
        let r = PipelineCore {
            state: PipelineState::Idle,
            phase: Phase::Ready,
            entries: Vec::new(),
            previous: Vec::new(),
            segment: Vec::new(),
            chunk_content_ms: 0,
            chunk_wall_ms: 0,
            pending_text: String::new(),
            pending_start_ms: 0,
            pending_end_ms: 0,
            asr_config: AsrConfig {
                provider: config.asr.provider.clone(),
                model: config.asr.model.clone(),
                api_key: config.asr.api_key.clone(),
                language: config.asr.language.clone(),
            },
            target_lang: config.translate.target_lang.clone(),
        };
        assert(entry_views(r.entries@) =~= Seq::<EntryView>::empty());
        assert(entry_views(r.previous@) =~= Seq::<EntryView>::empty());
        assert(entry_views(r.segment@) =~= Seq::<EntryView>::empty());
        r
    }

    /// Provider, model, key and language of the recognition streams.
    pub closed spec fn asr_config_view(&self) -> (Seq<char>, Seq<char>, Seq<char>, Seq<char>) {
        (
            self.asr_config.provider@,
            self.asr_config.model@,
            self.asr_config.api_key@,
            self.asr_config.language@,
        )
    }

    /// The settings to start each recognition stream with.
    pub fn asr_config(&self) -> (r: AsrConfig)
        ensures
            (r.provider@, r.model@, r.api_key@, r.language@) == self.asr_config_view(),
    {
        AsrConfig {
            provider: self.asr_config.provider.clone(),
            model: self.asr_config.model.clone(),
            api_key: self.asr_config.api_key.clone(),
            language: self.asr_config.language.clone(),
        }
    }

    /// The current state.
    pub fn state(&self) -> (r: PipelineState)
        ensures
            r@ == self@.state,
    {
        self.state.duplicate()
    }

    /// What the pipeline waits for.
    pub fn phase(&self) -> (r: Phase)
        ensures
            r == self@.phase,
    {
        self.phase
    }

    /// The entries committed so far.
    pub fn entries(&self) -> (r: Vec<SubtitleEntry>)
        ensures
            entry_views(r@) == self@.entries,
    {
        let mut out: Vec<SubtitleEntry> = Vec::new();
        let n = self.entries.len();
        let mut i: usize = 0;
        while i < n
            invariant
                i <= n,
                n == self.entries@.len(),
                entry_views(out@) == entry_views(self.entries@).take(i as int),
            decreases n - i,
        {
            let ghost old_out = out@;
            let e = self.entries[i].duplicate();
            out.push(e);
            proof {
                lemma_entry_views_push(old_out, e);
                lemma_entry_views_take(self.entries@, i as int);
                lemma_entry_views_take(self.entries@, i + 1);
                assert(self.entries@.take(i + 1) =~= self.entries@.take(i as int).push(self.entries@[i as int]));
                lemma_entry_views_push(self.entries@.take(i as int), self.entries@[i as int]);
            }
            i = i + 1;
            assert(entry_views(out@) =~= entry_views(self.entries@).take(i as int));
        }
        assert(entry_views(self.entries@).take(n as int) =~= entry_views(self.entries@));
        out
    }

    /// Whether the pipeline waits for an event like `e`.
    pub fn accepts(&self, e: &PipelineEvent) -> (r: bool)
        ensures
            r == accepts(self@.phase, e@),
    {
        match e {
            PipelineEvent::Start => self.phase == Phase::Ready,
            PipelineEvent::ChunkReady { .. } => self.phase == Phase::AwaitChunk,
            PipelineEvent::AudioFailed(_) => self.phase == Phase::AwaitChunk,
            PipelineEvent::AsrStarted => self.phase == Phase::AwaitAsrStart,
            PipelineEvent::AsrStartFailed(_) => self.phase == Phase::AwaitAsrStart,
            PipelineEvent::Asr(_) => self.phase == Phase::AwaitAsrEvent,
            PipelineEvent::AsrFailed(_) => self.phase == Phase::AwaitAsrEvent,
            PipelineEvent::Translated(_) => self.phase == Phase::AwaitTranslation || self.phase
                == Phase::AwaitRetranslation,
            PipelineEvent::TranslateFailed(_) => self.phase == Phase::AwaitTranslation
                || self.phase == Phase::AwaitRetranslation,
        }
    }

    fn context(&self) -> (r: Vec<String>)
        ensures
            string_views(r@) == context_of(self@.previous),
    {
        let n = self.previous.len();
        let k = if n < CONTEXT_LINES { n } else { CONTEXT_LINES };
        let mut out: Vec<String> = Vec::new();
        let mut i: usize = 0;
        while i < k
            invariant
                i <= k,
                k <= n,
                n == self.previous@.len(),
                k == (if n < 10 { n } else { 10 }),
                string_views(out@) == context_of(entry_views(self.previous@)).take(i as int),
            decreases k - i,
        {
            let ghost old_out = out@;
            let line = self.previous[n - 1 - i].source.clone();
            out.push(line);
            proof {
                lemma_string_views_push(old_out, line);
                assert(context_of(entry_views(self.previous@)).take(i + 1) =~= context_of(entry_views(self.previous@)).take(i as int).push(line@));
            }
            i = i + 1;
            assert(string_views(out@) =~= context_of(entry_views(self.previous@)).take(i as int));
        }
        assert(context_of(entry_views(self.previous@)).take(k as int) =~= context_of(entry_views(self.previous@)));
        out
    }

    /// The entry for the pending final result, translated as `translated`.
    fn make_entry(&self, translated: String) -> (r: SubtitleEntry)
        ensures
            r@ == entry_for(self@, translated@),
    {
        SubtitleEntry {
            content_start_ms: sat_add_exec(self.chunk_content_ms, self.pending_start_ms),
            content_end_ms: sat_add_exec(self.chunk_content_ms, self.pending_end_ms),
            wall_start: sat_add_exec(self.chunk_wall_ms, self.pending_start_ms),
            wall_end: sat_add_exec(self.chunk_wall_ms, self.pending_end_ms),
            source: self.pending_text.clone(),
            translated,
            status: SubtitleStatus::Final,
        }
    }

    /// Moves the chunk in progress to the committed entries.
    fn commit_segment(&mut self)
        ensures
            final(self)@ == commit(old(self)@),
            final(self).asr_config == old(self).asr_config,
    {
        self.phase = Phase::AwaitChunk;
        let n = self.segment.len();
        let mut entries: Vec<SubtitleEntry> = Vec::new();
        std::mem::swap(&mut entries, &mut self.entries);
        let ghost start = entries@;
        let mut i: usize = 0;
        while i < n
            invariant
                i <= n,
                n == self.segment@.len(),
                entries@ == start + self.segment@.take(i as int),
            decreases n - i,
        {
            let e = self.segment[i].duplicate();
            entries.push(e);
            i = i + 1;
            assert(entries@ =~= start + self.segment@.take(i as int));
        }
        assert(self.segment@.take(n as int) =~= self.segment@);
        self.entries = entries;
        let mut taken: Vec<SubtitleEntry> = Vec::new();
        std::mem::swap(&mut taken, &mut self.segment);
        self.previous = taken;
        proof {
            assert(entry_views(start + old(self).segment@) =~= entry_views(start) + entry_views(old(self).segment@));
            assert(entry_views(self.segment@) =~= Seq::<EntryView>::empty());
        }
    }

    /// Stops with state `st`.
    fn stop_with(&mut self, st: PipelineState)
        ensures
            final(self)@ == stop(old(self)@, st@),
            final(self).asr_config == old(self).asr_config,
    {
        self.state = st;
        self.phase = Phase::Finished;
    }

    /// Whether the first line of the chunk in progress must be shortened; if
    /// so, its shortened text.
    fn check_overlap(&self) -> (r: Option<String>)
        ensures
            match r {
                Some(d) => needs_retranslation(self@) && d@ == deduped_first(self@),
                None => !needs_retranslation(self@),
            },
    {
        let np = self.previous.len();
        if np == 0 || self.segment.len() == 0 {
            return None;
        }
        let d = dedup_overlap(
            self.previous[np - 1].source.as_str(),
            self.segment[0].source.as_str(),
            MAX_OVERLAP_CHARS,
        );
        assert(d@ == deduped_first(self@));
        if d.as_str().is_empty() || d == self.segment[0].source {
            None
        } else {
            Some(d)
        }
    }

    /// Replaces the first line of the chunk in progress by its shortened form
    /// `d`.
    fn shorten_first(&mut self, d: String)
        requires
            needs_retranslation(old(self)@),
            d@ == deduped_first(old(self)@),
        ensures
            final(self).asr_config == old(self).asr_config,
            final(self)@ == (CoreView {
                segment: old(self)@.segment.update(0, shortened(old(self)@.segment[0], d@)),
                ..old(self)@
            }),
    {
        let ghost m = self@;
        let first = self.segment[0].duplicate();
        proof {
            lemma_dedup_suffix(m.previous.last().source, first.source@, 50);
        }
        let total = first.source.as_str().unicode_len();
        let kept = d.as_str().unicode_len();
        assert(kept < total) by {
            if total == kept {
                let k = choose|k: nat|
                    k <= first.source@.len() && #[trigger] first.source@.skip(k as int)
                        == dedup_overlap_spec(m.previous.last().source, first.source@, 50);
                assert(first.source@.skip(k as int) =~= first.source@);
            }
        }
        let removed = total - kept;
        let new_first = SubtitleEntry {
            content_start_ms: shift_toward(first.content_start_ms, first.content_end_ms, removed, total),
            content_end_ms: first.content_end_ms,
            wall_start: shift_toward(first.wall_start, first.wall_end, removed, total),
            wall_end: first.wall_end,
            source: d,
            translated: first.translated,
            status: first.status,
        };
        assert(new_first@ == shortened(m.segment[0], deduped_first(m)));
        let ghost old_seg = self.segment@;
        self.segment.set(0, new_first);
        proof {
            lemma_entry_views_update(old_seg, 0, new_first);
        }
    }

    /// Records the translation of the first line of the chunk in progress.
    fn set_first_translation(&mut self, t: String)
        ensures
            final(self).asr_config == old(self).asr_config,
            final(self)@ == (CoreView {
                segment: if old(self)@.segment.len() > 0 {
                    old(self)@.segment.update(0, EntryView { translated: t@, ..old(self)@.segment[0] })
                } else {
                    old(self)@.segment
                },
                ..old(self)@
            }),
    {
        if self.segment.len() > 0 {
            let first = self.segment[0].duplicate();
            let new_first = SubtitleEntry { translated: t, ..first };
            let ghost old_seg = self.segment@;
            self.segment.set(0, new_first);
            proof {
                lemma_entry_views_update(old_seg, 0, new_first);
            }
        }
    }

    /// Feeds event `e` to the pipeline and returns what to do next.
    pub fn step(&mut self, e: PipelineEvent) -> (a: PipelineAction)
        requires
            accepts(old(self)@.phase, e@),
        ensures
            (final(self)@, a@) == transition(old(self)@, e@),
            final(self).asr_config_view() == old(self).asr_config_view(),
    {
        match e {
            PipelineEvent::Start => {
                self.state = PipelineState::Processing;
                self.phase = Phase::AwaitChunk;
                PipelineAction::FetchChunk
            },
            PipelineEvent::ChunkReady { content_time_ms, wall_time_ms } => {
                self.phase = Phase::AwaitAsrStart;
                self.chunk_content_ms = content_time_ms;
                self.chunk_wall_ms = wall_time_ms;
                self.segment = Vec::new();
                assert(entry_views(self.segment@) =~= Seq::<EntryView>::empty());
                PipelineAction::StartAsr
            },
            PipelineEvent::AudioFailed(err) => {
                if is_end_of_file_error(&err) {
                    self.stop_with(PipelineState::Completed);
                    PipelineAction::Finish(Ok(()))
                } else {
                    let msg = err.message();
                    self.stop_with(PipelineState::Failed(msg));
                    PipelineAction::Finish(Err(err))
                }
            },
            PipelineEvent::AsrStarted => {
                self.phase = Phase::AwaitAsrEvent;
                PipelineAction::NextAsrEvent
            },
            PipelineEvent::AsrStartFailed(err) => {
                self.phase = Phase::Finished;
                PipelineAction::Finish(Err(err))
            },
            PipelineEvent::Asr(ev) => match ev {
                AsrEvent::Partial { .. } => PipelineAction::NextAsrEvent,
                AsrEvent::Final { text, ts_start_ms, ts_end_ms } => {
                    let req = self.request(text.clone());
                    self.phase = Phase::AwaitTranslation;
                    self.pending_text = text;
                    self.pending_start_ms = ts_start_ms;
                    self.pending_end_ms = ts_end_ms;
                    PipelineAction::Translate(req)
                },
                AsrEvent::Error { code, message } => {
                    let msg = asr_error_message(&code, &message);
                    let msg2 = asr_error_message(&code, &message);
                    self.stop_with(PipelineState::Failed(msg));
                    PipelineAction::Finish(Err(AppError::Asr(msg2)))
                },
                AsrEvent::EndOfStream => {
                    match self.check_overlap() {
                        Some(d) => {
                            let req = self.request(d.clone());
                            self.shorten_first(d);
                            self.phase = Phase::AwaitRetranslation;
                            PipelineAction::Translate(req)
                        },
                        None => {
                            self.commit_segment();
                            PipelineAction::FetchChunk
                        },
                    }
                },
            },
            PipelineEvent::AsrFailed(err) => {
                let msg = err.message();
                self.stop_with(PipelineState::Failed(msg));
                PipelineAction::Finish(Err(err))
            },
            PipelineEvent::Translated(t) => {
                if self.phase == Phase::AwaitTranslation {
                    let entry = self.make_entry(t);
                    let ghost old_seg = self.segment@;
                    self.segment.push(entry);
                    proof {
                        lemma_entry_views_push(old_seg, entry);
                    }
                    self.phase = Phase::AwaitAsrEvent;
                    PipelineAction::NextAsrEvent
                } else {
                    self.set_first_translation(t);
                    self.commit_segment();
                    PipelineAction::FetchChunk
                }
            },
            PipelineEvent::TranslateFailed(err) => {
                self.phase = Phase::Finished;
                PipelineAction::Finish(Err(err))
            },
        }
    }

    fn request(&self, text: String) -> (r: TranslateRequest)
        ensures
            r@ == request_for(self@, text@),
    {
        let context = self.context();
        let src = String::from_str("auto");
        proof {
            reveal_strlit("auto");
        }
        assert(src@ == auto_lang());
        let r = TranslateRequest {
            text,
            source_lang: src,
            target_lang: self.target_lang.clone(),
            context,
            glossary: None,
        };
        assert(r@.context == context_of(self@.previous));
        r
    }
}



/// Maximality of `best_overlap`: no longer overlap within the bound matches.
proof fn lemma_best_overlap_longest(p: Seq<char>, n: Seq<char>, upper: nat, k2: nat)
    requires
        best_overlap(p, n, upper) < k2 <= upper,
    ensures
        !overlap_matches(p, n, k2 as int),
    decreases upper,
{
    if overlap_matches(p, n, upper as int) {
    } else if k2 < upper {
        lemma_best_overlap_longest(p, n, (upper - 1) as nat, k2);
    }
}

/// `dedup_overlap` strips the longest overlap: the result is `next` without
/// its first `k` characters, where `k` is at most `max_overlap`, the first
/// `k` characters of `next` equal (up to ASCII case) the last `k` of `prev`
/// with trailing whitespace removed, and no longer prefix within the bound
/// does.
pub proof fn law_dedup_overlap_longest(prev: Seq<char>, next: Seq<char>, max_overlap: nat)
    requires
        prev.len() > 0,
        next.len() > 0,
        max_overlap > 0,
    ensures
        exists|k: nat|
            {
                &&& k <= max_overlap
                &&& k <= trim_end_spec(prev).len()
                &&& k <= next.len()
                &&& #[trigger] next.skip(k as int) == dedup_overlap_spec(prev, next, max_overlap)
                &&& overlap_matches(trim_end_spec(prev), next, k as int)
                &&& forall|k2: nat|
                    k < k2 <= max_overlap && k2 <= trim_end_spec(prev).len() && k2 <= next.len()
                        ==> !overlap_matches(trim_end_spec(prev), next, k2 as int)
            },
{
    let p = trim_end_spec(prev);
    lemma_trim_end_len_bound(prev);
    let upper = min_nat(min_nat(max_overlap, p.len()), next.len());
    lemma_best_overlap_bound(p, next, upper);
    let k = best_overlap(p, next, upper);
    assert forall|k2: nat|
        k < k2 <= max_overlap && k2 <= p.len() && k2 <= next.len() implies !overlap_matches(
        p,
        next,
        k2 as int,
    ) by {
        lemma_best_overlap_longest(p, next, upper, k2);
    }
    assert(next.skip(k as int) == dedup_overlap_spec(prev, next, max_overlap));
}

/// Entries, once committed, are never changed or removed: after any step the
/// entries committed before it still come first.
pub proof fn law_committed_entries_kept(m: CoreView, e: PipelineEventView)
    requires
        accepts(m.phase, e),
    ensures
        m.entries.is_prefix_of(transition(m, e).0.entries),
{
    let m2 = transition(m, e).0;
    assert(m.entries.len() <= m2.entries.len());
    assert forall|i: int| 0 <= i < m.entries.len() implies m.entries[i] == m2.entries[i] by {}
}

/// Every entry of the pipeline, committed or in progress, is a final
/// recognition result, and every step keeps it so.
pub open spec fn all_final(m: CoreView) -> bool {
    &&& forall|i: int| 0 <= i < m.entries.len() ==> (#[trigger] m.entries[i]).status
        == SubtitleStatus::Final
    &&& forall|i: int| 0 <= i < m.segment.len() ==> (#[trigger] m.segment[i]).status
        == SubtitleStatus::Final
}

/// Only final recognition results become entries: each step keeps every
/// entry final.
pub proof fn law_entries_are_final(m: CoreView, e: PipelineEventView)
    requires
        accepts(m.phase, e),
        all_final(m),
    ensures
        all_final(transition(m, e).0),
{
    let m2 = transition(m, e).0;
    assert forall|i: int| 0 <= i < m2.entries.len() implies (#[trigger] m2.entries[i]).status
        == SubtitleStatus::Final by {
        if i >= m.entries.len() {
            assert(m2.entries == m.entries + m2.previous || m2.entries == m.entries);
        }
    }
}

/// Processing ends without error exactly when the audio source reports the
/// end of the file, and then the pipeline is `Completed`; every stop
/// finishes the pipeline.
pub proof fn law_finish(m: CoreView, e: PipelineEventView)
    requires
        accepts(m.phase, e),
    ensures
        transition(m, e).1 == PipelineActionView::Finish(None) <==> (e matches PipelineEventView::AudioFailed(err)
            && is_end_of_file(err)),
        transition(m, e).1 == PipelineActionView::Finish(None) ==> transition(m, e).0.state
            == PipelineStateView::Completed,
        transition(m, e).1 is Finish ==> transition(m, e).0.phase == Phase::Finished,
{
}

/// Partial recognition results are skipped: they change nothing and the
/// pipeline reads on.
pub proof fn law_partial_results_skipped(m: CoreView, text: Seq<char>, s: i64, t: i64)
    requires
        m.phase == Phase::AwaitAsrEvent,
    ensures
        transition(m, PipelineEventView::Asr(AsrEventView::Partial { text, ts_start_ms: s, ts_end_ms: t }))
            == (m, PipelineActionView::NextAsrEvent),
{
}

/// Overlap between consecutive chunks is removed before a chunk is
/// committed: when the first line of a finished chunk repeats the end of
/// the last committed line, the pipeline asks for the translation of the
/// de-duplicated text, and on the answer commits the chunk with that text
/// and translation as its first line.
pub proof fn law_overlap_removed_before_commit(m: CoreView, t: Seq<char>)
    requires
        m.phase == Phase::AwaitAsrEvent,
        needs_retranslation(m),
    ensures
        ({
            let (m1, a1) = transition(m, PipelineEventView::Asr(AsrEventView::EndOfStream));
            let (m2, a2) = transition(m1, PipelineEventView::Translated(t));
            &&& a1 == PipelineActionView::Translate(request_for(m, deduped_first(m)))
            &&& a2 == PipelineActionView::FetchChunk
            &&& m2.entries == m.entries + m2.previous
            &&& m2.previous.len() == m.segment.len()
            &&& m2.previous[0].source == deduped_first(m)
            &&& m2.previous[0].translated == t
            &&& forall|i: int| 1 <= i < m.segment.len() ==> m2.previous[i] == m.segment[i]
        }),
{
}

/// Every finished chunk is committed whole: when the recognition stream of a
/// chunk ends, either the chunk's lines are appended to the entries at once,
/// or (when its first line repeated the end of the previous chunk) one
/// retranslation is asked for and its answer appends as many lines, the
/// lines after the first being the chunk's own. The entries before stay.
pub proof fn law_chunk_committed(m: CoreView, t: Seq<char>)
    requires
        m.phase == Phase::AwaitAsrEvent,
    ensures
        ({
            let (m1, a1) = transition(m, PipelineEventView::Asr(AsrEventView::EndOfStream));
            let (m2, a2) = transition(m1, PipelineEventView::Translated(t));
            &&& a1 is FetchChunk || a1 is Translate
            &&& a1 is FetchChunk ==> m1.entries == m.entries + m.segment && m1.previous == m.segment
            &&& a1 is Translate ==> {
                &&& m1.entries == m.entries
                &&& a2 is FetchChunk
                &&& m2.entries.len() == m.entries.len() + m.segment.len()
                &&& m2.entries.take(m.entries.len() as int) == m.entries
                &&& m2.entries.skip(m.entries.len() + 1int) == m.segment.skip(1)
                &&& m2.entries[m.entries.len() as int].translated == t
            }
        }),
{
    let (m1, a1) = transition(m, PipelineEventView::Asr(AsrEventView::EndOfStream));
    let (m2, a2) = transition(m1, PipelineEventView::Translated(t));
    if a1 is Translate {
        assert(m2.entries.take(m.entries.len() as int) =~= m.entries);
        assert(m2.entries.skip(m.entries.len() + 1int) =~= m.segment.skip(1));
    }
}

/// A final recognition result becomes one line of the chunk: the pipeline
/// asks to translate its text into the target language, with the sources of
/// the last (up to ten) lines of the previous chunk as context, most recent
/// first; the answer adds a final line with that text and translation,
/// placed on both timelines at the chunk's start plus the result's times,
/// and the pipeline reads on. Committed entries are untouched.
pub proof fn law_final_result_becomes_line(m: CoreView, text: Seq<char>, s: i64, e: i64, t: Seq<char>)
    requires
        m.phase == Phase::AwaitAsrEvent,
    ensures
        ({
            let (m1, a1) = transition(
                m,
                PipelineEventView::Asr(AsrEventView::Final { text, ts_start_ms: s, ts_end_ms: e }),
            );
            let (m2, a2) = transition(m1, PipelineEventView::Translated(t));
            &&& a1 matches PipelineActionView::Translate(req)
            &&& req.text == text
            &&& req.target_lang == m.target_lang
            &&& req.context.len() == (if m.previous.len() < 10 { m.previous.len() } else { 10 })
            &&& forall|i: int| 0 <= i < req.context.len() ==> #[trigger] req.context[i]
                == m.previous[m.previous.len() - 1 - i].source
            &&& a2 == PipelineActionView::NextAsrEvent
            &&& m2.phase == Phase::AwaitAsrEvent
            &&& m2.entries == m.entries
            &&& m2.segment.len() == m.segment.len() + 1
            &&& m2.segment.drop_last() == m.segment
            &&& m2.segment.last().source == text
            &&& m2.segment.last().translated == t
            &&& m2.segment.last().status == SubtitleStatus::Final
            &&& (i64::MIN <= m.chunk_content_ms + s <= i64::MAX ==> m2.segment.last().content_start_ms
                == m.chunk_content_ms + s)
            &&& (i64::MIN <= m.chunk_content_ms + e <= i64::MAX ==> m2.segment.last().content_end_ms
                == m.chunk_content_ms + e)
            &&& (i64::MIN <= m.chunk_wall_ms + s <= i64::MAX ==> m2.segment.last().wall_start
                == m.chunk_wall_ms + s)
            &&& (i64::MIN <= m.chunk_wall_ms + e <= i64::MAX ==> m2.segment.last().wall_end
                == m.chunk_wall_ms + e)
        }),
{
    let (m1, a1) = transition(
        m,
        PipelineEventView::Asr(AsrEventView::Final { text, ts_start_ms: s, ts_end_ms: e }),
    );
    let (m2, a2) = transition(m1, PipelineEventView::Translated(t));
    assert(m2.segment.drop_last() =~= m.segment);
}
} // verus!
