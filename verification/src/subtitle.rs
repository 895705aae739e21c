//! Subtitle entries and their rendering as SRT and WebVTT documents.
//!
//! Times are whole milliseconds on the video's own timeline.

use vstd::prelude::*;
use crate::fmt::{decimal, push_decimal, push_decimal_padded, zero_pad};
use crate::text::push_char;

verus! {

/// Lifecycle of a subtitle line.
#[derive(Clone, Copy, Debug, PartialEq, Eq, Structural)]
pub enum SubtitleStatus {
    Partial,
    Final,
    Refined,
}

/// One subtitle line: where it sits on the content timeline and on the
/// wall clock, the recognised text and its translation.
#[derive(Clone, Debug)]
pub struct SubtitleEntry {
    pub content_start_ms: i64,
    pub content_end_ms: i64,
    pub wall_start: i64,
    pub wall_end: i64,
    pub source: String,
    pub translated: String,
    pub status: SubtitleStatus,
}

/// A [`SubtitleEntry`] with its texts taken as character sequences.
pub struct EntryView {
    pub content_start_ms: i64,
    pub content_end_ms: i64,
    pub wall_start: i64,
    pub wall_end: i64,
    pub source: Seq<char>,
    pub translated: Seq<char>,
    pub status: SubtitleStatus,
}

impl View for SubtitleEntry {
    type V = EntryView;

    open spec fn view(&self) -> EntryView {
        EntryView {
            content_start_ms: self.content_start_ms,
            content_end_ms: self.content_end_ms,
            wall_start: self.wall_start,
            wall_end: self.wall_end,
            source: self.source@,
            translated: self.translated@,
            status: self.status,
        }
    }
}

/// The views of a sequence of entries.
pub open spec fn entry_views(s: Seq<SubtitleEntry>) -> Seq<EntryView> {
    s.map_values(|e: SubtitleEntry| e@)
}

pub proof fn lemma_entry_views_push(s: Seq<SubtitleEntry>, e: SubtitleEntry)
    ensures
        entry_views(s.push(e)) == entry_views(s).push(e@),
{
    assert(entry_views(s.push(e)) =~= entry_views(s).push(e@));
}

pub proof fn lemma_entry_views_update(s: Seq<SubtitleEntry>, i: int, e: SubtitleEntry)
    requires
        0 <= i < s.len(),
    ensures
        entry_views(s.update(i, e)) == entry_views(s).update(i, e@),
{
    assert(entry_views(s.update(i, e)) =~= entry_views(s).update(i, e@));
}

pub proof fn lemma_entry_views_take(s: Seq<SubtitleEntry>, i: int)
    requires
        0 <= i <= s.len(),
    ensures
        entry_views(s.take(i)) == entry_views(s).take(i),
{
    assert(entry_views(s.take(i)) =~= entry_views(s).take(i));
}

pub open spec fn u32_max_nat() -> nat {
    4294967295
}

/// Hours, minutes, seconds and milliseconds shown for a time of `ms`
/// milliseconds. Negative times show as zero; the hour count stops at
/// `u32::MAX`.
pub open spec fn timestamp_parts(ms: int) -> (nat, nat, nat, nat) {
    if ms < 0 {
        (0, 0, 0, 0)
    } else {
        let h = ms / 3600000;
        (
            if h <= u32_max_nat() { h as nat } else { u32_max_nat() },
            ((ms % 3600000) / 60000) as nat,
            ((ms % 60000) / 1000) as nat,
            (ms % 1000) as nat,
        )
    }
}

/// `HH:MM:SS<sep>mmm` for a time of `ms` milliseconds; each field is
/// zero-padded, hours to at least two digits.
pub open spec fn timestamp_text(ms: int, sep: char) -> Seq<char> {
    let (h, m, s, f) = timestamp_parts(ms);
    zero_pad(decimal(h), 2) + seq![':'] + zero_pad(decimal(m), 2) + seq![':'] + zero_pad(
        decimal(s),
        2,
    ) + seq![sep] + zero_pad(decimal(f), 3)
}

pub open spec fn arrow() -> Seq<char> {
    seq![' ', '-', '-', '>', ' ']
}

/// The cue body shared by SRT and WebVTT: time range, source line and
/// translated line, each ended by a newline.
pub open spec fn cue_body(e: SubtitleEntry, sep: char) -> Seq<char> {
    timestamp_text(e.content_start_ms as int, sep) + arrow() + timestamp_text(
        e.content_end_ms as int,
        sep,
    ) + seq!['\n'] + e.source@ + seq!['\n'] + e.translated@ + seq!['\n']
}

/// One SRT block: the 1-based index line followed by the cue body.
pub open spec fn srt_block(e: SubtitleEntry, index: nat) -> Seq<char> {
    decimal(index) + seq!['\n'] + cue_body(e, ',')
}

/// The parts joined with `sep` between consecutive parts.
pub open spec fn join(parts: Seq<Seq<char>>, sep: Seq<char>) -> Seq<char>
    decreases parts.len(),
{
    if parts.len() == 0 {
        seq![]
    } else if parts.len() == 1 {
        parts[0]
    } else {
        join(parts.drop_last(), sep) + sep + parts.last()
    }
}

/// The SRT document: blocks numbered from 1, separated by a blank line.
pub open spec fn srt_document(entries: Seq<SubtitleEntry>) -> Seq<char> {
    join(Seq::new(entries.len(), |i: int| srt_block(entries[i], (i + 1) as nat)), seq!['\n'])
}

/// The WebVTT document: the `WEBVTT` header line, a blank line, then the
/// cues separated by a blank line.
pub open spec fn vtt_document(entries: Seq<SubtitleEntry>) -> Seq<char> {
    seq!['W', 'E', 'B', 'V', 'T', 'T', '\n', '\n'] + join(
        Seq::new(entries.len(), |i: int| cue_body(entries[i], '.')),
        seq!['\n'],
    )
}

fn push_timestamp(out: &mut String, ms: i64, sep: char)
    ensures
        final(out)@ == old(out)@ + timestamp_text(ms as int, sep),
{
    let (h, m, s, f): (u64, u64, u64, u64) = if ms < 0 {
        (0, 0, 0, 0)
    } else {
        let u = ms as u64;
        let h = u / 3600000;
        (if h <= 4294967295 { h } else { 4294967295 }, (u % 3600000) / 60000, (u % 60000) / 1000, u % 1000)
    };
    let ghost start = out@;
    push_decimal_padded(out, h, 2);
    push_char(out, ':');
    push_decimal_padded(out, m, 2);
    push_char(out, ':');
    push_decimal_padded(out, s, 2);
    push_char(out, sep);
    push_decimal_padded(out, f, 3);
    assert(out@ =~= start + timestamp_text(ms as int, sep));
}

fn push_cue_body(out: &mut String, e: &SubtitleEntry, sep: char)
    ensures
        final(out)@ == old(out)@ + cue_body(*e, sep),
{
    let ghost start = out@;
    push_timestamp(out, e.content_start_ms, sep);
    push_char(out, ' ');
    push_char(out, '-');
    push_char(out, '-');
    push_char(out, '>');
    push_char(out, ' ');
    push_timestamp(out, e.content_end_ms, sep);
    push_char(out, '\n');
    out.append(e.source.as_str());
    push_char(out, '\n');
    out.append(e.translated.as_str());
    push_char(out, '\n');
    assert(out@ =~= start + cue_body(*e, sep));
}

impl SubtitleEntry {
    /// An entry with the same field values.
    pub fn duplicate(&self) -> (r: SubtitleEntry)
        ensures
            r == *self,
    {
        SubtitleEntry {
            content_start_ms: self.content_start_ms,
            content_end_ms: self.content_end_ms,
            wall_start: self.wall_start,
            wall_end: self.wall_end,
            source: self.source.clone(),
            translated: self.translated.clone(),
            status: self.status,
        }
    }

    /// `HH:MM:SS,mmm` for a time of `ms` milliseconds, as SRT writes it.
    pub fn format_timestamp(ms: i64) -> (r: String)
        ensures
            r@ == timestamp_text(ms as int, ','),
    {
        let mut out = String::new();
        push_timestamp(&mut out, ms, ',');
        out
    }

    /// This entry as one SRT block numbered `index`.
    pub fn to_srt_format(&self, index: usize) -> (r: String)
        ensures
            r@ == srt_block(*self, index as nat),
    {
        let mut out = String::new();
        push_decimal(&mut out, index as u64);
        push_char(&mut out, '\n');
        push_cue_body(&mut out, self, ',');
        out
    }
}

/// The SRT document for `entries`: one block per entry, numbered from 1,
/// consecutive blocks separated by a blank line.
pub fn generate_srt(entries: &[SubtitleEntry]) -> (r: String)
    ensures
        r@ == srt_document(entries@),
{
    let ghost blocks = Seq::new(entries@.len(), |i: int| srt_block(entries@[i], (i + 1) as nat));
    let mut out = String::new();
    let n = entries.len();
    let mut i: usize = 0;
    while i < n
        invariant
            i <= n,
            n == entries@.len(),
            blocks == Seq::new(entries@.len(), |k: int| srt_block(entries@[k], (k + 1) as nat)),
            out@ == join(blocks.take(i as int), seq!['\n']),
        decreases n - i,
    {
        if i > 0 {
            push_char(&mut out, '\n');
        }
        let block = entries[i].to_srt_format(i + 1);
        out.append(block.as_str());
        assert(blocks.take(i + 1).drop_last() =~= blocks.take(i as int));
        i = i + 1;
    }
    assert(blocks.take(n as int) =~= blocks);
    out
}

/// The WebVTT document for `entries`: the `WEBVTT` header and a blank line,
/// then one cue per entry with `.` before the milliseconds, consecutive cues
/// separated by a blank line.
pub fn generate_vtt(entries: &[SubtitleEntry]) -> (r: String)
    ensures
        r@ == vtt_document(entries@),
{
    let ghost cues = Seq::new(entries@.len(), |i: int| cue_body(entries@[i], '.'));
    let ghost header = seq!['W', 'E', 'B', 'V', 'T', 'T', '\n', '\n'];
    let mut out = String::new();
    push_char(&mut out, 'W');
    push_char(&mut out, 'E');
    push_char(&mut out, 'B');
    push_char(&mut out, 'V');
    push_char(&mut out, 'T');
    push_char(&mut out, 'T');
    push_char(&mut out, '\n');
    push_char(&mut out, '\n');
    assert(out@ =~= header);
    let n = entries.len();
    let mut i: usize = 0;
    while i < n
        invariant
            i <= n,
            n == entries@.len(),
            cues == Seq::new(entries@.len(), |k: int| cue_body(entries@[k], '.')),
            header == seq!['W', 'E', 'B', 'V', 'T', 'T', '\n', '\n'],
            out@ == header + join(cues.take(i as int), seq!['\n']),
        decreases n - i,
    {
        if i > 0 {
            push_char(&mut out, '\n');
        }
        push_cue_body(&mut out, &entries[i], '.');
        assert(cues.take(i + 1).drop_last() =~= cues.take(i as int));
        i = i + 1;
    }
    assert(cues.take(n as int) =~= cues);
    out
}

/// The shown fields of a time give it back exactly: hours, minutes, seconds
/// and milliseconds recombine to the time, and minutes and seconds stay
/// below 60 and milliseconds below 1000, for every time from zero up to
/// `u32::MAX` hours.
pub proof fn law_timestamp_parts_exact(ms: int)
    requires
        0 <= ms < (u32_max_nat() + 1) * 3600000,
    ensures
        ({
            let (h, m, s, f) = timestamp_parts(ms);
            &&& h * 3600000 + m * 60000 + s * 1000 + f == ms
            &&& m < 60
            &&& s < 60
            &&& f < 1000
        }),
{
    let h = ms / 3600000;
    let r = ms % 3600000;
    assert(h <= u32_max_nat());
    assert(ms == h * 3600000 + r);
    assert(r / 60000 < 60);
    assert(r == (r / 60000) * 60000 + (r % 60000));
    assert(ms % 60000 == r % 60000) by (nonlinear_arith)
        requires
            ms == h * 3600000 + r,
            0 <= r < 3600000,
            h >= 0,
    {
        assert(h * 3600000 == (h * 60) * 60000);
    }
    assert(ms % 60000 == (ms % 60000) / 1000 * 1000 + (ms % 1000)) by (nonlinear_arith)
        requires
            ms >= 0,
    {
        assert(ms % 1000 == (ms % 60000) % 1000);
    }
}


/// Two entries that agree on what a subtitle file shows of them: content
/// times, source line and translated line.
pub open spec fn same_shown(a: SubtitleEntry, b: SubtitleEntry) -> bool {
    &&& a.content_start_ms == b.content_start_ms
    &&& a.content_end_ms == b.content_end_ms
    &&& a.source@ == b.source@
    &&& a.translated@ == b.translated@
}

/// Subtitle files are on the video's content timeline: the SRT and WebVTT
/// documents of two entry lists that differ only in wall-clock times (or
/// status) are the same.
pub proof fn law_documents_ignore_wall_clock(a: Seq<SubtitleEntry>, b: Seq<SubtitleEntry>)
    requires
        a.len() == b.len(),
        forall|i: int| 0 <= i < a.len() ==> #[trigger] same_shown(a[i], b[i]),
    ensures
        srt_document(a) == srt_document(b),
        vtt_document(a) == vtt_document(b),
{
    assert forall|i: int| 0 <= i < a.len() implies #[trigger] cue_body(a[i], ',') == cue_body(b[i], ',') by {
        assert(same_shown(a[i], b[i]));
    }
    assert forall|i: int| 0 <= i < a.len() implies #[trigger] cue_body(a[i], '.') == cue_body(b[i], '.') by {
        assert(same_shown(a[i], b[i]));
    }
    assert(Seq::new(a.len(), |i: int| srt_block(a[i], (i + 1) as nat)) =~= Seq::new(
        b.len(),
        |i: int| srt_block(b[i], (i + 1) as nat),
    ));
    assert(Seq::new(a.len(), |i: int| cue_body(a[i], '.')) =~= Seq::new(b.len(), |i: int| cue_body(b[i], '.')));
}

/// The time line of a subtitle: an SRT document of one entry is `1`, a line
/// feed, then the entry's content start and end times joined by ` --> `;
/// a WebVTT document's first cue starts, after its 8-character header, with
/// the same times written with `.` before the milliseconds. The lines after
/// the time line are the source line and the translated line.
pub proof fn law_cue_shows_content_times(e: SubtitleEntry)
    ensures
        ({
            let start = timestamp_text(e.content_start_ms as int, ',');
            let end = timestamp_text(e.content_end_ms as int, ',');
            let line = start + seq![' ', '-', '-', '>', ' '] + end;
            &&& srt_document(seq![e]).subrange(0, 2int + line.len()) == seq!['1', '\n'] + line
            &&& srt_document(seq![e]) == seq!['1', '\n'] + line + seq!['\n'] + e.source@ + seq!['\n']
                + e.translated@ + seq!['\n']
        }),
        ({
            let start = timestamp_text(e.content_start_ms as int, '.');
            let end = timestamp_text(e.content_end_ms as int, '.');
            let line = start + seq![' ', '-', '-', '>', ' '] + end;
            vtt_document(seq![e]).subrange(8, 8int + line.len()) == line
        }),
{
    let d = srt_document(seq![e]);
    let parts = Seq::new(1, |i: int| srt_block(seq![e][i], (i + 1) as nat));
    assert(parts.len() == 1);
    assert(d == parts[0]);
    assert(decimal(1) == seq!['1']) by {
        reveal_with_fuel(decimal, 2);
    }
    let start = timestamp_text(e.content_start_ms as int, ',');
    let end = timestamp_text(e.content_end_ms as int, ',');
    let line = start + seq![' ', '-', '-', '>', ' '] + end;
    assert(d.subrange(0, 2int + line.len()) =~= seq!['1', '\n'] + line);
    assert(d =~= seq!['1', '\n'] + line + seq!['\n'] + e.source@ + seq!['\n'] + e.translated@ + seq!['\n']);
    let v = vtt_document(seq![e]);
    let cues = Seq::new(1, |i: int| cue_body(seq![e][i], '.'));
    assert(cues.len() == 1);
    let vs = timestamp_text(e.content_start_ms as int, '.');
    let ve = timestamp_text(e.content_end_ms as int, '.');
    let vline = vs + seq![' ', '-', '-', '>', ' '] + ve;
    assert(v.subrange(8, 8int + vline.len()) =~= vline);
}
} // verus!
