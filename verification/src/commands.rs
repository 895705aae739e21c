//! Decisions behind the application's commands: task ids, progress reports,
//! subtitle export, configuration checks and the recent-task list.

use vstd::prelude::*;
use crate::config::AppConfig;
use crate::fmt::{hex, push_hex};
use crate::pipeline::{PipelineState, PipelineStateView};
use crate::subtitle::{generate_srt, generate_vtt, srt_document, vtt_document, SubtitleEntry};
use crate::text::{collect_chars, is_unicode_whitespace, is_whitespace_char, line_len, string_from_chars};

verus! {

pub open spec fn fnv_offset() -> u64 {
    0xcbf29ce484222325
}

pub open spec fn fnv_prime() -> nat {
    0x100000001b3
}

/// The 64-bit FNV-1a hash of `data`: start from the offset basis; for each
/// byte, xor it in and multiply by the FNV prime modulo 2^64.
pub open spec fn fnv1a(data: Seq<u8>) -> u64
    decreases data.len(),
{
    if data.len() == 0 {
        fnv_offset()
    } else {
        let h = fnv1a(data.drop_last()) ^ (data.last() as u64);
        ((h as nat * fnv_prime()) % 0x1_0000_0000_0000_0000) as u64
    }
}

/// Simple non-cryptographic hash used to derive task ids (64-bit FNV-1a).
pub fn md5ish(data: &[u8]) -> (r: u64)
    ensures
        r == fnv1a(data@),
{
    let mut hash: u64 = 0xcbf29ce484222325;
    let n = data.len();
    let mut i: usize = 0;
    while i < n
        invariant
            i <= n,
            n == data@.len(),
            hash == fnv1a(data@.take(i as int)),
        decreases n - i,
    {
        assert(data@.take(i + 1).drop_last() =~= data@.take(i as int));
        hash = hash ^ (data[i] as u64);
        hash = hash.wrapping_mul(0x100000001b3);
        i = i + 1;
    }
    assert(data@.take(n as int) =~= data@);
    hash
}

/// Multiplying by the FNV prime modulo 2^64 is undone by multiplying by its
/// inverse.
proof fn lemma_fnv_prime_invertible(a: u64)
    ensures
        (((a as nat * fnv_prime()) % 0x1_0000_0000_0000_0000) * 0xce965057aff6957b) % 0x1_0000_0000_0000_0000
            == a,
{
    let m: int = 0x1_0000_0000_0000_0000;
    let p: int = 0x100000001b3;
    let q: int = 0xce965057aff6957b;
    vstd::arithmetic::div_mod::lemma_mul_mod_noop_left(a as int * p, q, m);
    assert((a as int * p) * q == a as int + (a as int * ((p * q - 1) / m)) * m) by (nonlinear_arith)
        requires
            (p * q - 1) % m == 0,
            m > 0,
    {
        vstd::arithmetic::div_mod::lemma_fundamental_div_mod(p * q - 1, m);
    }
    vstd::arithmetic::div_mod::lemma_mod_multiples_vanish(a as int * ((p * q - 1) / m), a as int, m);
    vstd::arithmetic::div_mod::lemma_small_mod(a as nat, m as nat);
}

/// The 64-bit FNV-1a hash tells apart any two inputs that differ only in
/// their last byte: each step (xor a byte, multiply by an odd prime modulo
/// 2^64) is one-to-one.
pub proof fn law_fnv1a_last_byte(d: Seq<u8>, x: u8, y: u8)
    requires
        x != y,
    ensures
        fnv1a(d.push(x)) != fnv1a(d.push(y)),
{
    assert(d.push(x).drop_last() =~= d);
    assert(d.push(y).drop_last() =~= d);
    let h = fnv1a(d);
    let a = h ^ (x as u64);
    let b = h ^ (y as u64);
    assert(a != b) by (bit_vector)
        requires
            a == h ^ (x as u64),
            b == h ^ (y as u64),
            x != y,
    ;
    lemma_fnv_prime_invertible(a);
    lemma_fnv_prime_invertible(b);
}

/// The task id of a video: the FNV-1a hash of its path in lowercase
/// hexadecimal, so that processing the same file again resumes it.
pub fn task_id_for_path(path: &[u8]) -> (r: String)
    ensures
        r@ == hex(fnv1a(path@) as nat),
{
    let mut out = String::new();
    push_hex(&mut out, md5ish(path));
    out
}

/// What the progress query reports about a pipeline: its state as a word,
/// whether progress is complete, and the failure message if it failed.
#[derive(Clone, Debug)]
pub struct ProgressReport {
    pub state: String,
    pub complete: bool,
    pub error: Option<String>,
}

/// The word for each pipeline state.
pub open spec fn state_word(s: PipelineStateView) -> Seq<char> {
    match s {
        PipelineStateView::Idle => "idle"@,
        PipelineStateView::Processing => "processing"@,
        PipelineStateView::Completed => "completed"@,
        PipelineStateView::Exported => "exported"@,
        PipelineStateView::Failed(_) => "failed"@,
    }
}

/// The progress report for a pipeline in state `s`: completed and exported
/// pipelines are complete; a failed one carries its message.
pub fn progress_report(s: &PipelineState) -> (r: ProgressReport)
    ensures
        r.state@ == state_word(s@),
        r.complete == (s@ is Completed || s@ is Exported),
        match s@ {
            PipelineStateView::Failed(m) => r.error matches Some(e) && e@ == m,
            _ => r.error is None,
        },
{
    match s {
        PipelineState::Idle => ProgressReport {
            state: String::from_str("idle"),
            complete: false,
            error: None,
        },
        PipelineState::Processing => ProgressReport {
            state: String::from_str("processing"),
            complete: false,
            error: None,
        },
        PipelineState::Completed => ProgressReport {
            state: String::from_str("completed"),
            complete: true,
            error: None,
        },
        PipelineState::Exported => ProgressReport {
            state: String::from_str("exported"),
            complete: true,
            error: None,
        },
        PipelineState::Failed(m) => ProgressReport {
            state: String::from_str("failed"),
            complete: false,
            error: Some(m.clone()),
        },
    }
}

/// A subtitle file ready to be saved: its content, extension, the save
/// dialog's title, the suggested file name and the file-type filter's name.
#[derive(Clone, Debug)]
pub struct ExportPlan {
    pub content: String,
    pub ext: String,
    pub title: String,
    pub file_name: String,
    pub filter_name: String,
}

/// The export of `entries` as (content, extension, dialog title, file name,
/// filter name) for format `srt` or `vtt`; any other format is refused with
/// `Unsupported format: <format>`.
pub open spec fn export_spec(format: Seq<char>, entries: Seq<SubtitleEntry>) -> Result<
    (Seq<char>, Seq<char>, Seq<char>, Seq<char>, Seq<char>),
    Seq<char>,
> {
    if format == "srt"@ {
        Ok((srt_document(entries), "srt"@, "Save SRT subtitle"@, "output.srt"@, "SRT Subtitle"@))
    } else if format == "vtt"@ {
        Ok((vtt_document(entries), "vtt"@, "Save VTT subtitle"@, "output.vtt"@, "VTT Subtitle"@))
    } else {
        Err("Unsupported format: "@ + format)
    }
}

/// The subtitle file to save for `entries` in `format`.
pub fn export_plan(format: &str, entries: &[SubtitleEntry]) -> (r: Result<ExportPlan, String>)
    ensures
        match r {
            Ok(p) => export_spec(format@, entries@) == Ok::<_, Seq<char>>(
                (p.content@, p.ext@, p.title@, p.file_name@, p.filter_name@),
            ),
            Err(m) => export_spec(format@, entries@) == Err::<
                (Seq<char>, Seq<char>, Seq<char>, Seq<char>, Seq<char>),
                _,
            >(m@),
        },
{
    let f = format.to_owned();
    if f == String::from_str("srt") {
        Ok(
            ExportPlan {
                content: generate_srt(entries),
                ext: String::from_str("srt"),
                title: String::from_str("Save SRT subtitle"),
                file_name: String::from_str("output.srt"),
                filter_name: String::from_str("SRT Subtitle"),
            },
        )
    } else if f == String::from_str("vtt") {
        Ok(
            ExportPlan {
                content: generate_vtt(entries),
                ext: String::from_str("vtt"),
                title: String::from_str("Save VTT subtitle"),
                file_name: String::from_str("output.vtt"),
                filter_name: String::from_str("VTT Subtitle"),
            },
        )
    } else {
        let mut m = String::from_str("Unsupported format: ");
        m.append(format);
        Err(m)
    }
}

/// Whether the recognition settings are complete: an API key, a workspace id
/// and object storage with endpoint, bucket, key id and secret; the answer is
/// the message shown to the user, naming the first thing missing.
pub open spec fn asr_config_verdict(config: AppConfig) -> Result<Seq<char>, Seq<char>> {
    if config.asr.api_key@.len() == 0 {
        Err("ASR API Key 未配置"@)
    } else if config.asr.workspace_id is None {
        Err("ASR Workspace ID 未配置（北京区域必填）"@)
    } else {
        match config.oss {
            None => Err("OSS 配置未设置（文件转写需要 OSS 托管音频）"@),
            Some(o) => if o.endpoint@.len() == 0 || o.bucket@.len() == 0 || o.access_key_id@.len()
                == 0 || o.access_key_secret@.len() == 0 {
                Err("OSS 配置不完整"@)
            } else {
                Ok("ASR 配置验证通过（API Key、Workspace ID、OSS 配置已设置）"@)
            },
        }
    }
}

/// The recognition settings pass the check exactly when the recognition key
/// is set, a workspace is named, and object storage is configured with all
/// four of endpoint, bucket, access key id and access key secret non-empty;
/// when everything but the object storage's fields is in place and one of
/// them is empty, the answer is that the storage settings are incomplete.
pub proof fn law_asr_config_complete(config: AppConfig)
    ensures
        asr_config_verdict(config) is Ok <==> {
            &&& config.asr.api_key@.len() > 0
            &&& config.asr.workspace_id is Some
            &&& config.oss matches Some(o)
            &&& o.endpoint@.len() > 0
            &&& o.bucket@.len() > 0
            &&& o.access_key_id@.len() > 0
            &&& o.access_key_secret@.len() > 0
        },
        ({
            &&& config.asr.api_key@.len() > 0
            &&& config.asr.workspace_id is Some
            &&& config.oss matches Some(o)
            &&& (o.endpoint@.len() == 0 || o.bucket@.len() == 0 || o.access_key_id@.len() == 0
                || o.access_key_secret@.len() == 0)
        }) ==> asr_config_verdict(config) == Err::<Seq<char>, Seq<char>>("OSS 配置不完整"@),
{
}

/// Checks the recognition settings of `config`.
pub fn check_asr_config(config: &AppConfig) -> (r: Result<String, String>)
    ensures
        match r {
            Ok(m) => asr_config_verdict(*config) == Ok::<Seq<char>, Seq<char>>(m@),
            Err(m) => asr_config_verdict(*config) == Err::<Seq<char>, Seq<char>>(m@),
        },
{
    if config.asr.api_key.as_str().is_empty() {
        return Err(String::from_str("ASR API Key 未配置"));
    }
    if config.asr.workspace_id.is_none() {
        return Err(String::from_str("ASR Workspace ID 未配置（北京区域必填）"));
    }
    match &config.oss {
        None => Err(String::from_str("OSS 配置未设置（文件转写需要 OSS 托管音频）")),
        Some(o) => {
            if o.endpoint.as_str().is_empty() || o.bucket.as_str().is_empty()
                || o.access_key_id.as_str().is_empty() || o.access_key_secret.as_str().is_empty() {
                Err(String::from_str("OSS 配置不完整"))
            } else {
                Ok(String::from_str("ASR 配置验证通过（API Key、Workspace ID、OSS 配置已设置）"))
            }
        },
    }
}

/// A task found on disk, for the recent-task list.
#[derive(Clone, Debug)]
pub struct RecentTask {
    pub task_id: String,
    pub video_path: String,
    pub file_name: String,
    pub modified_at: u64,
}

/// How many tasks the recent-task list shows.
pub const RECENT_TASKS_SHOWN: usize = 8;

/// `sorted` with `x` placed after every element modified no earlier than it.
pub open spec fn insert_by_recency(sorted: Seq<RecentTask>, x: RecentTask) -> Seq<RecentTask>
    decreases sorted.len(),
{
    if sorted.len() == 0 {
        seq![x]
    } else if sorted.last().modified_at >= x.modified_at {
        sorted.push(x)
    } else {
        insert_by_recency(sorted.drop_last(), x).push(sorted.last())
    }
}

/// The tasks most recently modified first; tasks modified at the same time
/// keep their order (a stable sort).
pub open spec fn by_recency(tasks: Seq<RecentTask>) -> Seq<RecentTask>
    decreases tasks.len(),
{
    if tasks.len() == 0 {
        seq![]
    } else {
        insert_by_recency(by_recency(tasks.drop_last()), tasks.last())
    }
}

/// The recent-task list: the eight most recently modified tasks, most
/// recent first.
pub open spec fn recent_list(tasks: Seq<RecentTask>) -> Seq<RecentTask> {
    let sorted = by_recency(tasks);
    if sorted.len() <= 8 {
        sorted
    } else {
        sorted.take(8)
    }
}

/// Inserting into a sorted list where every element from `q` on is older
/// than `x` only touches the part before `q`.
proof fn lemma_insert_split(s: Seq<RecentTask>, x: RecentTask, q: int)
    requires
        0 <= q <= s.len(),
        forall|k: int| q <= k < s.len() ==> #[trigger] s[k].modified_at < x.modified_at,
    ensures
        insert_by_recency(s, x) == insert_by_recency(s.take(q), x) + s.skip(q),
    decreases s.len() - q,
{
    if q == s.len() {
        assert(s.take(q) =~= s);
        assert(s.skip(q) =~= Seq::<RecentTask>::empty());
        assert(insert_by_recency(s.take(q), x) + s.skip(q) =~= insert_by_recency(s, x));
    } else {
        lemma_insert_split(s.drop_last(), x, q);
        assert(s.drop_last().take(q) =~= s.take(q));
        assert(s.drop_last().skip(q).push(s.last()) =~= s.skip(q));
        assert(insert_by_recency(s, x) == insert_by_recency(s.drop_last(), x).push(s.last()));
        assert((insert_by_recency(s.take(q), x) + s.drop_last().skip(q)).push(s.last())
            =~= insert_by_recency(s.take(q), x) + s.skip(q));
    }
}

/// Inserts `x` into `sorted` at its place by recency.
fn insert_task(sorted: &mut Vec<RecentTask>, x: RecentTask)
    ensures
        final(sorted)@ == insert_by_recency(old(sorted)@, x),
{
    let ghost s = sorted@;
    let mut p = sorted.len();
    while p > 0 && sorted[p - 1].modified_at < x.modified_at
        invariant
            p <= s.len(),
            sorted@ == s,
            forall|k: int| p <= k < s.len() ==> #[trigger] s[k].modified_at < x.modified_at,
        decreases p,
    {
        p = p - 1;
    }
    proof {
        lemma_insert_split(s, x, p as int);
        if p > 0 {
            let t = s.take(p as int);
            assert(t.last() == s[p - 1]);
            assert(insert_by_recency(t, x) == t.push(x));
        } else {
            assert(s.take(0) =~= Seq::<RecentTask>::empty());
        }
        assert(s.take(p as int).push(x) + s.skip(p as int) =~= s.insert(p as int, x));
    }
    sorted.insert(p, x);
}

/// The recent-task list for `tasks`: sorted most recently modified first,
/// equal times keeping their order, and cut to the first eight.
pub fn select_recent_tasks(tasks: Vec<RecentTask>) -> (r: Vec<RecentTask>)
    ensures
        r@ == recent_list(tasks@),
{
    let ghost all = tasks@;
    let mut sorted: Vec<RecentTask> = Vec::new();
    let mut rest = tasks;
    let mut reversed: Vec<RecentTask> = Vec::new();
    while rest.len() > 0
        invariant
            reversed@.len() + rest@.len() == all.len(),
            rest@ == all.take(rest@.len() as int),
            forall|k: int| 0 <= k < reversed@.len() ==> #[trigger] reversed@[k] == all[all.len() - 1 - k],
        decreases rest@.len(),
    {
        let t = rest.pop().unwrap();
        reversed.push(t);
        assert(rest@ =~= all.take(rest@.len() as int));
    }
    while reversed.len() > 0
        invariant
            sorted@ == by_recency(all.take(all.len() - reversed@.len())),
            reversed@.len() <= all.len(),
            forall|k: int| 0 <= k < reversed@.len() ==> #[trigger] reversed@[k] == all[all.len() - 1 - k],
        decreases reversed@.len(),
    {
        let ghost before = all.take(all.len() - reversed@.len());
        let t = reversed.pop().unwrap();
        let ghost after = all.take(all.len() - reversed@.len());
        assert(after.drop_last() =~= before);
        assert(after.last() == t);
        insert_task(&mut sorted, t);
    }
    assert(all.take(all.len() as int) =~= all);
    if sorted.len() > RECENT_TASKS_SHOWN {
        sorted.truncate(RECENT_TASKS_SHOWN);
    }
    sorted
}

/// Ordered most recently modified first.
pub open spec fn recency_sorted(s: Seq<RecentTask>) -> bool {
    forall|i: int, j: int| 0 <= i < j < s.len() ==> s[i].modified_at >= s[j].modified_at
}

proof fn lemma_insert_keeps_order(s: Seq<RecentTask>, x: RecentTask)
    requires
        recency_sorted(s),
    ensures
        recency_sorted(insert_by_recency(s, x)),
        insert_by_recency(s, x).to_multiset() =~= s.to_multiset().insert(x),
        insert_by_recency(s, x).len() == s.len() + 1,
    decreases s.len(),
{
    broadcast use vstd::seq_lib::group_to_multiset_ensures;

    if s.len() == 0 {
        assert(seq![x] =~= Seq::<RecentTask>::empty().push(x));
    } else if s.last().modified_at >= x.modified_at {
    } else {
        let d = s.drop_last();
        assert(recency_sorted(d));
        lemma_insert_keeps_order(d, x);
        let t = insert_by_recency(d, x);
        assert(s =~= d.push(s.last()));
        assert forall|i: int| 0 <= i < t.len() implies t[i].modified_at >= s.last().modified_at by {
            assert(t.to_multiset().count(t[i]) > 0);
            assert(d.to_multiset().insert(x).count(t[i]) > 0);
            if t[i] != x {
                assert(d.to_multiset().count(t[i]) > 0);
                assert(d.contains(t[i]));
                let k = choose|k: int| 0 <= k < d.len() && d[k] == t[i];
                assert(s[k] == d[k]);
            }
        }
    }
}

proof fn lemma_by_recency(s: Seq<RecentTask>)
    ensures
        recency_sorted(by_recency(s)),
        by_recency(s).to_multiset() =~= s.to_multiset(),
        by_recency(s).len() == s.len(),
    decreases s.len(),
{
    broadcast use vstd::seq_lib::group_to_multiset_ensures;

    if s.len() > 0 {
        lemma_by_recency(s.drop_last());
        lemma_insert_keeps_order(by_recency(s.drop_last()), s.last());
        assert(s =~= s.drop_last().push(s.last()));
    }
}

/// The recent-task list is ordered most recently modified first, holds
/// eight tasks or all of them when there are fewer, and holds only given
/// tasks; before the cut to eight it is a reordering of all of them; and
/// every task left out was modified no later than the last one shown.
pub proof fn law_recent_list(tasks: Seq<RecentTask>)
    ensures
        recency_sorted(recent_list(tasks)),
        recent_list(tasks).len() == if tasks.len() <= 8 { tasks.len() } else { 8 },
        by_recency(tasks).to_multiset() =~= tasks.to_multiset(),
        forall|i: int| 0 <= i < recent_list(tasks).len() ==> tasks.contains(#[trigger] recent_list(tasks)[i]),
        forall|t: RecentTask|
            #![trigger tasks.contains(t), recent_list(tasks).contains(t)]
            tasks.contains(t) && !recent_list(tasks).contains(t) ==> t.modified_at <= recent_list(
                tasks,
            ).last().modified_at,
{
    broadcast use vstd::seq_lib::group_to_multiset_ensures;

    lemma_by_recency(tasks);
    let r = recent_list(tasks);
    let b = by_recency(tasks);
    assert forall|i: int| 0 <= i < r.len() implies tasks.contains(#[trigger] r[i]) by {
        assert(r[i] == b[i]);
        assert(b.contains(b[i]));
        assert(b.to_multiset().count(b[i]) > 0);
    }
    assert forall|t: RecentTask| tasks.contains(t) && !r.contains(t) implies t.modified_at
        <= r.last().modified_at by {
        assert(tasks.to_multiset().count(t) > 0);
        assert(b.to_multiset().count(t) > 0);
        assert(b.contains(t));
        let k = choose|k: int| 0 <= k < b.len() && b[k] == t;
        if k < r.len() {
            assert(r[k] == b[k]);
            assert(r.contains(t));
        }
        assert(r.len() == 8);
        assert(r.last() == b[7]);
    }
}


/// The first line of `content`, as `str::lines` gives it: `None` for empty
/// content; else the text before the first line feed, without the carriage
/// return that ends it when a line feed follows.
pub open spec fn first_line(content: Seq<char>) -> Option<Seq<char>> {
    if content.len() == 0 {
        None
    } else {
        let k = line_len(content);
        if k < content.len() && k > 0 && content[k - 1] == '\r' {
            Some(content.take(k - 1))
        } else {
            Some(content.take(k as int))
        }
    }
}

/// Whether a line is empty once trimmed: every character is whitespace.
pub open spec fn is_blank(line: Seq<char>) -> bool {
    forall|i: int| 0 <= i < line.len() ==> is_unicode_whitespace(#[trigger] line[i])
}

/// The JSON value that `line` parses to (`serde_json::from_str`), if it
/// parses: the strings at its `task_id` and `video_path` keys, each `None`
/// when the key is absent or not a string.
pub uninterp spec fn task_meta(line: Seq<char>) -> Option<(Option<Seq<char>>, Option<Seq<char>>)>;

/// The view of an optional string.
pub open spec fn opt_text(s: Option<String>) -> Option<Seq<char>> {
    match s {
        Some(t) => Some(t@),
        None => None,
    }
}

/// `serde_json::from_str::<serde_json::Value>(line)`, then `as_str` on its
/// `task_id` and `video_path` entries: `None` when the line is not JSON.
#[verifier::external_body]
fn parse_task_meta(line: &str) -> (r: Option<(Option<String>, Option<String>)>)
    ensures
        match r {
            Some((id, path)) => task_meta(line@) == Some((opt_text(id), opt_text(path))),
            None => task_meta(line@) is None,
        },
{
    match serde_json::from_str::<serde_json::Value>(line) {
        Ok(meta) => Some((
            meta["task_id"].as_str().map(|t| t.to_string()),
            meta["video_path"].as_str().map(|t| t.to_string()),
        )),
        Err(_) => None,
    }
}

/// `p` without trailing `/` characters and trailing `/.` components.
pub open spec fn strip_path_tail(p: Seq<char>) -> Seq<char>
    decreases p.len(),
{
    if p.len() == 0 {
        p
    } else if p.last() == '/' {
        strip_path_tail(p.drop_last())
    } else if p.len() >= 2 && p.last() == '.' && p[p.len() - 2] == '/' {
        strip_path_tail(p.drop_last().drop_last())
    } else {
        p
    }
}

/// The characters of `p` after its last `/`.
pub open spec fn last_segment(p: Seq<char>) -> Seq<char>
    decreases p.len(),
{
    if p.len() == 0 || p.last() == '/' {
        seq![]
    } else {
        last_segment(p.drop_last()).push(p.last())
    }
}

/// The file name of a `/`-separated path, as `Path::file_name` gives it: its
/// last component once trailing separators and `.` components are dropped;
/// `None` when that is empty, `.` or `..`.
pub open spec fn file_name_spec(p: Seq<char>) -> Option<Seq<char>> {
    let seg = last_segment(strip_path_tail(p));
    if seg.len() == 0 || seg =~= seq!['.'] || seg =~= seq!['.', '.'] {
        None
    } else {
        Some(seg)
    }
}

/// The text, or the empty text for `None`.
pub open spec fn text_or_empty(s: Option<Seq<char>>) -> Seq<char> {
    match s {
        Some(t) => t,
        None => seq![],
    }
}

/// The recent task (id, video path, file name, modification time) described
/// by a task's progress file with this content and modification time: its
/// first line must be non-blank JSON naming a non-empty `video_path`; the id
/// defaults to the empty text and the file name is the path's last
/// component, or empty.
pub open spec fn recent_task_spec(content: Seq<char>, modified_at: u64) -> Option<
    (Seq<char>, Seq<char>, Seq<char>, u64),
> {
    match first_line(content) {
        None => None,
        Some(line) => if is_blank(line) {
            None
        } else {
            match task_meta(line) {
                None => None,
                Some((id, path)) => {
                    let video = text_or_empty(path);
                    if video.len() == 0 {
                        None
                    } else {
                        Some((text_or_empty(id), video, text_or_empty(file_name_spec(video)), modified_at))
                    }
                },
            }
        },
    }
}

/// The view of an optional recent task.
pub open spec fn task_view(t: Option<RecentTask>) -> Option<(Seq<char>, Seq<char>, Seq<char>, u64)> {
    match t {
        Some(r) => Some((r.task_id@, r.video_path@, r.file_name@, r.modified_at)),
        None => None,
    }
}

/// The first line of `content`.
fn first_line_of(content: &str) -> (r: Option<String>)
    ensures
        opt_text(r) == first_line(content@),
{
    let chars = collect_chars(content);
    let n = chars.len();
    if n == 0 {
        return None;
    }
    let mut i: usize = 0;
    assert(chars@.skip(0) =~= chars@);
    while i < n && chars[i] != '\n'
        invariant
            i <= n,
            n == chars@.len(),
            line_len(chars@) == i + line_len(chars@.skip(i as int)),
        decreases n - i,
    {
        assert(chars@.skip(i as int).drop_first() =~= chars@.skip(i + 1));
        i = i + 1;
    }
    assert(line_len(chars@) == i);
    if i < n && i > 0 && chars[i - 1] == '\r' {
        Some(string_from_chars(&chars, 0, i - 1))
    } else {
        Some(string_from_chars(&chars, 0, i))
    }
}

/// Whether every character of `line` is whitespace.
fn blank(line: &str) -> (r: bool)
    ensures
        r == is_blank(line@),
{
    let chars = collect_chars(line);
    let n = chars.len();
    let mut i: usize = 0;
    while i < n
        invariant
            i <= n,
            n == chars@.len(),
            chars@ == line@,
            forall|k: int| 0 <= k < i ==> is_unicode_whitespace(#[trigger] line@[k]),
        decreases n - i,
    {
        if !is_whitespace_char(chars[i]) {
            return false;
        }
        i = i + 1;
    }
    true
}

/// The file name of the `/`-separated path `path`.
pub fn file_name_of(path: &str) -> (r: Option<String>)
    ensures
        opt_text(r) == file_name_spec(path@),
{
    let chars = collect_chars(path);
    let mut e: usize = chars.len();
    assert(chars@.take(e as int) =~= chars@);
    loop
        invariant
            e <= chars@.len(),
            strip_path_tail(chars@) == strip_path_tail(chars@.take(e as int)),
        ensures
            e <= chars@.len(),
            strip_path_tail(chars@) == strip_path_tail(chars@.take(e as int)),
            !(e > 0 && chars@[e - 1] == '/'),
            !(e >= 2 && chars@[e - 1] == '.' && chars@[e - 2] == '/'),
        decreases e,
    {
        if e > 0 && chars[e - 1] == '/' {
            assert(chars@.take(e as int).drop_last() =~= chars@.take(e - 1));
            e = e - 1;
        } else if e >= 2 && chars[e - 1] == '.' && chars[e - 2] == '/' {
            assert(chars@.take(e as int).drop_last().drop_last() =~= chars@.take(e - 2));
            e = e - 2;
        } else {
            break;
        }
    }
    let ghost q = chars@.take(e as int);
    assert(strip_path_tail(q) == q) by {
        if e > 0 {
            assert(q.last() == chars@[e - 1]);
        }
        if e >= 2 {
            assert(q[q.len() - 2] == chars@[e - 2]);
        }
    }
    let mut s: usize = e;
    assert(q.subrange(e as int, e as int) =~= Seq::<char>::empty());
    assert(q.take(e as int) =~= q);
    while s > 0 && chars[s - 1] != '/'
        invariant
            s <= e,
            e <= chars@.len(),
            q == chars@.take(e as int),
            last_segment(q) == last_segment(q.take(s as int)) + chars@.subrange(s as int, e as int),
        decreases s,
    {
        assert(q.take(s as int).drop_last() =~= q.take(s - 1));
        assert(q.take(s as int).last() == chars@[s - 1]);
        assert(last_segment(q.take(s - 1)).push(chars@[s - 1]) + chars@.subrange(s as int, e as int)
            =~= last_segment(q.take(s - 1)) + chars@.subrange(s - 1, e as int));
        s = s - 1;
    }
    assert(last_segment(q.take(s as int)) =~= Seq::<char>::empty()) by {
        if s > 0 {
            assert(q.take(s as int).last() == chars@[s - 1]);
        }
    }
    assert(last_segment(q) =~= chars@.subrange(s as int, e as int));
    let len = e - s;
    if len == 0 || (len == 1 && chars[s] == '.') || (len == 2 && chars[s] == '.' && chars[s + 1] == '.') {
        proof {
            let seg = chars@.subrange(s as int, e as int);
            if len == 1 {
                assert(seg =~= seq!['.']);
            }
            if len == 2 {
                assert(seg =~= seq!['.', '.']);
            }
        }
        None
    } else {
        proof {
            let seg = chars@.subrange(s as int, e as int);
            if len == 1 {
                assert(seg[0] == chars@[s as int]);
                assert(!(seg =~= seq!['.']));
            }
            if len == 2 {
                assert(seg[0] == chars@[s as int]);
                assert(seg[1] == chars@[s + 1]);
                assert(!(seg =~= seq!['.', '.']));
            }
        }
        Some(string_from_chars(&chars, s, e))
    }
}

/// The text, or the empty string for `None`.
fn string_or_empty(s: Option<String>) -> (r: String)
    ensures
        r@ == text_or_empty(opt_text(s)),
{
    match s {
        Some(t) => t,
        None => String::new(),
    }
}

/// The recent task described by a task's progress file with this content
/// and modification time (Unix seconds), if it describes one.
pub fn recent_task_from_progress(content: &str, modified_at: u64) -> (r: Option<RecentTask>)
    ensures
        task_view(r) == recent_task_spec(content@, modified_at),
{
    let line = match first_line_of(content) {
        Some(l) => l,
        None => {
            return None;
        },
    };
    if blank(line.as_str()) {
        return None;
    }
    let (id, path) = match parse_task_meta(line.as_str()) {
        Some(m) => m,
        None => {
            return None;
        },
    };
    let video_path = string_or_empty(path);
    if video_path.as_str().is_empty() {
        return None;
    }
    let file_name = string_or_empty(file_name_of(video_path.as_str()));
    let task_id = string_or_empty(id);
    Some(RecentTask { task_id, video_path, file_name, modified_at })
}

} // verus!
