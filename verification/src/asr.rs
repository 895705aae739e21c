//! Speech recognition: the stream configuration, the events a recognition
//! stream yields, and how DashScope's real-time server messages map to them.

use vstd::prelude::*;

verus! {

/// An event from a recognition stream. Times are milliseconds from the start
/// of the audio sent on that stream.
#[derive(Clone, Debug, PartialEq)]
pub enum AsrEvent {
    Partial { text: String, ts_start_ms: i64, ts_end_ms: i64 },
    Final { text: String, ts_start_ms: i64, ts_end_ms: i64 },
    Error { code: String, message: String },
    EndOfStream,
}

/// An [`AsrEvent`] with its strings taken as character sequences.
pub enum AsrEventView {
    Partial { text: Seq<char>, ts_start_ms: i64, ts_end_ms: i64 },
    Final { text: Seq<char>, ts_start_ms: i64, ts_end_ms: i64 },
    Error { code: Seq<char>, message: Seq<char> },
    EndOfStream,
}

impl View for AsrEvent {
    type V = AsrEventView;

    open spec fn view(&self) -> AsrEventView {
        match self {
            AsrEvent::Partial { text, ts_start_ms, ts_end_ms } => AsrEventView::Partial {
                text: text@,
                ts_start_ms: *ts_start_ms,
                ts_end_ms: *ts_end_ms,
            },
            AsrEvent::Final { text, ts_start_ms, ts_end_ms } => AsrEventView::Final {
                text: text@,
                ts_start_ms: *ts_start_ms,
                ts_end_ms: *ts_end_ms,
            },
            AsrEvent::Error { code, message } => AsrEventView::Error {
                code: code@,
                message: message@,
            },
            AsrEvent::EndOfStream => AsrEventView::EndOfStream,
        }
    }
}

/// Settings for one recognition stream.
#[derive(Clone, Debug)]
pub struct AsrConfig {
    pub provider: String,
    pub model: String,
    pub api_key: String,
    pub language: String,
}

/// The sentence of a `result-generated` server message, each field as the
/// message holds it (absent when missing or of the wrong type). Times are in
/// milliseconds.
#[derive(Clone, Debug)]
pub struct SentenceInfo {
    pub text: Option<String>,
    pub begin_time_ms: Option<i64>,
    pub end_time_ms: Option<i64>,
    pub sentence_end: Option<bool>,
}

/// What a server message means for the recognition stream.
#[derive(Debug)]
pub enum ServerStep {
    /// Pass this event on and keep reading.
    Emit(AsrEvent),
    /// Pass this event on and stop reading.
    EmitAndStop(AsrEvent),
    /// Nothing to pass on; keep reading.
    Ignore,
}

pub enum ServerStepView {
    Emit(AsrEventView),
    EmitAndStop(AsrEventView),
    Ignore,
}

impl View for ServerStep {
    type V = ServerStepView;

    open spec fn view(&self) -> ServerStepView {
        match self {
            ServerStep::Emit(e) => ServerStepView::Emit(e@),
            ServerStep::EmitAndStop(e) => ServerStepView::EmitAndStop(e@),
            ServerStep::Ignore => ServerStepView::Ignore,
        }
    }
}

pub open spec fn text_or(s: Option<String>, default: Seq<char>) -> Seq<char> {
    match s {
        Some(t) => t@,
        None => default,
    }
}

pub open spec fn time_or_zero(t: Option<i64>) -> i64 {
    match t {
        Some(v) => v,
        None => 0,
    }
}

/// The event a `result-generated` message's sentence stands for: final when
/// the sentence is marked ended, partial otherwise; a missing text is empty
/// and a missing time is zero.
pub open spec fn sentence_event(s: SentenceInfo) -> AsrEventView {
    let text = text_or(s.text, seq![]);
    let start = time_or_zero(s.begin_time_ms);
    let end = time_or_zero(s.end_time_ms);
    if s.sentence_end == Some(true) {
        AsrEventView::Final { text, ts_start_ms: start, ts_end_ms: end }
    } else {
        AsrEventView::Partial { text, ts_start_ms: start, ts_end_ms: end }
    }
}

/// What a DashScope real-time server message with header event `event`
/// means: `task-started` (the service's readiness signal) is passed on as
/// an end-of-stream event, `result-generated` carries a sentence, `task-finished` ends the stream and
/// `task-failed` reports an error (code `UNKNOWN` and message
/// `Unknown error` when absent) and ends it; anything else is ignored.
pub open spec fn server_step(
    event: Option<Seq<char>>,
    sentence: Option<SentenceInfo>,
    error_code: Option<String>,
    error_message: Option<String>,
) -> ServerStepView {
    match event {
        None => ServerStepView::Ignore,
        Some(ev) => if ev == "task-started"@ {
            ServerStepView::Emit(AsrEventView::EndOfStream)
        } else if ev == "result-generated"@ {
            match sentence {
                Some(s) => ServerStepView::Emit(sentence_event(s)),
                None => ServerStepView::Ignore,
            }
        } else if ev == "task-finished"@ {
            ServerStepView::EmitAndStop(AsrEventView::EndOfStream)
        } else if ev == "task-failed"@ {
            ServerStepView::EmitAndStop(
                AsrEventView::Error {
                    code: text_or(error_code, "UNKNOWN"@),
                    message: text_or(error_message, "Unknown error"@),
                },
            )
        } else {
            ServerStepView::Ignore
        },
    }
}

fn string_or(s: Option<String>, default: &str) -> (r: String)
    ensures
        r@ == text_or(s, default@),
{
    match s {
        Some(t) => t,
        None => String::from_str(default),
    }
}

/// The DashScope real-time speech recognition service.
#[derive(Clone, Copy, Debug)]
pub struct DashScopeAsrProvider;

impl DashScopeAsrProvider {
    /// Classifies a DashScope real-time server message by its header event, its
    /// sentence (for `result-generated`) and its error fields (for
    /// `task-failed`).
    pub fn classify_server_event(
        event: Option<&str>,
        sentence: Option<SentenceInfo>,
        error_code: Option<String>,
        error_message: Option<String>,
    ) -> (r: ServerStep)
        ensures
            r@ == server_step(
                match event {
                    Some(e) => Some(e@),
                    None => None,
                },
                sentence,
                error_code,
                error_message,
            ),
    {
        let ev = match event {
            Some(e) => e.to_owned(),
            None => {
                return ServerStep::Ignore;
            },
        };
        if ev == String::from_str("task-started") {
            ServerStep::Emit(AsrEvent::EndOfStream)
        } else if ev == String::from_str("result-generated") {
            match sentence {
                Some(s) => {
                    let text = string_or(s.text, "");
                    proof {
                        reveal_strlit("");
                    }
                    let start = match s.begin_time_ms {
                        Some(v) => v,
                        None => 0,
                    };
                    let end = match s.end_time_ms {
                        Some(v) => v,
                        None => 0,
                    };
                    let done = match s.sentence_end {
                        Some(b) => b,
                        None => false,
                    };
                    assert(text@ == text_or(s.text, seq![]));
                    assert(start == time_or_zero(s.begin_time_ms));
                    assert(done == (s.sentence_end == Some(true)));
                    if done {
                        ServerStep::Emit(AsrEvent::Final { text, ts_start_ms: start, ts_end_ms: end })
                    } else {
                        ServerStep::Emit(AsrEvent::Partial { text, ts_start_ms: start, ts_end_ms: end })
                    }
                },
                None => ServerStep::Ignore,
            }
        } else if ev == String::from_str("task-finished") {
            ServerStep::EmitAndStop(AsrEvent::EndOfStream)
        } else if ev == String::from_str("task-failed") {
            ServerStep::EmitAndStop(
                AsrEvent::Error {
                    code: string_or(error_code, "UNKNOWN"),
                    message: string_or(error_message, "Unknown error"),
                },
            )
        } else {
            ServerStep::Ignore
        }
    }

    /// The WebSocket address of DashScope's real-time inference service, with
    /// `api_key` as bearer authorization in the query.
    pub fn dashscope_ws_url(api_key: &str) -> (r: String)
        ensures
            r@ == "wss://dashscope.aliyuncs.com/api-ws/v1/inference?Authorization=Bearer%20"@ + api_key@,
    {
        let mut url = String::from_str("wss://dashscope.aliyuncs.com/api-ws/v1/inference?Authorization=Bearer%20");
        url.append(api_key);
        url
    }

}


/// A `result-generated` message with a sentence always yields one event,
/// and the stream goes on: a final line exactly when the sentence is marked
/// ended (`sentence_end` is `Some(true)`), a partial one when the mark is
/// false or missing. The event carries the sentence's text (empty when
/// missing) and its times (zero when missing).
pub proof fn law_final_only_when_sentence_ended(
    s: SentenceInfo,
    error_code: Option<String>,
    error_message: Option<String>,
)
    ensures
        match server_step(Some("result-generated"@), Some(s), error_code, error_message) {
            ServerStepView::Emit(AsrEventView::Final { text, ts_start_ms, ts_end_ms }) => {
                &&& s.sentence_end == Some(true)
                &&& s.text matches Some(x) ==> text == x@
                &&& s.text is None ==> text.len() == 0
                &&& s.begin_time_ms matches Some(b) ==> ts_start_ms == b
                &&& s.begin_time_ms is None ==> ts_start_ms == 0
                &&& s.end_time_ms matches Some(e) ==> ts_end_ms == e
                &&& s.end_time_ms is None ==> ts_end_ms == 0
            },
            ServerStepView::Emit(AsrEventView::Partial { text, ts_start_ms, ts_end_ms }) => {
                &&& s.sentence_end != Some(true)
                &&& s.text matches Some(x) ==> text == x@
                &&& s.text is None ==> text.len() == 0
                &&& s.begin_time_ms matches Some(b) ==> ts_start_ms == b
                &&& s.begin_time_ms is None ==> ts_start_ms == 0
                &&& s.end_time_ms matches Some(e) ==> ts_end_ms == e
                &&& s.end_time_ms is None ==> ts_end_ms == 0
            },
            _ => false,
        },
{
    reveal_strlit("result-generated");
    reveal_strlit("task-started");
    assert("result-generated"@.len() == 16);
    assert("task-started"@.len() == 12);
    assert("result-generated"@ != "task-started"@);
    let r = server_step(Some("result-generated"@), Some(s), error_code, error_message);
    assert(r == ServerStepView::Emit(sentence_event(s)));
}
} // verus!
