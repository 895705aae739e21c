use pick_up_sound_text::asr::{AsrEvent, DashScopeAsrProvider, SentenceInfo, ServerStep};

fn sentence(text: Option<&str>, begin: Option<i64>, end: Option<i64>, done: Option<bool>) -> SentenceInfo {
    SentenceInfo {
        text: text.map(|t| t.to_string()),
        begin_time_ms: begin,
        end_time_ms: end,
        sentence_end: done,
    }
}

#[test]
fn ws_url_carries_key() {
    assert_eq!(
        DashScopeAsrProvider::dashscope_ws_url("test_key"),
        "wss://dashscope.aliyuncs.com/api-ws/v1/inference?Authorization=Bearer%20test_key"
    );
}

#[test]
fn task_started_signals_ready() {
    match DashScopeAsrProvider::classify_server_event(Some("task-started"), None, None, None) {
        ServerStep::Emit(AsrEvent::EndOfStream) => {}
        other => panic!("unexpected {:?}", other),
    }
}

#[test]
fn sentences_become_final_or_partial() {
    match DashScopeAsrProvider::classify_server_event(
        Some("result-generated"),
        Some(sentence(Some("hello world"), Some(120), Some(980), Some(true))),
        None,
        None,
    ) {
        ServerStep::Emit(e) => assert_eq!(
            e,
            AsrEvent::Final { text: "hello world".to_string(), ts_start_ms: 120, ts_end_ms: 980 }
        ),
        other => panic!("unexpected {:?}", other),
    }
    match DashScopeAsrProvider::classify_server_event(
        Some("result-generated"),
        Some(sentence(None, None, Some(5), None)),
        None,
        None,
    ) {
        ServerStep::Emit(e) => assert_eq!(
            e,
            AsrEvent::Partial { text: String::new(), ts_start_ms: 0, ts_end_ms: 5 }
        ),
        other => panic!("unexpected {:?}", other),
    }
    assert!(matches!(
        DashScopeAsrProvider::classify_server_event(Some("result-generated"), None, None, None),
        ServerStep::Ignore
    ));
}

#[test]
fn finish_and_failure_stop_the_stream() {
    assert!(matches!(
        DashScopeAsrProvider::classify_server_event(Some("task-finished"), None, None, None),
        ServerStep::EmitAndStop(AsrEvent::EndOfStream)
    ));
    match DashScopeAsrProvider::classify_server_event(Some("task-failed"), None, None, None) {
        ServerStep::EmitAndStop(e) => assert_eq!(
            e,
            AsrEvent::Error { code: "UNKNOWN".to_string(), message: "Unknown error".to_string() }
        ),
        other => panic!("unexpected {:?}", other),
    }
    match DashScopeAsrProvider::classify_server_event(
        Some("task-failed"),
        None,
        Some("InvalidApiKey".to_string()),
        Some("bad key".to_string()),
    ) {
        ServerStep::EmitAndStop(e) => assert_eq!(
            e,
            AsrEvent::Error { code: "InvalidApiKey".to_string(), message: "bad key".to_string() }
        ),
        other => panic!("unexpected {:?}", other),
    }
}

#[test]
fn other_messages_are_ignored() {
    assert!(matches!(DashScopeAsrProvider::classify_server_event(None, None, None, None), ServerStep::Ignore));
    assert!(matches!(
        DashScopeAsrProvider::classify_server_event(Some("heartbeat"), None, None, None),
        ServerStep::Ignore
    ));
}
