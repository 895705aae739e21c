use pick_up_sound_text::asr::AsrEvent;
use pick_up_sound_text::config::AppConfig;
use pick_up_sound_text::error::AppError;
use pick_up_sound_text::pipeline::{Phase, PipelineAction, PipelineCore, PipelineEvent, PipelineState};
use pick_up_sound_text::subtitle::SubtitleStatus;

fn translated(a: &PipelineAction) -> String {
    match a {
        PipelineAction::Translate(r) => format!("[Translated] {}", r.text),
        other => panic!("expected a translation request, got {:?}", other),
    }
}

#[test]
fn pipeline_process_single_chunk() {
    let mut core = PipelineCore::new(&AppConfig::default());
    assert_eq!(core.state(), PipelineState::Idle);
    assert_eq!(core.phase(), Phase::Ready);
    assert!(matches!(core.step(PipelineEvent::Start), PipelineAction::FetchChunk));
    assert_eq!(core.state(), PipelineState::Processing);
    assert!(matches!(
        core.step(PipelineEvent::ChunkReady { content_time_ms: 0, wall_time_ms: 1000 }),
        PipelineAction::StartAsr
    ));
    let cfg = core.asr_config();
    assert_eq!((cfg.provider.as_str(), cfg.model.as_str(), cfg.language.as_str()), ("dashscope", "paraformer-realtime-v2", "auto"));
    assert!(matches!(core.step(PipelineEvent::AsrStarted), PipelineAction::NextAsrEvent));
    let a = core.step(PipelineEvent::Asr(AsrEvent::Partial {
        text: "hel".to_string(),
        ts_start_ms: 0,
        ts_end_ms: 500,
    }));
    assert!(matches!(a, PipelineAction::NextAsrEvent));
    let a = core.step(PipelineEvent::Asr(AsrEvent::Final {
        text: "hello world".to_string(),
        ts_start_ms: 0,
        ts_end_ms: 1000,
    }));
    match &a {
        PipelineAction::Translate(r) => {
            assert_eq!(r.text, "hello world");
            assert_eq!(r.source_lang, "auto");
            assert_eq!(r.target_lang, "zh");
            assert!(r.context.is_empty());
            assert!(r.glossary.is_none());
        }
        other => panic!("unexpected {:?}", other),
    }
    let t = translated(&a);
    assert!(matches!(core.step(PipelineEvent::Translated(t)), PipelineAction::NextAsrEvent));
    assert!(matches!(core.step(PipelineEvent::Asr(AsrEvent::EndOfStream)), PipelineAction::FetchChunk));
    match core.step(PipelineEvent::AudioFailed(AppError::AudioSource("End of file".to_string()))) {
        PipelineAction::Finish(Ok(())) => {}
        other => panic!("unexpected {:?}", other),
    }
    assert_eq!(core.state(), PipelineState::Completed);
    let entries = core.entries();
    assert_eq!(entries.len(), 1);
    assert_eq!(entries[0].source, "hello world");
    assert_eq!(entries[0].translated, "[Translated] hello world");
    assert_eq!(entries[0].status, SubtitleStatus::Final);
    assert_eq!(entries[0].content_start_ms, 0);
    assert_eq!(entries[0].content_end_ms, 1000);
    assert_eq!(entries[0].wall_start, 1000);
    assert_eq!(entries[0].wall_end, 2000);
}

fn run_chunk(core: &mut PipelineCore, at_ms: i64, lines: &[(&str, i64, i64)]) -> Vec<PipelineAction> {
    let mut actions = Vec::new();
    core.step(PipelineEvent::ChunkReady { content_time_ms: at_ms, wall_time_ms: at_ms });
    core.step(PipelineEvent::AsrStarted);
    for (text, s, e) in lines {
        let a = core.step(PipelineEvent::Asr(AsrEvent::Final {
            text: text.to_string(),
            ts_start_ms: *s,
            ts_end_ms: *e,
        }));
        let t = translated(&a);
        actions.push(a);
        core.step(PipelineEvent::Translated(t));
    }
    actions.push(core.step(PipelineEvent::Asr(AsrEvent::EndOfStream)));
    actions
}

#[test]
fn overlap_with_previous_chunk_is_removed() {
    let mut core = PipelineCore::new(&AppConfig::default());
    core.step(PipelineEvent::Start);
    let a = run_chunk(&mut core, 0, &[("one two", 0, 1000), ("Hello World", 595_000, 600_000)]);
    assert!(matches!(a.last(), Some(PipelineAction::FetchChunk)));
    // Second chunk starts at 600 s and repeats "world" from the first.
    let a = run_chunk(&mut core, 600_000, &[("world again", 0, 2000), ("next", 3000, 4000)]);
    // The first line of the second chunk saw the earlier lines as context.
    match &a[0] {
        PipelineAction::Translate(r) => assert_eq!(r.context, vec!["Hello World".to_string(), "one two".to_string()]),
        other => panic!("unexpected {:?}", other),
    }
    let retranslate = a.last().unwrap();
    match retranslate {
        PipelineAction::Translate(r) => assert_eq!(r.text, " again"),
        other => panic!("unexpected {:?}", other),
    }
    assert_eq!(core.phase(), Phase::AwaitRetranslation);
    assert!(matches!(
        core.step(PipelineEvent::Translated("[Translated]  again".to_string())),
        PipelineAction::FetchChunk
    ));
    let e = core.entries();
    assert_eq!(e.len(), 4);
    assert_eq!(e[2].source, " again");
    assert_eq!(e[2].translated, "[Translated]  again");
    // 5 of 11 characters were removed: the start moves 5/11 of 2000 ms.
    assert_eq!(e[2].content_start_ms, 600_000 + 909);
    assert_eq!(e[2].wall_start, 600_000 + 909);
    assert_eq!(e[2].content_end_ms, 602_000);
    assert_eq!(e[3].source, "next");
}

#[test]
fn recognition_error_fails_pipeline() {
    let mut core = PipelineCore::new(&AppConfig::default());
    core.step(PipelineEvent::Start);
    core.step(PipelineEvent::ChunkReady { content_time_ms: 0, wall_time_ms: 0 });
    core.step(PipelineEvent::AsrStarted);
    match core.step(PipelineEvent::Asr(AsrEvent::Error {
        code: "E1".to_string(),
        message: "bad".to_string(),
    })) {
        PipelineAction::Finish(Err(AppError::Asr(m))) => assert_eq!(m, "E1: bad"),
        other => panic!("unexpected {:?}", other),
    }
    assert_eq!(core.state(), PipelineState::Failed("E1: bad".to_string()));
    assert_eq!(core.phase(), Phase::Finished);
    assert!(!core.accepts(&PipelineEvent::Start));
}

#[test]
fn audio_error_fails_pipeline_but_translation_error_only_stops() {
    let mut core = PipelineCore::new(&AppConfig::default());
    core.step(PipelineEvent::Start);
    match core.step(PipelineEvent::AudioFailed(AppError::AudioSource("ffmpeg extraction failed".to_string()))) {
        PipelineAction::Finish(Err(AppError::AudioSource(m))) => assert_eq!(m, "ffmpeg extraction failed"),
        other => panic!("unexpected {:?}", other),
    }
    assert_eq!(core.state(), PipelineState::Failed("ffmpeg extraction failed".to_string()));

    let mut core = PipelineCore::new(&AppConfig::default());
    core.step(PipelineEvent::Start);
    core.step(PipelineEvent::ChunkReady { content_time_ms: 0, wall_time_ms: 0 });
    core.step(PipelineEvent::AsrStarted);
    core.step(PipelineEvent::Asr(AsrEvent::Final { text: "x".to_string(), ts_start_ms: 0, ts_end_ms: 1 }));
    match core.step(PipelineEvent::TranslateFailed(AppError::Translate("HTTP request failed".to_string()))) {
        PipelineAction::Finish(Err(AppError::Translate(_))) => {}
        other => panic!("unexpected {:?}", other),
    }
    assert_eq!(core.state(), PipelineState::Processing);
    assert_eq!(core.phase(), Phase::Finished);
}

#[test]
fn accepts_only_awaited_events() {
    let core = PipelineCore::new(&AppConfig::default());
    assert!(core.accepts(&PipelineEvent::Start));
    assert!(!core.accepts(&PipelineEvent::AsrStarted));
    assert!(!core.accepts(&PipelineEvent::Translated("x".to_string())));
}

#[test]
fn pipeline_state_transitions() {
    assert_eq!(PipelineState::Idle, PipelineState::Idle);
    assert_ne!(PipelineState::Idle, PipelineState::Processing);
}
