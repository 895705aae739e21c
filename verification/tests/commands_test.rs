use pick_up_sound_text::commands::{
    check_asr_config, export_plan, file_name_of, md5ish, progress_report, recent_task_from_progress,
    select_recent_tasks, task_id_for_path, RecentTask,
};
use pick_up_sound_text::config::{AppConfig, OssConfig};
use pick_up_sound_text::pipeline::PipelineState;
use pick_up_sound_text::subtitle::{SubtitleEntry, SubtitleStatus};

#[test]
fn fnv1a_known_values() {
    assert_eq!(md5ish(b""), 0xcbf29ce484222325);
    assert_eq!(md5ish(b"a"), 0xaf63dc4c8601ec8c);
    assert_eq!(md5ish(b"foobar"), 0x85944171f73967e8);
}

#[test]
fn task_id_is_hex_of_hash() {
    assert_eq!(task_id_for_path(b"foobar"), "85944171f73967e8");
    assert_eq!(task_id_for_path(b""), "cbf29ce484222325");
    assert_eq!(task_id_for_path(b"/videos/a.mp4"), task_id_for_path(b"/videos/a.mp4"));
    assert_ne!(task_id_for_path(b"/videos/a.mp4"), task_id_for_path(b"/videos/b.mp4"));
}

#[test]
fn progress_reports() {
    let r = progress_report(&PipelineState::Idle);
    assert_eq!((r.state.as_str(), r.complete, r.error), ("idle", false, None));
    let r = progress_report(&PipelineState::Processing);
    assert_eq!((r.state.as_str(), r.complete), ("processing", false));
    let r = progress_report(&PipelineState::Completed);
    assert_eq!((r.state.as_str(), r.complete), ("completed", true));
    let r = progress_report(&PipelineState::Exported);
    assert_eq!((r.state.as_str(), r.complete), ("exported", true));
    let r = progress_report(&PipelineState::Failed("boom".to_string()));
    assert_eq!((r.state.as_str(), r.complete, r.error), ("failed", false, Some("boom".to_string())));
}

fn entries() -> Vec<SubtitleEntry> {
    vec![SubtitleEntry {
        content_start_ms: 0,
        content_end_ms: 1000,
        wall_start: 0,
        wall_end: 1000,
        source: "hi".to_string(),
        translated: "嗨".to_string(),
        status: SubtitleStatus::Final,
    }]
}

#[test]
fn export_formats() {
    let p = export_plan("srt", &entries()).unwrap();
    assert_eq!(p.content, "1\n00:00:00,000 --> 00:00:01,000\nhi\n嗨\n");
    assert_eq!((p.ext.as_str(), p.title.as_str()), ("srt", "Save SRT subtitle"));
    assert_eq!((p.file_name.as_str(), p.filter_name.as_str()), ("output.srt", "SRT Subtitle"));
    let p = export_plan("vtt", &entries()).unwrap();
    assert_eq!(p.content, "WEBVTT\n\n00:00:00.000 --> 00:00:01.000\nhi\n嗨\n");
    assert_eq!((p.ext.as_str(), p.title.as_str()), ("vtt", "Save VTT subtitle"));
    assert_eq!((p.file_name.as_str(), p.filter_name.as_str()), ("output.vtt", "VTT Subtitle"));
    assert_eq!(export_plan("ass", &entries()).unwrap_err(), "Unsupported format: ass");
    assert_eq!(export_plan("SRT", &entries()).unwrap_err(), "Unsupported format: SRT");
}

fn oss() -> OssConfig {
    OssConfig {
        endpoint: "oss-cn-beijing.aliyuncs.com".to_string(),
        bucket: "b".to_string(),
        access_key_id: "id".to_string(),
        access_key_secret: "secret".to_string(),
        path_prefix: None,
    }
}

#[test]
fn asr_config_checks() {
    let mut c = AppConfig::default();
    assert_eq!(check_asr_config(&c).unwrap_err(), "ASR API Key 未配置");
    c.asr.api_key = "k".to_string();
    assert_eq!(check_asr_config(&c).unwrap_err(), "ASR Workspace ID 未配置（北京区域必填）");
    c.asr.workspace_id = Some("ws".to_string());
    assert_eq!(check_asr_config(&c).unwrap_err(), "OSS 配置未设置（文件转写需要 OSS 托管音频）");
    let mut o = oss();
    o.bucket = String::new();
    c.oss = Some(o);
    assert_eq!(check_asr_config(&c).unwrap_err(), "OSS 配置不完整");
    c.oss = Some(oss());
    assert_eq!(
        check_asr_config(&c).unwrap(),
        "ASR 配置验证通过（API Key、Workspace ID、OSS 配置已设置）"
    );
}

fn task(id: &str, t: u64) -> RecentTask {
    RecentTask {
        task_id: id.to_string(),
        video_path: format!("/v/{}.mp4", id),
        file_name: format!("{}.mp4", id),
        modified_at: t,
    }
}

#[test]
fn recent_tasks_newest_first_stable_and_capped() {
    let tasks = vec![
        task("a", 5),
        task("b", 9),
        task("c", 5),
        task("d", 1),
        task("e", 7),
        task("f", 9),
        task("g", 3),
        task("h", 2),
        task("i", 8),
        task("j", 0),
    ];
    let ids: Vec<String> = select_recent_tasks(tasks).into_iter().map(|t| t.task_id).collect();
    assert_eq!(ids, vec!["b", "f", "i", "e", "a", "c", "g", "h"]);
}

#[test]
fn recent_tasks_few_and_none() {
    assert!(select_recent_tasks(vec![]).is_empty());
    let ids: Vec<String> = select_recent_tasks(vec![task("x", 1), task("y", 2)])
        .into_iter()
        .map(|t| t.task_id)
        .collect();
    assert_eq!(ids, vec!["y", "x"]);
}

#[test]
fn progress_file_describes_task() {
    let content = "{\"task_id\":\"ab12\",\"video_path\":\"/Users/me/Movies/talk.mp4\"}\n{\"segment\":0}\n";
    let t = recent_task_from_progress(content, 1700000000).unwrap();
    assert_eq!(t.task_id, "ab12");
    assert_eq!(t.video_path, "/Users/me/Movies/talk.mp4");
    assert_eq!(t.file_name, "talk.mp4");
    assert_eq!(t.modified_at, 1700000000);

    // A missing id defaults to the empty text; CRLF line ends are accepted.
    let t = recent_task_from_progress("{\"video_path\":\"clip.mkv\"}\r\nrest", 5).unwrap();
    assert_eq!(t.task_id, "");
    assert_eq!(t.file_name, "clip.mkv");
}

#[test]
fn progress_files_that_describe_no_task() {
    assert!(recent_task_from_progress("", 1).is_none());
    assert!(recent_task_from_progress("\n{\"video_path\":\"a.mp4\"}", 1).is_none());
    assert!(recent_task_from_progress(" \t ", 1).is_none());
    assert!(recent_task_from_progress("not json", 1).is_none());
    assert!(recent_task_from_progress("{\"task_id\":\"x\"}", 1).is_none());
    assert!(recent_task_from_progress("{\"video_path\":\"\"}", 1).is_none());
    assert!(recent_task_from_progress("{\"video_path\":7}", 1).is_none());
}

#[test]
fn file_names_of_paths() {
    assert_eq!(file_name_of("/a/b/c.mp4").as_deref(), Some("c.mp4"));
    assert_eq!(file_name_of("c.mp4").as_deref(), Some("c.mp4"));
    assert_eq!(file_name_of("/a/b/").as_deref(), Some("b"));
    assert_eq!(file_name_of("a/b/.").as_deref(), Some("b"));
    assert_eq!(file_name_of("./x").as_deref(), Some("x"));
    assert_eq!(file_name_of("a/..").as_deref(), None);
    assert_eq!(file_name_of("/").as_deref(), None);
    assert_eq!(file_name_of(".").as_deref(), None);
    assert_eq!(file_name_of("").as_deref(), None);
    // Agrees with std on these paths.
    for p in ["/a/b/c.mp4", "/a/b/", "a/b/.", "./x", "a/..", "/", ".", "", "a//b", ".hidden", "a/.b/."] {
        let std_name = std::path::Path::new(p).file_name().map(|n| n.to_string_lossy().to_string());
        assert_eq!(file_name_of(p), std_name, "path {:?}", p);
    }
}

#[test]
fn fnv1a_last_byte_never_collides() {
    for x in 0u8..255 {
        for y in (x + 1)..=255 {
            assert_ne!(md5ish(&[b'v', b'/', x]), md5ish(&[b'v', b'/', y]));
        }
    }
}
