use pick_up_sound_text::subtitle::{generate_srt, generate_vtt, SubtitleEntry, SubtitleStatus};

fn entry(start: i64, end: i64, source: &str, translated: &str) -> SubtitleEntry {
    SubtitleEntry {
        content_start_ms: start,
        content_end_ms: end,
        wall_start: start,
        wall_end: end,
        source: source.to_string(),
        translated: translated.to_string(),
        status: SubtitleStatus::Final,
    }
}

#[test]
fn test_srt_generation() {
    let entries = vec![
        SubtitleEntry {
            content_start_ms: 0,
            content_end_ms: 2500,
            wall_start: 0,
            wall_end: 2500,
            source: "Hello".to_string(),
            translated: "你好".to_string(),
            status: SubtitleStatus::Final,
        },
        SubtitleEntry {
            content_start_ms: 2500,
            content_end_ms: 5000,
            wall_start: 2500,
            wall_end: 5000,
            source: "World".to_string(),
            translated: "世界".to_string(),
            status: SubtitleStatus::Final,
        },
    ];

    let srt = generate_srt(&entries);
    assert!(srt.contains("00:00:00,000 --> 00:00:02,500"));
    assert!(srt.contains("Hello"));
    assert!(srt.contains("你好"));
}

#[test]
fn srt_document_exact() {
    let entries = vec![entry(0, 2500, "Hello", "你好"), entry(2500, 5000, "World", "世界")];
    assert_eq!(
        generate_srt(&entries),
        "1\n00:00:00,000 --> 00:00:02,500\nHello\n你好\n\n2\n00:00:02,500 --> 00:00:05,000\nWorld\n世界\n"
    );
}

#[test]
fn srt_of_no_entries_is_empty() {
    assert_eq!(generate_srt(&[]), "");
}

#[test]
fn srt_block_numbering() {
    let e = entry(3_723_456, 3_724_000, "a", "b");
    assert_eq!(e.to_srt_format(12), "12\n01:02:03,456 --> 01:02:04,000\na\nb\n");
}

#[test]
fn timestamp_fields() {
    assert_eq!(SubtitleEntry::format_timestamp(0), "00:00:00,000");
    assert_eq!(SubtitleEntry::format_timestamp(2500), "00:00:02,500");
    assert_eq!(SubtitleEntry::format_timestamp(59_999), "00:00:59,999");
    assert_eq!(SubtitleEntry::format_timestamp(3_599_999), "00:59:59,999");
    assert_eq!(SubtitleEntry::format_timestamp(3_600_000), "01:00:00,000");
    // Hours are not capped at two digits.
    assert_eq!(SubtitleEntry::format_timestamp(360_000_000), "100:00:00,000");
    // Negative times show as zero.
    assert_eq!(SubtitleEntry::format_timestamp(-1), "00:00:00,000");
    assert_eq!(SubtitleEntry::format_timestamp(i64::MIN), "00:00:00,000");
    // Hours stop at u32::MAX.
    assert_eq!(SubtitleEntry::format_timestamp(i64::MAX), "4294967295:12:55,807");
}

#[test]
fn timestamp_parts_recombine() {
    // 01:02:03,456 is 1 h + 2 min + 3 s + 456 ms.
    let ms: i64 = 3_600_000 + 2 * 60_000 + 3 * 1000 + 456;
    assert_eq!(SubtitleEntry::format_timestamp(ms), "01:02:03,456");
}

#[test]
fn vtt_document_exact() {
    let entries = vec![entry(0, 2500, "Hello", "你好"), entry(61_000, 62_005, "World", "世界")];
    assert_eq!(
        generate_vtt(&entries),
        "WEBVTT\n\n00:00:00.000 --> 00:00:02.500\nHello\n你好\n\n00:01:01.000 --> 00:01:02.005\nWorld\n世界\n"
    );
    assert_eq!(generate_vtt(&[]), "WEBVTT\n\n");
}
