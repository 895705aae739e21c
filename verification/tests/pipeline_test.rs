use pick_up_sound_text::pipeline::dedup_overlap;

#[test]
fn pipeline_dedup_no_overlap() {
    assert_eq!(dedup_overlap("hello", "world", 10), "world");
}

#[test]
fn pipeline_dedup_with_overlap() {
    assert_eq!(dedup_overlap("hello world", "world again", 10), " again");
}

#[test]
fn pipeline_dedup_respects_max_overlap() {
    // overlap is 5 ("world"), but max_overlap=3 -> no dedup
    assert_eq!(
        dedup_overlap("hello world", "world again", 3),
        "world again"
    );
}

#[test]
fn pipeline_dedup_empty_inputs() {
    assert_eq!(dedup_overlap("", "abc", 10), "abc");
    assert_eq!(dedup_overlap("abc", "", 10), "");
}

#[test]
fn pipeline_dedup_case_insensitive() {
    assert_eq!(dedup_overlap("Hello World", "world again", 10), " again");
}

#[test]
fn mod_dedup_no_overlap() {
    assert_eq!(dedup_overlap("hello", "world", 10), "world");
}

#[test]
fn mod_dedup_with_overlap() {
    assert_eq!(dedup_overlap("hello world", "world again", 10), " again");
}

#[test]
fn mod_dedup_respects_max_overlap() {
    // overlap is 5 ("world"), but max_overlap=3 -> no dedup
    assert_eq!(
        dedup_overlap("hello world", "world again", 3),
        "world again"
    );
}

#[test]
fn mod_dedup_empty_inputs() {
    assert_eq!(dedup_overlap("", "abc", 10), "abc");
    assert_eq!(dedup_overlap("abc", "", 10), "");
}

#[test]
fn mod_dedup_case_insensitive() {
    assert_eq!(dedup_overlap("Hello World", "world again", 10), " again");
}

#[test]
fn dedup_ignores_trailing_whitespace_of_prev() {
    // "lo" at the end of "hello" (trailing spaces dropped) starts "lo there".
    assert_eq!(dedup_overlap("hello   \n", "lo there", 10), " there");
    // Trailing whitespace is not stripped from `next`.
    assert_eq!(dedup_overlap("hello", "lo  ", 10), "  ");
}

#[test]
fn dedup_takes_longest_overlap() {
    // Both "a" and "aba" are suffixes of "xaba" that start "abab"; the longest wins.
    assert_eq!(dedup_overlap("xaba", "ababz", 10), "bz");
}

#[test]
fn dedup_whole_next_can_vanish() {
    assert_eq!(dedup_overlap("say hello", "HELLO", 50), "");
}

#[test]
fn dedup_zero_max_overlap() {
    assert_eq!(dedup_overlap("abc", "abc", 0), "abc");
}

#[test]
fn dedup_non_ascii_is_case_sensitive() {
    assert_eq!(dedup_overlap("你好世界", "世界和平", 10), "和平");
    assert_eq!(dedup_overlap("straße", "SSE", 10), "SSE");
    assert_eq!(dedup_overlap("ÉCOLE", "école", 10), "école");
}

#[test]
fn dedup_all_whitespace_prev() {
    assert_eq!(dedup_overlap("   ", " x", 10), " x");
}

#[test]
fn dedup_case_jitter_strips_the_same() {
    let prev = "Hello World  ";
    let next = "world again";
    let base = dedup_overlap(prev, next, 10);
    assert_eq!(dedup_overlap(&prev.to_ascii_uppercase(), next, 10), base);
    assert_eq!(dedup_overlap(&prev.to_ascii_lowercase(), next, 10), base);
    assert_eq!(dedup_overlap(prev, &next.to_ascii_uppercase(), 10).chars().count(), base.chars().count());
}
