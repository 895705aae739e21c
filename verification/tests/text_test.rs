use pick_up_sound_text::text::is_whitespace_char;

#[test]
fn whitespace_agrees_with_std_on_every_char() {
    let mut count = 0;
    for u in 0u32..=0x10FFFF {
        if let Some(c) = char::from_u32(u) {
            assert_eq!(is_whitespace_char(c), c.is_whitespace(), "U+{:04X}", u);
            if c.is_whitespace() {
                count += 1;
            }
        }
    }
    assert_eq!(count, 25);
}
