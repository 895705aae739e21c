use pick_up_sound_text::machine::platform_uuid;

fn reference(s: &str) -> Option<String> {
    s.lines().find(|l| l.contains("IOPlatformUUID")).and_then(|l| l.split('"').nth(3)).map(|t| t.to_string())
}

#[test]
fn uuid_from_ioreg_output() {
    let out = "+-o Root  <class IORegistryEntry>\n  +-o MacBookPro  <class IOPlatformExpertDevice>\n    {\n      \"IOPlatformSerialNumber\" = \"C02XYZ\"\n      \"IOPlatformUUID\" = \"12345678-ABCD-EF01-2345-6789ABCDEF01\"\n    }\n";
    assert_eq!(platform_uuid(out).as_deref(), Some("12345678-ABCD-EF01-2345-6789ABCDEF01"));
}

#[test]
fn uuid_missing_or_malformed() {
    assert_eq!(platform_uuid(""), None);
    assert_eq!(platform_uuid("no such key\n"), None);
    assert_eq!(platform_uuid("\"IOPlatformUUID\" = "), None);
    // The first mentioning line decides, even when it has no value.
    assert_eq!(platform_uuid("IOPlatformUUID\n\"IOPlatformUUID\" = \"x\""), None);
}

#[test]
fn uuid_agrees_with_lines_and_split() {
    for s in [
        "a\r\n\"IOPlatformUUID\" = \"u-1\"\r\n",
        "\"IOPlatformUUID\" = \"\"",
        "x\"IOPlatformUUID\"\"y\"\"z\"",
        "\n\n  \"IOPlatformUUID\" = \"v\" extra \"w\"",
        "IOPlatformUUI\nD",
        "\"IOPlatformUUID\" = \"r\"\r",
        "IOPlatformUUID\"b\"c\"d\r",
        "IOPlatformUUID\"b\"c\"d\r\n",
    ] {
        assert_eq!(platform_uuid(s), reference(s), "{:?}", s);
    }
}
