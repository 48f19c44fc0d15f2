use regex_lite::Regex;
use volume_locker::names::clean_device_name;
use volume_locker::text::{str_ends_with, str_eq, str_starts_with, u64_to_string};

/// The cleaning transform written directly over the regular-expression
/// engine, for cross-checking the library's implementation.
fn clean_with_regex(name: &str) -> String {
    let name_splitter =
        Regex::new(r"(?P<friendlyName>.+)\s\([\d\s\-|]*(?P<deviceName>.+)\)").unwrap();
    let name_cleaner = Regex::new(r"\s?\(\d\)|^\d+\s?-\s?").unwrap();

    if let Some(captures) = name_splitter.captures(name) {
        let friendly_name = captures.name("friendlyName").map_or("", |m| m.as_str());
        let device_name = captures.name("deviceName").map_or("", |m| m.as_str());

        let cleaned_friendly = name_cleaner.replace_all(friendly_name, "");
        let cleaned_friendly = cleaned_friendly.trim();

        format!("{cleaned_friendly} ({device_name})")
    } else {
        name.to_string()
    }
}

#[test]
fn clean_device_name_examples() {
    assert_eq!(
        clean_device_name("Speakers (Realtek High Definition Audio)"),
        "Speakers (Realtek High Definition Audio)"
    );
    assert_eq!(
        clean_device_name("Speakers (2- Realtek Audio)"),
        "Speakers (Realtek Audio)"
    );
    assert_eq!(clean_device_name("2- Speakers (USB Audio)"), "Speakers (USB Audio)");
    assert_eq!(
        clean_device_name("Headset (3) Microphone (USB Audio)"),
        "Headset Microphone (USB Audio)"
    );
    assert_eq!(clean_device_name("Plain Name"), "Plain Name");
    assert_eq!(clean_device_name(""), "");
}

#[test]
fn clean_device_name_matches_regex_reference() {
    let cases = [
        "Speakers (Realtek High Definition Audio)",
        "Speakers (2- Realtek Audio)",
        "Speakers (2- Realtek) (2)",
        "2- Speakers (USB Audio)",
        "2 - Speakers (USB Audio)",
        "Headset (3) Microphone (USB Audio)",
        "Headset Earphone (4- Arctis 7 Chat)",
        "Mic (42- Long | Junk - 7 Device)",
        "Plain Name",
        "No closing (paren",
        "Weird ()",
        "() ()",
        "a (b)",
        " (1)",
        "1- ",
        "Name (2)",
        "Name  (Device)",
        "tab\there (x)",
        "multi (line\nname)",
        "line\nbreak (x)",
        "Digits 123 (456)",
        "trailing space (dev) ",
        "(inner (nested) parens) (dev)",
        "日本語 スピーカー (2- デバイス)",
        "",
    ];
    for case in cases {
        assert_eq!(
            clean_device_name(case),
            clean_with_regex(case),
            "mismatch for {case:?}"
        );
    }
}

#[test]
fn clean_device_name_matches_regex_reference_on_fragment_combinations() {
    let fragments = [
        "", "Speakers", "2-", " ", "(2)", "(", ")", "(2- Realtek)", "Mic", "1", "|", "\n", "\t",
        "(x)", "- ",
    ];
    for a in fragments {
        for b in fragments {
            for c in fragments {
                let case = format!("{a}{b}{c}");
                assert_eq!(
                    clean_device_name(&case),
                    clean_with_regex(&case),
                    "mismatch for {case:?}"
                );
            }
        }
    }
}

#[test]
fn decimal_rendering() {
    assert_eq!(u64_to_string(0), "0");
    assert_eq!(u64_to_string(7), "7");
    assert_eq!(u64_to_string(10), "10");
    assert_eq!(u64_to_string(105), "105");
    assert_eq!(u64_to_string(18446744073709551615), "18446744073709551615");
}

#[test]
fn string_helpers() {
    assert!(str_eq("abc", "abc"));
    assert!(!str_eq("abc", "abd"));
    assert!(!str_eq("abc", "ab"));
    assert!(str_starts_with("abcdef", "abc"));
    assert!(!str_starts_with("ab", "abc"));
    assert!(str_ends_with("abcdef", "def"));
    assert!(!str_ends_with("abcdef", "deg"));
    assert!(str_ends_with("abc", ""));
}
