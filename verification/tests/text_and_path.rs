use std::path::{Path, PathBuf};

use pzmod_dli::path::{is_plain_component, join, path_ends_with_component, path_is_rooted, Platform};
use pzmod_dli::text::{char_is_white_space, split_on_char, trim};

#[test]
fn trim_matches_std_trim() {
    let cases = [
        "", " ", "  abc  ", "\t\n abc\r\n", "a b", "\u{3000}x\u{2028}", "\u{a0}\u{85}y\u{200a}",
        "\u{180e}z", "x\u{200b}",
    ];
    for case in cases {
        assert_eq!(trim(case), case.trim(), "trimming {:?}", case);
    }
}

#[test]
fn white_space_matches_std() {
    for u in 0u32..0x3100 {
        if let Some(c) = char::from_u32(u) {
            assert_eq!(char_is_white_space(c), c.is_whitespace(), "char {:#x}", u);
        }
    }
}

#[test]
fn split_matches_std_split() {
    let cases = ["", ",", "a", "a,b", ",a,", "a,,b", "1, 2 ,3", ",,,"];
    for case in cases {
        let expected: Vec<String> = case.split(',').map(String::from).collect();
        assert_eq!(split_on_char(case, ','), expected, "splitting {:?}", case);
    }
}

#[test]
fn unix_join_matches_std_join() {
    let cases = [
        ("", "a"),
        ("a", "b"),
        ("a/", "b"),
        ("/", "b"),
        ("a", "/b"),
        ("a", ""),
        ("/home/u", ".config"),
        ("/t/mods", "MyMod"),
        ("a//", "b/c"),
        ("x", "C:\\y"),
    ];
    for (base, part) in cases {
        let expected = PathBuf::from(base).join(part);
        assert_eq!(join(Platform::Unix, base, part), expected.to_str().unwrap(), "{:?} + {:?}", base, part);
    }
}

#[test]
fn windows_join_uses_backslash() {
    assert_eq!(join(Platform::Windows, "C:\\Users\\u", "Zomboid"), "C:\\Users\\u\\Zomboid");
    assert_eq!(join(Platform::Windows, "C:\\Users\\u\\", "Zomboid"), "C:\\Users\\u\\Zomboid");
    assert_eq!(join(Platform::Windows, "C:/Users/u/", "Zomboid"), "C:/Users/u/Zomboid");
    assert_eq!(join(Platform::Windows, "C:\\x", "D:\\y"), "D:\\y");
    assert_eq!(join(Platform::Windows, "C:\\x", "\\y"), "C:\\y");
    assert_eq!(join(Platform::Windows, "x\\z", "\\y"), "\\y");
    assert_eq!(join(Platform::Windows, "C:", "mods"), "C:mods");
    assert_eq!(join(Platform::Windows, "C:", "\\mods"), "C:\\mods");
    assert_eq!(join(Platform::Windows, "\\\\server\\share\\a", "\\y"), "\\\\server\\share\\y");
    assert_eq!(join(Platform::Windows, "C:\\x", "\\\\server\\share"), "\\\\server\\share");
    assert_eq!(join(Platform::Windows, "\\\\server", "mods"), "\\\\server\\mods");
}

#[test]
fn rootedness_per_platform() {
    assert!(path_is_rooted(Platform::Unix, "/x"));
    assert!(!path_is_rooted(Platform::Unix, "x/y"));
    assert!(!path_is_rooted(Platform::Unix, "\\x"));
    assert!(!path_is_rooted(Platform::Unix, "C:\\x"));
    assert!(!path_is_rooted(Platform::Windows, "\\x"));
    assert!(path_is_rooted(Platform::Windows, "C:\\x"));
    assert!(path_is_rooted(Platform::Windows, "c:x"));
    assert!(!path_is_rooted(Platform::Windows, "\\\\server"));
    assert!(!path_is_rooted(Platform::Windows, "\\\\server\\"));
    assert!(path_is_rooted(Platform::Windows, "\\\\server\\share"));
    assert!(path_is_rooted(Platform::Windows, "//?/x"));
    assert!(path_is_rooted(Platform::Windows, "\\\\.\\COM1"));
    assert!(path_is_rooted(Platform::Windows, "\\\\?\\x"));
    assert!(path_is_rooted(Platform::Windows, "\\\\?\\C:"));
    assert!(path_is_rooted(Platform::Windows, "\\\\?\\UNC\\server"));
    assert!(!path_is_rooted(Platform::Windows, "/x"));
    assert!(!path_is_rooted(Platform::Windows, "1:x"));
    assert!(!path_is_rooted(Platform::Windows, ""));
}

#[test]
fn unix_ends_with_matches_std_ends_with() {
    let cases = [
        "mods", "/mods", "/games/pz/mods", "/games/pz/mods/", "/games/pz/mods/.", "/games/pz/mods//./",
        "/games/pz", "/games/pzmods", "", "/", ".", "mods/x", "./mods", "/games/mods/..",
    ];
    for case in cases {
        assert_eq!(
            path_ends_with_component(Platform::Unix, case, "mods"),
            Path::new(case).ends_with("mods"),
            "{:?}",
            case
        );
    }
}

#[test]
fn windows_ends_with_accepts_both_separators() {
    assert!(path_ends_with_component(Platform::Windows, "C:\\games\\pz\\mods", "mods"));
    assert!(path_ends_with_component(Platform::Windows, "C:\\games\\pz\\mods\\", "mods"));
    assert!(path_ends_with_component(Platform::Windows, "C:/games/pz/mods", "mods"));
    assert!(!path_ends_with_component(Platform::Windows, "C:\\games\\pz", "mods"));
    assert!(!path_ends_with_component(Platform::Unix, "C:\\games\\mods", "mods"));
    assert!(path_ends_with_component(Platform::Windows, "C:mods", "mods"));
    assert!(!path_ends_with_component(Platform::Windows, "C:", "mods"));
    assert!(path_ends_with_component(Platform::Windows, "\\\\server\\share\\mods", "mods"));
    assert!(!path_ends_with_component(Platform::Windows, "\\\\server\\mods", "mods"));
}

#[test]
fn plain_components() {
    assert!(is_plain_component(Platform::Unix, "MyMod"));
    assert!(is_plain_component(Platform::Unix, "C:x"));
    assert!(!is_plain_component(Platform::Windows, "C:x"));
    assert!(!is_plain_component(Platform::Unix, ""));
    assert!(!is_plain_component(Platform::Unix, "."));
    assert!(!is_plain_component(Platform::Unix, ".."));
    assert!(is_plain_component(Platform::Unix, "..."));
    assert!(!is_plain_component(Platform::Unix, "a/b"));
    assert!(is_plain_component(Platform::Unix, "a\\b"));
    assert!(!is_plain_component(Platform::Windows, "a\\b"));
}

#[test]
fn ends_with_needs_the_whole_name() {
    assert!(!path_ends_with_component(Platform::Unix, "/a/mod", "mods"));
    assert!(!path_ends_with_component(Platform::Unix, "/a/xmods", "mods"));
}

#[test]
fn verbatim_paths_end_with_their_last_component() {
    assert!(path_ends_with_component(Platform::Windows, "\\\\?\\C:\\x\\mods", "mods"));
    assert!(path_ends_with_component(Platform::Windows, "\\\\?\\C:\\x\\mods\\", "mods"));
    assert!(!path_ends_with_component(Platform::Windows, "\\\\?\\C:\\mods\\.", "mods"));
    assert!(!path_ends_with_component(Platform::Windows, "\\\\?\\C:\\x/mods", "mods"));
    assert!(!path_ends_with_component(Platform::Windows, "\\\\?\\UNC\\server\\mods", "mods"));
    assert!(path_ends_with_component(Platform::Windows, "\\\\?\\UNC\\server\\share\\mods", "mods"));
    assert!(!path_ends_with_component(Platform::Windows, "\\\\?\\mods", "mods"));
    assert!(!path_ends_with_component(Platform::Windows, "\\\\.\\mods", "mods"));
    assert!(path_ends_with_component(Platform::Windows, "\\\\.\\dev\\mods", "mods"));
}

#[test]
fn joining_to_verbatim_paths_tidies_the_part() {
    assert_eq!(join(Platform::Windows, "\\\\?\\C:\\x", "y"), "\\\\?\\C:\\x\\y");
    assert_eq!(join(Platform::Windows, "\\\\?\\C:\\x\\y", "..\\z"), "\\\\?\\C:\\x\\z");
    assert_eq!(join(Platform::Windows, "\\\\?\\C:\\x", ".\\z"), "\\\\?\\C:\\x\\z");
    assert_eq!(join(Platform::Windows, "\\\\?\\C:\\x", "y/z"), "\\\\?\\C:\\x\\y\\z");
    assert_eq!(join(Platform::Windows, "\\\\?\\C:\\x\\y", "..\\..\\..\\z"), "\\\\?\\C:\\z");
    assert_eq!(join(Platform::Windows, "\\\\?\\C:\\x", "\\y"), "\\\\?\\C:\\y");
    assert_eq!(join(Platform::Windows, "\\\\?\\C:", "y"), "\\\\?\\C:\\y");
    assert_eq!(join(Platform::Windows, "\\\\?\\C:\\x", ""), "\\\\?\\C:\\x\\");
    assert_eq!(
        join(Platform::Windows, "\\\\?\\UNC\\server\\share\\a", "b"),
        "\\\\?\\UNC\\server\\share\\a\\b"
    );
    assert_eq!(join(Platform::Windows, "\\\\?\\C:\\x", "D:\\y"), "D:\\y");
}
