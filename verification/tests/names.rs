//! File names, numbers and texts.

use gen_upload::matching::{file_safe_name, game_matches};
use gen_upload::patch_name::parse_patch_name;
use gen_upload::text::{
    chars_of, decimal_text, ends_with, join, parse_digits, same_text, starts_with, strip_prefix,
    strip_suffix,
};

fn parts(name: &str) -> Option<(String, String, String)> {
    parse_patch_name(name).map(|p| (p.seed, p.slot, p.player))
}

fn owned(seed: &str, slot: &str, player: &str) -> Option<(String, String, String)> {
    Some((seed.to_string(), slot.to_string(), player.to_string()))
}

#[test]
fn reads_output_file_names() {
    assert_eq!(parts("AP_123_P1_Alice.aptest"), owned("123", "1", "Alice"));
    assert_eq!(parts("AP-123-P01-Alice.x"), owned("123", "01", "Alice"));
    assert_eq!(parts("AP_1_P2_.x"), owned("1", "2", ""));
    assert_eq!(parts("AP_1_P2_a.b.c"), owned("1", "2", "a.b"));
    assert_eq!(parts("AP_1_P2_a."), owned("1", "2", "a"));
    assert_eq!(parts("AP_1_P2_a.b\nc"), owned("1", "2", "a"));
    assert_eq!(parts("AP_1_P2_\u{e4}_P3_x.y"), owned("1", "2", "\u{e4}_P3_x"));
}

#[test]
fn refuses_other_names() {
    for name in [
        "",
        "AP",
        "AP_",
        "AP_123.archipelago",
        "AP_123_Spoiler.txt",
        "AP__P1_a.x",
        "AP_1_P_a.x",
        "AP_1_P1a.x",
        "AP_1_P1_a",
        "AP_1.P1_a.x",
        "AP_1_p1_a.x",
        "ap_1_P1_a.x",
        "xAP_1_P1_a.x",
        "AP_1_P1_a\nb.x",
        "AP_\u{661}_P1_a.x",
        "AP_1_P1",
        "AP_1",
        "AP_1_",
        "AP_1_P",
    ] {
        assert_eq!(parts(name), None, "{name:?}");
    }
}

#[test]
fn reads_names_as_the_pattern_does() {
    let pattern = regex::Regex::new(r"^AP[_-]([0-9]+)[_-]P([0-9]+)[_-](.*)\.[^.]*$").unwrap();
    let pieces = ["AP", "_", "-", "P", "1", "20", ".", "a", "\n", "\u{e4}", " "];
    let mut state: u64 = 88172645463325252;
    let mut matched = 0;
    for round in 0..20000usize {
        let mut name = ["", "AP_1_P", "AP-1-P2_"][round % 3].to_string();
        for _ in 0..(round % 14) {
            state ^= state << 13;
            state ^= state >> 7;
            state ^= state << 17;
            name.push_str(pieces[(state % pieces.len() as u64) as usize]);
        }
        let expected = pattern
            .captures(&name)
            .map(|c| (c[1].to_string(), c[2].to_string(), c[3].to_string()));
        if expected.is_some() {
            matched += 1;
        }
        assert_eq!(parts(&name), expected, "{name:?}");
    }
    assert!(matched > 100, "{matched}");
}

#[test]
fn written_names_are_read_back() {
    for seed in ["0", "12345678901234567890123"] {
        for player in ["", "Alice", "a_b-c.d", "P1_"] {
            for extension in ["", "ap", "a b\n"] {
                let name = format!("AP_{seed}-P7_{player}.{extension}");
                assert_eq!(parts(&name), owned(seed, "7", player));
            }
        }
    }
}

#[test]
fn file_safe_names_leave_characters_out() {
    assert_eq!(file_safe_name("Alice"), "Alice");
    assert_eq!(file_safe_name("A b  c"), "A_b__c");
    assert_eq!(file_safe_name("<>:\"/\\|?*"), "");
    assert_eq!(file_safe_name("a<b>c:d\"e/f\\g|h?i*j"), "abcdefghij");
    assert_eq!(file_safe_name("\u{e4} .\t"), "\u{e4}_.\t");
    assert_eq!(file_safe_name(&file_safe_name("x: y")), "x_y");
}

#[test]
fn games_match_by_name_or_at_random() {
    assert!(game_matches("Game A", "Game A"));
    assert!(!game_matches("Game A", "Game B"));
    assert!(!game_matches("Game A", "game a"));
    assert!(game_matches("Random (3)", "Game A"));
    assert!(game_matches("Random (", "Game A"));
    assert!(!game_matches("Random", "Game A"));
    assert!(!game_matches("Game A", "Random (3)"));
}

#[test]
fn numbers_are_written_in_decimal() {
    assert_eq!(decimal_text(0), "0");
    assert_eq!(decimal_text(9), "9");
    assert_eq!(decimal_text(10), "10");
    assert_eq!(decimal_text(1203), "1203");
    assert_eq!(decimal_text(usize::MAX), usize::MAX.to_string());
}

#[test]
fn digits_are_read_as_far_as_they_fit() {
    assert_eq!(parse_digits("0"), Some(0));
    assert_eq!(parse_digits("007"), Some(7));
    assert_eq!(parse_digits(&usize::MAX.to_string()), Some(usize::MAX));
    assert_eq!(parse_digits("18446744073709551616"), None);
    assert_eq!(parse_digits("99999999999999999999999"), None);
    assert_eq!(
        parse_digits("00000000000000000000000000000042"),
        Some(42)
    );
}

#[test]
fn written_numbers_are_read_back() {
    for n in [0, 1, 9, 10, 99, 100, 12345, usize::MAX - 1, usize::MAX] {
        assert_eq!(parse_digits(&decimal_text(n)), Some(n));
    }
}

#[test]
fn texts_are_compared_by_characters() {
    assert_eq!(chars_of("a\u{e4}b"), vec!['a', '\u{e4}', 'b']);
    assert!(same_text("a\u{e4}", "a\u{e4}"));
    assert!(!same_text("a", "ab"));
    assert!(!same_text("ab", "ac"));
    assert!(starts_with("abc", ""));
    assert!(starts_with("abc", "ab"));
    assert!(!starts_with("abc", "bc"));
    assert!(!starts_with("a", "ab"));
    assert!(ends_with("abc", "bc"));
    assert!(ends_with("abc", "abc"));
    assert!(!ends_with("bc", "abc"));
    assert!(!ends_with("abc", "ab"));
}

#[test]
fn affixes_are_stripped() {
    assert_eq!(strip_prefix("AP_\u{e4}1", "AP_"), Some("\u{e4}1"));
    assert_eq!(strip_prefix("AP", "AP_"), None);
    assert_eq!(strip_suffix("\u{e4}.x", ".x"), Some("\u{e4}"));
    assert_eq!(strip_suffix("x", ".x"), None);
    assert_eq!(strip_suffix(".x", ".x"), Some(""));
}

#[test]
fn texts_are_joined() {
    let texts = vec!["a".to_string(), String::new(), "c".to_string()];
    assert_eq!(join(&texts, ", "), "a, , c");
    assert_eq!(join(&vec!["a".to_string()], ", "), "a");
    assert_eq!(join(&vec![], ", "), "");
}
