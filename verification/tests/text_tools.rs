use mpris_presence::text::{chars_of, contains, push_all, same_text, starts_with};
use mpris_presence::time_format::{decimal_string, format_time};
use mpris_presence::truncate::truncate_utf8_bytes;

#[test]
fn format_time_two_minutes_five() {
    assert_eq!(format_time(125), "2:05");
}

#[test]
fn format_time_below_a_minute() {
    assert_eq!(format_time(59), "0:59");
}

#[test]
fn format_time_sixty_is_not_rolled_over() {
    assert_eq!(format_time(60), "0:60");
}

#[test]
fn format_time_just_above_a_minute() {
    assert_eq!(format_time(61), "1:01");
}

#[test]
fn format_time_whole_minutes_keep_sixty_seconds() {
    assert_eq!(format_time(120), "1:60");
    assert_eq!(format_time(3600), "59:60");
    assert_eq!(format_time(3601), "60:01");
}

#[test]
fn format_time_zero_is_padded() {
    assert_eq!(format_time(0), "0:00");
    assert_eq!(format_time(9), "0:09");
    assert_eq!(format_time(10), "0:10");
}

#[test]
fn format_time_negative_is_kept() {
    assert_eq!(format_time(-5), "0:-5");
    assert_eq!(format_time(-75), "0:-75");
}

#[test]
fn format_time_ninety_five() {
    assert_eq!(format_time(95), "1:35");
}

#[test]
fn decimal_string_matches_std() {
    for n in [0i64, 7, 9, 10, 11, 99, 100, 12345, -1, -10, -12345, i64::MAX, i64::MIN] {
        assert_eq!(decimal_string(n), n.to_string());
    }
}

#[test]
fn chars_of_lists_every_character() {
    assert_eq!(chars_of("a🎵b"), vec!['a', '🎵', 'b']);
    assert_eq!(chars_of(""), Vec::<char>::new());
}

#[test]
fn push_all_appends_in_order() {
    let mut out = String::from("x");
    push_all(&mut out, &vec!['y', 'z']);
    assert_eq!(out, "xyz");
}

#[test]
fn contains_finds_a_run_of_characters() {
    assert!(contains("https://music.example/x", "music"));
    assert!(!contains("https://other.example/x", "music"));
    assert!(contains("abc", ""));
    assert!(contains("", ""));
    assert!(!contains("", "a"));
    assert!(contains("abc", "abc"));
    assert!(contains("abc", "c"));
    assert!(!contains("abc", "abcd"));
    assert!(!contains("Music", "music"));
    assert!(contains("aab", "ab"));
    assert!(contains("x💿y", "💿y"));
}

#[test]
fn contains_agrees_with_std() {
    let texts = ["", "a", "ab", "aab", "abab", "b", "ba", "é", "aéa"];
    for hay in texts {
        for needle in texts {
            assert_eq!(contains(hay, needle), hay.contains(needle));
        }
    }
}

#[test]
fn starts_with_compares_the_beginning() {
    assert!(starts_with("org.mpris.MediaPlayer2.vlc", "org.mpris.MediaPlayer2."));
    assert!(!starts_with("org.freedesktop.DBus", "org.mpris.MediaPlayer2."));
    assert!(!starts_with("org", "org.mpris.MediaPlayer2."));
    assert!(starts_with("abc", ""));
    assert!(!starts_with("xabc", "abc"));
}

#[test]
fn same_text_compares_whole_texts() {
    assert!(same_text("Playing", "Playing"));
    assert!(!same_text("Playing", "Playin"));
    assert!(!same_text("Playing", "Plaxing"));
    assert!(!same_text("playing", "Playing"));
    assert!(same_text("", ""));
}

#[test]
fn truncate_keeps_a_text_that_fits() {
    assert_eq!(truncate_utf8_bytes("hello".to_string(), 125), "hello");
    assert_eq!(truncate_utf8_bytes("hello".to_string(), 5), "hello");
    assert_eq!(truncate_utf8_bytes(String::new(), 0), "");
    assert_eq!(truncate_utf8_bytes("🎵".to_string(), 4), "🎵");
}

#[test]
fn truncate_marks_a_cut_with_an_ellipsis() {
    assert_eq!(truncate_utf8_bytes("abcdef".to_string(), 4), "abcd...");
    assert_eq!(truncate_utf8_bytes("abcdef".to_string(), 5), "abcde...");
    assert_eq!(truncate_utf8_bytes("abc".to_string(), 0), "...");
}

#[test]
fn truncate_never_splits_a_character() {
    assert_eq!(truncate_utf8_bytes("a🎵".to_string(), 4), "a...");
    assert_eq!(truncate_utf8_bytes("héllo".to_string(), 2), "h...");
    assert_eq!(truncate_utf8_bytes("héllo".to_string(), 3), "hé...");
    assert_eq!(truncate_utf8_bytes("🎵🎵".to_string(), 7), "🎵...");
    assert_eq!(truncate_utf8_bytes("•a".to_string(), 3), "•...");
}

#[test]
fn truncate_does_not_look_past_the_cut() {
    // The second character does not fit; the third would, but is dropped.
    assert_eq!(truncate_utf8_bytes("a🎵b".to_string(), 2), "a...");
}

#[test]
fn truncate_kept_part_stays_within_the_budget() {
    let texts = ["", "a", "abc", "héllo wörld", "🎵 title • 💿 album", "•••"];
    for text in texts {
        for max in 0..24usize {
            let out = truncate_utf8_bytes(text.to_string(), max);
            if text.len() <= max {
                assert_eq!(out, text);
            } else {
                assert!(out.ends_with("..."));
                let kept = &out[..out.len() - 3];
                assert!(kept.len() <= max);
                assert!(text.starts_with(kept));
                assert!(out.len() <= max + 3);
                let next = text[kept.len()..].chars().next().unwrap();
                assert!(kept.len() + next.len_utf8() > max);
            }
        }
    }
}
