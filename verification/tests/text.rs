use rtsp2flv::text::{
    contains, from_chars, matches_at, replace, starts_with, strip_leading, to_chars, trim,
};

#[test]
fn characters_round_trip() {
    let chars = to_chars("héllo wörld");
    assert_eq!(chars.len(), 11);
    assert_eq!(chars[1], 'é');
    assert_eq!(from_chars(&chars), "héllo wörld");
    assert_eq!(from_chars(&Vec::new()), "");
}

#[test]
fn prefix_is_matched_character_by_character() {
    assert!(starts_with("rtsp://host", "rtsp://"));
    assert!(starts_with("rtsp://", "rtsp://"));
    assert!(starts_with("anything", ""));
    assert!(!starts_with("rtsp:/", "rtsp://"));
    assert!(!starts_with("RTSP://host", "rtsp://"));
    assert!(!starts_with("", "r"));
}

#[test]
fn occurrence_is_found_anywhere() {
    assert!(contains("http://localhost:1985/api", "localhost"));
    assert!(contains("localhost", "localhost"));
    assert!(contains("x-localhost", "localhost"));
    assert!(contains("abc", ""));
    assert!(contains("", ""));
    assert!(!contains("http://local.host/api", "localhost"));
    assert!(!contains("localhos", "localhost"));
    assert!(!contains("", "a"));
}

#[test]
fn occurrence_at_a_position() {
    let s = to_chars("abcabc");
    let p = to_chars("bc");
    assert!(matches_at(&s, 1, &p));
    assert!(matches_at(&s, 4, &p));
    assert!(!matches_at(&s, 0, &p));
    assert!(!matches_at(&s, 5, &p));
    assert!(!matches_at(&s, 7, &p));
    assert!(matches_at(&s, 6, &Vec::new()));
    assert!(!matches_at(&s, 7, &Vec::new()));
}

#[test]
fn every_occurrence_is_replaced() {
    assert_eq!(replace("Front Door Cam", " ", "_"), "Front_Door_Cam");
    assert_eq!(replace("http://h/{stream_name}.flv", "{stream_name}", "cam"), "http://h/cam.flv");
    assert_eq!(replace("{stream_name}/{stream_name}", "{stream_name}", "a"), "a/a");
    assert_eq!(replace("no marks", "{stream_name}", "a"), "no marks");
    assert_eq!(replace("", "x", "y"), "");
    assert_eq!(replace("aaa", "aa", "b"), "ba");
    assert_eq!(replace("abab", "ab", ""), "");
    assert_eq!(replace("abc", "", "-"), "abc");
    assert_eq!(replace("a b", " ", "  "), "a  b");
}

#[test]
fn leading_occurrences_are_stripped() {
    assert_eq!(strip_leading("Bearer abc", "Bearer "), "abc");
    assert_eq!(strip_leading("Bearer Bearer abc", "Bearer "), "abc");
    assert_eq!(strip_leading("abc Bearer ", "Bearer "), "abc Bearer ");
    assert_eq!(strip_leading("Bearer", "Bearer "), "Bearer");
    assert_eq!(strip_leading("Bearer ", "Bearer "), "");
    assert_eq!(strip_leading("abc", ""), "abc");
    assert_eq!(strip_leading("", "Bearer "), "");
}

#[test]
fn whitespace_is_trimmed_at_both_ends() {
    assert_eq!(trim("  a b  "), "a b");
    assert_eq!(trim("\t\n a\r\n"), "a");
    assert_eq!(trim("a"), "a");
    assert_eq!(trim("a  "), "a");
    assert_eq!(trim("  a"), "a");
    assert_eq!(trim(""), "");
    assert_eq!(trim(" \t\n "), "");
    assert_eq!(trim("\u{3000}x\u{a0}"), "x");
    assert_eq!(trim("_ _"), "_ _");
}

#[test]
fn trimming_agrees_with_the_standard_library() {
    for s in ["", " ", "x", " x", "x ", " x y ", "\u{2003}x\u{200b}", "\n\nx\ty\n", "  \u{feff}  "] {
        assert_eq!(trim(s), s.trim());
    }
}

#[test]
fn replacement_agrees_with_the_standard_library() {
    for (s, pat, to) in [
        ("a b c", " ", "_"),
        ("aaaa", "aa", "a"),
        ("abcabc", "bc", "xyz"),
        ("{n}{n}{", "{n}", ""),
        ("héllo", "l", "ll"),
        ("", "a", "b"),
    ] {
        assert_eq!(replace(s, pat, to), s.replace(pat, to));
    }
}

#[test]
fn stripping_agrees_with_the_standard_library() {
    for (s, pat) in [("Bearer x", "Bearer "), ("aaab", "a"), ("abab", "ab"), ("ba", "a"), ("", "a")] {
        assert_eq!(strip_leading(s, pat), s.trim_start_matches(pat));
    }
}

#[test]
fn search_agrees_with_the_standard_library() {
    for (s, pat) in [("localhost", "host"), ("abc", "abcd"), ("", ""), ("aab", "ab"), ("héé", "é")] {
        assert_eq!(contains(s, pat), s.contains(pat));
        assert_eq!(starts_with(s, pat), s.starts_with(pat));
    }
}
