use parallel_file_processor::text::{byte_size, char_frequencies, count_lines, count_words, is_whitespace_char};
use parallel_file_processor::types::FileStats;

fn chars(s: &str) -> Vec<char> {
    s.chars().collect()
}

#[test]
fn empty_text() {
    let s = FileStats::of_text("");
    assert_eq!(s.word_count, 0);
    assert_eq!(s.line_count, 0);
    assert_eq!(s.size_bytes, 0);
    assert!(s.char_frequencies.is_empty());
}

#[test]
fn whitespace_only() {
    let s = FileStats::of_text(" \t\n \u{3000}\u{a0}");
    assert_eq!(s.word_count, 0);
    assert_eq!(s.line_count, 2);
}

#[test]
fn words_match_split_whitespace() {
    for t in ["a", "  a  b ", "x\u{2003}y\u{85}z", "one\r\ntwo", "\u{200b}zero width"] {
        assert_eq!(count_words(&chars(t)), t.split_whitespace().count(), "{:?}", t);
    }
}

#[test]
fn lines_match_str_lines() {
    for t in ["", "\n", "a", "a\n", "a\nb", "a\n\n", "a\r\nb\r\n", "\n\nx"] {
        assert_eq!(count_lines(&chars(t)), t.lines().count(), "{:?}", t);
    }
}

#[test]
fn sizes_in_utf8() {
    assert_eq!(byte_size(&chars("é€😀a")), 10);
    for t in ["", "plain", "\u{7f}\u{80}\u{7ff}\u{800}\u{ffff}\u{10000}"] {
        assert_eq!(byte_size(&chars(t)), t.len() as u64);
    }
}

#[test]
fn frequencies_in_first_appearance_order() {
    let t = char_frequencies(&chars("abracadabra"));
    assert_eq!(t, vec![('a', 5), ('b', 2), ('r', 2), ('c', 1), ('d', 1)]);
}

#[test]
fn whitespace_set() {
    for c in ['\t', '\n', '\u{b}', '\u{c}', '\r', ' ', '\u{85}', '\u{a0}', '\u{1680}', '\u{2000}', '\u{200a}', '\u{2028}', '\u{2029}', '\u{202f}', '\u{205f}', '\u{3000}'] {
        assert!(is_whitespace_char(c));
        assert!(c.is_whitespace());
    }
    for c in ['a', '\u{200b}', '\u{180e}', '\u{feff}', '_'] {
        assert!(!is_whitespace_char(c));
        assert_eq!(c.is_whitespace(), false);
    }
}

#[test]
fn of_text_reads_every_character() {
    let s = FileStats::of_text("ab\ncd ef");
    assert_eq!(s.word_count, 3);
    assert_eq!(s.line_count, 2);
    assert_eq!(s.size_bytes, 8);
    assert_eq!(s.char_frequencies.len(), 8);
}
