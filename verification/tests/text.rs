use kehadiran_parser::text::{
    chars_of, contains, is_whitespace, join, same_text, split, split_lines, split_words, trim,
};

fn strings(items: &[&str]) -> Vec<String> {
    items.iter().map(|s| s.to_string()).collect()
}

#[test]
fn chars_of_lists_every_character() {
    assert_eq!(chars_of("Dato’"), vec!['D', 'a', 't', 'o', '’']);
    assert_eq!(chars_of(""), Vec::<char>::new());
}

#[test]
fn contains_finds_a_text_anywhere() {
    assert!(contains("PARLIMEN MALAYSIA", "MALAYSIA"));
    assert!(contains("MALAYSIA", "MALAYSIA"));
    assert!(contains("xxMALAYSIAxx", "MALAYSIA"));
    assert!(contains("anything", ""));
    assert!(contains("", ""));
}

#[test]
fn contains_is_exact_about_case_and_length() {
    assert!(!contains("Malaysia", "MALAYSIA"));
    assert!(!contains("MALAYSI", "MALAYSIA"));
    assert!(!contains("", "M"));
    assert!(!contains("MALAY SIA", "MALAYSIA"));
}

#[test]
fn contains_agrees_with_std() {
    let hays = ["", "a", "ab", "aab", "abab", "ba ab", "é’é", "aaa"];
    let needles = ["", "a", "b", "ab", "ba", "aa", "’", "é’", "abc"];
    for hay in hays {
        for needle in needles {
            assert_eq!(contains(hay, needle), hay.contains(needle), "{hay:?} {needle:?}");
        }
    }
}

#[test]
fn trim_removes_white_space_at_both_ends_only() {
    assert_eq!(trim("  1. Tuan Bob \t"), "1. Tuan Bob");
    assert_eq!(trim("Tuan Bob"), "Tuan Bob");
    assert_eq!(trim("\u{a0}Tuan\u{3000}"), "Tuan");
    assert_eq!(trim("line\r"), "line");
}

#[test]
fn trim_of_blank_text_is_empty() {
    assert_eq!(trim(""), "");
    assert_eq!(trim(" \t\r\n "), "");
}

#[test]
fn trim_agrees_with_std() {
    let samples = ["", " ", "a", " a", "a ", " a b ", "\t\ta\u{2003}", "’ ’", "\u{85}x\u{85}"];
    for sample in samples {
        assert_eq!(trim(sample), sample.trim(), "{sample:?}");
    }
}

#[test]
fn split_yields_one_piece_more_than_separators() {
    assert_eq!(split("a b", ' '), strings(&["a", "b"]));
    assert_eq!(split("", ' '), strings(&[""]));
    assert_eq!(split(" ", ' '), strings(&["", ""]));
    assert_eq!(split("a  b ", ' '), strings(&["a", "", "b", ""]));
    assert_eq!(split("no separator", ','), strings(&["no separator"]));
}

#[test]
fn split_agrees_with_std() {
    let samples = ["", " ", "a", " a", "a ", " a  b ", "Dato’ Seri", "   "];
    for sample in samples {
        let expected: Vec<String> = sample.split(' ').map(|s| s.to_string()).collect();
        assert_eq!(split(sample, ' '), expected, "{sample:?}");
    }
}

#[test]
fn split_words_drops_empty_pieces() {
    assert_eq!(split_words("Tuan  Ali bin Abu "), strings(&["Tuan", "Ali", "bin", "Abu"]));
    assert_eq!(split_words(" (Sungai)"), strings(&["(Sungai)"]));
    assert_eq!(split_words(""), Vec::<String>::new());
    assert_eq!(split_words("   "), Vec::<String>::new());
}

#[test]
fn split_words_cuts_at_spaces_only() {
    assert_eq!(split_words("a\tb c"), strings(&["a\tb", "c"]));
}

#[test]
fn split_lines_cuts_at_line_feeds() {
    assert_eq!(split_lines("a\nb"), strings(&["a", "b"]));
    assert_eq!(split_lines("a\nb\n"), strings(&["a", "b"]));
    assert_eq!(split_lines("a\n\nb"), strings(&["a", "", "b"]));
    assert_eq!(split_lines("a\n\n"), strings(&["a", ""]));
    assert_eq!(split_lines("\n"), strings(&[""]));
    assert_eq!(split_lines(""), Vec::<String>::new());
}

#[test]
fn split_lines_leaves_a_carriage_return_to_the_trim() {
    let lines = split_lines("a\r\nb");
    assert_eq!(lines, strings(&["a\r", "b"]));
    assert_eq!(trim(&lines[0]), "a");
}

#[test]
fn join_puts_one_space_between_words() {
    assert_eq!(join(&strings(&["Tuan", "Ali", "(Sungai)"])), "Tuan Ali (Sungai)");
    assert_eq!(join(&strings(&["Tuan"])), "Tuan");
    assert_eq!(join(&strings(&[])), "");
    assert_eq!(join(&strings(&["", ""])), " ");
}

#[test]
fn join_undoes_split_words_on_single_spaced_text() {
    let text = "Menteri Pertanian, Datuk Seri Mohamad (Kota Raja)";
    assert_eq!(join(&split_words(text)), text);
}

#[test]
fn same_text_compares_character_for_character() {
    assert!(same_text("DR.", "DR."));
    assert!(same_text("", ""));
    assert!(!same_text("DR.", "DR"));
    assert!(!same_text("DR.", "dr."));
    assert!(!same_text("Dato’", "Dato'"));
}

#[test]
fn is_whitespace_knows_the_white_space_characters() {
    for c in [' ', '\t', '\n', '\r', '\u{b}', '\u{c}', '\u{85}', '\u{a0}', '\u{1680}'] {
        assert!(is_whitespace(c), "{c:?}");
    }
    for c in ['\u{2000}', '\u{200a}', '\u{2028}', '\u{2029}', '\u{202f}', '\u{205f}', '\u{3000}'] {
        assert!(is_whitespace(c), "{c:?}");
    }
    for c in ['a', 'D', '.', ':', '1', '’', '\u{8}', '\u{e}', '\u{200b}', '\u{feff}', '\u{0}'] {
        assert!(!is_whitespace(c), "{c:?}");
    }
}

#[test]
fn is_whitespace_agrees_with_std_on_every_character() {
    let mut count = 0;
    for code in 0..=0x10FFFFu32 {
        if let Some(c) = char::from_u32(code) {
            assert_eq!(is_whitespace(c), c.is_whitespace(), "{code:#x}");
            if is_whitespace(c) {
                count += 1;
            }
        }
    }
    assert_eq!(count, 25);
}
