use timetable::order::{comes_before, sort_names};
use timetable::text::{
    chars_of, contains_char, ends_with, is_whitespace, normalize, same_text, split_whitespace,
};

#[test]
fn normalize_collapses_runs_and_trims() {
    assert_eq!(normalize("  Ivan \t\n Petrov  "), "Ivan Petrov");
    assert_eq!(normalize("a  b   c"), "a b c");
    assert_eq!(normalize("single"), "single");
}

#[test]
fn normalize_of_empty_and_blank_is_empty() {
    assert_eq!(normalize(""), "");
    assert_eq!(normalize(" "), "");
    assert_eq!(normalize(" \t\r\n "), "");
}

#[test]
fn normalize_is_idempotent_on_examples() {
    for text in ["", "  a  b ", "\nCalculus\u{a0}I\n", "x", " \u{3000} y \u{2003} z "] {
        let once = normalize(text);
        let twice = normalize(&once);
        assert_eq!(once, twice);
    }
}

#[test]
fn normalize_keeps_word_order() {
    assert_eq!(normalize("c b a"), "c b a");
    assert_eq!(normalize("\u{412}\u{410}  \u{41a}"), "\u{412}\u{410} \u{41a}");
}

#[test]
fn normalize_agrees_with_std() {
    for text in ["  01 A Ivan\tPetrov 210 ", "\u{85}x\u{1680}y\u{2028}z\u{205f}", "a\u{200b}b", "a\u{180e}b"] {
        let expected = text.split_whitespace().collect::<Vec<&str>>().join(" ");
        assert_eq!(normalize(text), expected);
    }
}

#[test]
fn split_whitespace_gives_the_words() {
    assert_eq!(split_whitespace("01 A Ivan Petrov 210"), vec!["01", "A", "Ivan", "Petrov", "210"]);
    assert_eq!(split_whitespace("  x\t\ty \n"), vec!["x", "y"]);
    assert_eq!(split_whitespace("   "), Vec::<&str>::new());
    assert_eq!(split_whitespace(""), Vec::<&str>::new());
}

#[test]
fn split_whitespace_handles_text_beyond_ascii() {
    assert_eq!(
        split_whitespace("\u{418}\u{432}\u{430}\u{43d}\u{a0}\u{41f}. 210"),
        vec!["\u{418}\u{432}\u{430}\u{43d}", "\u{41f}.", "210"]
    );
}

#[test]
fn whitespace_is_the_unicode_property() {
    let spaces = [
        '\t', '\n', '\u{b}', '\u{c}', '\r', ' ', '\u{85}', '\u{a0}', '\u{1680}', '\u{2000}',
        '\u{2005}', '\u{200a}', '\u{2028}', '\u{2029}', '\u{202f}', '\u{205f}', '\u{3000}',
    ];
    for c in spaces {
        assert!(is_whitespace(c));
    }
    for c in ['a', '-', '_', '.', '\u{8}', '\u{e}', '\u{200b}', '\u{180e}', '\u{feff}', '\u{412}'] {
        assert!(!is_whitespace(c));
    }
}

#[test]
fn whitespace_agrees_with_std_on_every_char() {
    let mut n: u32 = 0;
    while n <= 0x10ffff {
        if let Some(c) = char::from_u32(n) {
            assert_eq!(is_whitespace(c), c.is_whitespace());
        }
        n += 1;
    }
}

#[test]
fn chars_of_lists_the_characters() {
    assert_eq!(chars_of("a\u{44f}z"), vec!['a', '\u{44f}', 'z']);
    assert_eq!(chars_of(""), Vec::<char>::new());
}

#[test]
fn same_text_compares_by_content() {
    assert!(same_text("abc", "abc"));
    assert!(same_text("", ""));
    assert!(!same_text("abc", "abd"));
    assert!(!same_text("abc", "ab"));
    assert!(!same_text("", " "));
}

#[test]
fn contains_char_finds_a_period() {
    assert!(contains_char("Petrov A.B.", '.'));
    assert!(!contains_char("Group-5", '.'));
    assert!(!contains_char("", '.'));
}

#[test]
fn ends_with_checks_the_suffix() {
    assert!(ends_with("page.html", ".html"));
    assert!(ends_with(".html", ".html"));
    assert!(!ends_with("html", ".html"));
    assert!(!ends_with("page.htm", ".html"));
    assert!(!ends_with("page.html.bak", ".html"));
    assert!(ends_with("anything", ""));
}

#[test]
fn comes_before_is_the_order_of_code_points() {
    assert!(comes_before("", ""));
    assert!(comes_before("", "a"));
    assert!(!comes_before("a", ""));
    assert!(comes_before("a", "a"));
    assert!(comes_before("a", "ab"));
    assert!(!comes_before("ab", "a"));
    assert!(comes_before("Z", "a"));
    assert!(comes_before("z", "\u{410}"));
    assert!(comes_before("\u{42f}", "\u{430}"));
    assert!(!comes_before("\u{451}", "\u{44f}"));
}

#[test]
fn comes_before_agrees_with_std() {
    let names = ["", "a", "ab", "B", "\u{410}\u{411}", "\u{401}", "\u{ffff}", "\u{10000}", "z"];
    for a in names {
        for b in names {
            assert_eq!(comes_before(a, b), a <= b);
        }
    }
}

#[test]
fn sort_names_sorts_ascending_and_keeps_duplicates() {
    let names = vec![
        "Petrov A.B.".to_string(),
        "\u{418}\u{432}\u{430}\u{43d}\u{43e}\u{432} \u{418}.\u{418}.".to_string(),
        "Adams C.D.".to_string(),
        "Petrov A.B.".to_string(),
        "adams".to_string(),
    ];
    let mut expected = names.clone();
    expected.sort();
    assert_eq!(sort_names(names), expected);
    assert_eq!(expected[0], "Adams C.D.");
    assert_eq!(expected[1], "Petrov A.B.");
    assert_eq!(expected[2], "Petrov A.B.");
}

#[test]
fn sort_names_of_nothing_is_nothing() {
    assert_eq!(sort_names(Vec::new()), Vec::<String>::new());
}
