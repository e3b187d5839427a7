use xero_cli::text::{
    char_is_space, chars_of, copy_range, last_word_of, matches_at, parse_unsigned, remove_char,
    same_chars, split, starts_with, trimmed,
};

fn chars(s: &str) -> Vec<char> {
    s.chars().collect()
}

fn text(v: &Vec<char>) -> String {
    v.iter().collect()
}

const SAMPLES: [&str; 14] = [
    "",
    " ",
    "abc",
    "  abc  ",
    "\t\r\n a b \u{a0}\u{3000}",
    "ID=ID=arch",
    "a:b::c:",
    ":",
    "\u{2003}x\u{2003}",
    "x\u{200b}",
    "\u{85}y\u{1680}",
    "line one\nline two\r\n",
    "\"quoted value\"",
    "IID==ID=",
];

#[test]
fn characters_of_a_text() {
    for s in SAMPLES {
        assert_eq!(chars_of(s), chars(s));
    }
    assert_eq!(chars_of("h\u{e9}llo").len(), 5);
}

#[test]
fn white_space_is_what_std_calls_white_space() {
    let mut n: u32 = 0;
    while n <= 0x11000 {
        if let Some(c) = char::from_u32(n) {
            assert_eq!(char_is_space(c), c.is_whitespace(), "{:x}", n);
        }
        n += 1;
    }
    assert!(!char_is_space('\u{10ffff}'));
}

#[test]
fn trimming_agrees_with_std() {
    for s in SAMPLES {
        assert_eq!(text(&trimmed(&chars(s))), s.trim());
    }
    assert_eq!(text(&trimmed(&chars("  a b  "))), "a b");
}

#[test]
fn removing_a_character_agrees_with_std() {
    for s in SAMPLES {
        assert_eq!(text(&remove_char(&chars(s), ' ')), s.replace(' ', ""));
        assert_eq!(text(&remove_char(&chars(s), '"')), s.replace('"', ""));
    }
    assert_eq!(text(&remove_char(&chars("a b c"), ' ')), "abc");
}

#[test]
fn splitting_agrees_with_std() {
    for s in SAMPLES {
        for sep in [':', '\n', ' '] {
            let pieces: Vec<String> = split(&chars(s), sep).iter().map(text).collect();
            let expected: Vec<String> = s.split(sep).map(|p| p.to_string()).collect();
            assert_eq!(pieces, expected);
        }
    }
    let pieces: Vec<String> = split(&chars("a:b::c"), ':').iter().map(text).collect();
    assert_eq!(pieces, vec!["a", "b", "", "c"]);
}

#[test]
fn prefixes() {
    assert!(starts_with(&chars("ID=arch"), &chars("ID=")));
    assert!(!starts_with(&chars("BUILD_ID=arch"), &chars("ID=")));
    assert!(!starts_with(&chars("ID"), &chars("ID=")));
    assert!(starts_with(&chars("ID"), &chars("")));
    assert!(matches_at(&chars("BUILD_ID=arch"), 6, &chars("ID=")));
    assert!(!matches_at(&chars("abc"), 3, &chars("c")));
    assert!(matches_at(&chars("abc"), 3, &chars("")));
    assert!(!matches_at(&chars("abc"), 4, &chars("")));
}

#[test]
fn equal_texts() {
    assert!(same_chars(&chars("arch"), &chars("arch")));
    assert!(!same_chars(&chars("arch"), &chars("arch ")));
    assert!(!same_chars(&chars("arch"), &chars("Arch")));
    assert!(same_chars(&chars(""), &chars("")));
}

#[test]
fn ranges() {
    assert_eq!(text(&copy_range(&chars("abcdef"), 2, 4)), "cd");
    assert_eq!(text(&copy_range(&chars("abcdef"), 0, 6)), "abcdef");
    assert_eq!(text(&copy_range(&chars("abcdef"), 3, 3)), "");
}

#[test]
fn numbers() {
    assert_eq!(parse_unsigned(&chars("0")), Some(0));
    assert_eq!(parse_unsigned(&chars("42")), Some(42));
    assert_eq!(parse_unsigned(&chars("+42")), Some(42));
    assert_eq!(parse_unsigned(&chars("0042")), Some(42));
    assert_eq!(parse_unsigned(&chars("")), None);
    assert_eq!(parse_unsigned(&chars("+")), None);
    assert_eq!(parse_unsigned(&chars("-1")), None);
    assert_eq!(parse_unsigned(&chars(" 1")), None);
    assert_eq!(parse_unsigned(&chars("1 ")), None);
    assert_eq!(parse_unsigned(&chars("4x")), None);
    assert_eq!(parse_unsigned(&chars(&usize::MAX.to_string())), Some(usize::MAX));
    assert_eq!(parse_unsigned(&chars(&format!("{}", usize::MAX as u128 + 1))), None);
}

#[test]
fn last_words() {
    assert_eq!(text(&last_word_of(&chars("one two three"))), "three");
    assert_eq!(text(&last_word_of(&chars("one two  \n"))), "two");
    assert_eq!(text(&last_word_of(&chars("single"))), "single");
    assert_eq!(text(&last_word_of(&chars("   "))), "");
    assert_eq!(text(&last_word_of(&chars(""))), "");
}
