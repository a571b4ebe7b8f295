use x11_primary_switcher::text::chars_of;
use x11_primary_switcher::text::contains;
use x11_primary_switcher::text::entry_at;
use x11_primary_switcher::text::found_at;
use x11_primary_switcher::text::holds_word;
use x11_primary_switcher::text::leading_space;
use x11_primary_switcher::text::lines;
use x11_primary_switcher::text::parse_number;
use x11_primary_switcher::text::same_chars;
use x11_primary_switcher::text::same_text;
use x11_primary_switcher::text::str_contains;
use x11_primary_switcher::text::str_holds_word;
use x11_primary_switcher::text::trim_bounds;
use x11_primary_switcher::text::trimmed;
use x11_primary_switcher::text::word_at;

fn chars(s: &str) -> Vec<char> {
    s.chars().collect()
}

#[test]
fn chars_are_the_characters() {
    assert_eq!(chars_of("aé\u{3000}z"), vec!['a', 'é', '\u{3000}', 'z']);
    assert_eq!(chars_of(""), Vec::<char>::new());
}

#[test]
fn contains_agrees_with_std() {
    let hays = ["", "a", "ab", "abc", " primary ", "x primary", "DP-1 connected primary 1x1", "aaa", "aab", "éé é"];
    let needles = ["", "a", "b", "ab", "bc", "abc", "abcd", " primary ", "aa", "é "];
    for hay in hays {
        for needle in needles {
            assert_eq!(str_contains(hay, needle), hay.contains(needle), "{:?} in {:?}", needle, hay);
            assert_eq!(contains(&chars(hay), &chars(needle)), hay.contains(needle));
        }
    }
}

#[test]
fn found_at_checks_one_position() {
    let hay = chars("abcabc");
    assert!(found_at(&hay, &chars("bc"), 1));
    assert!(found_at(&hay, &chars("bc"), 4));
    assert!(!found_at(&hay, &chars("bc"), 0));
    assert!(!found_at(&hay, &chars("bc"), 5));
    assert!(!found_at(&hay, &chars("bc"), 7));
    assert!(found_at(&hay, &chars(""), 6));
    assert!(!found_at(&hay, &chars(""), 7));
    assert!(!found_at(&hay, &chars("abcabcd"), 0));
}

#[test]
fn trimming_agrees_with_std() {
    let samples = ["", " ", "a", " a", "a ", "  a b  ", "\t\n x \r\n", "\u{a0}x\u{2003}", "   ", "a\u{3000}", "x\u{200b}"];
    for s in samples {
        let cs = chars(s);
        let (start, end) = trim_bounds(&cs);
        let inner: String = cs[start..end].iter().collect();
        assert_eq!(inner, s.trim(), "{:?}", s);
        assert_eq!(trimmed(&cs).iter().collect::<String>(), s.trim());
        let rest: String = cs[leading_space(&cs)..].iter().collect();
        assert_eq!(rest, s.trim_start(), "{:?}", s);
    }
}

#[test]
fn numbers_agree_with_std() {
    let samples = [
        "", "0", "1", "9", "10", "007", "+5", "+", "-5", "-0", "++1", "1+", "12a", "a12", " 1", "1 ", "1_000",
        "18446744073709551615", "18446744073709551616", "99999999999999999999999", "+18446744073709551615",
        "٣", "１", "0x10", "1.0",
    ];
    for s in samples {
        assert_eq!(parse_number(&chars(s)), s.parse::<usize>().ok(), "{:?}", s);
    }
}

#[test]
fn number_has_its_value() {
    assert_eq!(parse_number(&chars("1234567890")), Some(1234567890));
    assert_eq!(parse_number(&chars("+42")), Some(42));
}

#[test]
fn texts_compare_by_content() {
    assert!(same_text("abc", "abc"));
    assert!(!same_text("abc", "abd"));
    assert!(!same_text("abc", "ab"));
    assert!(same_text("", ""));
    assert!(same_chars(&chars("ab"), &chars("ab")));
    assert!(!same_chars(&chars("ab"), &chars("abc")));
    assert!(!same_chars(&chars("abc"), &chars("ab")));
    assert!(!same_chars(&chars("ab"), &chars("ac")));
}

#[test]
fn entries_out_of_range_are_absent() {
    let items = vec![Some("a".to_string()), None];
    assert_eq!(entry_at(&items, 0), Some(&"a".to_string()));
    assert_eq!(entry_at(&items, 1), None);
    assert_eq!(entry_at(&items, 2), None);
}

fn words(alphabet: &[char], longest: usize) -> Vec<String> {
    let mut all = vec![String::new()];
    let mut last = vec![String::new()];
    for _ in 0..longest {
        let mut next = Vec::new();
        for w in &last {
            for c in alphabet {
                let mut longer = w.clone();
                longer.push(*c);
                next.push(longer);
            }
        }
        all.extend(next.iter().cloned());
        last = next;
    }
    all
}

#[test]
fn lines_agree_with_std_on_all_short_texts() {
    for text in words(&['a', '\n', '\r'], 7) {
        let want: Vec<String> = text.lines().map(|l| l.to_string()).collect();
        assert_eq!(lines(&text), want, "{:?}", text);
    }
}

#[test]
fn trimming_agrees_with_std_on_all_short_texts() {
    for text in words(&['a', ' ', '\n', '\u{2003}'], 6) {
        let cs = chars(&text);
        assert_eq!(trimmed(&cs).iter().collect::<String>(), text.trim(), "{:?}", text);
        let rest: String = cs[leading_space(&cs)..].iter().collect();
        assert_eq!(rest, text.trim_start(), "{:?}", text);
    }
}

#[test]
fn contains_agrees_with_std_on_all_short_texts() {
    let needles = words(&['a', 'b'], 3);
    for hay in words(&['a', 'b'], 6) {
        for needle in &needles {
            assert_eq!(str_contains(&hay, needle), hay.contains(needle.as_str()), "{:?} {:?}", hay, needle);
        }
    }
}

#[test]
fn numbers_agree_with_std_on_all_short_texts() {
    for text in words(&['0', '1', '9', '+', '-', ' '], 5) {
        assert_eq!(parse_number(&chars(&text)), text.parse::<usize>().ok(), "{:?}", text);
    }
    for n in [0usize, 1, 10, 4294967295, 4294967296, usize::MAX - 1, usize::MAX] {
        assert_eq!(parse_number(&chars(&n.to_string())), Some(n));
    }
    for big in ["18446744073709551616", "18446744073709551620", "28446744073709551615", "184467440737095516150"] {
        assert_eq!(parse_number(&chars(big)), big.parse::<usize>().ok());
    }
}

#[test]
fn word_needs_white_space_directly_before_and_after() {
    assert!(str_holds_word("a primary b", "primary"));
    assert!(str_holds_word("a\tprimary\tb", "primary"));
    assert!(str_holds_word("a\nprimary\u{3000}", "primary"));
    assert!(str_holds_word(" primary ", "primary"));
    assert!(!str_holds_word("primary ", "primary"));
    assert!(!str_holds_word(" primary", "primary"));
    assert!(!str_holds_word("primary", "primary"));
    assert!(!str_holds_word("a primaryb c", "primary"));
    assert!(!str_holds_word("a xprimary c", "primary"));
    assert!(!str_holds_word("a primar y", "primary"));
    assert!(!str_holds_word("", "primary"));
    assert!(str_holds_word("x primaryprimary primary y", "primary"));
    assert!(str_holds_word("a  b", ""));
    assert!(!str_holds_word("a b", ""));
}

#[test]
fn word_is_looked_for_at_one_position() {
    let hay = chars("ab cd\tef");
    assert!(word_at(&hay, &chars("cd"), 3));
    assert!(!word_at(&hay, &chars("cd"), 2));
    assert!(!word_at(&hay, &chars("ab"), 0));
    assert!(!word_at(&hay, &chars("ef"), 6));
    assert!(!word_at(&hay, &chars("c"), 3));
    assert!(!word_at(&hay, &chars("cd"), 9));
    assert!(!word_at(&hay, &chars("ab cd\tef"), 0));
    assert!(holds_word(&hay, &chars("cd")));
    assert!(!holds_word(&hay, &chars("ab")));
    assert!(!holds_word(&hay, &chars("ef")));
}

#[test]
fn word_search_agrees_with_a_plain_scan_on_all_short_texts() {
    let word = chars("ab");
    for text in words(&['a', 'b', ' ', '\t'], 6) {
        let cs = chars(&text);
        let mut want = false;
        for at in 1..cs.len() {
            if at + 2 < cs.len()
                && cs[at - 1].is_whitespace()
                && cs[at] == 'a'
                && cs[at + 1] == 'b'
                && cs[at + 2].is_whitespace()
            {
                want = true;
            }
        }
        assert_eq!(holds_word(&cs, &word), want, "{:?}", text);
    }
}
