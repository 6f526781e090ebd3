use slotgate::text::chars_of;
use slotgate::text::contains_chars;
use slotgate::text::decimal_of;
use slotgate::text::join_strings;
use slotgate::text::lines_of;
use slotgate::text::replaced;
use slotgate::text::sorted_unique;
use slotgate::text::text_less_than;
use slotgate::text::trimmed;

fn chars(s: &str) -> Vec<char> {
    s.chars().collect()
}

fn text(cs: &[char]) -> String {
    cs.iter().collect()
}

#[test]
fn lines_of_splits_as_str_lines_does() {
    for sample in ["", "a", "a\n", "a\nb", "a\r\nb\r\n", "\n\n", "a\rb\r", "x\r", "\r\n"] {
        let ours: Vec<String> = lines_of(&chars(sample)).iter().map(|l| text(l)).collect();
        let std_lines: Vec<String> = sample.lines().map(String::from).collect();
        assert_eq!(ours, std_lines, "for {sample:?}");
    }
}

#[test]
fn trimmed_matches_str_trim() {
    for sample in ["", "  a  ", "\t\u{a0}b\u{3000}", "\u{2028}", "a b", "\u{200b}x"] {
        assert_eq!(text(&trimmed(&chars(sample))), sample.trim(), "for {sample:?}");
    }
}

#[test]
fn replaced_matches_str_replace() {
    for (s, p, w) in [("{job}", "{job}", "x"), ("aaa", "aa", "b"), ("abc", "d", "e"), ("", "a", "b")] {
        assert_eq!(text(&replaced(&chars(s), &chars(p), &chars(w))), s.replace(p, w));
    }
}

#[test]
fn contains_and_decimal_and_order() {
    assert!(contains_chars(&chars("hello world"), &chars("o w")));
    assert!(!contains_chars(&chars("hello"), &chars("hello!")));
    assert!(contains_chars(&chars(""), &chars("")));
    assert_eq!(text(&decimal_of(0)), "0");
    assert_eq!(text(&decimal_of(u64::MAX)), u64::MAX.to_string());
    assert!(text_less_than(&chars("ab"), &chars("b")));
    assert!(text_less_than(&chars("a"), &chars("ab")));
    assert!(!text_less_than(&chars("b"), &chars("b")));
    assert_eq!(chars_of("é"), vec!['é']);
}

#[test]
fn sorted_unique_matches_sort_then_dedup() {
    let names: Vec<String> = ["b", "a", "b", "é", "ab", "a"].iter().map(|s| s.to_string()).collect();
    let mut expected = names.clone();
    expected.sort();
    expected.dedup();
    assert_eq!(sorted_unique(names), expected);
}

#[test]
fn join_strings_puts_the_separator_between() {
    let items: Vec<String> = vec![String::from("a"), String::from("b")];
    assert_eq!(join_strings(&items, ", "), "a, b");
    assert_eq!(join_strings(&Vec::new(), ", "), "");
}
