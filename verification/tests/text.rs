use aura_sync::aur::{matches_terms, ByLength};
use aura_sync::order::{reversed, sort};
use aura_sync::paths::{check_name, is_absolute, join};
use aura_sync::text::{chars_of, comes_before, join_with, occurs_in, to_decimal};

fn chars(s: &str) -> Vec<char> {
    s.chars().collect()
}

#[test]
fn the_characters_of_a_text() {
    assert_eq!(chars_of("héllo"), vec!['h', 'é', 'l', 'l', 'o']);
    assert!(chars_of("").is_empty());
}

#[test]
fn parts_of_a_text() {
    assert!(occurs_in(&chars("linux-zen"), &chars("zen")));
    assert!(occurs_in(&chars("linux-zen"), &chars("linux")));
    assert!(occurs_in(&chars("linux-zen"), &chars("x-z")));
    assert!(occurs_in(&chars("linux-zen"), &chars("linux-zen")));
    assert!(occurs_in(&chars("linux-zen"), &chars("")));
    assert!(occurs_in(&chars(""), &chars("")));
    assert!(!occurs_in(&chars("linux-zen"), &chars("zenn")));
    assert!(!occurs_in(&chars("linux-zen"), &chars("linux-zen-git")));
    assert!(!occurs_in(&chars(""), &chars("a")));
    assert!(occurs_in(&chars("aaab"), &chars("aab")));
}

#[test]
fn dictionary_order() {
    assert!(comes_before("a", "b"));
    assert!(!comes_before("b", "a"));
    assert!(!comes_before("a", "a"));
    assert!(comes_before("", "a"));
    assert!(!comes_before("a", ""));
    assert!(!comes_before("", ""));
    assert!(comes_before("ab", "abc"));
    assert!(comes_before("Z", "a"));
    assert!(comes_before("z", "é"));
    assert!(comes_before("é", "日本"));
    for (a, b) in [("linux", "linux-zen"), ("abc", "abd"), ("é", "z"), ("~", "\u{10000}")] {
        assert_eq!(comes_before(a, b), a < b);
        assert_eq!(comes_before(b, a), b < a);
    }
}

#[test]
fn numbers_in_decimal() {
    assert_eq!(to_decimal(0), "0");
    assert_eq!(to_decimal(7), "7");
    assert_eq!(to_decimal(10), "10");
    assert_eq!(to_decimal(1234567890), "1234567890");
    assert_eq!(to_decimal(u64::MAX), "18446744073709551615");
}

#[test]
fn words_in_a_row() {
    let words: Vec<String> = vec!["a".to_string(), "bc".to_string(), "".to_string()];
    assert_eq!(join_with(&words, ", "), "a, bc, ");
    assert_eq!(join_with(&words[..1].to_vec(), ", "), "a");
    assert_eq!(join_with(&Vec::new(), ", "), "");
    assert_eq!(join_with(&words, ""), "abc");
}

#[test]
fn terms_in_name_or_description() {
    let terms = vec![chars("zen"), chars("kernel")];
    assert!(matches_terms("linux-zen", "the zen kernel", &terms));
    assert!(matches_terms("kernel", "zen", &terms));
    assert!(!matches_terms("linux-zen", "", &terms));
    assert!(matches_terms("anything", "", &Vec::new()));
}

#[test]
fn safe_names() {
    assert!(check_name("yay"));
    assert!(check_name("a.b"));
    assert!(check_name("..."));
    assert!(!check_name(""));
    assert!(!check_name("."));
    assert!(!check_name(".."));
    assert!(!check_name("a/b"));
    assert!(!check_name("a\0"));
}

#[test]
fn joining_paths() {
    assert_eq!(join("/a", "b"), "/a/b");
    assert_eq!(join("/a/", "b"), "/a/b");
    assert_eq!(join("", "b"), "b");
    assert_eq!(join("/", "b"), "/b");
    assert_eq!(join("rel", ""), "rel/");
    assert!(is_absolute("/a"));
    assert!(!is_absolute("a/b"));
    assert!(!is_absolute(""));
}

#[test]
fn sorting_is_stable() {
    let words = |ws: &[&str]| -> Vec<String> { ws.iter().map(|w| w.to_string()).collect() };
    let by_length = sort(words(&["ccc", "a", "bb", "é", "dd", "", "zzz"]), &ByLength);
    assert_eq!(by_length, words(&["", "a", "bb", "é", "dd", "ccc", "zzz"]));
    assert!(sort(Vec::<String>::new(), &ByLength).is_empty());
}

#[test]
fn the_last_first() {
    assert_eq!(reversed(vec![1, 2, 3]), vec![3, 2, 1]);
    assert!(reversed(Vec::<u8>::new()).is_empty());
}
