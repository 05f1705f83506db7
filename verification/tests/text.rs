use agentsdk::listing::{extension, lex_less, sort_names, stem};
use agentsdk::paths::{expand_tilde_with, is_under, join_path};
use agentsdk::text::{count_occurrences, decimal, lines, replace_occurrences, trim, trim_end};

fn cs(s: &str) -> Vec<char> {
    s.chars().collect()
}

fn st(v: &[char]) -> String {
    v.iter().collect()
}

#[test]
fn occurrences_are_counted_without_overlap() {
    assert_eq!(count_occurrences(&cs("aaaa"), &cs("aa")), 2);
    assert_eq!(count_occurrences(&cs("abcabc"), &cs("bc")), 2);
    assert_eq!(count_occurrences(&cs("abc"), &cs("")), 4);
    assert_eq!(count_occurrences(&cs(""), &cs("x")), 0);
}

#[test]
fn replacement_matches_str_replace() {
    for (s, p, q) in [("aaa", "aa", "b"), ("hello world", "world", "rust"), ("ab", "", "-"), ("", "", "x"), ("xyz", "q", "r")] {
        assert_eq!(st(&replace_occurrences(&cs(s), &cs(p), &cs(q))), s.replace(p, q), "{s} {p} {q}");
    }
}

#[test]
fn trimming_matches_std() {
    for s in ["  a b \n", "\t\n", "", "x"] {
        assert_eq!(st(&trim(&cs(s))), s.trim());
        assert_eq!(st(&trim_end(&cs(s))), s.trim_end());
    }
}

#[test]
fn lines_match_str_lines() {
    for s in ["a\nb", "a\r\nb\n", "", "\n\n", "x\r"] {
        let got: Vec<String> = lines(&cs(s)).iter().map(|l| st(l)).collect();
        let want: Vec<String> = s.lines().map(String::from).collect();
        assert_eq!(got, want, "{s:?}");
    }
}

#[test]
fn decimals_are_written_in_base_ten() {
    assert_eq!(decimal(0), "0");
    assert_eq!(decimal(1234567890123), "1234567890123");
}

#[test]
fn names_sort_like_str() {
    let mut want = vec!["b", "B", "a", "ab", "", "é", "Z"];
    let got: Vec<String> = sort_names(want.iter().map(|s| cs(s)).collect()).iter().map(|v| st(v)).collect();
    want.sort();
    assert_eq!(got, want);
    assert!(lex_less(&cs("ab"), &cs("b")));
    assert!(!lex_less(&cs("b"), &cs("b")));
}

#[test]
fn extensions_and_stems() {
    assert_eq!(st(&extension(&cs("lib.rs"))), ".rs");
    assert_eq!(st(&stem(&cs("lib.rs"))), "lib");
    assert_eq!(st(&extension(&cs(".gitignore"))), "");
    assert_eq!(st(&stem(&cs(".gitignore"))), ".gitignore");
    assert_eq!(st(&extension(&cs("a.tar.gz"))), ".gz");
    assert_eq!(st(&extension(&cs("LICENSE"))), "");
}

#[test]
fn paths_join_and_expand() {
    assert_eq!(join_path("/a", "b"), "/a/b");
    assert_eq!(join_path("/a/", "b"), "/a/b");
    assert_eq!(join_path("/a", "/etc"), "/etc");
    assert_eq!(join_path("", "b"), "b");
    assert_eq!(expand_tilde_with("~/x", Some("/h")), "/h/x");
    assert_eq!(expand_tilde_with("~", Some("/h")), "/h");
    assert_eq!(expand_tilde_with("~x", Some("/h")), "~x");
    assert_eq!(expand_tilde_with("~/x", None), "~/x");
}

#[test]
fn containment_compares_whole_components() {
    assert!(is_under("/r/sandbox/a.txt", "/r/sandbox"));
    assert!(is_under("/r/sandbox", "/r/sandbox/"));
    assert!(!is_under("/r/sandboxed", "/r/sandbox"));
    assert!(!is_under("/r", "/r/sandbox"));
    assert!(!is_under("r/sandbox", "/r/sandbox"));
}
