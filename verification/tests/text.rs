use generator::text::{
    chars_of, concat2, concat3, decimal_string, ends_with, ends_with_char, remove_all,
    replace_char, starts_with, starts_with_char, str_eq, string_of, strip_prefix_all, trim,
    trim_end_char, trim_start_char, vec_occurs_at,
};

#[test]
fn characters_round_trip() {
    let v = chars_of("h\u{e9}llo");
    assert_eq!(v, vec!['h', '\u{e9}', 'l', 'l', 'o']);
    assert_eq!(string_of(&v), "h\u{e9}llo");
    assert_eq!(string_of(&vec![]), "");
    assert!(vec_occurs_at(&v, 1, &vec!['\u{e9}', 'l']));
    assert!(!vec_occurs_at(&v, 2, &vec!['\u{e9}', 'l']));
    assert!(vec_occurs_at(&v, 5, &vec![]));
    assert!(!vec_occurs_at(&v, 6, &vec![]));
    assert!(!vec_occurs_at(&v, 4, &vec!['o', 'o']));
}

#[test]
fn concatenation() {
    assert_eq!(concat2("ab", "cd"), "abcd");
    assert_eq!(concat2("", ""), "");
    assert_eq!(concat3("a", "", "c"), "ac");
}

#[test]
fn equality_and_affixes() {
    assert!(str_eq("Page", "Page"));
    assert!(!str_eq("Page", "Pages"));
    assert!(!str_eq("page", "Page"));
    assert!(str_eq("", ""));
    assert!(starts_with("Vec<String>", "Vec<"));
    assert!(!starts_with("Ve", "Vec<"));
    assert!(starts_with("anything", ""));
    assert!(ends_with("RackResultsPage", "Page"));
    assert!(ends_with("Page", "Page"));
    assert!(!ends_with("age", "Page"));
    assert!(!ends_with("Pages", "Page"));
    assert!(starts_with_char("@x", '@'));
    assert!(!starts_with_char("", '@'));
    assert!(ends_with_char("ref_", '_'));
    assert!(!ends_with_char("", '_'));
    assert!(!ends_with_char("_ref", '_'));
}

#[test]
fn replacing_a_character() {
    assert_eq!(replace_char("a\nb\n", '\n', "\n/// "), "a\n/// b\n/// ");
    assert_eq!(replace_char("$ref", '$', ""), "ref");
    assert_eq!(replace_char("", 'x', "y"), "");
    assert_eq!(replace_char("aaa", 'a', "aa"), "aaaaaa");
}

#[test]
fn trimming_runs_of_a_character() {
    assert_eq!(trim_start_char("@@name", '@'), "name");
    assert_eq!(trim_start_char("name@", '@'), "name@");
    assert_eq!(trim_start_char("@@@", '@'), "");
    assert_eq!(trim_end_char("Foo>>", '>'), "Foo");
    assert_eq!(trim_end_char(">Foo", '>'), ">Foo");
    assert_eq!(trim_end_char(">>", '>'), "");
    assert_eq!(trim_end_char("", '>'), "");
}

#[test]
fn trimming_white_space() {
    assert_eq!(trim("  a b \t\n"), "a b");
    assert_eq!(trim("\u{a0}\u{2003}x\u{3000}"), "x");
    assert_eq!(trim("   "), "");
    assert_eq!(trim(""), "");
    assert_eq!(trim("x"), "x");
    for s in [" a ", "\u{85}b\u{1680}", "\u{200b}c", "d\u{feff}", "\u{2028}\u{2029}e\u{202f}\u{205f}"] {
        assert_eq!(trim(s), s.trim());
    }
}

#[test]
fn stripping_a_prefix() {
    assert_eq!(strip_prefix_all("Vec<Vec<Foo>>", "Vec<"), "Foo>>");
    assert_eq!(strip_prefix_all("Foo", "Vec<"), "Foo");
    assert_eq!(strip_prefix_all("Vec<", "Vec<"), "");
    assert_eq!(strip_prefix_all("abc", ""), "abc");
    for s in ["Vec<Vec<Foo>>", "Vec", "xVec<", ""] {
        assert_eq!(strip_prefix_all(s, "Vec<"), s.trim_start_matches("Vec<"));
    }
}

#[test]
fn removing_a_part() {
    assert_eq!(remove_all("serde_json::Value", "serde_json::"), "Value");
    assert_eq!(remove_all("a::b::c", "::"), "abc");
    assert_eq!(remove_all("aaa", "aa"), "a");
    assert_eq!(remove_all("abc", ""), "abc");
    assert_eq!(remove_all("abc", "abcd"), "abc");
    for (s, p) in [("ababab", "ab"), ("xaax", "a"), ("aXbXc", "X"), ("", "x")] {
        assert_eq!(remove_all(s, p), s.replace(p, ""));
    }
}

#[test]
fn decimal_numbers() {
    assert_eq!(decimal_string(0), "0");
    assert_eq!(decimal_string(7), "7");
    assert_eq!(decimal_string(10), "10");
    assert_eq!(decimal_string(4294967295), "4294967295");
    assert_eq!(decimal_string(u64::MAX), u64::MAX.to_string());
}
