use gitingest::strutil::contains_str;
use gitingest::strutil::count_char_occurrences;
use gitingest::strutil::filter_nonempty;
use gitingest::strutil::find_char_from;
use gitingest::strutil::find_sub_from;
use gitingest::strutil::join_strings;
use gitingest::strutil::last_segment_of;
use gitingest::strutil::remove_char;
use gitingest::strutil::split_char;
use gitingest::strutil::str_eq;
use gitingest::strutil::str_le;
use gitingest::strutil::str_starts_with;
use gitingest::strutil::suffix_after_last_of;
use gitingest::strutil::u64_to_decimal;

#[test]
fn lexicographic_order_on_strings() {
    assert!(str_le("abc", "abd"));
    assert!(!str_le("abd", "abc"));
    assert!(str_le("ab", "abc"));
    assert!(!str_le("abc", "ab"));
    assert!(str_le("", "a"));
    assert!(str_le("same", "same"));
    assert!(str_le("Zed", "apple"));
}

#[test]
fn substring_search() {
    assert!(contains_str("hello world", "o w"));
    assert!(contains_str("hello", ""));
    assert!(!contains_str("hello", "world"));
    assert_eq!(find_sub_from("abcabc", "bc", 0), Some(1));
    assert_eq!(find_sub_from("abcabc", "bc", 2), Some(4));
    assert_eq!(find_sub_from("abcabc", "zz", 0), None);
    assert_eq!(find_char_from("a/b/c", '/', 0), Some(1));
    assert_eq!(find_char_from("a/b/c", '/', 2), Some(3));
    assert_eq!(find_char_from("abc", '/', 0), None);
}

#[test]
fn counting_characters() {
    assert_eq!(count_char_occurrences("a:b:c", ':'), 2);
    assert_eq!(count_char_occurrences("abc", ':'), 0);
    assert_eq!(count_char_occurrences("", ':'), 0);
}

#[test]
fn splitting_and_joining() {
    let parts = split_char("a/b//c/", '/');
    let views: Vec<&str> = parts.iter().map(|s| s.as_str()).collect();
    assert_eq!(views, vec!["a", "b", "", "c", ""]);

    let kept = filter_nonempty(&parts);
    let views: Vec<&str> = kept.iter().map(|s| s.as_str()).collect();
    assert_eq!(views, vec!["a", "b", "c"]);

    assert_eq!(join_strings(&kept, '/').as_str(), "a/b/c");
    assert_eq!(join_strings(&Vec::new(), '/').as_str(), "");

    let single = split_char("alone", '/');
    assert_eq!(single.len(), 1);
    assert_eq!(single[0].as_str(), "alone");
}

#[test]
fn last_segments_and_suffixes() {
    assert_eq!(last_segment_of("a/b/c").as_str(), "c");
    assert_eq!(last_segment_of("plain").as_str(), "plain");
    assert_eq!(last_segment_of("trailing/").as_str(), "");
    assert_eq!(last_segment_of("").as_str(), "");
    assert_eq!(suffix_after_last_of("archive.tar.gz", '.').as_str(), "gz");
    assert_eq!(suffix_after_last_of("noext", '.').as_str(), "noext");
}

#[test]
fn string_equality_and_prefixes() {
    assert!(str_eq("abc", "abc"));
    assert!(!str_eq("abc", "abd"));
    assert!(!str_eq("abc", "ab"));
    assert!(str_eq("", ""));
    assert!(str_starts_with("tree/main", "tree/"));
    assert!(!str_starts_with("trunk/main", "tree/"));
    assert!(!str_starts_with("tr", "tree/"));
}

#[test]
fn decimal_rendering() {
    assert_eq!(u64_to_decimal(0).as_str(), "0");
    assert_eq!(u64_to_decimal(7).as_str(), "7");
    assert_eq!(u64_to_decimal(10).as_str(), "10");
    assert_eq!(u64_to_decimal(1234567890).as_str(), "1234567890");
    assert_eq!(u64_to_decimal(u64::MAX).as_str(), "18446744073709551615");
}

#[test]
fn removing_characters() {
    assert_eq!(remove_char("a\nb\nc", '\n').as_str(), "abc");
    assert_eq!(remove_char("abc", '\n').as_str(), "abc");
    assert_eq!(remove_char("\n\n", '\n').as_str(), "");
}
