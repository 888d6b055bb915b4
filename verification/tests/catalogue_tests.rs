use string_utils::string_utils::StringUtilsExt;

#[test]
fn emptiness_and_blankness() {
    assert!(StringUtilsExt::is_empty(""));
    assert!(!StringUtilsExt::is_empty("a"));
    assert!(StringUtilsExt::is_not_empty(" "));
    assert!(StringUtilsExt::is_blank(""));
    assert!(StringUtilsExt::is_blank(" \t\n"));
    assert!(!StringUtilsExt::is_blank(" a "));
    assert!(StringUtilsExt::is_not_blank(" a "));
    assert!(StringUtilsExt::is_whitespace(""));
    assert!(StringUtilsExt::is_whitespace(" \u{a0}\u{2003} "));
    assert!(!StringUtilsExt::is_whitespace("x "));
}

#[test]
fn character_class_predicates() {
    assert!(StringUtilsExt::is_alpha("abcDEF"));
    assert!(!StringUtilsExt::is_alpha(""));
    assert!(!StringUtilsExt::is_alpha("ab2"));
    assert!(StringUtilsExt::is_numeric("12345"));
    assert!(!StringUtilsExt::is_numeric("12a"));
    assert!(!StringUtilsExt::is_numeric(""));
    assert!(StringUtilsExt::is_alphanumeric("ab12"));
    assert!(StringUtilsExt::is_alphanumeric_space("ab 12"));
    assert!(StringUtilsExt::is_alpha_space("ab cd"));
    assert!(StringUtilsExt::is_numeric_space("12 34"));
    assert!(StringUtilsExt::is_ascii_printable("Hello, World!"));
    assert!(!StringUtilsExt::is_ascii_printable("tab\there"));
    assert!(StringUtilsExt::is_mixed_case("aBc"));
    assert!(!StringUtilsExt::is_mixed_case("abc"));
    assert!(!StringUtilsExt::is_mixed_case("ABC"));
}

#[test]
fn equality_family() {
    assert!(StringUtilsExt::equals("abc", "abc"));
    assert!(!StringUtilsExt::equals("abc", "abd"));
    assert!(!StringUtilsExt::equals("abc", "ab"));
    assert!(StringUtilsExt::equals_ignore_case("AbC", "abc"));
    assert!(!StringUtilsExt::equals_ignore_case("AbC", "abd"));
    assert!(StringUtilsExt::equals_any("b", &["a", "b", "c"]));
    assert!(!StringUtilsExt::equals_any("d", &["a", "b", "c"]));
    assert!(StringUtilsExt::equals_any_ignore_case("B", &["a", "b"]));
}

#[test]
fn containment_family() {
    assert!(StringUtilsExt::contains("abcdef", "cde"));
    assert!(!StringUtilsExt::contains("abcdef", "cdf"));
    assert!(StringUtilsExt::contains("abc", ""));
    assert!(StringUtilsExt::contains_char("abc", 'b'));
    assert!(!StringUtilsExt::contains_char("abc", 'z'));
    assert!(StringUtilsExt::contains_ignore_case("aBcDeF", "CDE"));
    assert!(StringUtilsExt::contains_any("abcdef", &["xy", "cd"]));
    assert!(!StringUtilsExt::contains_any("abcdef", &["xy", "zq"]));
    assert!(StringUtilsExt::contains_any_char("abc", &['z', 'b']));
    assert!(StringUtilsExt::contains_any_in("abc", "zb"));
    assert!(StringUtilsExt::contains_any_ignore_case("abcdef", &["CD"]));
    assert!(StringUtilsExt::contains_none("abc", &['x', 'y']));
    assert!(!StringUtilsExt::contains_none("abc", &['x', 'b']));
    assert!(StringUtilsExt::contains_none_in("abc", "xy"));
    assert!(StringUtilsExt::contains_only("abab", &['a', 'b']));
    assert!(!StringUtilsExt::contains_only("abc", &['a', 'b']));
    assert!(StringUtilsExt::contains_only_in("abab", "ab"));
    assert!(StringUtilsExt::contains_whitespace("a b"));
    assert!(!StringUtilsExt::contains_whitespace("ab"));
}

#[test]
fn index_family() {
    assert_eq!(StringUtilsExt::index_of("abcabc", "bc"), Some(1));
    assert_eq!(StringUtilsExt::index_of("abcabc", "zz"), None);
    assert_eq!(StringUtilsExt::index_of("abc", ""), Some(0));
    assert_eq!(StringUtilsExt::index_of_starting_from("abcabc", "bc", 2), Some(4));
    assert_eq!(StringUtilsExt::index_of_ignore_case("aBcAbC", "bc"), Some(1));
    assert_eq!(StringUtilsExt::index_of_char("abcabc", 'c'), Some(2));
    assert_eq!(StringUtilsExt::index_of_char("abc", 'z'), None);
    assert_eq!(StringUtilsExt::index_of_char_starting_from("abcabc", 'c', 3), Some(5));
    assert_eq!(StringUtilsExt::last_index_of("abcabc", "bc"), Some(4));
    assert_eq!(StringUtilsExt::last_index_of("abcabc", "zz"), None);
    assert_eq!(StringUtilsExt::last_index_of_starting_from("abcabc", "bc", 3), Some(1));
    assert_eq!(StringUtilsExt::last_index_of_char("abcabc", 'b'), Some(4));
    assert_eq!(StringUtilsExt::last_index_of_char_starting_from("abcabc", 'b', 3), Some(1));
    assert_eq!(StringUtilsExt::index_of_any_char("abc", &['z', 'c', 'b']), Some(1));
    assert_eq!(StringUtilsExt::index_of_any_in("abc", "zc"), Some(2));
    assert_eq!(StringUtilsExt::index_of_any_but("aabz", &['a', 'b']), Some(3));
    assert_eq!(StringUtilsExt::index_of_any_but_in("aab", "ab"), None);
    assert_eq!(StringUtilsExt::index_of_difference("abcde", "abxde"), Some(2));
    assert_eq!(StringUtilsExt::index_of_difference("ab", "abc"), Some(2));
    assert_eq!(StringUtilsExt::index_of_difference("abc", "abc"), None);
    assert_eq!(StringUtilsExt::difference("abcde", "abxde"), "xde");
    assert_eq!(StringUtilsExt::difference("abc", "abc"), "");
}

#[test]
fn prefix_suffix_family() {
    assert!(StringUtilsExt::starts_with("abcdef", "abc", false));
    assert!(!StringUtilsExt::starts_with("abcdef", "abd", false));
    assert!(StringUtilsExt::starts_with("ABCdef", "abc", true));
    assert!(StringUtilsExt::starts_with_any("abcdef", &["xy", "ab"]));
    assert!(StringUtilsExt::end_with("abcdef", "def", false));
    assert!(StringUtilsExt::end_with("abcDEF", "def", true));
    assert!(StringUtilsExt::end_with_consider_case("abcdef", "def"));
    assert!(!StringUtilsExt::end_with_consider_case("abcDEF", "def"));
    assert!(StringUtilsExt::end_with_ignore_case("abcDEF", "def"));
    assert!(StringUtilsExt::end_with_any("abcdef", &["xyz", "ef"]));
}

#[test]
fn substring_extraction() {
    assert_eq!(StringUtilsExt::left("abcdef", 3), "abc");
    assert_eq!(StringUtilsExt::left("ab", 5), "ab");
    assert_eq!(StringUtilsExt::right("abcdef", 2), "ef");
    assert_eq!(StringUtilsExt::right("ab", 5), "ab");
    assert_eq!(StringUtilsExt::mid("abcdef", 2, 3), "cde");
    assert_eq!(StringUtilsExt::mid("abcdef", 4, 10), "ef");
    assert_eq!(StringUtilsExt::mid("abcdef", 9, 2), "");
    assert_eq!(StringUtilsExt::substring("abcdef", 1..4), "bcd");
    assert_eq!(StringUtilsExt::truncate("abcdef", 4), "abcd");
    assert_eq!(StringUtilsExt::truncate("ab", 4), "ab");
    assert_eq!(StringUtilsExt::truncate_with_offset("abcdef", 2, 3), "cde");
    assert_eq!(StringUtilsExt::truncate_with_offset("abcdef", 4, 10), "ef");
}

#[test]
fn substring_before_after() {
    assert_eq!(StringUtilsExt::substring_before("a.b.c", '.'), "a");
    assert_eq!(StringUtilsExt::substring_before("abc", '.'), "abc");
    assert_eq!(StringUtilsExt::substring_after("a.b.c", '.'), "b.c");
    assert_eq!(StringUtilsExt::substring_after("abc", '.'), "");
    assert_eq!(StringUtilsExt::substring_before_last("a.b.c", '.'), "a.b");
    assert_eq!(StringUtilsExt::substring_after_last("a.b.c", '.'), "c");
    assert_eq!(StringUtilsExt::substring_before_str("a::b::c", "::"), "a");
    assert_eq!(StringUtilsExt::substring_after_str("a::b::c", "::"), "b::c");
    assert_eq!(StringUtilsExt::substring_before_last_str("a::b::c", "::"), "a::b");
    assert_eq!(StringUtilsExt::substring_after_last_str("a::b::c", "::"), "c");
    assert_eq!(StringUtilsExt::substring_between("a<x>b", "<", ">"), "x");
    assert_eq!(StringUtilsExt::substring_between("ab", "<", ">"), "");
    assert_eq!(StringUtilsExt::substring_between_tag("'hello'x", "'"), "hello");
}

#[test]
fn chomp_and_chop() {
    assert_eq!(StringUtilsExt::chop("abc"), "ab");
    assert_eq!(StringUtilsExt::chop("abc\r\n"), "abc");
    assert_eq!(StringUtilsExt::chop(""), "");
    assert_eq!(StringUtilsExt::chomp("abc\n"), "abc");
    assert_eq!(StringUtilsExt::chomp("abc\r\n"), "abc");
    assert_eq!(StringUtilsExt::chomp("abc\r"), "abc");
    assert_eq!(StringUtilsExt::chomp("abc"), "abc");
    assert_eq!(StringUtilsExt::chomp_specified("foobar", "bar"), "foo");
    assert_eq!(StringUtilsExt::chomp_specified("foobar", "baz"), "foobar");
}

#[test]
fn removal_family() {
    assert_eq!(StringUtilsExt::remove_start("www.domain", "www."), "domain");
    assert_eq!(StringUtilsExt::remove_start("domain", "www."), "domain");
    assert_eq!(StringUtilsExt::remove_start_char("/path", '/'), "path");
    assert_eq!(StringUtilsExt::remove_start_ignore_case("WWW.domain", "www."), "domain");
    assert_eq!(StringUtilsExt::remove_end("file.txt", ".txt"), "file");
    assert_eq!(StringUtilsExt::remove_end("file.txt", ".doc"), "file.txt");
    assert_eq!(StringUtilsExt::remove_end_ignore_case("file.TXT", ".txt"), "file");
    assert_eq!(StringUtilsExt::remove_first("abcabc", "bc"), "aabc");
    assert_eq!(StringUtilsExt::remove_first("abc", "zz"), "abc");
    assert_eq!(StringUtilsExt::remove_char("abcabc", 'b'), "acac");
    assert_eq!(StringUtilsExt::replace_first("abcabc", "bc", "X"), "aXabc");
    assert_eq!(StringUtilsExt::replace_chars("abcabc", 'b', 'y'), "aycayc");
}

#[test]
fn wrapping_family() {
    assert_eq!(StringUtilsExt::wrap("ab", '\''), "'ab'");
    assert_eq!(StringUtilsExt::wrap_with_str("ab", "\""), "\"ab\"");
    assert_eq!(StringUtilsExt::wrap_if_missing("ab", '\''), "'ab'");
    assert_eq!(StringUtilsExt::wrap_if_missing("'ab'", '\''), "'ab'");
    assert_eq!(StringUtilsExt::wrap_if_missing("'ab", '\''), "'ab'");
    assert_eq!(StringUtilsExt::wrap_if_missing("", '\''), "");
    assert_eq!(StringUtilsExt::wrap_if_missing_str("ab", "::"), "::ab::");
    assert_eq!(StringUtilsExt::wrap_if_missing_str("::ab", "::"), "::ab::");
    assert_eq!(StringUtilsExt::unwrap_from_char("'ab'", '\''), "ab");
    assert_eq!(StringUtilsExt::unwrap_from_char("'ab", '\''), "'ab");
    assert_eq!(StringUtilsExt::unwrap_from_str("::ab::", "::"), "ab");
    assert_eq!(StringUtilsExt::unwrap_from_str("::ab", "::"), "::ab");
}

#[test]
fn overlay_and_defaults() {
    assert_eq!(StringUtilsExt::overlay("abcdef", "zzzz", 2, 4), "abzzzzef");
    assert_eq!(StringUtilsExt::overlay("abcdef", "zzzz", 4, 2), "abzzzzef");
    assert_eq!(StringUtilsExt::overlay("abcdef", "z", 2, 100), "abz");
    assert_eq!(StringUtilsExt::default_if_empty("", "d"), "d");
    assert_eq!(StringUtilsExt::default_if_empty("a", "d"), "a");
    assert_eq!(StringUtilsExt::default_if_blank("  ", "d"), "d");
    assert_eq!(StringUtilsExt::default_if_blank(" a ", "d"), " a ");
    assert_eq!(StringUtilsExt::default_string("a"), "a");
}

#[test]
fn case_conversion() {
    assert_eq!(StringUtilsExt::lower_case("AbC"), "abc");
    assert_eq!(StringUtilsExt::upper_case("AbC"), "ABC");
    assert_eq!(StringUtilsExt::lower_case(""), "");
    assert_eq!(StringUtilsExt::capitalize("hello"), "Hello");
    assert_eq!(StringUtilsExt::capitalize(""), "");
    assert_eq!(StringUtilsExt::uncapitalize("Hello"), "hello");
    assert_eq!(StringUtilsExt::swap_case("aBc1"), "AbC1");
}

#[test]
fn repeat_reverse_count() {
    assert_eq!(StringUtilsExt::repeat("ab", 3), "ababab");
    assert_eq!(StringUtilsExt::repeat("ab", 0), "");
    assert_eq!(StringUtilsExt::reverse("abc"), "cba");
    assert_eq!(StringUtilsExt::reverse(""), "");
    assert_eq!(StringUtilsExt::count_matches("abcabcab", 'a'), 3);
    assert_eq!(StringUtilsExt::count_matches("abc", 'z'), 0);
    assert_eq!(StringUtilsExt::digits("a1b22c"), "122");
    assert_eq!(StringUtilsExt::delete_whitespace("a b\tc"), "abc");
}

#[test]
fn padding_family() {
    assert_eq!(StringUtilsExt::left_pad("ab", 5), "   ab");
    assert_eq!(StringUtilsExt::left_pad("abcdef", 3), "abcdef");
    assert_eq!(StringUtilsExt::left_pad_with("ab", 5, '0'), "000ab");
    assert_eq!(StringUtilsExt::left_pad_with_str("ab", 7, "xy"), "xyxyxab");
    assert_eq!(StringUtilsExt::left_pad_with_str("ab", 5, ""), "   ab");
    assert_eq!(StringUtilsExt::right_pad("ab", 5), "ab   ");
    assert_eq!(StringUtilsExt::right_pad_with("ab", 5, '0'), "ab000");
    assert_eq!(StringUtilsExt::right_pad_with_str("ab", 7, "xy"), "abxyxyx");
    assert_eq!(StringUtilsExt::center("ab", 6), "  ab  ");
    assert_eq!(StringUtilsExt::center("ab", 5), " ab  ");
    assert_eq!(StringUtilsExt::center("abcdef", 3), "abcdef");
    assert_eq!(StringUtilsExt::center_with("ab", 6, "-"), "--ab--");
    assert_eq!(StringUtilsExt::center_with_char("ab", 6, "-"), "--ab--");
}

#[test]
fn strip_family() {
    assert_eq!(StringUtilsExt::strip_start("  ab  "), "ab  ");
    assert_eq!(StringUtilsExt::strip_end("  ab  "), "  ab");
    assert_eq!(StringUtilsExt::strip("  ab  "), "ab");
    assert_eq!(StringUtilsExt::strip("\u{2003} ab\u{a0}"), "ab");
    assert_eq!(StringUtilsExt::strip_start_in("xxabxx", "x"), "abxx");
    assert_eq!(StringUtilsExt::strip_end_in("xxabxx", "x"), "xxab");
    assert_eq!(StringUtilsExt::strip_in("xyabyx", "xy"), "ab");
    assert_eq!(StringUtilsExt::trim(" \t ab \u{1} "), "ab");
    assert_eq!(StringUtilsExt::trim(""), "");
}

#[test]
fn remove_all_occurrences() {
    assert_eq!(StringUtilsExt::remove("queued", "ue"), "qd");
    assert_eq!(StringUtilsExt::remove_all("abcabcabc", "bc"), "aaa");
    assert_eq!(StringUtilsExt::remove("abc", "zz"), "abc");
    assert_eq!(StringUtilsExt::remove("abc", ""), "abc");
    assert_eq!(StringUtilsExt::remove("aaa", "aa"), "a");
}

#[test]
fn any_search_family() {
    assert_eq!(StringUtilsExt::index_of_any("zzabczzab", &["ab", "cz"]), Some(2));
    assert_eq!(StringUtilsExt::index_of_any("zzz", &["ab", "cd"]), None);
    assert_eq!(StringUtilsExt::last_index_of_any("zzabczzab", &["ab", "cz"]), Some(7));
    assert_eq!(StringUtilsExt::last_index_of_any("zzz", &["ab"]), None);
    assert_eq!(StringUtilsExt::last_index_of_ignore_case("aBcAbC", "bc"), Some(4));
    assert_eq!(StringUtilsExt::last_index_of_ignore_case_starting_from("aBcAbC", "bc", 3), Some(1));
}

#[test]
fn supplier_defaults_and_folded_removal() {
    assert_eq!(StringUtilsExt::if_empty("", || String::from("d")), "d");
    assert_eq!(StringUtilsExt::if_empty("a", || String::from("d")), "a");
    assert_eq!(StringUtilsExt::if_blank("  ", || String::from("d")), "d");
    assert_eq!(StringUtilsExt::if_blank(" a ", || String::from("d")), " a ");
    assert_eq!(StringUtilsExt::remove_ignore_case("qUeUed", "ue"), "qd");
    assert_eq!(StringUtilsExt::remove_ignore_case("abc", "zz"), "abc");
}

#[test]
fn count_and_normalize() {
    assert_eq!(StringUtilsExt::count_matches_str("abcabcabc", "bc"), 3);
    assert_eq!(StringUtilsExt::count_matches_str("aaaa", "aa"), 2);
    assert_eq!(StringUtilsExt::count_matches_str("abc", "zz"), 0);
    assert_eq!(StringUtilsExt::count_matches_str("abc", ""), 0);
    assert_eq!(StringUtilsExt::normalize_space("  a  b \t c  "), "a b c");
    assert_eq!(StringUtilsExt::normalize_space("abc"), "abc");
    assert_eq!(StringUtilsExt::normalize_space("   "), "");
    assert_eq!(StringUtilsExt::normalize_space(""), "");
}

#[test]
fn rotation_and_delimited_reversal() {
    assert_eq!(StringUtilsExt::rotate("abcdefg", 2), "fgabcde");
    assert_eq!(StringUtilsExt::rotate("abcdefg", -2), "cdefgab");
    assert_eq!(StringUtilsExt::rotate("abc", 0), "abc");
    assert_eq!(StringUtilsExt::rotate("abc", 7), "cab");
    assert_eq!(StringUtilsExt::rotate("abc", -7), "bca");
    assert_eq!(StringUtilsExt::rotate("", 3), "");
    assert_eq!(StringUtilsExt::reverse_delimited("a.b.c", '.'), "c.b.a");
    assert_eq!(StringUtilsExt::reverse_delimited("abc", '.'), "abc");
    assert_eq!(StringUtilsExt::reverse_delimited("a..b", '.'), "b..a");
    assert_eq!(StringUtilsExt::reverse_delimited("", '.'), "");
}

#[test]
fn positional_char_replacement() {
    assert_eq!(StringUtilsExt::replace_chars_in("abcba", "bc", "yz"), "ayzya");
    assert_eq!(StringUtilsExt::replace_chars_in("abcba", "bc", "y"), "ayya");
    assert_eq!(StringUtilsExt::replace_chars_in("abc", "", "xy"), "abc");
    assert_eq!(StringUtilsExt::replace_chars_in("abc", "abc", ""), "");
}

#[test]
fn ordinal_index_family() {
    assert_eq!(StringUtilsExt::ordinal_index_of("aabaabaa", "ab", 1), Some(1));
    assert_eq!(StringUtilsExt::ordinal_index_of("aabaabaa", "ab", 2), Some(4));
    assert_eq!(StringUtilsExt::ordinal_index_of("aabaabaa", "ab", 3), None);
    assert_eq!(StringUtilsExt::ordinal_index_of("aaa", "aa", 2), Some(1));
    assert_eq!(StringUtilsExt::ordinal_index_of("abc", "z", 1), None);
    assert_eq!(StringUtilsExt::ordinal_index_of("abc", "b", 0), None);
    assert_eq!(StringUtilsExt::last_ordinal_index_of("aabaabaa", "ab", 1), Some(4));
    assert_eq!(StringUtilsExt::last_ordinal_index_of("aabaabaa", "ab", 2), Some(1));
    assert_eq!(StringUtilsExt::last_ordinal_index_of("aabaabaa", "ab", 3), None);
}

#[test]
fn replace_each_family() {
    assert_eq!(
        StringUtilsExt::replace_each("abcde", &["ab", "d"], &["w", "t"]).unwrap(),
        "wcte"
    );
    assert_eq!(
        StringUtilsExt::replace_each("abcde", &["ab", "d"], &["d", "t"]).unwrap(),
        "dcte"
    );
    assert_eq!(
        StringUtilsExt::replace_each("abc", &["", "b"], &["x", "y"]).unwrap(),
        "ayc"
    );
    assert!(StringUtilsExt::replace_each("abc", &["a"], &[]).is_err());
    assert_eq!(
        StringUtilsExt::replace_each_repeatedly("abcde", &["ab", "d"], &["d", "t"], None).unwrap(),
        "tcte"
    );
    assert!(
        StringUtilsExt::replace_each_repeatedly("ab", &["a", "b"], &["b", "a"], Some(5)).is_err()
    );
}

#[test]
fn compare_family() {
    assert_eq!(StringUtilsExt::compare("abc", "abc"), 0);
    assert_eq!(StringUtilsExt::compare("abc", "abd"), -1);
    assert_eq!(StringUtilsExt::compare("abd", "abc"), 1);
    assert_eq!(StringUtilsExt::compare("ab", "abc"), -1);
    assert_eq!(StringUtilsExt::compare("abc", "ab"), 1);
    assert_eq!(StringUtilsExt::compare("", ""), 0);
    assert_eq!(StringUtilsExt::compare_ignore_case("ABC", "abc"), 0);
    assert_eq!(StringUtilsExt::compare_ignore_case("ABC", "abd"), -1);
}

#[test]
fn if_missing_family() {
    assert_eq!(StringUtilsExt::append_if_missing("file", ".txt", false), "file.txt");
    assert_eq!(StringUtilsExt::append_if_missing("file.txt", ".txt", false), "file.txt");
    assert_eq!(StringUtilsExt::append_if_missing("file.TXT", ".txt", true), "file.TXT");
    assert_eq!(
        StringUtilsExt::append_if_missing_one_of("file.md", ".txt", &[".md", ".rst"], false),
        "file.md"
    );
    assert_eq!(
        StringUtilsExt::append_if_missing_one_of("file", ".txt", &[".md", ".rst"], false),
        "file.txt"
    );
    assert_eq!(StringUtilsExt::prepend_if_missing("domain", "www.", false), "www.domain");
    assert_eq!(StringUtilsExt::prepend_if_missing("www.domain", "www.", false), "www.domain");
    assert_eq!(StringUtilsExt::prepend_if_missing("WWW.domain", "www.", true), "WWW.domain");
    assert_eq!(
        StringUtilsExt::prepend_if_missing_one_of("ftp.host", "www.", &["ftp.", "sftp."], false),
        "ftp.host"
    );
}

#[test]
fn string_impl_delegates() {
    let s = String::from("abcdef");
    assert!(StringUtilsExt::contains(&s, "cde"));
    assert_eq!(StringUtilsExt::left(&s, 3), "abc");
    assert_eq!(StringUtilsExt::reverse(&s), "fedcba");
    assert!(StringUtilsExt::equals(&s, "abcdef"));
    assert_eq!(StringUtilsExt::index_of(&s, "cd"), Some(2));
    assert_eq!(StringUtilsExt::strip(&String::from(" x ")), "x");
}
