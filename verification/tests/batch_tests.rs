use string_utils::string_utils::StringUtils;

#[test]
fn first_non_blank_picks_first() {
    assert_eq!(StringUtils::first_non_blank(&["", " ", "a", "b"]), "a");
    assert_eq!(StringUtils::first_non_blank(&["", "  "]), "");
    assert_eq!(StringUtils::first_non_blank(&[]), "");
}

#[test]
fn first_non_empty_picks_first() {
    assert_eq!(StringUtils::first_non_empty(&["", " ", "a"]), " ");
    assert_eq!(StringUtils::first_non_empty(&["", ""]), "");
}

#[test]
fn common_prefix() {
    assert_eq!(StringUtils::get_common_prefix(&["interspecies", "interstellar", "interstate"]), "inters");
    assert_eq!(StringUtils::get_common_prefix(&["abc", "xyz"]), "");
    assert_eq!(StringUtils::get_common_prefix(&["abc", "abc"]), "abc");
    assert_eq!(StringUtils::get_common_prefix(&["abc"]), "abc");
    assert_eq!(StringUtils::get_common_prefix(&[]), "");
    assert_eq!(StringUtils::get_common_prefix(&["ab", "abc"]), "ab");
}

#[test]
fn array_index_of_difference() {
    assert_eq!(StringUtils::index_of_difference(&["abcde", "abxde", "abcz"]), Some(2));
    assert_eq!(StringUtils::index_of_difference(&["abc", "abc"]), None);
    assert_eq!(StringUtils::index_of_difference(&["abc"]), None);
    assert_eq!(StringUtils::index_of_difference(&["ab", "abc"]), Some(2));
}

#[test]
fn blank_and_empty_batches() {
    assert!(StringUtils::is_all_blank(&["", " ", "\t"]));
    assert!(!StringUtils::is_all_blank(&["", "a"]));
    assert!(StringUtils::is_all_blank(&[]));
    assert!(StringUtils::is_all_empty(&["", ""]));
    assert!(!StringUtils::is_all_empty(&["", " "]));
    assert!(StringUtils::is_any_blank(&["a", " "]));
    assert!(!StringUtils::is_any_blank(&["a", "b"]));
    assert!(StringUtils::is_any_empty(&["a", ""]));
    assert!(!StringUtils::is_any_empty(&["a", " "]));
    assert!(StringUtils::is_none_blank(&["a", "b"]));
    assert!(!StringUtils::is_none_blank(&["a", " "]));
    assert!(StringUtils::is_none_empty(&["a", " "]));
    assert!(!StringUtils::is_none_empty(&["a", ""]));
}

#[test]
fn case_batches() {
    assert!(StringUtils::is_all_lower_case(&["abc", "def"]));
    assert!(!StringUtils::is_all_lower_case(&["abc", "Def"]));
    assert!(!StringUtils::is_all_lower_case(&["abc", ""]));
    assert!(StringUtils::is_all_upper_case(&["ABC", "DEF"]));
    assert!(!StringUtils::is_all_upper_case(&["ABC", "dEF"]));
}

#[test]
fn join_family() {
    assert_eq!(StringUtils::join(&["a", "b", "c"], ','), "a,b,c");
    assert_eq!(StringUtils::join(&["a"], ','), "a");
    assert_eq!(StringUtils::join(&[], ','), "");
    assert_eq!(StringUtils::join_with_str(&["a", "b", "c"], ", "), "a, b, c");
    assert_eq!(StringUtils::join_with_str(&["a", "b"], ""), "ab");
    assert_eq!(StringUtils::join_in_range(&["a", "b", "c", "d"], '-', 1, 3), "b-c");
    assert_eq!(StringUtils::join_in_range(&["a", "b"], '-', 1, 1), "");
    assert_eq!(StringUtils::join_in_range_with_str(&["a", "b", "c", "d"], "..", 0, 2), "a..b");
}

#[test]
fn strip_batches() {
    assert_eq!(StringUtils::strip_all(&[" a ", "b ", " c"]), vec!["a", "b", "c"]);
    assert_eq!(StringUtils::strip_all_in(&["xax", "bx"], "x"), vec!["a", "b"]);
    let empty: Vec<String> = Vec::new();
    assert_eq!(StringUtils::strip_all(&[]), empty);
}
