use filebrowser::text::{basename, find_last, join_path, parent_path, str_eq, str_lt, strip_slash,
    trim, u64_dec};

#[test]
fn lexicographic_order_on_names() {
    assert!(str_lt("a", "b"));
    assert!(!str_lt("b", "a"));
    assert!(str_lt("a", "ab"));
    assert!(!str_lt("ab", "a"));
    assert!(!str_lt("same", "same"));
    assert!(str_lt("", "x"));
    assert!(str_lt("A", "a"));
    assert!(str_lt("a.rs", "b.txt"));
}

#[test]
fn string_equality_by_content() {
    assert!(str_eq("abc", "abc"));
    assert!(!str_eq("abc", "abd"));
    assert!(!str_eq("abc", "ab"));
    assert!(str_eq("", ""));
}

#[test]
fn basename_takes_the_last_component() {
    assert_eq!(basename("/a/b/c.txt"), "c.txt");
    assert_eq!(basename("plain"), "plain");
    assert_eq!(basename("/"), "");
    assert_eq!(basename("/a/b/"), "");
}

#[test]
fn parent_path_walks_up_one_level() {
    assert_eq!(parent_path("/a/b"), Some("/a".to_string()));
    assert_eq!(parent_path("/a"), Some("/".to_string()));
    assert_eq!(parent_path("/"), None);
    assert_eq!(parent_path("plain"), None);
}

#[test]
fn join_and_strip_are_inverse_on_entries() {
    assert_eq!(join_path("/a", "b"), "/a/b");
    assert_eq!(strip_slash("dir/"), "dir");
    assert_eq!(strip_slash("file"), "file");
    assert_eq!(strip_slash(""), "");
}

#[test]
fn trim_removes_surrounding_whitespace() {
    assert_eq!(trim("  name \t"), "name");
    assert_eq!(trim("name"), "name");
    assert_eq!(trim(" \n "), "");
    assert_eq!(trim("a b"), "a b");
}

#[test]
fn decimal_rendering_of_numbers() {
    assert_eq!(u64_dec(0), "0");
    assert_eq!(u64_dec(7), "7");
    assert_eq!(u64_dec(105), "105");
    assert_eq!(u64_dec(18_446_744_073_709_551_615), "18446744073709551615");
}

#[test]
fn find_last_locates_the_final_occurrence() {
    assert_eq!(find_last("a.b.c", '.'), Some(3));
    assert_eq!(find_last("abc", '.'), None);
    assert_eq!(find_last(".", '.'), Some(0));
}
