use simple_steam_wrapper::command_helpers::{first_existing, to_quoted_string};
use simple_steam_wrapper::io_utils::{get_temp_folder, strip_all_extensions};
use simple_steam_wrapper::utils::numbers::{hex4_string, parse_hex_u32, parse_i32, parse_i64, u64_to_string};
use simple_steam_wrapper::utils::text::{lines, path_join, replace_all, split_char, split_str, trim, trim_start_matches};

fn strings(v: &[&str]) -> Vec<String> {
    v.iter().map(|s| s.to_string()).collect()
}

#[test]
fn trim_removes_unicode_white_space() {
    assert_eq!(trim("  a b \t\n"), "a b");
    assert_eq!(trim("\u{3000}x\u{a0}"), "x");
    assert_eq!(trim("   "), "");
    assert_eq!(trim(""), "");
}

#[test]
fn split_str_splits_at_each_occurrence() {
    assert_eq!(split_str("0x2484, GPU-1, 8192", ", "), strings(&["0x2484", "GPU-1", "8192"]));
    assert_eq!(split_str("a", ", "), strings(&["a"]));
    assert_eq!(split_str(", a, ", ", "), strings(&["", "a", ""]));
}

#[test]
fn split_char_keeps_empty_pieces() {
    assert_eq!(split_char("a..b", '.'), strings(&["a", "", "b"]));
    assert_eq!(split_char("", '.'), strings(&[""]));
}

#[test]
fn lines_behave_as_str_lines() {
    assert_eq!(lines("a\nb\r\nc"), strings(&["a", "b", "c"]));
    assert_eq!(lines("a\n"), strings(&["a"]));
    assert_eq!(lines("a\n\n"), strings(&["a", ""]));
    assert_eq!(lines(""), Vec::<String>::new());
    assert_eq!(lines("a\r"), strings(&["a\r"]));
    for s in ["x\ny\n", "\n\n", "p\r\nq", "lone\r"] {
        let expected: Vec<String> = s.lines().map(|l| l.to_string()).collect();
        assert_eq!(lines(s), expected);
    }
}

#[test]
fn trim_start_matches_removes_repeated_prefix() {
    assert_eq!(trim_start_matches("0x0x2484", "0x"), "2484");
    assert_eq!(trim_start_matches("2484", "0x"), "2484");
    assert_eq!(trim_start_matches("abc", ""), "abc");
}

#[test]
fn path_join_behaves_as_pathbuf_join() {
    assert_eq!(path_join("/home/u", ".steam/steam"), "/home/u/.steam/steam");
    assert_eq!(path_join("/home/u/", "x"), "/home/u/x");
    assert_eq!(path_join("/home/u", "/abs"), "/abs");
    assert_eq!(path_join("", "rel"), "rel");
}

#[test]
fn replace_all_replaces_left_to_right() {
    assert_eq!(replace_all("/proton %verb%", " %verb%", ""), "/proton");
    assert_eq!(replace_all("aaa", "aa", "b"), "ba");
}

#[test]
fn quoted_string_quotes_each_argument() {
    assert_eq!(to_quoted_string(strings(&["a", "b c"])), "\"a\" \"b c\"");
    assert_eq!(to_quoted_string(Vec::new()), "\"\"");
}

#[test]
fn numbers_are_read_and_written() {
    assert_eq!(parse_hex_u32("2484"), Some(0x2484));
    assert_eq!(parse_hex_u32("+FFFFFFFF"), Some(u32::MAX));
    assert_eq!(parse_hex_u32("100000000"), None);
    assert_eq!(parse_hex_u32(""), None);
    assert_eq!(parse_hex_u32("-1"), None);
    assert_eq!(parse_hex_u32("12g"), None);
    assert_eq!(parse_i32("8192"), Some(8192));
    assert_eq!(parse_i32("-2147483648"), Some(i32::MIN));
    assert_eq!(parse_i32("2147483648"), None);
    assert_eq!(parse_i32("[N/A]"), None);
    assert_eq!(parse_i64("+12"), Some(12));
    assert_eq!(hex4_string(0x10de), "10de");
    assert_eq!(hex4_string(0x3), "0003");
    assert_eq!(u64_to_string(1628350), "1628350");
}

#[test]
fn extensions_are_stripped() {
    assert_eq!(strip_all_extensions("GE-Proton9-20.tar.gz"), "GE-Proton9-20");
    assert_eq!(strip_all_extensions("noext"), "noext");
    assert_eq!(strip_all_extensions(".hidden"), ".hidden");
    assert_eq!(strip_all_extensions(""), "");
}

#[test]
fn temp_folder_has_prefix_and_random_suffix() {
    let a = get_temp_folder("/tmp", "ssw");
    assert!(a.starts_with("/tmp/ssw-"));
    let suffix = &a["/tmp/ssw-".len()..];
    assert_eq!(suffix.len(), 8);
    assert!(suffix.chars().all(|c| c.is_ascii_alphanumeric()));
}

#[test]
fn first_existing_path_is_chosen_by_flags() {
    let paths = strings(&["/a/files/bin/wine", "/a/bin/wine", "/a/usr/bin/wine"]);
    assert_eq!(first_existing(&paths, &vec![false, true, true]), Some("/a/bin/wine".to_string()));
    assert_eq!(first_existing(&paths, &vec![false, false, false]), None);
}

#[test]
fn quoted_arguments_split_back() {
    let args = vec!["a".to_string(), "b c".to_string(), String::new(), " ".to_string()];
    let q = to_quoted_string(args.clone());
    assert_eq!(q, "\"a\" \"b c\" \"\" \" \"");
    let total: usize = args.iter().map(|a| a.chars().count()).sum();
    assert_eq!(q.chars().count(), total + 3 * args.len() - 1);
    let body = &q[1..q.len() - 1];
    assert_eq!(split_str(body, "\" \""), args);
    assert_eq!(to_quoted_string(vec![]), "\"\"");
}
