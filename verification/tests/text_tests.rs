use hyprsechy::text::{
    i64_to_string, join_path, parse_bool, parse_i32, parse_u32, parse_u64, parse_usize, replace, split_str,
    split_whitespace, trim_str, u64_to_string,
};

#[test]
fn number_texts_read_back() {
    assert_eq!(u64_to_string(0), "0");
    assert_eq!(u64_to_string(18446744073709551615), "18446744073709551615");
    assert_eq!(i64_to_string(-42), "-42");
    assert_eq!(i64_to_string(i64::MIN), "-9223372036854775808");
    assert_eq!(parse_u64("18446744073709551615"), Some(u64::MAX));
    assert_eq!(parse_u64("18446744073709551616"), None);
    assert_eq!(parse_u32("+7"), Some(7));
    assert_eq!(parse_u32(""), None);
    assert_eq!(parse_u32("+"), None);
    assert_eq!(parse_u32("4294967296"), None);
    assert_eq!(parse_u32(" 1"), None);
    assert_eq!(parse_usize("0012"), Some(12));
    assert_eq!(parse_i32("-2147483648"), Some(i32::MIN));
    assert_eq!(parse_i32("2147483648"), None);
    assert_eq!(parse_i32("-+1"), None);
    assert_eq!(parse_i32("-"), None);
    assert_eq!(parse_i32("+12"), Some(12));
    assert_eq!(parse_bool("true"), Some(true));
    assert_eq!(parse_bool("false"), Some(false));
    assert_eq!(parse_bool("True"), None);
}

#[test]
fn splitting_and_trimming() {
    assert_eq!(split_str("a,,b,", ","), vec!["a", "", "b", ""]);
    assert_eq!(split_str("a>>b>>c", ">>"), vec!["a", "b", "c"]);
    assert_eq!(split_whitespace("  a \t b\n"), vec!["a", "b"]);
    assert_eq!(trim_str("\u{2003} x y \n"), "x y");
    assert_eq!(replace("a.socket.sock.socket.sock", ".socket.sock", "!"), "a!!");
}

#[test]
fn joining_paths() {
    assert_eq!(join_path("/a", "b"), "/a/b");
    assert_eq!(join_path("/a/", "b"), "/a/b");
    assert_eq!(join_path("/a", "/b"), "/b");
    assert_eq!(join_path("", "b"), "b");
}
