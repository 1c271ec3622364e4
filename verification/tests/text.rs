use dbus_async::connection::list_path::child_name;
use dbus_async::connection::list_path::holds_name;
use dbus_async::text::chars_of;
use dbus_async::text::find_char;
use dbus_async::text::push_decimal;
use dbus_async::text::same_text;
use dbus_async::text::split;
use dbus_async::text::string_of;
use dbus_async::text::strip_prefix;
use dbus_async::text::strip_suffix;

fn chars(text: &str) -> Vec<char> {
    text.chars().collect()
}

#[test]
fn chars_and_strings() {
    assert_eq!(chars_of("a\u{e9}b"), vec!['a', '\u{e9}', 'b']);
    assert_eq!(chars_of(""), Vec::<char>::new());
    assert_eq!(string_of(&chars("hello"), 1, 3), "el");
    assert_eq!(string_of(&chars("hello"), 0, 5), "hello");
    assert_eq!(string_of(&chars("hello"), 2, 2), "");
}

#[test]
fn find_char_gives_the_first_separator_or_the_end() {
    let text = chars("a;b;;c");
    assert_eq!(find_char(&text, 0, ';'), 1);
    assert_eq!(find_char(&text, 1, ';'), 1);
    assert_eq!(find_char(&text, 2, ';'), 3);
    assert_eq!(find_char(&text, 4, ';'), 4);
    assert_eq!(find_char(&text, 5, ';'), 6);
    assert_eq!(find_char(&text, 6, ';'), 6);
}

#[test]
fn split_keeps_empty_pieces() {
    assert_eq!(split("a b  c", ' '), vec!["a", "b", "", "c"]);
    assert_eq!(split("", ' '), vec![""]);
    assert_eq!(split(" ", ' '), vec!["", ""]);
    assert_eq!(split("abc", ' '), vec!["abc"]);
}

#[test]
fn prefix_and_suffix() {
    assert_eq!(strip_prefix("unix:path", "unix:"), Some("path".to_string()));
    assert_eq!(strip_prefix("unix:", "unix:"), Some(String::new()));
    assert_eq!(strip_prefix("unix", "unix:"), None);
    assert_eq!(strip_prefix("Unix:path", "unix:"), None);
    assert_eq!(strip_prefix("x", ""), Some("x".to_string()));
    assert_eq!(strip_suffix("line\r\n".to_string(), "\r\n"), "line");
    assert_eq!(strip_suffix("line\r".to_string(), "\r\n"), "line\r");
    assert_eq!(strip_suffix("\n".to_string(), "\r\n"), "\n");
    assert!(same_text("a", "a"));
    assert!(!same_text("a", "A"));
    assert!(!same_text("a", "ab"));
}

#[test]
fn decimal_digits() {
    for n in [0u32, 9, 10, 11, 99, 100, 1000, 65535, 4294967295] {
        let mut text = "n=".to_string();
        push_decimal(&mut text, n);
        assert_eq!(text, format!("n={}", n));
    }
}

#[test]
fn child_name_is_the_first_segment_below_the_parent() {
    assert_eq!(child_name(&chars("/a/b/c"), &chars("/a")), Some("b".to_string()));
    assert_eq!(child_name(&chars("/a/b/c"), &chars("/a/b")), Some("c".to_string()));
    assert_eq!(child_name(&chars("/a/b/c"), &chars("/")), Some("a".to_string()));
    assert_eq!(child_name(&chars("/a/b/c"), &chars("/a/b/c")), None);
    assert_eq!(child_name(&chars("/ab"), &chars("/a")), None);
    assert_eq!(child_name(&chars("/"), &chars("/")), None);
    assert_eq!(child_name(&chars("/a"), &chars("/a/b")), None);
    assert_eq!(child_name(&chars("/a/"), &chars("/a")), None);
    assert_eq!(child_name(&chars("/a//b"), &chars("/a")), Some(String::new()));
    assert!(holds_name(&vec!["a".to_string(), "b".to_string()], &"b".to_string()));
    assert!(!holds_name(&vec!["a".to_string(), "b".to_string()], &"c".to_string()));
}
