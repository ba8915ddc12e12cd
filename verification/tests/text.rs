use traffic_proxy::headers::{contains_name, content_length, copy_bytes, remove_name, rewrite_host, Header};
use traffic_proxy::text::{chars_of, names_match, read_length, same_letter};

fn header(name: &str, value: &str) -> Header {
    Header { name: name.to_string(), value: value.as_bytes().to_vec() }
}

#[test]
fn chars_are_listed_one_by_one() {
    assert_eq!(chars_of(""), Vec::<char>::new());
    assert_eq!(chars_of("a/\u{e9}"), vec!['a', '/', '\u{e9}']);
}

#[test]
fn letters_match_across_ascii_case() {
    assert!(same_letter('a', 'A'));
    assert!(same_letter('Z', 'z'));
    assert!(same_letter('-', '-'));
    assert!(!same_letter('a', 'b'));
    assert!(!same_letter('@', '`'));
    assert!(!same_letter('[', '{'));
    assert!(!same_letter('\u{e9}', '\u{c9}'));
}

#[test]
fn names_match_across_ascii_case() {
    assert!(names_match("Content-Length", "content-length"));
    assert!(names_match("HOST", "host"));
    assert!(names_match("", ""));
    assert!(!names_match("host", "hosts"));
    assert!(!names_match("host", "hose"));
    assert!(!names_match("", "a"));
}

#[test]
fn lengths_are_read_from_digits() {
    assert_eq!(read_length(b"0"), Some(0));
    assert_eq!(read_length(b"42"), Some(42));
    assert_eq!(read_length(b"007"), Some(7));
    assert_eq!(read_length(b"18446744073709551615"), Some(u64::MAX));
}

#[test]
fn what_is_no_length_is_refused() {
    assert_eq!(read_length(b""), None);
    assert_eq!(read_length(b"18446744073709551616"), None);
    assert_eq!(read_length(b"99999999999999999999999"), None);
    assert_eq!(read_length(b"1844674407370955161x"), None);
    assert_eq!(read_length(b"4 2"), None);
    assert_eq!(read_length(b"0x10"), None);
    assert_eq!(read_length(b"/"), None);
    assert_eq!(read_length(b":"), None);
}

#[test]
fn fields_are_found_by_name() {
    let list = vec![header("Accept", "a"), header("Host", "h")];
    assert!(contains_name(&list, "host"));
    assert!(contains_name(&list, "ACCEPT"));
    assert!(!contains_name(&list, "cookie"));
    assert!(!contains_name(&Vec::new(), "host"));
}

#[test]
fn content_length_is_read_from_the_first_such_field() {
    assert_eq!(content_length(&Vec::new()), None);
    assert_eq!(content_length(&vec![header("content-length", "12")]), Some(12));
    assert_eq!(
        content_length(&vec![header("a", "1"), header("Content-Length", "x"), header("content-length", "3")]),
        None
    );
    assert_eq!(
        content_length(&vec![header("a", "1"), header("CONTENT-LENGTH", "5"), header("content-length", "x")]),
        Some(5)
    );
}

#[test]
fn later_host_fields_are_dropped() {
    let list = vec![header("Host", "one"), header("a", "1"), header("host", "two"), header("b", "2")];
    assert_eq!(
        rewrite_host(&list, "new"),
        vec![header("Host", "new"), header("a", "1"), header("b", "2")]
    );
    let only = vec![header("host", "x"), header("host", "y")];
    assert_eq!(rewrite_host(&only, "z"), vec![header("host", "z")]);
}

#[test]
fn list_without_host_is_copied_as_it_is() {
    let list = vec![header("a", "1"), header("a", "2"), header("hosts", "3")];
    assert_eq!(rewrite_host(&list, "new"), list);
}

#[test]
fn host_is_rewritten_in_place() {
    let list = vec![header("a", "1"), header("Host", "old"), header("b", "2")];
    assert_eq!(
        rewrite_host(&list, "new.example:443"),
        vec![header("a", "1"), header("Host", "new.example:443"), header("b", "2")]
    );
    assert_eq!(rewrite_host(&Vec::new(), "x"), Vec::new());
}

#[test]
fn fields_are_removed_by_name() {
    let list = vec![header("a", "1"), header("B", "2"), header("a", "3"), header("c", "4")];
    assert_eq!(remove_name(&list, "A"), vec![header("B", "2"), header("c", "4")]);
    assert_eq!(remove_name(&list, "z"), list);
}

#[test]
fn bytes_are_copied() {
    assert_eq!(copy_bytes(&vec![1, 2, 3]), vec![1, 2, 3]);
    assert_eq!(copy_bytes(&Vec::new()), Vec::<u8>::new());
}
