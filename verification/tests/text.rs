use moraebox::net::{IpAddr, Ipv4Addr, Ipv6Addr};
use moraebox::paths::{components, join_path, parent, same_path};
use moraebox::text::{
    contains_text, copy_after_blank_line, copy_first_line, decimal, find_second_word, find_word,
    join_texts, not_after, read_u16, signed_decimal, sort_texts, trim,
};

fn texts(words: &[&str]) -> Vec<String> {
    words.iter().map(|word| (*word).to_owned()).collect()
}

#[test]
fn numbers_are_written_in_decimal() {
    assert_eq!(decimal(0), "0");
    assert_eq!(decimal(u64::MAX), "18446744073709551615");
    assert_eq!(signed_decimal(-7), "-7");
    assert_eq!(signed_decimal(i32::MIN), "-2147483648");
    assert_eq!(read_u16("65535"), Some(65535));
    assert_eq!(read_u16("+7"), Some(7));
    assert_eq!(read_u16("65536"), None);
    assert_eq!(read_u16("-1"), None);
    assert_eq!(read_u16(""), None);
}

#[test]
fn white_space_is_that_of_unicode() {
    assert_eq!(trim("\u{2003} a b\u{a0}\n"), "a b");
    assert_eq!(trim(" \t"), "");
    for character in '\0'..=char::MAX {
        let text = character.to_string();
        assert_eq!(trim(&text), text.trim(), "{character:?}");
    }
    assert_eq!(find_second_word("HTTP/1.1  200 OK"), Some("200".to_owned()));
    assert_eq!(find_second_word("one"), None);
    assert_eq!(copy_first_line("a\r\nb"), Some("a".to_owned()));
    assert_eq!(copy_first_line(""), None);
    assert_eq!(copy_after_blank_line("a\r\n\r\nb"), "b");
}

#[test]
fn words_are_letters_and_digits() {
    assert!(find_word("Mach-O \u{e9}t\u{e9} arm64", "arm64"));
    assert!(!find_word("arm64e", "arm64"));
    assert!(find_word("x86_64", "x86_64"));
    assert!(!find_word("\u{e9}arm64", "arm64"));
    assert!(contains_text("abcabd", "abd"));
    assert!(contains_text("", ""));
    assert!(!contains_text("abc", "abcd"));
    assert_eq!(join_texts(&texts(&["a", "b"]), "; "), "a; b");
}

#[test]
fn texts_are_ordered_by_their_characters() {
    assert!(not_after("a", "ab"));
    assert!(not_after("ab", "b"));
    assert!(!not_after("b", "ab"));
    assert!(not_after("Z", "a"));
    assert_eq!(
        sort_texts(texts(&["b", "", "ab", "a", "b"])),
        texts(&["", "a", "ab", "b", "b"])
    );
}

#[test]
fn paths_are_taken_apart() {
    assert_eq!(components("/a//b/./c"), texts(&["a", "b", "c"]));
    assert!(same_path("/a/b", "/a//b/"));
    assert!(!same_path("/a/b", "a/b"));
    assert_eq!(parent("/a/b"), Some("/a".to_owned()));
    assert_eq!(parent("/a/b/"), Some("/a".to_owned()));
    assert_eq!(parent("/a"), Some("/".to_owned()));
    assert_eq!(parent("/"), None);
    assert_eq!(parent("a"), Some(String::new()));
    assert_eq!(join_path("/a", "b"), "/a/b");
    assert_eq!(join_path("/a/", "b"), "/a/b");
    assert_eq!(join_path("/a", "/b"), "/b");
    assert_eq!(join_path("", "b"), "b");
}

#[test]
fn addresses_are_read_from_text() {
    assert_eq!(
        IpAddr::parse_text("192.168.127.1"),
        Some(IpAddr::V4(Ipv4Addr::new(192, 168, 127, 1)))
    );
    assert_eq!(
        IpAddr::parse_text("::1"),
        Some(IpAddr::V6(Ipv6Addr { bits: 1 }))
    );
    assert_eq!(
        IpAddr::parse_text("::ffff:1.2.3.4"),
        Some(IpAddr::V6(Ipv6Addr {
            bits: 0xffff_0102_0304
        }))
    );
    assert_eq!(IpAddr::parse_text("1.2.3"), None);
    assert_eq!(IpAddr::parse_text("01.2.3.4"), None);
    assert_eq!(IpAddr::parse_text("1::2::3"), None);
}
