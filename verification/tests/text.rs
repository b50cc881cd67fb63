use pipekeep::runtime::{digest_name, join_path, root_dir, session_dir, session_name, socket_path, IdError};
use pipekeep::text::{
    bytes_equal, bytes_range, decimal_text, hex_text, parse_number, parse_signed, parse_unsigned,
    signed_decimal_text, str_contains, strings_without, trimmed,
};
use pipekeep::wire::{be_number, u32_bytes, u64_bytes};

#[test]
fn numbers_are_written_and_read_back() {
    for n in [0, 9, 10, 4096, u64::MAX] {
        assert_eq!(decimal_text(n), format!("{n}"));
        assert_eq!(parse_number(&decimal_text(n)), Some(n));
    }
    assert_eq!(signed_decimal_text(-42), "-42");
    assert_eq!(signed_decimal_text(i64::MIN), format!("{}", i64::MIN));
    assert_eq!(parse_number("+1"), None);
    assert_eq!(parse_unsigned("+1"), Some(1));
    assert_eq!(parse_unsigned("18446744073709551616"), None);
    assert_eq!(parse_signed("-2147483648"), Some(i32::MIN));
    assert_eq!(parse_signed("2147483648"), None);
    assert_eq!(parse_signed("+7"), Some(7));
    assert_eq!(parse_signed("-"), None);
}

#[test]
fn white_space_is_removed_round_text() {
    for text in ["", "  ", " a b ", "\t12\r\n", "\u{3000}x\u{a0}", "x"] {
        assert_eq!(trimmed(text), text.trim());
    }
}

#[test]
fn occurrences_are_contiguous() {
    assert!(str_contains("session does not exist", "does not"));
    assert!(str_contains("abc", ""));
    assert!(!str_contains("abc", "ac"));
    assert!(!str_contains("", "a"));
}

#[test]
fn bytes_compare_and_split() {
    assert!(bytes_equal(b"ab", b"ab"));
    assert!(!bytes_equal(b"ab", b"abc"));
    assert_eq!(bytes_range(b"hello", 1, 3), b"el");
    assert_eq!(hex_text(&[0, 171, 255]), "00abff");
}

#[test]
fn words_are_removed_wherever_they_stand() {
    let list: Vec<String> = ["a", "x", "b", "x"].iter().map(|s| s.to_string()).collect();
    let (rest, found) = strings_without(&list, "x");
    assert!(found);
    assert_eq!(rest, ["a", "b"]);
    let (rest, found) = strings_without(&rest, "x");
    assert!(!found);
    assert_eq!(rest.len(), 2);
}

#[test]
fn wire_numbers_are_big_endian() {
    assert_eq!(u32_bytes(258), [0, 0, 1, 2]);
    assert_eq!(u64_bytes(u64::MAX), [255; 8]);
    assert_eq!(be_number(&[1, 0]), 256);
}

#[test]
fn session_directories_are_named_by_digest() {
    assert_eq!(session_name("abc").unwrap(), "ba7816bf8f01cfea414140de5dae2223");
    assert_eq!(session_name(""), Err(IdError::Empty));
    assert_eq!(session_name("").unwrap_err().message(), "session ID may not be empty");
    let long = "x".repeat(1024);
    assert!(session_name(&long).is_ok());
    let longer = "x".repeat(1025);
    assert_eq!(session_name(&longer), Err(IdError::TooLong));
    assert_eq!(IdError::TooLong.message(), "session ID is too long");
    assert_eq!(digest_name(&[17; 32]), "11".repeat(16));
}

#[test]
fn paths_are_joined_by_one_slash() {
    assert_eq!(join_path(b"/run", b"x"), b"/run/x");
    assert_eq!(join_path(b"/run/", b"x"), b"/run/x");
    assert_eq!(root_dir(Some(b"/own".to_vec()), Some(b"/u".to_vec()), 7), b"/own");
    assert_eq!(root_dir(None, Some(b"/u".to_vec()), 7), b"/u/pipekeep");
    assert_eq!(root_dir(None, None, 1000), b"/tmp/pipekeep-1000");
    assert_eq!(socket_path(b"/u/pipekeep/s"), b"/u/pipekeep/s/broker.sock");
}

#[test]
fn a_session_has_its_directory_in_the_root() {
    let name = session_name("banana").unwrap();
    assert_eq!(name.len(), 32);
    assert!(name.bytes().all(|byte| byte.is_ascii_hexdigit()));
    assert_eq!(session_dir(b"/r", "banana").unwrap(), format!("/r/{name}").into_bytes());
    assert_eq!(session_dir(b"/r/", "banana").unwrap(), format!("/r/{name}").into_bytes());
    assert_eq!(session_dir(b"/r", "").unwrap_err(), IdError::Empty);
    assert_eq!(session_dir(b"/r", &"x".repeat(1025)).unwrap_err(), IdError::TooLong);
}
