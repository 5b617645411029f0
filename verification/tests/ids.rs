use stampa::avatars::AvatarClient;
use stampa::config::Config;
use stampa::errors::AppErrorType;
use stampa::oid::ObjectId;
use stampa::text::{decimal_text, signed_text};

#[test]
fn an_identifier_is_written_in_lower_case_hexadecimal() {
    let bytes = [0x00, 0x01, 0x0a, 0x0f, 0x10, 0x7f, 0x80, 0x9a, 0xab, 0xcd, 0xef, 0xff];
    let id = ObjectId::from_bytes(bytes);
    assert_eq!(id.to_hex(), "00010a0f107f809aabcdefff");
    assert_eq!(id.bytes(), bytes);
    assert_eq!(ObjectId::from_bytes([0; 12]).to_hex(), "000000000000000000000000");
}

#[test]
fn an_identifier_is_read_from_hexadecimal_of_either_case() {
    let bytes = [0x00, 0x01, 0x0a, 0x0f, 0x10, 0x7f, 0x80, 0x9a, 0xab, 0xcd, 0xef, 0xff];
    assert_eq!(ObjectId::parse_str("00010a0f107f809aabcdefff").unwrap(), ObjectId::from_bytes(bytes));
    assert_eq!(ObjectId::parse_str("00010A0F107F809AABCDEFFF").unwrap().bytes(), bytes);
    assert_eq!(ObjectId::parse_str("00010a0F107f809AabCDefFf").unwrap().bytes(), bytes);
    let id = ObjectId::from_bytes([7; 12]);
    assert_eq!(ObjectId::parse_str(&id.to_hex()).unwrap(), id);
}

#[test]
fn a_text_that_is_not_an_identifier_is_refused() {
    for text in [
        "",
        "00010a0f107f809aabcdeff",
        "00010a0f107f809aabcdefff0",
        "00010a0f107f809aabcdefff00",
        "00010a0f107f809aabcdefg0",
        "00010a0f107f 09aabcdefff",
        "0x010a0f107f809aabcdefff",
        "\u{e9}0010a0f107f809aabcdeff",
        "\u{e9}\u{e9}\u{e9}\u{e9}\u{e9}\u{e9}\u{e9}\u{e9}\u{e9}\u{e9}\u{e9}\u{e9}",
    ] {
        let e = ObjectId::parse_str(text).unwrap_err();
        assert_eq!(e.error_type, AppErrorType::DbError);
        assert_eq!(e.message, None);
        assert!(e.cause.is_some());
        assert_eq!(e.status_code(), 500);
    }
    let e = ObjectId::parse_str("xyz").unwrap_err();
    assert!(e.cause.unwrap().contains("xyz"));
}

#[test]
fn fresh_identifiers_differ() {
    let a = ObjectId::new();
    let b = ObjectId::new();
    assert_ne!(a, b);
    assert_eq!(a.to_hex().len(), 24);
    assert_eq!(a, a.clone());
}

#[test]
fn identifiers_are_equal_where_their_bytes_are() {
    let a = ObjectId::from_bytes([1, 2, 3, 4, 5, 6, 7, 8, 9, 10, 11, 12]);
    let b = ObjectId::from_bytes([1, 2, 3, 4, 5, 6, 7, 8, 9, 10, 11, 12]);
    let c = ObjectId::from_bytes([1, 2, 3, 4, 5, 6, 7, 8, 9, 10, 11, 13]);
    let d = ObjectId::from_bytes([0, 2, 3, 4, 5, 6, 7, 8, 9, 10, 11, 12]);
    assert!(a == b);
    assert!(a != c);
    assert!(a != d);
}

#[test]
fn numbers_are_written_in_decimal() {
    assert_eq!(decimal_text(0), "0");
    assert_eq!(decimal_text(7), "7");
    assert_eq!(decimal_text(10), "10");
    assert_eq!(decimal_text(1234567890), "1234567890");
    assert_eq!(decimal_text(u64::MAX), "18446744073709551615");
    assert_eq!(signed_text(0), "0");
    assert_eq!(signed_text(8080), "8080");
    assert_eq!(signed_text(-1), "-1");
    assert_eq!(signed_text(-305), "-305");
    assert_eq!(signed_text(i64::MAX), "9223372036854775807");
    assert_eq!(signed_text(i64::MIN), "-9223372036854775808");
}

#[test]
fn the_settings_in_a_line_and_as_an_address() {
    let config = Config {
        host: "127.0.0.1".to_string(),
        port: 8080,
        database_url: "mongodb://localhost:27017".to_string(),
        database_name: "stampa".to_string(),
    };
    assert_eq!(config.line(), "127.0.0.1, 8080, mongodb://localhost:27017, stampa");
    assert_eq!(config.address(), "127.0.0.1:8080");
    let config = Config {
        host: String::new(),
        port: -1,
        database_url: String::new(),
        database_name: String::new(),
    };
    assert_eq!(config.line(), ", -1, , ");
    assert_eq!(config.address(), ":-1");
    let config = Config { port: i32::MIN, ..config };
    assert_eq!(config.address(), ":-2147483648");
}

#[test]
fn the_picture_of_a_user() {
    assert_eq!(AvatarClient::path("5f1d7f3e"), "./tmp/5f1d7f3e.png");
    assert_eq!(AvatarClient::path(""), "./tmp/.png");
    assert_eq!(AvatarClient::initials("alice1"), Some("al".to_string()));
    assert_eq!(AvatarClient::initials("al"), Some("al".to_string()));
    assert_eq!(AvatarClient::initials("a"), None);
    assert_eq!(AvatarClient::initials(""), None);
    // Two bytes that hold one character are text; two that cut one in half are not.
    assert_eq!(AvatarClient::initials("\u{e9}lodie"), Some("\u{e9}".to_string()));
    assert_eq!(AvatarClient::initials("a\u{e9}rien"), None);
    assert_eq!(AvatarClient::initials("\u{20ac}uro"), None);
}
