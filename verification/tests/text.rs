use robius_keychain::sys::read_back;
use robius_keychain::text;
use robius_keychain::text::{decode, same_optional_text, same_text};
use robius_keychain::Error;

#[test]
fn same_text_compares_contents() {
    assert!(same_text("", ""));
    assert!(same_text("alice", "alice"));
    assert!(!same_text("alice", "alicf"));
    assert!(!same_text("alice", "alic"));
    assert!(!same_text("alic", "alice"));
    assert!(same_text("gr\u{fc}n\u{1f}", "gr\u{fc}n\u{1f}"));
    assert!(!same_text("gr\u{fc}n", "grun"));
}

#[test]
fn same_optional_text_tells_none_from_empty() {
    assert!(same_optional_text(None, None));
    assert!(same_optional_text(Some("a"), Some("a")));
    assert!(!same_optional_text(Some(""), None));
    assert!(!same_optional_text(None, Some("a")));
    assert!(!same_optional_text(Some("a"), Some("b")));
}

#[test]
fn concat_joins_in_order() {
    assert_eq!(text::concat("alice", "\u{1f}"), "alice\u{1f}");
    assert_eq!(text::concat("", "svc"), "svc");
    assert_eq!(text::concat("svc", ""), "svc");
}

#[test]
fn decode_accepts_utf8() {
    assert_eq!(decode(b"secret1".to_vec()), Ok("secret1".to_owned()));
    assert_eq!(decode(vec![0xe2, 0x82, 0xac]), Ok("\u{20ac}".to_owned()));
    assert_eq!(decode(Vec::new()), Ok(String::new()));
}

#[test]
fn decode_refuses_what_is_not_utf8() {
    assert!(decode(vec![0xff]).is_err());
    assert!(decode(vec![0xe2, 0x82]).is_err());
    assert!(decode(vec![0xed, 0xa0, 0x80]).is_err());
}

#[test]
fn read_back_gives_the_secret_or_the_encoding_error() {
    assert_eq!(read_back::<&'static str>(b"hunter2".to_vec()), Ok(Some("hunter2".to_owned())));
    match read_back::<&'static str>(vec![b'h', 0x80]) {
        Err(Error::Utf8(cause)) => assert_eq!(cause.utf8_error().valid_up_to(), 1),
        other => panic!("unexpected result {:?}", other),
    }
}
