use heimdall::config::Config;
use heimdall::utils::{get_random_string, is_ascii_digits, now, phone_validator, spell, CutOff};

#[test]
fn phones() {
    assert!(phone_validator("09123456789").is_ok());
    assert!(phone_validator("09000000000").is_ok());
    for phone in ["", "0912345678", "091234567890", "19123456789", "00123456789", "+9123456789"] {
        let e = phone_validator(phone).unwrap_err();
        assert_eq!(e.status(), 400);
        assert_eq!(e.subject(), "bad request");
        assert_eq!(e.content(), Some("invalid phone number"), "{phone:?}");
    }
    for phone in ["0912345678a", "09 23456789", "09-23456789", "091234567é"] {
        let e = phone_validator(phone).unwrap_err();
        assert_eq!(e.status(), 400);
        assert_eq!(e.content(), Some("phone number must be all digits"), "{phone:?}");
    }
    assert_eq!(phone_validator("09١٢٣٤").unwrap_err().content(), Some("invalid phone number"));
}

#[test]
fn digits() {
    assert!(is_ascii_digits("0123456789"));
    assert!(is_ascii_digits(""));
    assert!(!is_ascii_digits("12a"));
    assert!(!is_ascii_digits("١٢"));
    assert!(!is_ascii_digits("1/"));
    assert!(!is_ascii_digits("1:"));
}

#[test]
fn cutting_at_a_character_boundary() {
    let mut text = "héllo".to_string();
    text.cut_off(2);
    assert_eq!(text, "h");
    let mut text = "héllo".to_string();
    text.cut_off(3);
    assert_eq!(text, "hé");
    let mut text = "héllo".to_string();
    text.cut_off(0);
    assert_eq!(text, "");
    let mut text = "héllo".to_string();
    text.cut_off(6);
    assert_eq!(text, "héllo");
    let mut text = "héllo".to_string();
    text.cut_off(usize::MAX);
    assert_eq!(text, "héllo");
    let mut text = "日本語".to_string();
    text.cut_off(8);
    assert_eq!(text, "日本");
    let mut text = "日本語".to_string();
    text.cut_off(2);
    assert_eq!(text, "");
    let mut text = "a😀b".to_string();
    text.cut_off(4);
    assert_eq!(text, "a");
    let mut text = "a😀b".to_string();
    text.cut_off(5);
    assert_eq!(text, "a😀");
}

#[test]
fn cutting_an_optional_text() {
    let mut text = Some("abcdef".to_string());
    text.cut_off(3);
    assert_eq!(text.as_deref(), Some("abc"));
    let mut none: Option<String> = None;
    none.cut_off(3);
    assert_eq!(none, None);
}

#[test]
fn spelling() {
    assert_eq!(spell(b"abc", &[2, 0, 1, 1]), "cabb");
    assert_eq!(spell(b"abc", &[]), "");
    assert_eq!(spell(&[0x41, 0xe9], &[1, 0]), "éA");
}

#[test]
fn random_strings_are_drawn_from_the_alphabet() {
    let text = get_random_string(Config::TOKEN_ABC.as_bytes(), 69);
    assert_eq!(text.chars().count(), 69);
    assert!(text.chars().all(|c| Config::TOKEN_ABC.contains(c)));
    let code = get_random_string(Config::CODE_ABC.as_bytes(), 5);
    assert_eq!(code.len(), 5);
    assert!(code.chars().all(|c| c.is_ascii_digit()));
    assert_eq!(get_random_string(b"x", 4), "xxxx");
    assert_eq!(get_random_string(b"", 0), "");
    assert_eq!(get_random_string(b"abc", 0), "");
    let many = get_random_string(b"ab", 200);
    assert!(many.contains('a') && many.contains('b'));
}

#[test]
fn clock_is_past_the_year_2020() {
    let first = now();
    let second = now();
    assert!(first > 1_577_836_800);
    assert!(second >= first);
}
