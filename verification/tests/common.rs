use heimdall::common::{JsonStr, ListInput, PAGE_SIZE};
use heimdall::config::Config;

#[test]
fn pages() {
    assert_eq!(PAGE_SIZE, 32);
    assert_eq!(ListInput { page: 0 }.offset(), Some(0));
    assert_eq!(ListInput { page: 3 }.offset(), Some(96));
    assert_eq!(ListInput { page: 134_217_727 }.offset(), Some(4_294_967_264));
    assert_eq!(ListInput { page: 134_217_728 }.offset(), None);
    assert_eq!(ListInput { page: u32::MAX }.offset(), None);
}

#[test]
fn json_text_holds_its_value() {
    let held = JsonStr(vec![1, 2, 3]);
    assert_eq!(held.get(), &vec![1, 2, 3]);
    assert_eq!(held.0.len(), 3);
    assert_eq!(held.into_inner(), vec![1, 2, 3]);
}

#[test]
fn alphabets() {
    assert_eq!(Config::RECORD_DIR, "record");
    assert_eq!(Config::CODE_ABC, "0123456789");
    assert_eq!(Config::TOKEN_ABC.len(), 82);
    assert_eq!(Config::SITE_TOKEN_ABC.len(), 58);
    assert_eq!(Config::SITE_NAME_ABC.len(), 65);
    assert!(!Config::SITE_TOKEN_ABC.contains('I'));
    assert!(!Config::SITE_TOKEN_ABC.contains('L'));
    assert!(Config::SITE_NAME_ABC.ends_with("-_."));
    assert!(Config::TOKEN_ABC.starts_with("!@#$%^&*_+abc"));
}
