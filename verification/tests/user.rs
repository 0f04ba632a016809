use heimdall::config::Config;
use heimdall::user::{
    authorization_value, cookie_value_of, find_cookie, tokenizer, Admin, Authorization, User,
    NAME_MAX, TOKEN_LEN,
};

fn claim(value: &str) -> (char, i64, String) {
    match Authorization::try_from(value).unwrap() {
        Authorization::User { id, token } => ('u', id, token),
        Authorization::Site { id, token } => ('s', id, token),
    }
}

fn refusal(value: &str) -> (u16, String, String) {
    let e = Authorization::try_from(value).unwrap_err();
    (e.status(), e.subject().to_string(), e.content().unwrap().to_string())
}

#[test]
fn user_and_site_claims() {
    assert_eq!(claim("user 12:abc"), ('u', 12, "abc".to_string()));
    assert_eq!(claim("site 7:tok"), ('s', 7, "tok".to_string()));
    assert_eq!(claim("user -3:"), ('u', -3, "".to_string()));
    assert_eq!(claim("user +3:a:b:c"), ('u', 3, "a:b:c".to_string()));
    assert_eq!(claim("site 1: spaced token"), ('s', 1, " spaced token".to_string()));
    assert_eq!(claim("user 5:tökén"), ('u', 5, "tökén".to_string()));
}

#[test]
fn key_is_read_in_any_case() {
    assert_eq!(claim("USER 12:abc"), ('u', 12, "abc".to_string()));
    assert_eq!(claim("Site 12:abc"), ('s', 12, "abc".to_string()));
    assert_eq!(claim("sItE 12:ABC"), ('s', 12, "ABC".to_string()));
}

#[test]
fn refusals() {
    let forbidden = |detail: &str| (403, "forbidden".to_string(), detail.to_string());
    assert_eq!(refusal("user"), forbidden("invalid authorization value"));
    assert_eq!(refusal("site"), forbidden("invalid authorization value"));
    assert_eq!(refusal("user 12"), forbidden("invalid authorization token"));
    assert_eq!(refusal("user "), forbidden("invalid authorization token"));
    assert_eq!(refusal("bearer 12:abc"), forbidden("unknown key in auth: bearer"));
    assert_eq!(refusal("BEARER 12:abc"), forbidden("unknown key in auth: bearer"));
    assert_eq!(refusal(""), forbidden("unknown key in auth: "));
    assert_eq!(refusal(" user 1:a"), forbidden("unknown key in auth: "));
    assert_eq!(refusal("ÜSER 1:a"), forbidden("unknown key in auth: üser"));
    assert_eq!(refusal("user1:a"), forbidden("unknown key in auth: user1:a"));
}

#[test]
fn number_that_is_none() {
    let parse = |detail: &str| (500, "ParseIntError".to_string(), detail.to_string());
    assert_eq!(refusal("user x:abc"), parse("invalid digit found in string"));
    assert_eq!(refusal("user :abc"), parse("cannot parse integer from empty string"));
    assert_eq!(refusal("user  1:abc"), parse("invalid digit found in string"));
    assert_eq!(
        refusal("site 9223372036854775808:abc"),
        parse("number too large to fit in target type")
    );
    assert_eq!(
        refusal("site -9223372036854775809:abc"),
        parse("number too small to fit in target type")
    );
}

#[test]
fn parts_after_the_key() {
    let ok = Authorization::from_parts("user", Some("4:t")).unwrap();
    assert_eq!(ok.id(), 4);
    assert_eq!(ok.site(), None);
    let ok = Authorization::from_parts("site", Some("4:t")).unwrap();
    assert_eq!(ok.site(), Some((4, "t")));
    let e = Authorization::from_parts("User", Some("4:t")).unwrap_err();
    assert_eq!(e.content(), Some("unknown key in auth: User"));
    let e = Authorization::from_parts("user", None).unwrap_err();
    assert_eq!(e.content(), Some("invalid authorization value"));
}

#[test]
fn tokenizer_wants_all_its_parts() {
    assert_eq!(tokenizer::<2>(Some("a:b")).unwrap(), ["a", "b"]);
    assert_eq!(tokenizer::<2>(Some("a:b:c")).unwrap(), ["a", "b:c"]);
    assert_eq!(tokenizer::<2>(Some(":")).unwrap(), ["", ""]);
    assert_eq!(tokenizer::<3>(Some("a:b:c:d")).unwrap(), ["a", "b", "c:d"]);
    assert_eq!(tokenizer::<1>(Some("a:b")).unwrap(), ["a:b"]);
    assert_eq!(tokenizer::<1>(Some("")).unwrap(), [""]);
    assert!(tokenizer::<0>(Some("a:b")).unwrap().is_empty());
    let e = tokenizer::<2>(Some("ab")).unwrap_err();
    assert_eq!((e.status(), e.content()), (403, Some("invalid authorization token")));
    let e = tokenizer::<3>(Some("a:b")).unwrap_err();
    assert_eq!(e.content(), Some("invalid authorization token"));
    let e = tokenizer::<2>(None).unwrap_err();
    assert_eq!((e.status(), e.content()), (403, Some("invalid authorization value")));
    let e = tokenizer::<0>(None).unwrap_err();
    assert_eq!(e.content(), Some("invalid authorization value"));
}

#[test]
fn cookies() {
    assert_eq!(cookie_value_of(b"authorization=user 1:x"), Some("user 1:x"));
    assert_eq!(cookie_value_of(b" Authorization =user 1:x"), Some("user 1:x"));
    assert_eq!(cookie_value_of(b"\tAUTHORIZATION\n=a=b"), Some("a=b"));
    assert_eq!(cookie_value_of(b"authorization="), Some(""));
    assert_eq!(cookie_value_of(b"authorization"), None);
    assert_eq!(cookie_value_of(b"auth=user 1:x"), None);
    assert_eq!(cookie_value_of(b"authorization=\xff"), None);
    assert_eq!(cookie_value_of(b"\xffauthorization=x"), None);
    assert_eq!(cookie_value_of(b""), None);
    assert_eq!(cookie_value_of(b"="), None);
}

#[test]
fn first_cookie_of_the_name_wins() {
    assert_eq!(
        find_cookie(b"a=b; authorization=site 2:y; authorization=user 1:x"),
        Some("site 2:y")
    );
    assert_eq!(find_cookie(b"a=b;c=d"), None);
    assert_eq!(find_cookie(b""), None);
    assert_eq!(find_cookie(b";;authorization=v;"), Some("v"));
    assert_eq!(find_cookie(b"authorization;authorization=v"), Some("v"));
    assert_eq!(find_cookie(b"authorization=a;b"), Some("a"));
}

#[test]
fn header_goes_before_the_cookies() {
    let cookies = vec![b"theme=dark".to_vec(), b"x=1; Authorization=site 8:cookie".to_vec()];
    let from_header = Authorization::from_request(Some("user 3:header"), &cookies).unwrap();
    assert_eq!(from_header.id(), 3);
    assert!(matches!(from_header, Authorization::User { .. }));
    let from_cookie = Authorization::from_request(None, &cookies).unwrap();
    assert_eq!(from_cookie.site(), Some((8, "cookie")));
    let e = Authorization::from_request(Some("nonsense"), &cookies).unwrap_err();
    assert_eq!(e.content(), Some("unknown key in auth: nonsense"));
    let e = Authorization::from_request(None, &vec![b"theme=dark".to_vec()]).unwrap_err();
    assert_eq!((e.status(), e.content()), (403, Some("no authorization")));
    let e = Authorization::from_request(None, &Vec::new()).unwrap_err();
    assert_eq!(e.content(), Some("no authorization"));
    let bad = vec![b"authorization=user x:1".to_vec(), b"authorization=user 1:x".to_vec()];
    let e = Authorization::from_request(None, &bad).unwrap_err();
    assert_eq!(e.subject(), "ParseIntError");
}

#[test]
fn only_a_user_claim_names_a_user() {
    let user = Authorization::User { id: 4, token: "t".to_string() };
    assert_eq!(user.user().unwrap(), (4, "t".to_string()));
    let site = Authorization::Site { id: 4, token: "t".to_string() };
    let e = site.user().unwrap_err();
    assert_eq!((e.status(), e.content()), (403, Some("invalid auth")));
}

#[test]
fn only_an_administrator_passes() {
    let mut user = User::new("09123456789".to_string(), "ann".to_string());
    assert_eq!(user.id, 0);
    assert_eq!(user.token, None);
    assert!(!user.admin);
    let e = Admin::new(user.clone()).unwrap_err();
    assert_eq!((e.status(), e.subject(), e.content()), (403, "forbidden", Some("forbidden")));
    user.admin = true;
    let admin = Admin::new(user).unwrap();
    assert_eq!(admin.user().name, "ann");
    assert_eq!(admin.0.phone, "09123456789");
}

#[test]
fn names_are_cut() {
    assert_eq!(NAME_MAX, 255);
    let mut user = User::new("09123456789".to_string(), "ann".to_string());
    user.rename(&"n".repeat(300));
    assert_eq!(user.name, "n".repeat(255));
    user.rename(&"é".repeat(200));
    assert_eq!(user.name, "é".repeat(127));
    user.rename("bob");
    assert_eq!(user.name, "bob");
    assert_eq!(user.phone, "09123456789");
}

#[test]
fn user_tokens() {
    assert_eq!(TOKEN_LEN, 69);
    let token = User::fresh_token();
    assert_eq!(token.len(), 69);
    assert!(token.chars().all(|c| Config::TOKEN_ABC.contains(c)));
}

#[test]
fn value_of_a_user_is_read_back() {
    assert_eq!(authorization_value(12, "abc"), "user 12:abc");
    assert_eq!(authorization_value(-7, ""), "user -7:");
    for (id, token) in [(0, "t"), (i64::MAX, "a:b c"), (i64::MIN, "tökén"), (42, "")] {
        let value = authorization_value(id, token);
        assert_eq!(claim(&value), ('u', id, token.to_string()));
    }
}
