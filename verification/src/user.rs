//! Who a request speaks for.
//!
//! A request names a user or a site as `user <id>:<token>` or
//! `site <id>:<token>`, in its `authorization` header or in a cookie of that
//! name.

use crate::config::{lemma_alphabets, Config};
use crate::error::{AppErr, Reply, Source};
use crate::text::{
    are_pieces, decimal_bytes, decimal_i64, decimal_text, digits_of, find_byte, format_i64,
    from_utf8, lemma_decimal_round_trip, lemma_digits_of, lowercase, parse_i64, pieces, split_n,
    split_once, str_eq, to_lowercase, trim, trimmed,
};
use crate::utils::{cut, get_random_string, spelled, CutOff};
use vstd::prelude::*;
use vstd::slice::slice_subrange;
use vstd::string::{StringExecFns, StringSliceAdditionalSpecFns};
use vstd::utf8::{
    decode_utf8, decode_utf8_encode_utf8, encode_utf8, encode_utf8_decode_utf8, valid_utf8,
};

verus! {

/// The byte between the key and what follows it.
pub const SPACE: u8 = 0x20;

/// The byte between the number and the token.
pub const COLON: u8 = 0x3a;

/// The byte between two cookies.
pub const SEMICOLON: u8 = 0x3b;

/// The byte between the name and the value of a cookie.
pub const EQUALS: u8 = 0x3d;

/// What a request claims to be.
#[derive(Clone, Debug)]
pub enum Authorization {
    User { id: i64, token: String },
    Site { id: i64, token: String },
}

/// The model of an [`Authorization`].
pub enum Claim {
    User { id: i64, token: Seq<char> },
    Site { id: i64, token: Seq<char> },
}

/// A user of the collector.
#[derive(Clone, Debug)]
pub struct User {
    pub id: i64,
    pub phone: String,
    pub name: String,
    pub token: Option<String>,
    pub admin: bool,
}

/// A user who is an administrator.
#[derive(Clone, Debug)]
pub struct Admin(pub User);

impl View for Authorization {
    type V = Claim;

    open spec fn view(&self) -> Claim {
        match self {
            Authorization::User { id, token } => Claim::User { id: *id, token: token@ },
            Authorization::Site { id, token } => Claim::Site { id: *id, token: token@ },
        }
    }
}

/// Whether a result is the one that the model gives.
pub open spec fn is_claim(found: Result<Authorization, AppErr>, wanted: Result<
    Claim,
    Reply,
>) -> bool {
    match (found, wanted) {
        (Ok(a), Ok(claim)) => a@ == claim,
        (Err(e), Err(reply)) => e@ == reply,
        _ => false,
    }
}

/// The bytes of a text, where there is one.
pub open spec fn bytes_of(text: Option<&str>) -> Option<Seq<u8>> {
    match text {
        Some(t) => Some(t.spec_bytes()),
        None => None,
    }
}

/// The claim that a key in lower case and what follows it make: the key
/// says whether a user or a site is meant, the rest is the number and the
/// token with a colon between them.
pub open spec fn claim_of(key: Seq<char>, rest: Option<Seq<u8>>) -> Result<Claim, Reply> {
    if key == "user"@ || key == "site"@ {
        match rest {
            None => Err(Reply::forbidden("invalid authorization value"@)),
            Some(bytes) => match bytes.index_of_first(COLON) {
                None => Err(Reply::forbidden("invalid authorization token"@)),
                Some(at) => match decimal_i64(bytes.take(at)) {
                    Err(e) => Err(Reply::wrapped(Source::ParseInt, e.message())),
                    Ok(id) => Ok(
                        if key == "user"@ {
                            Claim::User { id, token: decode_utf8(bytes.skip(at + 1)) }
                        } else {
                            Claim::Site { id, token: decode_utf8(bytes.skip(at + 1)) }
                        },
                    ),
                },
            },
        }
    } else {
        Err(Reply::forbidden("unknown key in auth: "@ + key))
    }
}

/// The claim that an authorization value of these bytes makes: the key is
/// what stands before the first space, in any case of letters.
pub open spec fn claim_in(value: Seq<u8>) -> Result<Claim, Reply> {
    match value.index_of_first(SPACE) {
        Some(at) => claim_of(lowercase(decode_utf8(value.take(at))), Some(value.skip(at + 1))),
        None => claim_of(lowercase(decode_utf8(value)), None),
    }
}

/// The value of a cookie, if the cookie is named `authorization`: name and
/// value stand on the two sides of the first `=`, both are UTF-8, and the
/// name is judged without the white space around it and in any case of
/// letters.
pub open spec fn cookie_value(cookie: Seq<u8>) -> Option<Seq<u8>> {
    match cookie.index_of_first(EQUALS) {
        Some(at) => if valid_utf8(cookie.take(at)) && valid_utf8(cookie.skip(at + 1)) && lowercase(
            trimmed(decode_utf8(cookie.take(at))),
        ) == "authorization"@ {
            Some(cookie.skip(at + 1))
        } else {
            None
        },
        None => None,
    }
}

/// The value of the first cookie named `authorization` in a cookie header,
/// whose cookies stand between semicolons.
pub open spec fn cookie_in(header: Seq<u8>) -> Option<Seq<u8>>
    decreases header.len(),
    via cookie_in_decreases
{
    match header.index_of_first(SEMICOLON) {
        Some(at) => match cookie_value(header.take(at)) {
            Some(value) => Some(value),
            None => cookie_in(header.skip(at + 1)),
        },
        None => cookie_value(header),
    }
}

#[via_fn]
proof fn cookie_in_decreases(header: Seq<u8>) {
    header.index_of_first_ensures(SEMICOLON);
}

/// The value of the first cookie named `authorization` in the cookie
/// headers from `from` on.
pub open spec fn cookie_among(headers: Seq<Vec<u8>>, from: int) -> Option<Seq<u8>>
    decreases headers.len() - from,
{
    if from < 0 || from >= headers.len() {
        None
    } else {
        match cookie_in(headers[from]@) {
            Some(value) => Some(value),
            None => cookie_among(headers, from + 1),
        }
    }
}

/// The claim of a request with this `authorization` header and these cookie
/// headers. The header goes before the cookies.
pub open spec fn claim_from(authorization: Option<&str>, cookies: Seq<Vec<u8>>) -> Result<
    Claim,
    Reply,
> {
    match authorization {
        Some(value) => claim_in(value.spec_bytes()),
        None => match cookie_among(cookies, 0) {
            Some(bytes) => claim_in(bytes),
            None => Err(Reply::forbidden("no authorization"@)),
        },
    }
}

/// The value with which a user with a token names themselves.
pub open spec fn user_value(id: i64, token: Seq<char>) -> Seq<char> {
    "user "@ + decimal_text(id as int) + ":"@ + token
}

/// The number and the token that are written behind the key `user` are read
/// back as the claim to be that user.
pub proof fn lemma_user_read_back(id: i64, token: Seq<char>)
    ensures
        claim_of("user"@, Some(decimal_bytes(id as int) + seq![COLON] + encode_utf8(token)))
            == Ok::<Claim, Reply>(Claim::User { id, token }),
{
    let number = decimal_bytes(id as int);
    let bytes = number + seq![COLON] + encode_utf8(token);
    let size: nat = if id < 0 {
        (-id) as nat
    } else {
        id as nat
    };
    lemma_digits_of(size);
    lemma_decimal_round_trip(id);
    encode_utf8_decode_utf8(token);
    assert(bytes[number.len() as int] == COLON);
    assert forall|j: int| 0 <= j < number.len() implies bytes[j] != COLON by {
        if id < 0 && j > 0 {
            assert(number[j] == digits_of(size)[j - 1]);
        }
    }
    bytes.index_of_first_ensures(COLON);
    let at = bytes.index_of_first(COLON)->0;
    assert(at == number.len());
    assert(bytes.take(at) =~= number);
    assert(bytes.skip(at + 1) =~= encode_utf8(token));
}

/// The value with which a user with a token names themselves, to be kept by
/// the user's browser.
pub fn authorization_value(id: i64, token: &str) -> (r: String)
    ensures
        r@ == user_value(id, token@),
{
    let mut value = String::from_str("user ");
    let number = format_i64(id);
    value.append(number.as_str());
    value.append(":");
    value.append(token);
    value
}

/// `TryFrom<Vec<T>>` for arrays: the vector as an array, if it has the
/// array's length.
#[verifier::external_body]
fn into_array<'a, const N: usize>(parts: Vec<&'a str>) -> (r: Option<[&'a str; N]>)
    ensures
        r is Some <==> parts@.len() == N,
        r matches Some(array) ==> array@ == parts@,
{
    parts.try_into().ok()
}

/// Splits a value at its colons into exactly `N` parts; the last part holds
/// whatever is left. A value with fewer parts is refused, and so is a
/// missing one.
pub fn tokenizer<'a, const N: usize>(value: Option<&'a str>) -> (r: Result<[&'a str; N], AppErr>)
    ensures
        match value {
            None => r matches Err(e) && e@ == Reply::forbidden("invalid authorization value"@),
            Some(text) => if pieces(text.spec_bytes(), N as nat, COLON).len() == N {
                r matches Ok(parts) && are_pieces(
                    parts@,
                    pieces(text.spec_bytes(), N as nat, COLON),
                )
            } else {
                r matches Err(e) && e@ == Reply::forbidden("invalid authorization token"@)
            },
        },
{
    match value {
        None => Err(AppErr::forbidden("invalid authorization value")),
        Some(text) => match into_array(split_n(text, N, COLON)) {
            Some(parts) => Ok(parts),
            None => Err(AppErr::forbidden("invalid authorization token")),
        },
    }
}

/// The value of a cookie, if the cookie is named `authorization`.
pub fn cookie_value_of<'a>(cookie: &'a [u8]) -> (r: Option<&'a str>)
    ensures
        bytes_of(r) == cookie_value(cookie@),
{
    match find_byte(cookie, EQUALS) {
        Some(at) => {
            let end = cookie.len();
            let name = slice_subrange(cookie, 0, at);
            let value = slice_subrange(cookie, at + 1, end);
            proof {
                if valid_utf8(value@) {
                    decode_utf8_encode_utf8(value@);
                }
            }
            match (from_utf8(name), from_utf8(value)) {
                (Some(name), Some(value)) => {
                    let name = to_lowercase(trim(name));
                    if str_eq(name.as_str(), "authorization") {
                        Some(value)
                    } else {
                        None
                    }
                },
                _ => None,
            }
        },
        None => None,
    }
}

/// The value of the first cookie named `authorization` in a cookie header.
pub fn find_cookie<'a>(header: &'a [u8]) -> (r: Option<&'a str>)
    ensures
        bytes_of(r) == cookie_in(header@),
{
    let mut rest = header;
    loop
        invariant
            cookie_in(header@) == cookie_in(rest@),
        decreases rest@.len(),
    {
        match find_byte(rest, SEMICOLON) {
            Some(at) => {
                let cookie = slice_subrange(rest, 0, at);
                match cookie_value_of(cookie) {
                    Some(value) => {
                        return Some(value);
                    },
                    None => {
                        let end = rest.len();
                        rest = slice_subrange(rest, at + 1, end);
                    },
                }
            },
            None => {
                return cookie_value_of(rest);
            },
        }
    }
}

/// The number of characters of a user's token.
pub const TOKEN_LEN: usize = 69;

/// The longest name of a user, in bytes.
pub const NAME_MAX: usize = 255;

/// Whether a text can be a user's token: `TOKEN_LEN` characters of the
/// alphabet of tokens.
pub open spec fn is_user_token(token: Seq<char>) -> bool {
    exists|picks: Seq<usize>|
        {
            &&& picks.len() == TOKEN_LEN
            &&& forall|i: int|
                0 <= i < TOKEN_LEN ==> (#[trigger] picks[i]) < Config::TOKEN_ABC.spec_bytes().len()
            &&& token == spelled(Config::TOKEN_ABC.spec_bytes(), picks)
        }
}

impl User {
    /// A new token for a user.
    pub fn fresh_token() -> (r: String)
        ensures
            is_user_token(r@),
    {
        proof {
            lemma_alphabets();
        }
        get_random_string(Config::TOKEN_ABC.as_bytes(), TOKEN_LEN)
    }

    /// Gives the user the name `name`, cut to `NAME_MAX` bytes.
    pub fn rename(&mut self, name: &str)
        ensures
            final(self).name@ == cut(name@, NAME_MAX as int),
            *final(self) == (User { name: final(self).name, ..*old(self) }),
    {
        let mut name = name.to_string();
        name.cut_off(NAME_MAX);
        self.name = name;
    }

    /// A user who has not logged in yet.
    pub fn new(phone: String, name: String) -> (r: User)
        ensures
            r == (User { id: 0, phone, name, token: None, admin: false }),
    {
        User { id: 0, phone, name, token: None, admin: false }
    }
}

impl Admin {
    /// Only an administrator passes.
    pub fn new(user: User) -> (r: Result<Admin, AppErr>)
        ensures
            match r {
                Ok(admin) => user.admin && admin.0 == user,
                Err(e) => !user.admin && e@ == Reply::forbidden("forbidden"@),
            },
    {
        if !user.admin {
            return Err(AppErr::forbidden("forbidden"));
        }
        Ok(Admin(user))
    }

    /// The user behind the administrator.
    pub fn user(&self) -> (r: &User)
        ensures
            *r == self.0,
    {
        &self.0
    }
}

impl Authorization {
    /// Reads the number and the token that follow the key `key`, which is
    /// in lower case.
    pub fn from_parts(key: &str, rest: Option<&str>) -> (r: Result<Authorization, AppErr>)
        ensures
            is_claim(r, claim_of(key@, bytes_of(rest))),
    {
        let user = str_eq(key, "user");
        if !user && !str_eq(key, "site") {
            let mut detail = String::from_str("unknown key in auth: ");
            detail.append(key);
            return Err(AppErr::forbidden(detail.as_str()));
        }
        proof {
            if let Some(text) = rest {
                reveal_with_fuel(pieces, 3);
                text.spec_bytes().index_of_first_ensures(COLON);
            }
        }
        let parts = match tokenizer::<2>(rest) {
            Ok(parts) => parts,
            Err(e) => {
                return Err(e);
            },
        };
        let id = parts[0];
        let token = parts[1];
        proof {
            encode_utf8_decode_utf8(token@);
        }
        match parse_i64(id.as_bytes()) {
            Ok(id) => if user {
                Ok(Authorization::User { id, token: token.to_string() })
            } else {
                Ok(Authorization::Site { id, token: token.to_string() })
            },
            Err(e) => Err(AppErr::from_int_error(e)),
        }
    }

    /// Reads an authorization value.
    pub fn try_from(value: &str) -> (r: Result<Authorization, AppErr>)
        ensures
            is_claim(r, claim_in(value.spec_bytes())),
    {
        proof {
            encode_utf8_decode_utf8(value@);
        }
        match split_once(value, SPACE) {
            Some((key, rest)) => {
                proof {
                    encode_utf8_decode_utf8(key@);
                }
                let key = to_lowercase(key);
                Authorization::from_parts(key.as_str(), Some(rest))
            },
            None => {
                let key = to_lowercase(value);
                Authorization::from_parts(key.as_str(), None)
            },
        }
    }

    /// Reads what a request claims to be from its `authorization` header,
    /// or else from the first cookie of that name in its cookie headers.
    pub fn from_request(authorization: Option<&str>, cookies: &Vec<Vec<u8>>) -> (r: Result<
        Authorization,
        AppErr,
    >)
        ensures
            is_claim(r, claim_from(authorization, cookies@)),
    {
        if let Some(value) = authorization {
            return Authorization::try_from(value);
        }
        let mut at: usize = 0;
        while at < cookies.len()
            invariant
                authorization is None,
                at <= cookies@.len(),
                cookie_among(cookies@, 0) == cookie_among(cookies@, at as int),
            decreases cookies@.len() - at,
        {
            if let Some(value) = find_cookie(cookies[at].as_slice()) {
                return Authorization::try_from(value);
            }
            at = at + 1;
        }
        Err(AppErr::forbidden("no authorization"))
    }

    /// The number and the token of the user that is claimed. A claim to be
    /// a site is refused.
    pub fn user(self) -> (r: Result<(i64, String), AppErr>)
        ensures
            match self@ {
                Claim::User { id, token } => r matches Ok(pair) && pair.0 == id && pair.1@
                    == token,
                Claim::Site { .. } => r matches Err(e) && e@ == Reply::forbidden("invalid auth"@),
            },
    {
        match self {
            Authorization::User { id, token } => Ok((id, token)),
            Authorization::Site { .. } => Err(AppErr::forbidden("invalid auth")),
        }
    }

    /// The number and the token of the site that is claimed, if the claim
    /// is to be a site.
    pub fn site(&self) -> (r: Option<(i64, &str)>)
        ensures
            match self@ {
                Claim::Site { id, token } => r matches Some(pair) && pair.0 == id && pair.1@
                    == token,
                Claim::User { .. } => r is None,
            },
    {
        match self {
            Authorization::Site { id, token } => Some((*id, token.as_str())),
            Authorization::User { .. } => None,
        }
    }

    /// The number of the user or site that is claimed.
    pub fn id(&self) -> (r: i64)
        ensures
            r == match self@ {
                Claim::User { id, .. } => id,
                Claim::Site { id, .. } => id,
            },
    {
        match self {
            Authorization::User { id, .. } => *id,
            Authorization::Site { id, .. } => *id,
        }
    }
}

} // verus!
