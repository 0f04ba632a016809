//! The records that the proxy writes to the socket, one per datagram.
//!
//! A datagram starts with a prefix of the log shipper, which is skipped. The
//! payload behind it has one of two forms. In the positional form it is a
//! bracketed pair, `[status,time]`; reading it never fails, and a status
//! that is no number is zero. In the named form it is a JSON object that
//! holds every field of the proxy's log, each as a string, and nothing else;
//! any other payload is refused. The time is a decimal fraction of seconds
//! and is handed out as text.

use crate::text::{decimal_u16, find_byte, parse_u16, str_eq};
use vstd::prelude::*;
use vstd::slice::{slice_subrange, slice_to_vec};
use vstd::utf8::encode_utf8;

verus! {

/// The byte between the two fields of a pair.
pub const COMMA: u8 = 0x2c;

/// The number of fields of a named record.
pub const FIELD_COUNT: usize = 122;

/// The fields of a named record.
pub const FIELDS: [&'static str; 122] = [
    "ancient_browser", "arg_", "args", "binary_remote_addr", "body_bytes_sent", "bytes_sent",
    "connection", "connection_requests", "connection_time", "connections_active",
    "connections_reading", "connections_waiting", "connections_writing", "content_length",
    "content_type", "cookie_", "date_gmt", "date_local", "document_root", "document_uri",
    "fastcgi_path_info", "fastcgi_script_name", "geoip_area_code", "geoip_city",
    "geoip_city_continent_code", "geoip_city_country_code", "geoip_city_country_code3",
    "geoip_city_country_name", "geoip_country_code", "geoip_country_code3",
    "geoip_country_name", "geoip_dma_code", "geoip_latitude", "geoip_longitude", "geoip_org",
    "geoip_postal_code", "geoip_region", "geoip_region_name", "gzip_ratio", "host", "hostname",
    "http2", "http3", "http_", "https", "invalid_referer", "is_args", "limit_conn_status",
    "limit_rate", "limit_req_status", "modern_browser", "msec", "msie", "nginx_version", "pid",
    "pipe", "proxy_add_x_forwarded_for", "proxy_host", "proxy_port", "proxy_protocol_addr",
    "proxy_protocol_port", "proxy_protocol_server_addr", "proxy_protocol_server_port",
    "proxy_protocol_tlv_", "proxy_protocol_tlv_aws_vpce_id", "proxy_protocol_tlv_azure_pel_id",
    "proxy_protocol_tlv_gcp_conn_id", "query_string", "realip_remote_addr",
    "realip_remote_port", "realpath_root", "remote_addr", "remote_port", "remote_user",
    "request", "request_body", "request_body_file", "request_completion", "request_filename",
    "request_id", "request_length", "request_method", "request_time", "request_uri", "scheme",
    "secure_link", "secure_link_expires", "sent_http_", "sent_trailer_", "server_addr",
    "server_name", "server_port", "server_protocol", "slice_range", "ssl_alpn_protocol",
    "ssl_cipher", "ssl_ciphers", "ssl_protocol", "ssl_server_name", "ssl_session_id",
    "ssl_session_reused", "status", "tcpinfo_rtt", "tcpinfo_rttvar", "tcpinfo_snd_cwnd",
    "tcpinfo_rcv_space", "uid_got", "uid_reset", "uid_set", "upstream_addr",
    "upstream_bytes_received", "upstream_bytes_sent", "upstream_cache_status",
    "upstream_connect_time", "upstream_cookie_", "upstream_header_time", "upstream_http_",
    "upstream_response_length", "upstream_response_time", "upstream_status",
    "upstream_trailer_", "uri",
];

/// The place of the status code among the fields.
pub const STATUS_AT: usize = 101;

/// The place of the upstream response time among the fields.
pub const TIME_AT: usize = 118;

/// The form of a payload.
#[derive(Clone, Copy, Debug, PartialEq, Eq, Structural)]
pub enum Form {
    /// A bracketed pair of status and time.
    Positional,
    /// A JSON object with every field of the log.
    Named,
}

/// How datagrams are laid out: what to skip, how much to read at most, and
/// the form of what follows the prefix.
#[derive(Clone, Copy, Debug, PartialEq, Eq, Structural)]
pub struct Framing {
    /// The length of the log shipper's prefix.
    pub prefix_len: usize,
    /// The size of the receive buffer.
    pub buffer_len: usize,
    pub form: Form,
}

/// Why a datagram gave no record.
#[derive(Clone, Copy, Debug, PartialEq, Eq, Structural)]
pub enum ParseError {
    /// The datagram is shorter than the prefix.
    Truncated,
    /// The payload is no object of exactly the named fields, each a string.
    Malformed,
    /// The status field of a named record is no status code.
    Status,
}

/// One record: the status code, and the upstream response time as the proxy
/// wrote it, where the record has one.
#[derive(Clone, Debug, PartialEq, Eq)]
pub struct Message {
    pub status: u16,
    pub upstream_response_time: Option<Vec<u8>>,
}

/// The model of a [`Message`].
pub struct Reading {
    pub status: u16,
    pub upstream_response_time: Option<Seq<u8>>,
}

/// The members of a JSON object: each name with its value, where the value
/// is a string.
pub type Members = Seq<(Seq<char>, Option<Seq<char>>)>;

impl View for Message {
    type V = Reading;

    open spec fn view(&self) -> Reading {
        Reading {
            status: self.status,
            upstream_response_time: match self.upstream_response_time {
                Some(text) => Some(text@),
                None => None,
            },
        }
    }
}

/// The payload without its first and last byte.
pub open spec fn inner(payload: Seq<u8>) -> Seq<u8> {
    payload.subrange(1, payload.len() - 1)
}

/// The text of the first field: what stands before the first comma, or
/// everything where there is no comma.
pub open spec fn status_text(payload: Seq<u8>) -> Seq<u8> {
    match inner(payload).index_of_first(COMMA) {
        Some(at) => inner(payload).take(at),
        None => inner(payload),
    }
}

/// The text of the second field: what stands behind the first comma.
pub open spec fn time_text(payload: Seq<u8>) -> Option<Seq<u8>> {
    if payload.len() < 3 {
        None
    } else {
        match inner(payload).index_of_first(COMMA) {
            Some(at) => Some(inner(payload).skip(at + 1)),
            None => None,
        }
    }
}

/// The status code of a payload; zero where the payload is too short or the
/// first field is no number that fits.
pub open spec fn status_of(payload: Seq<u8>) -> u16 {
    if payload.len() < 3 {
        0
    } else {
        match decimal_u16(status_text(payload)) {
            Some(code) => code,
            None => 0,
        }
    }
}

/// What a positional payload reads as.
pub open spec fn positional(payload: Seq<u8>) -> Reading {
    Reading { status: status_of(payload), upstream_response_time: time_text(payload) }
}

/// The members of the map that `serde_json` reads from a payload; `None`
/// where it reads none.
pub uninterp spec fn json_object(payload: Seq<u8>) -> Option<Members>;

/// The members of a list as their model.
pub open spec fn members_of(members: Seq<(String, Option<String>)>) -> Members {
    members.map_values(
        |m: (String, Option<String>)|
            (
                m.0@,
                match m.1 {
                    Some(text) => Some(text@),
                    None => None,
                },
            ),
    )
}

/// Whether `name` is a field of a named record.
pub open spec fn is_field(name: Seq<char>) -> bool {
    exists|j: int| 0 <= j < FIELD_COUNT && (#[trigger] FIELDS[j])@ == name
}

/// Whether a member of `members` is called `name`.
pub open spec fn has_member(members: Members, name: Seq<char>) -> bool {
    exists|i: int| 0 <= i < members.len() && (#[trigger] members[i]).0 == name
}

/// Whether the members are those of a named record: every member is a
/// field and a string, and no field is missing.
pub open spec fn is_record(members: Members) -> bool {
    &&& forall|i: int|
        0 <= i < members.len() ==> is_field((#[trigger] members[i]).0) && members[i].1 is Some
    &&& forall|j: int| 0 <= j < FIELD_COUNT ==> has_member(members, (#[trigger] FIELDS[j])@)
}

/// The place of the first member that is called `name`, from `from` on;
/// the number of members where there is none.
pub open spec fn place_of(members: Members, name: Seq<char>, from: int) -> int
    decreases members.len() - from,
{
    if from < 0 || from >= members.len() {
        members.len() as int
    } else if members[from].0 == name {
        from
    } else {
        place_of(members, name, from + 1)
    }
}

/// The text of the member that is called `name`.
pub open spec fn text_of(members: Members, name: Seq<char>) -> Seq<char> {
    members[place_of(members, name, 0)].1->0
}

/// What the members of an object read as, if the payload was one.
pub open spec fn named(members: Option<Members>) -> Result<Reading, ParseError> {
    match members {
        None => Err(ParseError::Malformed),
        Some(found) => if !is_record(found) {
            Err(ParseError::Malformed)
        } else {
            match decimal_u16(encode_utf8(text_of(found, FIELDS[STATUS_AT as int]@))) {
                Some(code) => Ok(
                    Reading {
                        status: code,
                        upstream_response_time: Some(
                            encode_utf8(text_of(found, FIELDS[TIME_AT as int]@)),
                        ),
                    },
                ),
                None => Err(ParseError::Status),
            }
        },
    }
}

/// What a payload of the given form reads as.
pub open spec fn reading(form: Form, payload: Seq<u8>) -> Result<Reading, ParseError> {
    match form {
        Form::Positional => Ok(positional(payload)),
        Form::Named => named(json_object(payload)),
    }
}

/// Whether a result is the one that the model gives.
pub open spec fn is_reading(found: Result<Message, ParseError>, wanted: Result<
    Reading,
    ParseError,
>) -> bool {
    match (found, wanted) {
        (Ok(message), Ok(reading)) => message@ == reading,
        (Err(e), Err(f)) => e == f,
        _ => false,
    }
}

/// `serde_json::from_slice` for a `Map<String, Value>`, and `Value::as_str`
/// on each value: the members of the map that is read from the payload,
/// each name with its value where that is a string; `None` where an error
/// is reported.
#[verifier::external_body]
fn read_object(payload: &[u8]) -> (r: Option<Vec<(String, Option<String>)>>)
    ensures
        match r {
            Some(members) => json_object(payload@) == Some(members_of(members@)),
            None => json_object(payload@) is None,
        },
{
    let object: Option<serde_json::Map<String, serde_json::Value>> =
        serde_json::from_slice(payload).ok();
    object.map(|o| o.into_iter().map(|(k, v)| (k, v.as_str().map(str::to_string))).collect())
}

impl Framing {
    /// The layout of datagrams that carry the two statistics fields.
    pub fn stats() -> (r: Framing)
        ensures
            r == (Framing { prefix_len: 24, buffer_len: 512, form: Form::Positional }),
    {
        Framing { prefix_len: 24, buffer_len: 512, form: Form::Positional }
    }

    /// The layout of datagrams that carry the full record.
    pub fn full_record() -> (r: Framing)
        ensures
            r == (Framing { prefix_len: 31, buffer_len: 8192, form: Form::Named }),
    {
        Framing { prefix_len: 31, buffer_len: 8192, form: Form::Named }
    }

    /// What follows the prefix in `datagram`.
    pub open spec fn payload(self, datagram: Seq<u8>) -> Result<Seq<u8>, ParseError> {
        if datagram.len() < self.prefix_len {
            Err(ParseError::Truncated)
        } else {
            Ok(datagram.skip(self.prefix_len as int))
        }
    }

    /// What a datagram reads as.
    pub open spec fn decoded(self, datagram: Seq<u8>) -> Result<Reading, ParseError> {
        match self.payload(datagram) {
            Ok(payload) => reading(self.form, payload),
            Err(e) => Err(e),
        }
    }

    /// Skips the prefix of `datagram`. A datagram that is shorter than the
    /// prefix is refused.
    pub fn payload_of<'a>(&self, datagram: &'a [u8]) -> (r: Result<&'a [u8], ParseError>)
        ensures
            match (r, self.payload(datagram@)) {
                (Ok(found), Ok(payload)) => found@ == payload,
                (Err(e), Err(f)) => e == f,
                _ => false,
            },
    {
        if datagram.len() < self.prefix_len {
            Err(ParseError::Truncated)
        } else {
            Ok(slice_subrange(datagram, self.prefix_len, datagram.len()))
        }
    }

    /// Reads the record of a datagram.
    pub fn decode(&self, datagram: &[u8]) -> (r: Result<Message, ParseError>)
        ensures
            is_reading(r, self.decoded(datagram@)),
    {
        let payload = match self.payload_of(datagram) {
            Ok(payload) => payload,
            Err(e) => {
                return Err(e);
            },
        };
        match self.form {
            Form::Positional => Ok(Message::parse(payload)),
            Form::Named => Message::parse_named(payload),
        }
    }
}

/// Whether `name` is a field of a named record.
pub fn known_field(name: &str) -> (r: bool)
    ensures
        r == is_field(name@),
{
    let mut at: usize = 0;
    while at < FIELD_COUNT
        invariant
            at <= FIELD_COUNT,
            forall|j: int| 0 <= j < at ==> (#[trigger] FIELDS[j])@ != name@,
        decreases FIELD_COUNT - at,
    {
        if str_eq(FIELDS[at], name) {
            return true;
        }
        at = at + 1;
    }
    false
}

/// The place of the first member that is called `name`.
pub fn find_member(members: &Vec<(String, Option<String>)>, name: &str) -> (r: Option<usize>)
    ensures
        match r {
            Some(at) => at < members@.len() && at == place_of(members_of(members@), name@, 0)
                && members_of(members@)[at as int].0 == name@,
            None => !has_member(members_of(members@), name@),
        },
{
    let ghost model = members_of(members@);
    let mut at: usize = 0;
    while at < members.len()
        invariant
            at <= members@.len(),
            model == members_of(members@),
            place_of(model, name@, 0) == place_of(model, name@, at as int),
            forall|i: int| 0 <= i < at ==> (#[trigger] model[i]).0 != name@,
        decreases members@.len() - at,
    {
        if str_eq(members[at].0.as_str(), name) {
            return Some(at);
        }
        at = at + 1;
    }
    None
}

/// Whether the members are those of a named record.
pub fn check_members(members: &Vec<(String, Option<String>)>) -> (r: bool)
    ensures
        r == is_record(members_of(members@)),
{
    let ghost model = members_of(members@);
    let mut at: usize = 0;
    while at < members.len()
        invariant
            at <= members@.len(),
            model == members_of(members@),
            forall|i: int| 0 <= i < at ==> is_field((#[trigger] model[i]).0) && model[i].1 is Some,
        decreases members@.len() - at,
    {
        if !known_field(members[at].0.as_str()) || members[at].1.is_none() {
            proof {
                assert(!(is_field(model[at as int].0) && model[at as int].1 is Some));
            }
            return false;
        }
        at = at + 1;
    }
    let mut field: usize = 0;
    while field < FIELD_COUNT
        invariant
            field <= FIELD_COUNT,
            model == members_of(members@),
            forall|i: int|
                0 <= i < model.len() ==> is_field((#[trigger] model[i]).0) && model[i].1 is Some,
            forall|j: int| 0 <= j < field ==> has_member(model, (#[trigger] FIELDS[j])@),
        decreases FIELD_COUNT - field,
    {
        match find_member(members, FIELDS[field]) {
            Some(found) => {
                proof {
                    assert(model[found as int].0 == FIELDS[field as int]@);
                }
            },
            None => {
                return false;
            },
        }
        field = field + 1;
    }
    true
}

impl Message {
    /// The record of a payload that is too short to hold one.
    pub fn zero() -> (r: Message)
        ensures
            r@ == (Reading { status: 0, upstream_response_time: None }),
    {
        Message { status: 0, upstream_response_time: None }
    }

    /// Reads a positional payload.
    pub fn parse(payload: &[u8]) -> (r: Message)
        ensures
            r@ == positional(payload@),
    {
        if payload.len() < 3 {
            return Message::zero();
        }
        let fields = slice_subrange(payload, 1, payload.len() - 1);
        let (status, time) = match find_byte(fields, COMMA) {
            Some(at) => (
                slice_subrange(fields, 0, at),
                Some(slice_to_vec(slice_subrange(fields, at + 1, fields.len()))),
            ),
            None => (fields, None),
        };
        let status = match parse_u16(status) {
            Some(code) => code,
            None => 0,
        };
        Message { status, upstream_response_time: time }
    }

    /// Takes the record out of the members of an object, if the payload was
    /// one. Here a status that is no number is an error.
    pub fn from_members(members: Option<Vec<(String, Option<String>)>>) -> (r: Result<
        Message,
        ParseError,
    >)
        ensures
            is_reading(
                r,
                named(
                    match members {
                        Some(found) => Some(members_of(found@)),
                        None => None,
                    },
                ),
            ),
    {
        let members = match members {
            Some(found) => found,
            None => {
                return Err(ParseError::Malformed);
            },
        };
        if !check_members(&members) {
            return Err(ParseError::Malformed);
        }
        let ghost model = members_of(members@);
        proof {
            assert(has_member(model, FIELDS[STATUS_AT as int]@));
            assert(has_member(model, FIELDS[TIME_AT as int]@));
        }
        let status = match find_member(&members, FIELDS[STATUS_AT]) {
            Some(at) => at,
            None => {
                return Err(ParseError::Malformed);
            },
        };
        let time = match find_member(&members, FIELDS[TIME_AT]) {
            Some(at) => at,
            None => {
                return Err(ParseError::Malformed);
            },
        };
        proof {
            assert(is_field(model[status as int].0) && model[status as int].1 is Some);
            assert(is_field(model[time as int].0) && model[time as int].1 is Some);
        }
        let status = match &members[status].1 {
            Some(text) => parse_u16(text.as_str().as_bytes()),
            None => None,
        };
        let time = match &members[time].1 {
            Some(text) => slice_to_vec(text.as_str().as_bytes()),
            None => Vec::new(),
        };
        match status {
            Some(code) => Ok(Message { status: code, upstream_response_time: Some(time) }),
            None => Err(ParseError::Status),
        }
    }

    /// Reads a named payload.
    pub fn parse_named(payload: &[u8]) -> (r: Result<Message, ParseError>)
        ensures
            is_reading(r, named(json_object(payload@))),
    {
        Message::from_members(read_object(payload))
    }
}

} // verus!
