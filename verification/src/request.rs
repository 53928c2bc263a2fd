//! What the relay reads out of a WebSocket upgrade request.

use crate::security;
use crate::security::parse_original_client_ip;
use tokio_tungstenite::tungstenite::http::{HeaderMap, HeaderValue};
use vstd::prelude::*;

verus! {

/// The header fields of a request, from the crate `http`.
#[verifier::external_type_specification]
#[verifier::external_body]
#[verifier::reject_recursive_types(T)]
pub struct ExHeaderMap<T>(HeaderMap<T>);

/// The value of a header field, from the crate `http`.
#[verifier::external_type_specification]
#[verifier::external_body]
pub struct ExHeaderValue(HeaderValue);

/// The bytes of a header value.
pub uninterp spec fn value_bytes(value: HeaderValue) -> Seq<u8>;

/// The bytes of the first value of each header field, by the field's name in
/// lower case.
pub uninterp spec fn first_values(headers: HeaderMap<HeaderValue>) -> Map<Seq<char>, Seq<u8>>;

/// A header name of lower-case letters and hyphens, as it stands in a header map.
pub open spec fn is_lower_case_name(name: Seq<char>) -> bool {
    forall|i: int| 0 <= i < name.len() ==> 'a' <= #[trigger] name[i] <= 'z' || name[i] == '-'
}

/// Calls `http::HeaderMap::get`: the first value of the field `name`, or nothing
/// where there is no such field.
#[verifier::external_body]
fn first_value<'a>(headers: &'a HeaderMap<HeaderValue>, name: &str) -> (value: Option<
    &'a HeaderValue,
>)
    requires
        is_lower_case_name(name@),
    ensures
        match value {
            Some(value) => first_values(*headers).contains_key(name@) && value_bytes(*value)
                == first_values(*headers)[name@],
            None => !first_values(*headers).contains_key(name@),
        },
{
    headers.get(name)
}

/// The text of a header value of visible ASCII characters, blanks and tabs; a
/// value with any other byte has none.
pub open spec fn visible_text(bytes: Seq<u8>) -> Option<Seq<char>> {
    if forall|i: int|
        0 <= i < bytes.len() ==> 0x20 <= #[trigger] bytes[i] < 0x7f || bytes[i] == 0x09 {
        Some(bytes.map_values(|byte: u8| byte as char))
    } else {
        None
    }
}

/// Calls `http::HeaderValue::to_str`: the text of the value, or nothing where a
/// byte of it is neither visible ASCII, a blank nor a tab.
#[verifier::external_body]
fn value_text(value: &HeaderValue) -> (text: Option<String>)
    ensures
        text.deep_view() == visible_text(value_bytes(*value)),
{
    value.to_str().ok().map(String::from)
}

/// The text of the first value of the field `name`, where there is one and it
/// has a text.
pub open spec fn header_text(headers: HeaderMap<HeaderValue>, name: Seq<char>) -> Option<Seq<char>> {
    if first_values(headers).contains_key(name) {
        visible_text(first_values(headers)[name])
    } else {
        None
    }
}

/// Reads the text of a header field.
fn read_header(headers: &HeaderMap<HeaderValue>, name: &str) -> (text: Option<String>)
    requires
        is_lower_case_name(name@),
    ensures
        text.deep_view() == header_text(*headers, name@),
{
    match first_value(headers, name) {
        Some(value) => value_text(value),
        None => None,
    }
}

/// What the relay knows of a request.
#[derive(Debug)]
pub struct RequestInfo {
    /// The domain that the request is for.
    pub host: Option<String>,
    /// The original client, where a proxy named it.
    pub client_ip: Option<String>,
}

/// The client addresses that the relay logs for a request.
#[derive(Debug)]
pub struct LoggedClient {
    pub client_ip: String,
    /// The peer of the connection, where it is not the client.
    pub direct_addr: Option<String>,
}

/// The original client that an `X-Forwarded-For` header names, if there is one.
pub open spec fn forwarded_client(xff_header: Option<Seq<char>>) -> Option<Seq<char>> {
    match xff_header {
        Some(xff_header) => security::original_client_ip(xff_header),
        None => None,
    }
}

impl RequestInfo {
    /// Describes a request by the texts of its `Host` and `X-Forwarded-For`
    /// headers.
    pub fn from_headers(host: Option<String>, xff_header: Option<String>) -> (info: RequestInfo)
        ensures
            info.host == host,
            info.client_ip.deep_view() == forwarded_client(xff_header.deep_view()),
    {
        let client_ip = match xff_header {
            Some(xff_header) => parse_original_client_ip(xff_header.as_str()),
            None => None,
        };
        RequestInfo { host, client_ip }
    }

    /// Reads a request's headers.
    pub fn read(headers: &HeaderMap<HeaderValue>) -> (info: RequestInfo)
        ensures
            info.host.deep_view() == header_text(*headers, "host"@),
            info.client_ip.deep_view() == forwarded_client(
                header_text(*headers, "x-forwarded-for"@),
            ),
    {
        proof {
            reveal_strlit("host");
            reveal_strlit("x-forwarded-for");
        }
        RequestInfo::from_headers(
            read_header(headers, "host"),
            read_header(headers, "x-forwarded-for"),
        )
    }

    /// Names the client for the log: the original client where it is known, with
    /// the peer of the connection beside it, and else the peer itself.
    pub fn logged_client(&self, peer_addr: &str) -> (client: LoggedClient)
        ensures
            match self.client_ip {
                Some(ip) => client.client_ip@ == ip@ && client.direct_addr.deep_view() == Some(
                    peer_addr@,
                ),
                None => client.client_ip@ == peer_addr@ && client.direct_addr is None,
            },
    {
        match &self.client_ip {
            Some(ip) => LoggedClient {
                client_ip: ip.clone(),
                direct_addr: Some(peer_addr.to_owned()),
            },
            None => LoggedClient { client_ip: peer_addr.to_owned(), direct_addr: None },
        }
    }
}

/// The host of a request is the text of its first `Host` header, letter for letter. It
/// has none exactly where there is no such header or the header has no text.
pub proof fn law_host_is_that_of_the_header(headers: HeaderMap<HeaderValue>, info: RequestInfo)
    requires
        call_ensures(RequestInfo::read, (&headers,), info),
    ensures
        match info.host {
            Some(host) => first_values(headers).contains_key("host"@) && visible_text(
                first_values(headers)["host"@],
            ) == Some(host@),
            None => first_values(headers).contains_key("host"@) ==> visible_text(
                first_values(headers)["host"@],
            ) is None,
        },
{
}

/// A text that a header has is as long as its value, and each character has the code
/// of its byte.
pub proof fn law_header_text_is_its_bytes(bytes: Seq<u8>)
    ensures
        visible_text(bytes) is Some <==> forall|i: int|
            0 <= i < bytes.len() ==> 0x20 <= #[trigger] bytes[i] < 0x7f || bytes[i] == 0x09,
        visible_text(bytes) matches Some(text) ==> text.len() == bytes.len() && forall|i: int|
            0 <= i < bytes.len() ==> #[trigger] text[i] as int == bytes[i] as int,
{
    if let Some(text) = visible_text(bytes) {
        assert forall|i: int| 0 <= i < bytes.len() implies #[trigger] text[i] as int
            == bytes[i] as int by {
            assert(text[i] == bytes[i] as char);
        }
    }
}

/// The client of a request is the one that the header names in front of its first
/// comma. There is none exactly where the header is absent or blank there. The host is
/// kept as it is, whatever the client.
pub proof fn law_client_is_that_of_the_header(
    host: Option<String>,
    xff_header: Option<String>,
    info: RequestInfo,
)
    requires
        call_ensures(RequestInfo::from_headers, (host, xff_header), info),
    ensures
        info.host == host,
        xff_header is None ==> info.client_ip is None,
        xff_header matches Some(header) ==> exists|from: int, to: int, end: int| #[trigger]
            crate::text::is_trimmed_range(header@, ',', from, to, end) && match info.client_ip {
                Some(client) => from < to && client@ == header@.subrange(from, to),
                None => from == to,
            },
{
    if let Some(header) = xff_header {
        security::lemma_original_client_range(header@);
    }
}

/// The client of a request is read out of the text of its first `X-Forwarded-For`
/// header. There is none where there is no such header or the header has no text.
pub proof fn law_client_is_read_from_the_request(
    headers: HeaderMap<HeaderValue>,
    info: RequestInfo,
)
    requires
        call_ensures(RequestInfo::read, (&headers,), info),
    ensures
        !first_values(headers).contains_key("x-forwarded-for"@) ==> info.client_ip is None,
        first_values(headers).contains_key("x-forwarded-for"@) ==> match visible_text(
            first_values(headers)["x-forwarded-for"@],
        ) {
            None => info.client_ip is None,
            Some(header) => exists|from: int, to: int, end: int| #[trigger]
                crate::text::is_trimmed_range(header, ',', from, to, end) && match info.client_ip {
                    Some(client) => from < to && client@ == header.subrange(from, to),
                    None => from == to,
                },
        },
{
    if let Some(header) = header_text(headers, "x-forwarded-for"@) {
        security::lemma_original_client_range(header);
    }
}

/// The log names a client in every case, and names the peer of the connection exactly
/// once: beside an original client, or in place of one.
pub proof fn law_log_names_the_peer_once(info: RequestInfo, peer_addr: &str, client: LoggedClient)
    requires
        call_ensures(RequestInfo::logged_client, (&info, peer_addr), client),
    ensures
        client.direct_addr is Some <==> info.client_ip is Some,
        client.direct_addr matches Some(addr) ==> addr@ == peer_addr@ && client.client_ip@
            == info.client_ip->0@,
        client.direct_addr is None ==> client.client_ip@ == peer_addr@,
{
}

} // verus!
