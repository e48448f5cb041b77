//! The HTTP exchanges carried through a tunnel.
use vstd::prelude::*;
use vstd::string::*;
use axum::http::HeaderMap;
use crate::headers::{
    all_text, as_text, header_contents, headers_to_map, lemma_all_text_entries, text_entries,
};

verus! {

broadcast use vstd::string::group_string_axioms;

/// An HTTP request as sent through a tunnel.
#[derive(Debug, Clone, PartialEq, Eq)]
pub struct HttpRequest {
    pub method: String,
    /// The path and query of the request.
    pub path: String,
    pub headers: Vec<(String, String)>,
    pub body: Vec<u8>,
}

/// An HTTP response as returned through a tunnel.
#[derive(Debug, Clone, PartialEq, Eq)]
pub struct HttpResponse {
    pub status: u16,
    pub headers: Vec<(String, String)>,
    pub body: Vec<u8>,
}

/// A tunnel client's report on its machine. The memory and swap figures are
/// in bytes; the CPU load and temperatures are gauges of type `G`, which the
/// report carries as they were measured.
#[derive(Debug, Clone)]
pub struct HardwareData<G> {
    pub operating_system: String,
    pub total_memory: u64,
    pub used_memory: u64,
    pub total_swap: u64,
    pub used_swap: u64,
    pub cpu_usage: G,
    pub avg_temp: G,
    pub max_temp: G,
}

/// A lower-case hexadecimal digit.
pub open spec fn is_lower_hex(c: char) -> bool {
    ('0' <= c && c <= '9') || ('a' <= c && c <= 'f')
}

/// The hyphenated text of a version 4 UUID: 36 characters, hyphens at
/// positions 8, 13, 18 and 23 and lower-case hex digits elsewhere, the
/// version digit `4` at position 14 and the variant digit (`8` to `b`) at
/// position 19.
pub open spec fn uuid_v4_text(s: Seq<char>) -> bool {
    &&& s.len() == 36
    &&& forall|i: int|
        0 <= i < 36 ==> if i == 8 || i == 13 || i == 18 || i == 23 {
            s[i] == '-'
        } else {
            is_lower_hex(#[trigger] s[i])
        }
    &&& s[14] == '4'
    &&& (s[19] == '8' || s[19] == '9' || s[19] == 'a' || s[19] == 'b')
}

/// Calls `uuid::Uuid::new_v4` and formats the id with `Display`, which
/// writes the lower-case hyphenated form. The id is random: the contract
/// claims only the form every version 4 UUID has (`new_v4` masks in the
/// version and variant bits).
#[verifier::external_body]
fn new_request_id() -> (id: String)
    ensures
        uuid_v4_text(id@),
{
    uuid::Uuid::new_v4().to_string()
}

/// The request that goes through a tunnel for an incoming request with this
/// method, path and query (`/` when there is none), headers and body: only
/// the headers whose values are text are carried.
pub open spec fn tunnel_request_spec(
    method: Seq<char>,
    path_and_query: Option<Seq<char>>,
    headers: Seq<(Seq<char>, Seq<u8>)>,
    body: Seq<u8>,
    r: HttpRequest,
) -> bool {
    &&& r.method@ == method
    &&& r.path@ == match path_and_query {
        Some(p) => p,
        None => seq!['/'],
    }
    &&& r.headers@.map_values(|p: (String, String)| (p.0@, p.1@)) == text_entries(headers)
    &&& r.body@ == body
}

/// Builds the request to send through a tunnel, under a fresh random
/// request id that its response will be matched by.
pub fn tunnel_request(
    method: String,
    path_and_query: Option<&str>,
    headers: &HeaderMap,
    body: Vec<u8>,
) -> (r: (String, HttpRequest))
    ensures
        uuid_v4_text(r.0@),
        tunnel_request_spec(
            method@,
            match path_and_query { Some(p) => Some(p@), None => None },
            header_contents(*headers),
            body@,
            r.1,
        ),
{
    let id = new_request_id();
    let path = match path_and_query {
        Some(p) => String::from_str(p),
        None => {
            proof {
                reveal_strlit("/");
            }
            assert("/"@ =~= seq!['/']);
            String::from_str("/")
        },
    };
    let req = HttpRequest { method, path, headers: headers_to_map(headers), body };
    (id, req)
}


/// Builds the request that the direct route `/tunnel/{id}/{path}` sends
/// through tunnel `id`, under a fresh random request id: the method, the
/// path, every header with its value as text, and the body. Every header
/// value must be text (a value that is not makes the route fail; callers
/// check with `headers_are_text`).
pub fn direct_request(method: String, path: &str, headers: &HeaderMap, body: Vec<u8>) -> (r: (
    String,
    HttpRequest,
))
    requires
        all_text(header_contents(*headers)),
    ensures
        uuid_v4_text(r.0@),
        tunnel_request_spec(method@, Some(path@), header_contents(*headers), body@, r.1),
        r.1.headers@.map_values(|p: (String, String)| (p.0@, p.1@)) == as_text(
            header_contents(*headers),
        ),
{
    proof {
        lemma_all_text_entries(header_contents(*headers));
    }
    tunnel_request(method, Some(path), headers, body)
}


/// The base URL of the local service that a tunnel client forwards to.
pub open spec fn local_service() -> Seq<char> {
    "http://127.0.0.1:8000"@
}

/// The URL on the local service for a tunnelled request with this path and
/// query.
pub fn local_target(path: &str) -> (r: String)
    ensures
        r@ == local_service() + path@,
{
    let mut r = String::from_str("http://127.0.0.1:8000");
    r.append(path);
    r
}

/// The reply a tunnel client sends back for the local service's response:
/// its status, every header with its value as text, and its body. Every
/// header value must be text (a value that is not makes the client fail;
/// callers check with `headers_are_text`).
pub fn local_reply(status: u16, headers: &HeaderMap, body: Vec<u8>) -> (r: HttpResponse)
    requires
        all_text(header_contents(*headers)),
    ensures
        r.status == status,
        r.headers@.map_values(|p: (String, String)| (p.0@, p.1@)) == as_text(
            header_contents(*headers),
        ),
        r.body@ == body@,
{
    proof {
        lemma_all_text_entries(header_contents(*headers));
    }
    HttpResponse { status, headers: headers_to_map(headers), body }
}

/// The body of the reply for a local service that cannot be reached:
/// `Bad Gateway`.
pub open spec fn bad_gateway_body() -> Seq<u8> {
    seq![66u8, 97, 100, 32, 71, 97, 116, 101, 119, 97, 121]
}

/// The reply a tunnel client of the relay sends back when the local service
/// cannot be reached: status 502, no headers, body `Bad Gateway`.
pub fn bad_gateway_reply() -> (r: HttpResponse)
    ensures
        r.status == 502,
        r.headers@.len() == 0,
        r.body@ == bad_gateway_body(),
{
    let body: Vec<u8> = vec![66u8, 97, 100, 32, 71, 97, 116, 101, 119, 97, 121];
    assert(body@ =~= bad_gateway_body());
    HttpResponse { status: 502, headers: Vec::new(), body }
}

} // verus!
