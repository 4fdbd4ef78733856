//! Request dispatch and the reply owed to one connection's single read.

use vstd::prelude::*;
use vstd::string::StrSliceExecFns;
use vstd::string::StringExecFns;
use vstd::utf8::encode_utf8;
use crate::http::{
    HttpMethod, HttpRequestLine, HttpResponse, HttpVersion, ParseModel,
    RequestLineModel, ResponseModel, VersionModel, has_crlf, lemma_no_crlf_is_incomplete, parse_model,
    serialize,
};
use crate::routes::{
    HELLO_PAGE, JOKE_COUNT, LOREM_PAGE, ROOT_PAGE, joke_page_bytes, route_hello, route_joke,
    route_lorem, route_root,
};

verus! {

/// The body sent with a 404 response.
pub const NOT_FOUND_PAGE: &'static str = "<html><body>404 NOT FOUND</body></html>";

/// Capacity of the single read made on each connection; a request line must
/// fit in it.
pub const READ_CAPACITY: usize = 8192;

/// The URIs that have a page.
pub open spec fn is_route(uri: Seq<char>) -> bool {
    uri == "/"@ || uri == "/hello"@ || uri == "/lorem"@ || uri == "/joke"@
}

/// `body` is a page that a GET of `uri` may yield; the `/joke` page may show
/// any of the jokes.
pub open spec fn route_page(uri: Seq<char>, body: Seq<u8>) -> bool {
    if uri == "/"@ {
        body == encode_utf8(ROOT_PAGE@)
    } else if uri == "/hello"@ {
        body == encode_utf8(HELLO_PAGE@)
    } else if uri == "/lorem"@ {
        body == encode_utf8(LOREM_PAGE@)
    } else if uri == "/joke"@ {
        exists|i: int| 0 <= i < JOKE_COUNT && body == joke_page_bytes(i)
    } else {
        false
    }
}

/// `resp` is a correct answer to the parsed request `req`: 505 for another
/// version, else 501 for another method, else 200 with the page of a known
/// URI, else 404 with the fixed not-found page; all in the request's version.
pub open spec fn handles(req: RequestLineModel, resp: ResponseModel) -> bool {
    if req.version is Other {
        resp == ResponseModel { version: req.version, status: 505, body: None }
    } else if req.method is Other {
        resp == ResponseModel { version: req.version, status: 501, body: None }
    } else if is_route(req.uri) {
        &&& resp.version == req.version
        &&& resp.status == 200
        &&& resp.body matches Some(b) && route_page(req.uri, b)
    } else {
        resp == ResponseModel {
            version: req.version,
            status: 404,
            body: Some(encode_utf8(NOT_FOUND_PAGE@)),
        }
    }
}

/// The answer to a request line that is incomplete or malformed.
pub open spec fn bad_request() -> ResponseModel {
    ResponseModel { version: VersionModel::Http1_1, status: 400, body: None }
}

/// `resp` is a correct answer to the request text `text`.
pub open spec fn answers(text: Seq<char>, resp: ResponseModel) -> bool {
    match parse_model(text) {
        ParseModel::Complete(req) => handles(req, resp),
        _ => resp == bad_request(),
    }
}

/// `uri` is exactly the text `lit`.
fn uri_is(uri: &str, lit: &str) -> (r: bool)
    ensures
        r == (uri@ == lit@),
{
    String::from_str(uri) == String::from_str(lit)
}

/// Processes the request and returns the corresponding response.
pub fn handle_request(request: &HttpRequestLine) -> (r: HttpResponse)
    ensures
        handles(request@, r@),
{
    if let HttpVersion::Other(_) = request.version() {
        // unsupported http version
        return HttpResponse::new(request.version().copied(), 505, None);
    }
    if let HttpMethod::Other(_) = request.method() {
        // unsupported http method
        return HttpResponse::new(request.version().copied(), 501, None);
    }
    let uri = request.uri();
    let response_content = if uri_is(uri, "/") {
        route_root()
    } else if uri_is(uri, "/hello") {
        route_hello()
    } else if uri_is(uri, "/lorem") {
        route_lorem()
    } else if uri_is(uri, "/joke") {
        route_joke()
    } else {
        return HttpResponse::new(
            request.version().copied(),
            404,
            Some(NOT_FOUND_PAGE.as_bytes_vec()),
        );
    };
    HttpResponse::new(request.version().copied(), 200, Some(response_content))
}


/// What one connection sends back: the request line if one was parsed, the
/// response, and its wire bytes.
pub struct ConnectionReply {
    pub request: Option<HttpRequestLine>,
    pub response: HttpResponse,
    pub wire: Vec<u8>,
}

/// `reply` is a correct reply to the request text `text`.
pub open spec fn replies(text: Seq<char>, reply: ConnectionReply) -> bool {
    &&& answers(text, reply.response@)
    &&& reply.wire@ == serialize(reply.response@)
    &&& match reply.request {
        Some(line) => parse_model(text) == ParseModel::Complete(line@),
        None => !(parse_model(text) is Complete),
    }
}

/// Parses the request text, answers it and serializes the answer. Requests
/// that are incomplete or malformed get a 400 response without a body.
pub fn respond(text: &str) -> (r: ConnectionReply)
    ensures
        replies(text@, r),
{
    let (request, response) = match HttpRequestLine::parse(text) {
        Ok(Some(line)) => {
            let response = handle_request(&line);
            (Some(line), response)
        },
        Ok(None) => (None, HttpResponse::new(HttpVersion::Http1_1, 400, None)),
        Err(_) => (None, HttpResponse::new(HttpVersion::Http1_1, 400, None)),
    };
    let wire = response.to_bytes();
    ConnectionReply { request, response, wire }
}

/// The text that lossy UTF-8 decoding makes of a byte sequence.
pub uninterp spec fn lossy_utf8(b: Seq<u8>) -> Seq<char>;

/// Relies on `String::from_utf8_lossy`: the bytes decoded as UTF-8, with each
/// invalid sequence replaced by U+FFFD; the result depends on the bytes alone.
#[verifier::external_body]
fn decode_lossy(data: &[u8]) -> (r: String)
    ensures
        r@ == lossy_utf8(data@),
{
    String::from_utf8_lossy(data).into_owned()
}

/// The reply owed to the bytes of a connection's single read: nothing when
/// the read returned no bytes (the peer closed), else the reply to those
/// bytes decoded lossily as text.
pub fn reply_to_read(data: &[u8]) -> (r: Option<ConnectionReply>)
    ensures
        r is None <==> data@.len() == 0,
        r matches Some(reply) ==> replies(lossy_utf8(data@), reply),
{
    if data.len() == 0 {
        return None;
    }
    let text = decode_lossy(data);
    Some(respond(text.as_str()))
}


/// A request text without CRLF is answered with 400 and no body.
pub proof fn lemma_no_crlf_is_bad_request(text: Seq<char>, resp: ResponseModel)
    requires
        !has_crlf(text),
        answers(text, resp),
    ensures
        resp.status == 400,
        resp.body is None,
{
    lemma_no_crlf_is_incomplete(text);
}

} // verus!
