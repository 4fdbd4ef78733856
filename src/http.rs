//! HTTP request lines and responses, with their mathematical models.

use vstd::prelude::*;
use vstd::string::StrSliceExecFns;
use vstd::string::StringExecFns;
use vstd::std_specs::iter::IteratorSpec;
use vstd::utf8::encode_utf8;

verus! {

/// Error returned when a complete request line does not consist of exactly
/// three space-separated tokens.
#[derive(Debug, PartialEq, Eq, Structural)]
pub enum HttpParseError {
    MalformedRequestLine,
}

/// Model of an HTTP method: the recognised `GET` tag, or any other token.
pub enum MethodModel {
    Get,
    Other(Seq<char>),
}

/// Model of an HTTP version: the recognised `HTTP/1.1` tag, or any other token.
pub enum VersionModel {
    Http1_1,
    Other(Seq<char>),
}

/// HTTP request method. Only `GET` is served; every other token is kept
/// verbatim.
#[derive(Clone, Debug)]
pub enum HttpMethod {
    Get,
    Other(String),
}

/// HTTP protocol version. Only `HTTP/1.1` is served; every other token is
/// kept verbatim.
#[derive(Clone, Debug)]
pub enum HttpVersion {
    Http1_1,
    Other(String),
}

impl View for HttpMethod {
    type V = MethodModel;

    open spec fn view(&self) -> MethodModel {
        match self {
            HttpMethod::Get => MethodModel::Get,
            HttpMethod::Other(s) => MethodModel::Other(s@),
        }
    }
}

impl View for HttpVersion {
    type V = VersionModel;

    open spec fn view(&self) -> VersionModel {
        match self {
            HttpVersion::Http1_1 => VersionModel::Http1_1,
            HttpVersion::Other(s) => VersionModel::Other(s@),
        }
    }
}

/// The text of a method: the canonical literal for `GET`, the carried token
/// otherwise.
pub open spec fn method_text(m: MethodModel) -> Seq<char> {
    match m {
        MethodModel::Get => "GET"@,
        MethodModel::Other(t) => t,
    }
}

/// The text of a version: the canonical literal for `HTTP/1.1`, the carried
/// token otherwise.
pub open spec fn version_text(v: VersionModel) -> Seq<char> {
    match v {
        VersionModel::Http1_1 => "HTTP/1.1"@,
        VersionModel::Other(t) => t,
    }
}

/// How a method token is recognised: exactly `GET` gives the tag.
pub open spec fn method_of_token(t: Seq<char>) -> MethodModel {
    if t == "GET"@ {
        MethodModel::Get
    } else {
        MethodModel::Other(t)
    }
}

/// How a version token is recognised: exactly `HTTP/1.1` gives the tag.
pub open spec fn version_of_token(t: Seq<char>) -> VersionModel {
    if t == "HTTP/1.1"@ {
        VersionModel::Http1_1
    } else {
        VersionModel::Other(t)
    }
}

impl HttpMethod {
    pub fn to_string(&self) -> (r: String)
        ensures
            r@ == method_text(self@),
    {
        match self {
            HttpMethod::Get => String::from_str("GET"),
            HttpMethod::Other(method) => method.clone(),
        }
    }

    /// Recognises a method token.
    fn parse(method_string: &str) -> (r: Self)
        ensures
            r@ == method_of_token(method_string@),
    {
        let token = String::from_str(method_string);
        if token == String::from_str("GET") {
            HttpMethod::Get
        } else {
            HttpMethod::Other(token)
        }
    }
}

impl HttpVersion {
    pub fn to_string(&self) -> (r: String)
        ensures
            r@ == version_text(self@),
    {
        match self {
            HttpVersion::Http1_1 => String::from_str("HTTP/1.1"),
            HttpVersion::Other(version) => version.clone(),
        }
    }

    /// A copy of this version.
    pub fn copied(&self) -> (r: Self)
        ensures
            r@ == self@,
    {
        match self {
            HttpVersion::Http1_1 => HttpVersion::Http1_1,
            HttpVersion::Other(version) => HttpVersion::Other(version.clone()),
        }
    }

    /// Recognises a version token.
    fn parse(version_string: &str) -> (r: Self)
        ensures
            r@ == version_of_token(version_string@),
    {
        let token = String::from_str(version_string);
        if token == String::from_str("HTTP/1.1") {
            HttpVersion::Http1_1
        } else {
            HttpVersion::Other(token)
        }
    }
}


/// Model of a parsed request line.
pub struct RequestLineModel {
    pub method: MethodModel,
    pub uri: Seq<char>,
    pub version: VersionModel,
}

/// Model of the three outcomes of request-line parsing.
pub enum ParseModel {
    Incomplete,
    Malformed,
    Complete(RequestLineModel),
}

/// A CRLF sequence starts at index `i` of `s`.
pub open spec fn crlf_at(s: Seq<char>, i: int) -> bool {
    0 <= i && i + 1 < s.len() && s[i] == '\r' && s[i + 1] == '\n'
}

/// `s` holds a CRLF sequence somewhere.
pub open spec fn has_crlf(s: Seq<char>) -> bool {
    exists|i: int| crlf_at(s, i)
}

/// Index of the first CRLF of `s` at or after `i`, or -1 when there is none.
pub open spec fn crlf_from(s: Seq<char>, i: int) -> int
    decreases s.len() - i,
{
    if i < 0 || i + 1 >= s.len() {
        -1
    } else if s[i] == '\r' && s[i + 1] == '\n' {
        i
    } else {
        crlf_from(s, i + 1)
    }
}

/// The tokens of `s` separated by single spaces; consecutive spaces give
/// empty tokens, and there is always at least one token.
pub open spec fn split_spaces(s: Seq<char>) -> Seq<Seq<char>>
    decreases s.len(),
{
    if s.len() == 0 {
        seq![Seq::empty()]
    } else {
        let prev = split_spaces(s.drop_last());
        if s.last() == ' ' {
            prev.push(Seq::empty())
        } else {
            prev.update(prev.len() - 1, prev.last().push(s.last()))
        }
    }
}

/// What parsing a request text yields: the text up to the first CRLF is the
/// line, and the line must split into exactly three tokens.
pub open spec fn parse_model(s: Seq<char>) -> ParseModel {
    let end = crlf_from(s, 0);
    if end < 0 {
        ParseModel::Incomplete
    } else {
        let tokens = split_spaces(s.subrange(0, end));
        if tokens.len() != 3 {
            ParseModel::Malformed
        } else {
            ParseModel::Complete(
                RequestLineModel {
                    method: method_of_token(tokens[0]),
                    uri: tokens[1],
                    version: version_of_token(tokens[2]),
                },
            )
        }
    }
}

/// The model of a parse result.
pub open spec fn parse_result_model(r: Result<Option<HttpRequestLine>, HttpParseError>) -> ParseModel {
    match r {
        Ok(None) => ParseModel::Incomplete,
        Err(_) => ParseModel::Malformed,
        Ok(Some(line)) => ParseModel::Complete(line@),
    }
}

pub proof fn lemma_split_nonempty(s: Seq<char>)
    ensures
        split_spaces(s).len() >= 1,
    decreases s.len(),
{
    if s.len() > 0 {
        lemma_split_nonempty(s.drop_last());
    }
}

/// HTTP request line.
#[derive(Clone, Debug)]
pub struct HttpRequestLine {
    method: HttpMethod,
    uri: String,
    version: HttpVersion,
}

impl View for HttpRequestLine {
    type V = RequestLineModel;

    closed spec fn view(&self) -> RequestLineModel {
        RequestLineModel { method: self.method@, uri: self.uri@, version: self.version@ }
    }
}

/// Copies the characters of `s` into a vector.
fn chars_of(s: &str) -> (r: Vec<char>)
    ensures
        r@ == s@,
{
    let mut it = s.chars();
    let mut out: Vec<char> = Vec::new();
    loop
        invariant
            out@ + it.remaining() == s@,
        ensures
            out@ == s@,
        decreases s@.len() - out@.len(),
    {
        match it.next() {
            Some(c) => {
                out.push(c);
            },
            None => {
                break ;
            },
        }
    }
    out
}

impl HttpRequestLine {
    /// Parses the request line at the start of `request_line`.
    /// Returns `Ok(None)` when no CRLF has arrived, and an error when the line
    /// before the first CRLF is not exactly three space-separated tokens.
    pub fn parse(request_line: &str) -> (r: Result<Option<Self>, HttpParseError>)
        ensures
            parse_result_model(r) == parse_model(request_line@),
    {
        let chars = chars_of(request_line);
        let ghost s = request_line@;
        let n = chars.len();
        // locate the first CRLF
        let mut end: usize = 0;
        let mut found = false;
        while n > 0 && end < n - 1
            invariant_except_break
                !found,
            invariant
                chars@ == s,
                n == s.len(),
                end <= n,
                crlf_from(s, 0) == crlf_from(s, end as int),
            ensures
                end <= n,
                crlf_from(s, 0) == crlf_from(s, end as int),
                found ==> crlf_at(s, end as int),
                !found ==> end + 1 >= n,
            decreases n - end,
        {
            if chars[end] == '\r' && chars[end + 1] == '\n' {
                found = true;
                break;
            }
            end = end + 1;
        }
        if !found {
            return Ok(None);
        }
        assert(crlf_from(s, 0) == end);
        // split the line by single spaces
        let ghost line = s.subrange(0, end as int);
        let mut i: usize = 0;
        let mut spaces: usize = 0;
        let mut start: usize = 0;
        let mut first: usize = 0;
        let mut second: usize = 0;
        while i < end
            invariant
                chars@ == s,
                end < n,
                n == s.len(),
                line == s.subrange(0, end as int),
                i <= end,
                start <= i,
                spaces <= i,
                spaces == 0 ==> start == 0,
                split_spaces(line.subrange(0, i as int)).len() == spaces + 1,
                split_spaces(line.subrange(0, i as int)).last() == line.subrange(start as int, i as int),
                spaces >= 1 ==> first < start && split_spaces(line.subrange(0, i as int))[0] == line.subrange(0, first as int),
                spaces >= 1 ==> first + 1 == start || spaces >= 2,
                spaces >= 2 ==> first < second && second < start && split_spaces(line.subrange(0, i as int))[1] == line.subrange(first + 1, second as int),
                spaces == 2 ==> second + 1 == start,
            decreases end - i,
        {
            let ghost prefix = line.subrange(0, i as int);
            let ghost next = line.subrange(0, i + 1);
            assert(next.drop_last() =~= prefix);
            proof { lemma_split_nonempty(prefix); }
            if chars[i] == ' ' {
                if spaces == 0 {
                    first = i;
                } else if spaces == 1 {
                    second = i;
                }
                spaces = spaces + 1;
                start = i + 1;
                assert(line.subrange(start as int, i + 1) =~= Seq::<char>::empty());
            } else {
                assert(line.subrange(start as int, i + 1) =~= line.subrange(start as int, i as int).push(chars[i as int]));
            }
            i = i + 1;
        }
        assert(line.subrange(0, end as int) =~= line);
        if spaces != 2 {
            return Err(HttpParseError::MalformedRequestLine);
        }
        let method = HttpMethod::parse(request_line.substring_char(0, first));
        let uri = String::from_str(request_line.substring_char(first + 1, second));
        let version = HttpVersion::parse(request_line.substring_char(second + 1, end));
        assert(line.subrange(0, first as int) =~= s.subrange(0, first as int));
        assert(line.subrange(first + 1, second as int) =~= s.subrange(first + 1, second as int));
        assert(line.subrange(second + 1, end as int) =~= s.subrange(second + 1, end as int));
        Ok(Some(HttpRequestLine { method, uri, version }))
    }

    pub fn method(&self) -> (r: &HttpMethod)
        ensures
            r@ == self@.method,
    {
        &self.method
    }

    pub fn uri(&self) -> (r: &str)
        ensures
            r@ == self@.uri,
    {
        self.uri.as_str()
    }

    pub fn version(&self) -> (r: &HttpVersion)
        ensures
            r@ == self@.version,
    {
        &self.version
    }
}


/// Model of a response: version, status code and optional body bytes.
pub struct ResponseModel {
    pub version: VersionModel,
    pub status: u16,
    pub body: Option<Seq<u8>>,
}

/// The model of an optional byte vector.
pub open spec fn bytes_model(b: Option<Vec<u8>>) -> Option<Seq<u8>> {
    match b {
        Some(v) => Some(v@),
        None => None,
    }
}

/// The ASCII decimal digits of `n`, most significant first, without leading
/// zeros.
pub open spec fn decimal_digits(n: nat) -> Seq<u8>
    decreases n,
{
    if n < 10 {
        seq![(n + 48) as u8]
    } else {
        decimal_digits(n / 10).push((n % 10 + 48) as u8)
    }
}

/// The wire form of a response: `<version> <status>\r\n\r\n<body>`.
pub open spec fn serialize(r: ResponseModel) -> Seq<u8> {
    encode_utf8(version_text(r.version)) + seq![32u8] + decimal_digits(r.status as nat) + seq![
        13u8,
        10u8,
        13u8,
        10u8,
    ] + match r.body {
        Some(b) => b,
        None => Seq::empty(),
    }
}

/// Appends the decimal digits of `n` to `out`.
fn push_decimal(out: &mut Vec<u8>, n: u16)
    ensures
        final(out)@ == old(out)@ + decimal_digits(n as nat),
    decreases n,
{
    if n >= 10 {
        push_decimal(out, n / 10);
    }
    out.push((n % 10) as u8 + 48u8);
    proof {
        if n >= 10 {
            assert(final(out)@ =~= old(out)@ + decimal_digits(n as nat));
        } else {
            assert(final(out)@ =~= old(out)@ + decimal_digits(n as nat));
        }
    }
}

/// HTTP response. No headers are sent.
#[derive(Clone, Debug)]
pub struct HttpResponse {
    version: HttpVersion,
    status_code: u16,
    content: Option<Vec<u8>>,
}

impl View for HttpResponse {
    type V = ResponseModel;

    closed spec fn view(&self) -> ResponseModel {
        ResponseModel {
            version: self.version@,
            status: self.status_code,
            body: bytes_model(self.content),
        }
    }
}

impl HttpResponse {
    pub fn new(version: HttpVersion, status_code: u16, content: Option<Vec<u8>>) -> (r: Self)
        ensures
            r@ == (ResponseModel { version: version@, status: status_code, body: bytes_model(content) }),
    {
        HttpResponse { version, status_code, content }
    }

    pub fn status_code(&self) -> (r: u16)
        ensures
            r == self@.status,
    {
        self.status_code
    }

    pub fn content(&self) -> (r: &Option<Vec<u8>>)
        ensures
            bytes_model(*r) == self@.body,
    {
        &self.content
    }

    /// Serializes the response into its wire bytes.
    pub fn to_bytes(&self) -> (r: Vec<u8>)
        ensures
            r@ == serialize(self@),
    {
        let version = self.version.to_string();
        let mut bytes = version.as_str().as_bytes_vec();
        bytes.push(32u8);
        push_decimal(&mut bytes, self.status_code);
        bytes.push(13u8);
        bytes.push(10u8);
        bytes.push(13u8);
        bytes.push(10u8);
        let ghost head = bytes@;
        match &self.content {
            Some(content) => {
                let mut tail = content.clone();
                bytes.append(&mut tail);
            },
            None => {},
        }
        assert(head =~= encode_utf8(version_text(self@.version)) + seq![32u8] + decimal_digits(self@.status as nat) + seq![13u8, 10u8, 13u8, 10u8]);
        assert(bytes@ =~= serialize(self@));
        bytes
    }
}


/// The tokens joined back together with single spaces.
pub open spec fn join_spaces(tokens: Seq<Seq<char>>) -> Seq<char>
    decreases tokens.len(),
{
    if tokens.len() <= 1 {
        if tokens.len() == 1 {
            tokens[0]
        } else {
            Seq::empty()
        }
    } else {
        join_spaces(tokens.drop_last()) + seq![' '] + tokens.last()
    }
}

/// `t` holds no space.
pub open spec fn no_space(t: Seq<char>) -> bool {
    forall|i: int| 0 <= i < t.len() ==> t[i] != ' '
}

proof fn lemma_crlf_from_found(s: Seq<char>, i: int)
    ensures
        crlf_from(s, i) >= 0 ==> crlf_at(s, crlf_from(s, i)) && crlf_from(s, i) >= i,
    decreases s.len() - i,
{
    if !(i < 0 || i + 1 >= s.len()) && !(s[i] == '\r' && s[i + 1] == '\n') {
        lemma_crlf_from_found(s, i + 1);
    }
}

proof fn lemma_crlf_from_first(s: Seq<char>, i: int, k: int)
    requires
        0 <= i <= k,
        crlf_at(s, k),
        forall|j: int| 0 <= j < k ==> !crlf_at(s, j),
    ensures
        crlf_from(s, i) == k,
    decreases k - i,
{
    if i < k {
        assert(!crlf_at(s, i));
        lemma_crlf_from_first(s, i + 1, k);
    }
}

/// Splitting on spaces and joining back with spaces gives the line again.
pub proof fn lemma_join_split(s: Seq<char>)
    ensures
        join_spaces(split_spaces(s)) == s,
    decreases s.len(),
{
    if s.len() > 0 {
        let prev = split_spaces(s.drop_last());
        lemma_join_split(s.drop_last());
        lemma_split_nonempty(s.drop_last());
        if s.last() == ' ' {
            assert(split_spaces(s).drop_last() =~= prev);
            assert(join_spaces(split_spaces(s)) =~= s);
        } else {
            let next = split_spaces(s);
            assert(next.drop_last() =~= prev.drop_last());
            if prev.len() == 1 {
                assert(join_spaces(next) =~= s);
            } else {
                assert(join_spaces(prev) == join_spaces(prev.drop_last()) + seq![' '] + prev.last());
                assert(next.len() == prev.len());
                assert(next.last() == prev.last().push(s.last()));
                assert(join_spaces(next) == join_spaces(prev.drop_last()) + seq![' '] + next.last());
                assert(s =~= s.drop_last().push(s.last()));
                assert(join_spaces(next) =~= s);
            }
        }
    }
}

proof fn lemma_split_append_token(x: Seq<char>, y: Seq<char>)
    requires
        no_space(y),
    ensures
        split_spaces(x + seq![' '] + y) == split_spaces(x).push(y),
    decreases y.len(),
{
    lemma_split_nonempty(x);
    if y.len() == 0 {
        assert(y =~= Seq::<char>::empty());
        assert((x + seq![' '] + y).drop_last() =~= x);
        assert(x + seq![' '] + y =~= x.push(' '));
    } else {
        let z = x + seq![' '] + y;
        let y0 = y.drop_last();
        assert(z.drop_last() =~= x + seq![' '] + y0);
        lemma_split_append_token(x, y0);
        assert(split_spaces(z) =~= split_spaces(x).push(y0).update(
            split_spaces(x).len() as int,
            y0.push(y.last()),
        ));
        assert(y0.push(y.last()) =~= y);
        assert(split_spaces(z) =~= split_spaces(x).push(y));
    }
}

proof fn lemma_split_single(y: Seq<char>)
    requires
        no_space(y),
    ensures
        split_spaces(y) == seq![y],
    decreases y.len(),
{
    if y.len() > 0 {
        lemma_split_single(y.drop_last());
        assert(y.drop_last().push(y.last()) =~= y);
        assert(split_spaces(y) =~= seq![y]);
    } else {
        assert(y =~= Seq::<char>::empty());
    }
}

/// A text without CRLF is an incomplete request line.
pub proof fn lemma_no_crlf_is_incomplete(s: Seq<char>)
    requires
        !has_crlf(s),
    ensures
        parse_model(s) == ParseModel::Incomplete,
{
    lemma_crlf_from_found(s, 0);
}

/// A text whose line before the first CRLF does not split into exactly three
/// tokens is malformed.
pub proof fn lemma_wrong_token_count_is_malformed(s: Seq<char>, k: int)
    requires
        crlf_at(s, k),
        forall|j: int| 0 <= j < k ==> !crlf_at(s, j),
        split_spaces(s.subrange(0, k)).len() != 3,
    ensures
        parse_model(s) == ParseModel::Malformed,
{
    lemma_crlf_from_first(s, 0, k);
}

/// Recognising a method token and writing it back gives the token again:
/// the canonical `GET` for the tag, any other token verbatim.
pub proof fn lemma_method_round_trip(t: Seq<char>)
    ensures
        method_text(method_of_token(t)) == t,
        method_of_token(t) is Get <==> t == "GET"@,
{
}

/// Recognising a version token and writing it back gives the token again:
/// the canonical `HTTP/1.1` for the tag, any other token verbatim.
pub proof fn lemma_version_round_trip(t: Seq<char>)
    ensures
        version_text(version_of_token(t)) == t,
        version_of_token(t) is Http1_1 <==> t == "HTTP/1.1"@,
{
}

/// A complete request line rebuilt from its parts, with single spaces
/// between them, is the text before the first CRLF.
pub proof fn lemma_parse_then_rebuild(s: Seq<char>)
    requires
        parse_model(s) is Complete,
    ensures
        ({
            let line = parse_model(s)->Complete_0;
            method_text(line.method) + seq![' '] + line.uri + seq![' '] + version_text(line.version)
                == s.subrange(0, crlf_from(s, 0))
        }),
{
    let line_text = s.subrange(0, crlf_from(s, 0));
    let tokens = split_spaces(line_text);
    lemma_join_split(line_text);
    assert(tokens.drop_last().drop_last() =~= seq![tokens[0]]);
    assert(join_spaces(tokens.drop_last()) == join_spaces(tokens.drop_last().drop_last()) + seq![' '] + tokens[1]);
}

/// Three space-free tokens joined by single spaces and ended by CRLF parse
/// back into those tokens, whatever follows the CRLF.
pub proof fn lemma_rebuild_then_parse(
    method: Seq<char>,
    uri: Seq<char>,
    version: Seq<char>,
    rest: Seq<char>,
)
    requires
        no_space(method),
        no_space(uri),
        no_space(version),
        !has_crlf(method + seq![' '] + uri + seq![' '] + version + seq!['\r']),
    ensures
        parse_model(method + seq![' '] + uri + seq![' '] + version + seq!['\r', '\n'] + rest)
            == ParseModel::Complete(
            RequestLineModel {
                method: method_of_token(method),
                uri,
                version: version_of_token(version),
            },
        ),
{
    let line = method + seq![' '] + uri + seq![' '] + version;
    let s = line + seq!['\r', '\n'] + rest;
    let k = line.len() as int;
    assert forall|j: int| 0 <= j < k implies !crlf_at(s, j) by {
        let t = line + seq!['\r'];
        assert(t[j] == s[j] && t[j + 1] == s[j + 1]);
        assert(!crlf_at(t, j));
    }
    assert(crlf_at(s, k));
    lemma_crlf_from_first(s, 0, k);
    assert(s.subrange(0, k) =~= line);
    lemma_split_single(method);
    lemma_split_append_token(method, uri);
    lemma_split_append_token(method + seq![' '] + uri, version);
}


/// Serialization depends on the version text, the status code and the body
/// alone: the same three always give the same bytes.
pub proof fn lemma_serialize_deterministic(a: ResponseModel, b: ResponseModel)
    requires
        version_text(a.version) == version_text(b.version),
        a.status == b.status,
        a.body == b.body,
    ensures
        serialize(a) == serialize(b),
{
}

} // verus!
