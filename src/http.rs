//! The request and response types the caller works with: a request
//! builder, the wire form of a request, and the events a response is
//! delivered as.

use crate::util::{decimal_bytes, push_decimal, str_eq};
use vstd::prelude::*;
use vstd::string::StrSliceExecFns;
use vstd::utf8::encode_utf8;

verus! {

/// An HTTP method. The default method is `GET`.
#[derive(Clone, Copy, Debug, PartialEq, Eq, Structural)]
pub enum Method {
    Get,
    Post,
    Put,
    Delete,
    Patch,
    Head,
    Options,
    Trace,
}

impl Default for Method {
    fn default() -> (r: Method)
        ensures
            r == Method::Get,
    {
        Method::Get
    }
}

/// Whether the connection is plain HTTP or HTTPS.
#[derive(Clone, Copy, Debug, PartialEq, Eq, Structural)]
pub enum Mode {
    Plain,
    Secure,
}

impl Default for Mode {
    fn default() -> (r: Mode)
        ensures
            r == Mode::Plain,
    {
        Mode::Plain
    }
}

/// An HTTP URI. The path may start with a `/` or not.
#[derive(Clone, Copy, Debug)]
pub struct Uri<'a> {
    pub host: &'a str,
    pub path: &'a str,
}

/// A query parameter.
#[derive(Clone, Copy, Debug)]
pub struct Query<'a> {
    pub name: &'a str,
    pub value: &'a str,
}

/// A request header.
#[derive(Clone, Copy, Debug)]
pub struct Header<'a> {
    pub name: &'a str,
    pub value: &'a str,
}

/// The ticket of a request. Tickets start at `0` and count up by one,
/// wrapping, for every request a client accepts.
#[derive(Debug, Clone, Copy, PartialEq, Eq, PartialOrd, Ord, Hash, Structural)]
pub struct ReqId {
    pub inner: usize,
}

/// An HTTP request: what the caller asks for, before it is put on the
/// wire. The timeout is in milliseconds.
///
/// These headers are set by the library: `Content-Length`,
/// `Connection: close`, and `Accept-Encoding: identity` unless the caller
/// sets `Accept-Encoding` itself. The first two cannot be set by the caller.
#[derive(Clone, Debug)]
pub struct Request<'a> {
    pub timeout: Option<u64>,
    pub method: Method,
    pub mode: Mode,
    pub uri: Uri<'a>,
    pub queries: Vec<Query<'a>>,
    pub headers: Vec<Header<'a>>,
    pub override_encoding: bool,
    pub override_charset: bool,
    pub body: &'a [u8],
}

/// Used to build a request, see [`Request`].
#[derive(Clone, Debug)]
pub struct RequestBuilder<'a> {
    request: Request<'a>,
}

/// A request with every field at its default: `GET`, plain, no host, no
/// path, no queries, no headers, empty body, no timeout.
pub open spec fn is_default_request(r: Request) -> bool {
    &&& r.timeout is None
    &&& r.method == Method::Get
    &&& r.mode == Mode::Plain
    &&& r.uri.host@ == Seq::<char>::empty()
    &&& r.uri.path@ == Seq::<char>::empty()
    &&& r.queries@ == Seq::<Query>::empty()
    &&& r.headers@ == Seq::<Header>::empty()
    &&& !r.override_encoding
    &&& !r.override_charset
    &&& r.body@ == Seq::<u8>::empty()
}

/// `b` is `a` with only the fields that `timeout`, `method`, `mode`, `uri`
/// and `body` name left free; the lists of queries and headers are kept.
pub open spec fn same_lists(a: Request, b: Request) -> bool {
    &&& a.queries@ == b.queries@
    &&& a.headers@ == b.headers@
    &&& a.override_encoding == b.override_encoding
    &&& a.override_charset == b.override_charset
}

fn empty_str() -> (r: &'static str)
    ensures
        r@ == Seq::<char>::empty(),
{
    let s = "";
    proof {
        reveal_strlit("");
    }
    s
}

impl<'a> RequestBuilder<'a> {
    /// The request built so far.
    pub closed spec fn req(self) -> Request<'a> {
        self.request
    }

    /// Sets the timeout, in milliseconds. By default requests have none.
    pub fn timeout(self, timeout: u64) -> (r: Self)
        ensures
            same_lists(r.req(), self.req()),
            r.req().timeout == Some(timeout),
            r.req().method == self.req().method,
            r.req().mode == self.req().mode,
            r.req().uri.host@ == self.req().uri.host@,
            r.req().uri.path@ == self.req().uri.path@,
            r.req().body@ == self.req().body@,
    {
        let mut request = self.request;
        request.timeout = Some(timeout);
        RequestBuilder { request }
    }

    /// Sets the method.
    pub fn method(self, method: Method) -> (r: Self)
        ensures
            same_lists(r.req(), self.req()),
            r.req().timeout == self.req().timeout,
            r.req().method == method,
            r.req().mode == self.req().mode,
            r.req().uri.host@ == self.req().uri.host@,
            r.req().uri.path@ == self.req().uri.path@,
            r.req().body@ == self.req().body@,
    {
        let mut request = self.request;
        request.method = method;
        RequestBuilder { request }
    }

    /// Sets the mode to [`Mode::Secure`].
    pub fn secure(self) -> (r: Self)
        ensures
            same_lists(r.req(), self.req()),
            r.req().timeout == self.req().timeout,
            r.req().method == self.req().method,
            r.req().mode == Mode::Secure,
            r.req().uri.host@ == self.req().uri.host@,
            r.req().uri.path@ == self.req().uri.path@,
            r.req().body@ == self.req().body@,
    {
        let mut request = self.request;
        request.mode = Mode::Secure;
        RequestBuilder { request }
    }

    /// Alias of [`secure`](RequestBuilder::secure).
    pub fn https(self) -> (r: Self)
        ensures
            same_lists(r.req(), self.req()),
            r.req().timeout == self.req().timeout,
            r.req().method == self.req().method,
            r.req().mode == Mode::Secure,
            r.req().uri.host@ == self.req().uri.host@,
            r.req().uri.path@ == self.req().uri.path@,
            r.req().body@ == self.req().body@,
    {
        self.secure()
    }

    /// Sets the host.
    pub fn host(self, host: &'a str) -> (r: Self)
        ensures
            same_lists(r.req(), self.req()),
            r.req().timeout == self.req().timeout,
            r.req().method == self.req().method,
            r.req().mode == self.req().mode,
            r.req().uri.host@ == host@,
            r.req().uri.path@ == self.req().uri.path@,
            r.req().body@ == self.req().body@,
    {
        let mut request = self.request;
        request.uri.host = host;
        RequestBuilder { request }
    }

    /// Sets the path.
    pub fn path(self, path: &'a str) -> (r: Self)
        ensures
            same_lists(r.req(), self.req()),
            r.req().timeout == self.req().timeout,
            r.req().method == self.req().method,
            r.req().mode == self.req().mode,
            r.req().uri.host@ == self.req().uri.host@,
            r.req().uri.path@ == path@,
            r.req().body@ == self.req().body@,
    {
        let mut request = self.request;
        request.uri.path = path;
        RequestBuilder { request }
    }

    /// Appends a query parameter: `example.com?foo=1&bar=2` is
    /// `.host("example.com").query("foo", "1").query("bar", "2")`.
    pub fn query(self, name: &'a str, value: &'a str) -> (r: Self)
        ensures
            r.req().queries@ == self.req().queries@.push(Query { name, value }),
            r.req().headers@ == self.req().headers@,
            r.req().override_encoding == self.req().override_encoding,
            r.req().override_charset == self.req().override_charset,
            r.req().timeout == self.req().timeout,
            r.req().method == self.req().method,
            r.req().mode == self.req().mode,
            r.req().uri.host@ == self.req().uri.host@,
            r.req().uri.path@ == self.req().uri.path@,
            r.req().body@ == self.req().body@,
    {
        let mut request = self.request;
        request.queries.push(Query { name, value });
        RequestBuilder { request }
    }

    /// Appends a header.
    pub fn set(self, name: &'a str, value: &'a str) -> (r: Self)
        ensures
            r.req().headers@ == self.req().headers@.push(Header { name, value }),
            r.req().queries@ == self.req().queries@,
            r.req().override_encoding == self.req().override_encoding,
            r.req().override_charset == self.req().override_charset,
            r.req().timeout == self.req().timeout,
            r.req().method == self.req().method,
            r.req().mode == self.req().mode,
            r.req().uri.host@ == self.req().uri.host@,
            r.req().uri.path@ == self.req().uri.path@,
            r.req().body@ == self.req().body@,
    {
        let mut request = self.request;
        request.headers.push(Header { name, value });
        RequestBuilder { request }
    }

    /// Alias of [`set`](RequestBuilder::set).
    pub fn header(self, name: &'a str, value: &'a str) -> (r: Self)
        ensures
            r.req().headers@ == self.req().headers@.push(Header { name, value }),
            r.req().queries@ == self.req().queries@,
            r.req().override_encoding == self.req().override_encoding,
            r.req().override_charset == self.req().override_charset,
            r.req().timeout == self.req().timeout,
            r.req().method == self.req().method,
            r.req().mode == self.req().mode,
            r.req().uri.host@ == self.req().uri.host@,
            r.req().uri.path@ == self.req().uri.path@,
            r.req().body@ == self.req().body@,
    {
        self.set(name, value)
    }

    /// Appends a `User-Agent` header with the given value.
    pub fn user_agent(self, value: &'a str) -> (r: Self)
        ensures
            r.req().headers@.len() == self.req().headers@.len() + 1,
            r.req().headers@.drop_last() == self.req().headers@,
            r.req().headers@.last().name@ == "User-Agent"@,
            r.req().headers@.last().value@ == value@,
            r.req().queries@ == self.req().queries@,
            r.req().override_encoding == self.req().override_encoding,
            r.req().override_charset == self.req().override_charset,
            r.req().timeout == self.req().timeout,
            r.req().method == self.req().method,
            r.req().mode == self.req().mode,
            r.req().uri.host@ == self.req().uri.host@,
            r.req().uri.path@ == self.req().uri.path@,
            r.req().body@ == self.req().body@,
    {
        let r = self.set("User-Agent", value);
        assert(r.req().headers@.drop_last() =~= self.req().headers@);
        r
    }

    /// Sets the request body.
    pub fn send(self, body: &'a [u8]) -> (r: Self)
        ensures
            same_lists(r.req(), self.req()),
            r.req().timeout == self.req().timeout,
            r.req().method == self.req().method,
            r.req().mode == self.req().mode,
            r.req().uri.host@ == self.req().uri.host@,
            r.req().uri.path@ == self.req().uri.path@,
            r.req().body@ == body@,
    {
        let mut request = self.request;
        request.body = body;
        RequestBuilder { request }
    }

    /// The request built.
    pub fn finish(self) -> (r: Request<'a>)
        ensures
            r == self.req(),
    {
        self.request
    }
}

impl<'a> From<RequestBuilder<'a>> for Request<'a> {
    fn from(builder: RequestBuilder<'a>) -> (r: Request<'a>) {
        builder.finish()
    }
}

impl<'a> vstd::std_specs::convert::FromSpecImpl<RequestBuilder<'a>> for Request<'a> {
    open spec fn obeys_from_spec() -> bool {
        true
    }

    open spec fn from_spec(builder: RequestBuilder<'a>) -> Request<'a> {
        builder.req()
    }
}


/// The name a method has on the wire.
pub open spec fn method_text(m: Method) -> Seq<char> {
    match m {
        Method::Get => "GET"@,
        Method::Post => "POST"@,
        Method::Put => "PUT"@,
        Method::Delete => "DELETE"@,
        Method::Patch => "PATCH"@,
        Method::Head => "HEAD"@,
        Method::Options => "OPTIONS"@,
        Method::Trace => "TRACE"@,
    }
}

/// The path without its leading slashes.
pub open spec fn trim_slashes(p: Seq<char>) -> Seq<char>
    decreases p.len(),
{
    if p.len() > 0 && p[0] == '/' {
        trim_slashes(p.drop_first())
    } else {
        p
    }
}

/// `?k1=v1&k2=v2...` for the queries, nothing when there are none.
pub open spec fn query_bytes(qs: Seq<Query>) -> Seq<u8>
    decreases qs.len(),
{
    if qs.len() == 0 {
        Seq::empty()
    } else {
        let sep = if qs.len() == 1 { "?"@ } else { "&"@ };
        query_bytes(qs.drop_last()) + encode_utf8(sep) + encode_utf8(qs.last().name@)
            + encode_utf8("="@) + encode_utf8(qs.last().value@)
    }
}

/// One `name: value\r\n` line for each header, in order.
pub open spec fn header_bytes(hs: Seq<Header>) -> Seq<u8>
    decreases hs.len(),
{
    if hs.len() == 0 {
        Seq::empty()
    } else {
        header_bytes(hs.drop_last()) + encode_utf8(hs.last().name@) + encode_utf8(": "@)
            + encode_utf8(hs.last().value@) + encode_utf8("\r\n"@)
    }
}

/// Some header has this name.
pub open spec fn has_header(hs: Seq<Header>, name: Seq<char>) -> bool {
    exists|i: int| 0 <= i < hs.len() && (#[trigger] hs[i]).name@ == name
}

/// No header is one that the library manages itself.
pub open spec fn no_managed_header(hs: Seq<Header>) -> bool {
    !has_header(hs, "Connection"@) && !has_header(hs, "Content-Length"@)
}

/// The bytes a request is sent as.
pub open spec fn request_bytes(r: Request) -> Seq<u8> {
    encode_utf8(method_text(r.method)) + encode_utf8(" /"@) + encode_utf8(trim_slashes(r.uri.path@))
        + query_bytes(r.queries@) + encode_utf8(" HTTP/1.1\r\nHost: "@) + encode_utf8(r.uri.host@)
        + encode_utf8("\r\n"@) + header_bytes(r.headers@) + encode_utf8("Content-Length: "@)
        + decimal_bytes(r.body@.len()) + encode_utf8("\r\nConnection: close\r\n"@) + (if has_header(
        r.headers@,
        "Accept-Encoding"@,
    ) {
        Seq::empty()
    } else {
        encode_utf8("Accept-Encoding: identity\r\n"@)
    }) + encode_utf8("\r\n"@) + r.body@
}

/// Appends the UTF-8 bytes of `s` to `out`.
fn push_str(out: &mut Vec<u8>, s: &str)
    ensures
        final(out)@ == old(out)@ + encode_utf8(s@),
{
    let b = s.as_bytes();
    let ghost before = out@;
    out.extend_from_slice(b);
    assert(out@ =~= before + encode_utf8(s@));
}

/// The path without its leading slashes.
fn trim_leading_slashes(p: &str) -> (r: &str)
    ensures
        r@ == trim_slashes(p@),
{
    let n = p.unicode_len();
    let mut i: usize = 0;
    assert(p@.subrange(0, n as int) =~= p@);
    while i < n && p.get_char(i) == '/'
        invariant
            n == p@.len(),
            i <= n,
            trim_slashes(p@) == trim_slashes(p@.subrange(i as int, n as int)),
        decreases n - i,
    {
        assert(p@.subrange(i as int, n as int).drop_first() =~= p@.subrange(i as int + 1, n as int));
        i = i + 1;
    }
    let r = p.substring_char(i, n);
    assert(r@.len() == 0 || r@[0] != '/');
    r
}

/// Whether a header of this name is present.
fn find_header(hs: &Vec<Header>, name: &str) -> (r: bool)
    ensures
        r == has_header(hs@, name@),
{
    let mut i: usize = 0;
    while i < hs.len()
        invariant
            i <= hs@.len(),
            forall|j: int| 0 <= j < i ==> (#[trigger] hs@[j]).name@ != name@,
        decreases hs@.len() - i,
    {
        if str_eq(hs[i].name, name) {
            return true;
        }
        i = i + 1;
    }
    false
}

impl<'a> Request<'a> {
    /// A builder with every field at its default.
    pub fn build() -> (r: RequestBuilder<'a>)
        ensures
            is_default_request(r.req()),
    {
        let request = Request {
            timeout: None,
            method: Method::Get,
            mode: Mode::Plain,
            uri: Uri { host: empty_str(), path: empty_str() },
            queries: Vec::new(),
            headers: Vec::new(),
            override_encoding: false,
            override_charset: false,
            body: &[],
        };
        assert(request.body@ =~= Seq::<u8>::empty());
        RequestBuilder { request }
    }

    /// A builder for a `GET` request.
    pub fn get() -> (r: RequestBuilder<'a>)
        ensures
            is_default_request(r.req()),
            r.req().method == Method::Get,
    {
        Request::build().method(Method::Get)
    }

    /// A builder for a `POST` request.
    pub fn post() -> (r: RequestBuilder<'a>)
        ensures
            r.req().method == Method::Post,
            is_default_request(Request { method: Method::Get, ..r.req() }),
    {
        Request::build().method(Method::Post)
    }

    /// Whether the caller set a header the library manages itself
    /// (`Connection` or `Content-Length`); such a request is refused.
    pub fn has_managed_header(&self) -> (r: bool)
        ensures
            r == !no_managed_header(self.headers@),
    {
        find_header(&self.headers, "Connection") || find_header(&self.headers, "Content-Length")
    }

    /// The bytes the request is sent as: the request line with the path
    /// stripped of leading slashes and the queries appended, the `Host`
    /// header, the caller's headers, the managed headers, a blank line and
    /// the body.
    pub fn format(&self) -> (r: Vec<u8>)
        requires
            no_managed_header(self.headers@),
        ensures
            r@ == request_bytes(*self),
    {
        let mut out: Vec<u8> = Vec::new();
        let method = match self.method {
            Method::Get => "GET",
            Method::Post => "POST",
            Method::Put => "PUT",
            Method::Delete => "DELETE",
            Method::Patch => "PATCH",
            Method::Head => "HEAD",
            Method::Options => "OPTIONS",
            Method::Trace => "TRACE",
        };
        push_str(&mut out, method);
        push_str(&mut out, " /");
        push_str(&mut out, trim_leading_slashes(self.uri.path));
        let mut i: usize = 0;
        while i < self.queries.len()
            invariant
                i <= self.queries@.len(),
                out@ == encode_utf8(method_text(self.method)) + encode_utf8(" /"@) + encode_utf8(
                    trim_slashes(self.uri.path@),
                ) + query_bytes(self.queries@.subrange(0, i as int)),
            decreases self.queries@.len() - i,
        {
            let q = &self.queries[i];
            if i == 0 {
                push_str(&mut out, "?");
            } else {
                push_str(&mut out, "&");
            }
            push_str(&mut out, q.name);
            push_str(&mut out, "=");
            push_str(&mut out, q.value);
            assert(self.queries@.subrange(0, i as int + 1).drop_last() =~= self.queries@.subrange(0, i as int));
            i = i + 1;
        }
        assert(self.queries@.subrange(0, i as int) =~= self.queries@);
        push_str(&mut out, " HTTP/1.1\r\nHost: ");
        push_str(&mut out, self.uri.host);
        push_str(&mut out, "\r\n");
        let ghost start = out@;
        let mut j: usize = 0;
        while j < self.headers.len()
            invariant
                j <= self.headers@.len(),
                out@ == start + header_bytes(self.headers@.subrange(0, j as int)),
            decreases self.headers@.len() - j,
        {
            let h = &self.headers[j];
            push_str(&mut out, h.name);
            push_str(&mut out, ": ");
            push_str(&mut out, h.value);
            push_str(&mut out, "\r\n");
            assert(self.headers@.subrange(0, j as int + 1).drop_last() =~= self.headers@.subrange(0, j as int));
            j = j + 1;
        }
        assert(self.headers@.subrange(0, j as int) =~= self.headers@);
        push_str(&mut out, "Content-Length: ");
        push_decimal(&mut out, self.body.len());
        push_str(&mut out, "\r\nConnection: close\r\n");
        if !find_header(&self.headers, "Accept-Encoding") {
            push_str(&mut out, "Accept-Encoding: identity\r\n");
        }
        push_str(&mut out, "\r\n");
        let ghost before = out@;
        out.extend_from_slice(self.body);
        assert(out@ =~= before + self.body@);
        assert(out@ =~= request_bytes(*self));
        out
    }
}


/// A response header, owned.
#[derive(Debug, Clone, PartialEq, Eq)]
pub struct OwnedHeader {
    pub name: String,
    pub value: String,
}

/// The status code and reason phrase of a response.
#[derive(Debug, Clone, PartialEq, Eq)]
pub struct Status {
    pub code: u16,
    pub reason: String,
}

/// The head of a response: status, headers, the advertised
/// `Content-Length` (`0` when absent) and whether the body is chunked.
#[derive(Debug, Clone, PartialEq, Eq)]
pub struct ResponseHead {
    pub status: Status,
    pub headers: Vec<OwnedHeader>,
    pub content_length: usize,
    pub transfer_chunked: bool,
}

/// The values of the headers with this name, in order.
pub open spec fn values_named(hs: Seq<OwnedHeader>, name: Seq<char>) -> Seq<Seq<char>>
    decreases hs.len(),
{
    if hs.len() == 0 {
        Seq::empty()
    } else if hs.last().name@ == name {
        values_named(hs.drop_last(), name).push(hs.last().value@)
    } else {
        values_named(hs.drop_last(), name)
    }
}

impl ResponseHead {
    /// The value of the first header with this name, `None` when there is
    /// none.
    pub fn get_header<'d>(&'d self, name: &str) -> (r: Option<&'d str>)
        ensures
            r is None <==> forall|i: int|
                0 <= i < self.headers@.len() ==> (#[trigger] self.headers@[i]).name@ != name@,
            r is Some ==> exists|i: int|
                0 <= i < self.headers@.len() && (#[trigger] self.headers@[i]).name@ == name@
                    && r->0@ == self.headers@[i].value@ && forall|j: int|
                    0 <= j < i ==> (#[trigger] self.headers@[j]).name@ != name@,
    {
        let mut i: usize = 0;
        while i < self.headers.len()
            invariant
                i <= self.headers@.len(),
                forall|j: int| 0 <= j < i ==> (#[trigger] self.headers@[j]).name@ != name@,
            decreases self.headers@.len() - i,
        {
            let h = &self.headers[i];
            if str_eq(h.name.as_str(), name) {
                return Some(h.value.as_str());
            }
            i = i + 1;
        }
        None
    }

    /// The values of all headers with this name, in order.
    pub fn all_headers<'d>(&'d self, name: &str) -> (r: Vec<&'d str>)
        ensures
            r@.map_values(|v: &str| v@) == values_named(self.headers@, name@),
    {
        let mut out: Vec<&'d str> = Vec::new();
        let mut i: usize = 0;
        while i < self.headers.len()
            invariant
                i <= self.headers@.len(),
                out@.map_values(|v: &str| v@) == values_named(self.headers@.subrange(0, i as int), name@),
            decreases self.headers@.len() - i,
        {
            let h = &self.headers[i];
            let ghost prev = out@;
            assert(self.headers@.subrange(0, i as int + 1).drop_last() =~= self.headers@.subrange(0, i as int));
            if str_eq(h.name.as_str(), name) {
                out.push(h.value.as_str());
                assert(out@.map_values(|v: &str| v@) =~= prev.map_values(|v: &str| v@).push(h.value@));
            }
            i = i + 1;
        }
        assert(self.headers@.subrange(0, i as int) =~= self.headers@);
        out
    }
}

/// One part of a response: the ticket of its request and what arrived.
#[derive(Debug)]
pub struct Response {
    pub id: ReqId,
    pub state: ResponseState,
}

impl Response {
    /// A response event for the request with this ticket.
    pub fn new(id_num: usize, state: ResponseState) -> (r: Self)
        ensures
            r.id.inner == id_num,
            r.state == state,
    {
        Response { id: ReqId { inner: id_num }, state }
    }
}

/// What arrived for a request. A request yields a `Head`, then any number
/// of `Data`, then `Done`; or it ends early with one of the error states.
/// Exactly one of `Done` and the error states ends every request.
#[derive(Debug, PartialEq, Eq)]
pub enum ResponseState {
    /// The response head.
    Head(ResponseHead),
    /// Some of the body.
    Data(Vec<u8>),
    /// The response is complete.
    Done,
    /// The deadline passed.
    TimedOut,
    /// The peer closed the connection before the response was complete.
    Aborted,
    /// The host name does not exist.
    UnknownHost,
    /// The peer or the resolver sent something malformed.
    Error,
}

/// The state ends its request.
pub open spec fn is_terminal(s: ResponseState) -> bool {
    !(s is Head || s is Data)
}

/// The state ends its request in failure.
pub open spec fn is_failure(s: ResponseState) -> bool {
    s is TimedOut || s is Aborted || s is UnknownHost || s is Error
}

impl ResponseState {
    /// True when the request is over: `Done` or an error.
    pub fn is_finished(&self) -> (r: bool)
        ensures
            r == is_terminal(*self),
    {
        self.is_done() || self.is_error()
    }

    /// True for `Done`.
    pub fn is_done(&self) -> (r: bool)
        ensures
            r == (*self is Done),
    {
        match self {
            ResponseState::Done => true,
            _ => false,
        }
    }

    /// True for `TimedOut`, `Aborted`, `UnknownHost` and `Error`.
    pub fn is_error(&self) -> (r: bool)
        ensures
            r == is_failure(*self),
    {
        match self {
            ResponseState::Head(..) => false,
            ResponseState::Data(..) => false,
            ResponseState::Done => false,
            ResponseState::TimedOut => true,
            ResponseState::Aborted => true,
            ResponseState::UnknownHost => true,
            ResponseState::Error => true,
        }
    }
}

} // verus!
