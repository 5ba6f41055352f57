//! The plain values that flow through a handler tower: the method key of a
//! route, the request, the uniform response, the error, and the capability of
//! becoming a response.
use vstd::prelude::*;
use vstd::string::StrSliceExecFns;
use vstd::utf8::encode_utf8;

verus! {

/// One of the nine standard HTTP verbs. A route table is keyed by it.
#[allow(clippy::upper_case_acronyms)]
#[derive(Clone, Copy, Debug, PartialEq, Eq, Hash, Structural)]
pub enum Method {
    GET,
    POST,
    PUT,
    DELETE,
    HEAD,
    OPTIONS,
    CONNECT,
    PATCH,
    TRACE,
}

impl Method {
    /// The place of the verb in the standard order, from 0 to 8.
    pub open spec fn ordinal(self) -> nat {
        match self {
            Method::GET => 0,
            Method::POST => 1,
            Method::PUT => 2,
            Method::DELETE => 3,
            Method::HEAD => 4,
            Method::OPTIONS => 5,
            Method::CONNECT => 6,
            Method::PATCH => 7,
            Method::TRACE => 8,
        }
    }

    /// The nine verbs in the standard order.
    pub open spec fn standard() -> Seq<Method> {
        seq![
            Method::GET,
            Method::POST,
            Method::PUT,
            Method::DELETE,
            Method::HEAD,
            Method::OPTIONS,
            Method::CONNECT,
            Method::PATCH,
            Method::TRACE,
        ]
    }

    /// The nine verbs in the standard order.
    pub fn all() -> (verbs: [Method; 9])
        ensures
            verbs@ == Method::standard(),
    {
        [
            Method::GET,
            Method::POST,
            Method::PUT,
            Method::DELETE,
            Method::HEAD,
            Method::OPTIONS,
            Method::CONNECT,
            Method::PATCH,
            Method::TRACE,
        ]
    }
}

/// A header line: name and value.
pub type Header = (String, String);

/// What a header list holds, as mathematical text.
pub open spec fn headers_view(headers: Seq<Header>) -> Seq<(Seq<char>, Seq<char>)> {
    Seq::new(headers.len(), |i: int| (headers[i].0@, headers[i].1@))
}

/// A copy of a header list, line for line.
fn copy_headers(headers: &Vec<Header>) -> (copy: Vec<Header>)
    ensures
        copy@ == headers@,
{
    let mut copy: Vec<Header> = Vec::new();
    let mut i: usize = 0;
    while i < headers.len()
        invariant
            i <= headers.len(),
            copy@ == headers@.take(i as int),
        decreases headers.len() - i,
    {
        copy.push((headers[i].0.clone(), headers[i].1.clone()));
        assert(copy@ =~= headers@.take(i as int + 1));
        i += 1;
    }
    assert(headers@.take(headers@.len() as int) =~= headers@);
    copy
}

/// A copy of a byte string.
fn copy_bytes(bytes: &Vec<u8>) -> (copy: Vec<u8>)
    ensures
        copy@ == bytes@,
{
    let copy = bytes.clone();
    assert(copy@ =~= bytes@);
    copy
}

/// The raw request that enters a handler tower.
#[derive(Debug, PartialEq, Eq)]
pub struct Request {
    pub method: Method,
    pub path: String,
    pub headers: Vec<Header>,
    pub body: Vec<u8>,
}

/// The mathematical content of a [`Request`].
pub struct RequestView {
    pub method: Method,
    pub path: Seq<char>,
    pub headers: Seq<(Seq<char>, Seq<char>)>,
    pub body: Seq<u8>,
}

impl View for Request {
    type V = RequestView;

    open spec fn view(&self) -> RequestView {
        RequestView {
            method: self.method,
            path: self.path@,
            headers: headers_view(self.headers@),
            body: self.body@,
        }
    }
}

impl Clone for Request {
    fn clone(&self) -> (copy: Request)
        ensures
            copy@ == self@,
    {
        Request {
            method: self.method,
            path: self.path.clone(),
            headers: copy_headers(&self.headers),
            body: copy_bytes(&self.body),
        }
    }
}

impl Default for Request {
    /// A `GET` request with an empty path, no header and an empty body.
    fn default() -> (req: Request)
        ensures
            req@ == (RequestView {
                method: Method::GET,
                path: Seq::empty(),
                headers: Seq::empty(),
                body: Seq::empty(),
            }),
    {
        let req = Request {
            method: Method::GET,
            path: String::new(),
            headers: Vec::new(),
            body: Vec::new(),
        };
        assert(req@.headers =~= Seq::empty());
        req
    }
}

/// The uniform response that leaves a handler tower.
#[derive(Debug, PartialEq, Eq)]
pub struct Response {
    pub status: u16,
    pub headers: Vec<Header>,
    pub body: Vec<u8>,
}

/// The mathematical content of a [`Response`].
pub struct ResponseView {
    pub status: u16,
    pub headers: Seq<(Seq<char>, Seq<char>)>,
    pub body: Seq<u8>,
}

impl ResponseView {
    /// A response with the given status, no header and an empty body.
    pub open spec fn bare(status: u16) -> ResponseView {
        ResponseView { status, headers: Seq::empty(), body: Seq::empty() }
    }
}

impl View for Response {
    type V = ResponseView;

    open spec fn view(&self) -> ResponseView {
        ResponseView {
            status: self.status,
            headers: headers_view(self.headers@),
            body: self.body@,
        }
    }
}

impl Clone for Response {
    fn clone(&self) -> (copy: Response)
        ensures
            copy@ == self@,
    {
        Response {
            status: self.status,
            headers: copy_headers(&self.headers),
            body: copy_bytes(&self.body),
        }
    }
}

impl Default for Response {
    /// The response with status 200, no header and an empty body.
    fn default() -> (res: Response)
        ensures
            res@ == ResponseView::bare(200),
    {
        let res = Response { status: 200, headers: Vec::new(), body: Vec::new() };
        assert(res@.headers =~= Seq::empty());
        res
    }
}

/// An ordinary failure of a handler. It carries the status and the text of
/// the response that stands for it.
#[derive(Debug, PartialEq, Eq)]
pub struct Error {
    pub status: u16,
    pub message: String,
}

impl Clone for Error {
    fn clone(&self) -> (copy: Error)
        ensures
            copy.status == self.status,
            copy.message@ == self.message@,
    {
        Error { status: self.status, message: self.message.clone() }
    }
}

/// The capability of becoming the uniform response. Every output and every
/// error that takes part in a registration has it.
pub trait IntoResponse: Sized {
    /// The content of the response that this value becomes.
    spec fn response(self) -> ResponseView;

    fn into_response(self) -> (res: Response)
        ensures
            res@ == self.response(),
    ;
}

impl IntoResponse for Response {
    open spec fn response(self) -> ResponseView {
        self@
    }

    fn into_response(self) -> (res: Response) {
        self
    }
}

impl IntoResponse for () {
    open spec fn response(self) -> ResponseView {
        ResponseView::bare(200)
    }

    fn into_response(self) -> (res: Response) {
        let res = Response { status: 200, headers: Vec::new(), body: Vec::new() };
        assert(res@.headers =~= Seq::empty());
        res
    }
}

impl IntoResponse for Vec<u8> {
    open spec fn response(self) -> ResponseView {
        ResponseView { status: 200, headers: Seq::empty(), body: self@ }
    }

    fn into_response(self) -> (res: Response) {
        let res = Response { status: 200, headers: Vec::new(), body: self };
        assert(res@.headers =~= Seq::empty());
        res
    }
}

impl IntoResponse for Error {
    open spec fn response(self) -> ResponseView {
        ResponseView {
            status: self.status,
            headers: Seq::empty(),
            body: encode_utf8(self.message@),
        }
    }

    fn into_response(self) -> (res: Response) {
        let body = self.message.as_str().as_bytes_vec();
        let res = Response { status: self.status, headers: Vec::new(), body };
        assert(res@.headers =~= Seq::empty());
        res
    }
}

/// A result becomes the response of what it holds, success or failure.
impl<T: IntoResponse, E: IntoResponse> IntoResponse for Result<T, E> {
    open spec fn response(self) -> ResponseView {
        match self {
            Ok(value) => value.response(),
            Err(e) => e.response(),
        }
    }

    fn into_response(self) -> (res: Response) {
        match self {
            Ok(value) => value.into_response(),
            Err(e) => e.into_response(),
        }
    }
}

} // verus!
