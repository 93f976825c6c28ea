//! Responses and their bytes on the wire.
use crate::text::{decimal, decimal_string};
use vstd::prelude::*;
use vstd::string::StrSliceExecFns;
use vstd::utf8::encode_utf8;

verus! {

/// The statuses this server answers with.
#[derive(Debug, PartialEq, Eq, Structural, Clone, Copy)]
pub enum Status {
    Success,
    BadRequest,
    NotFound,
    InternalServerError,
}

/// The body types this server declares.
#[derive(Debug, PartialEq, Eq, Structural, Clone, Copy)]
pub enum ContentType {
    TextPlain,
    OctetStream,
}

/// A response: a status, and a body whose type and length are declared in
/// headers when `content_type` is set.
pub struct Response {
    pub status: Status,
    pub content_type: Option<ContentType>,
    pub body: Vec<u8>,
}

pub struct ResponseView {
    pub status: Status,
    pub content_type: Option<ContentType>,
    pub body: Seq<u8>,
}

impl View for Response {
    type V = ResponseView;

    open spec fn view(&self) -> ResponseView {
        ResponseView { status: self.status, content_type: self.content_type, body: self.body@ }
    }
}

pub open spec fn status_code(s: Status) -> u16 {
    match s {
        Status::Success => 200,
        Status::BadRequest => 400,
        Status::NotFound => 404,
        Status::InternalServerError => 500,
    }
}

/// The status line, with its line end.
pub open spec fn status_line(s: Status) -> Seq<char> {
    match s {
        Status::Success => "HTTP/1.1 200 OK\r\n"@,
        Status::BadRequest => "HTTP/1.1 400 Bad Request\r\n"@,
        Status::NotFound => "HTTP/1.1 404 NOT FOUND\r\n"@,
        Status::InternalServerError => "HTTP/1.1 500 INTERNAL SERVER ERROR\r\n"@,
    }
}

pub open spec fn content_type_text(c: ContentType) -> Seq<char> {
    match c {
        ContentType::TextPlain => "text/plain"@,
        ContentType::OctetStream => "application/octet-stream"@,
    }
}

/// The head of a response: status line, the two body headers where there is
/// a content type, and the blank line.
pub open spec fn head_text(r: ResponseView) -> Seq<char> {
    status_line(r.status) + match r.content_type {
        Some(c) => "Content-Type: "@ + content_type_text(c) + "\r\n"@ + "Content-Length: "@
            + decimal(r.body.len()) + "\r\n"@,
        None => Seq::empty(),
    } + "\r\n"@
}

/// The bytes of a response: its head in UTF-8, then the body as it is.
pub open spec fn wire(r: ResponseView) -> Seq<u8> {
    encode_utf8(head_text(r)) + r.body
}

impl Status {
    pub fn code(&self) -> (r: u16)
        ensures
            r == status_code(*self),
    {
        match self {
            Status::Success => 200,
            Status::BadRequest => 400,
            Status::NotFound => 404,
            Status::InternalServerError => 500,
        }
    }

    fn line(&self) -> (r: &'static str)
        ensures
            r@ == status_line(*self),
    {
        match self {
            Status::Success => "HTTP/1.1 200 OK\r\n",
            Status::BadRequest => "HTTP/1.1 400 Bad Request\r\n",
            Status::NotFound => "HTTP/1.1 404 NOT FOUND\r\n",
            Status::InternalServerError => "HTTP/1.1 500 INTERNAL SERVER ERROR\r\n",
        }
    }
}

impl ContentType {
    fn text(&self) -> (r: &'static str)
        ensures
            r@ == content_type_text(*self),
    {
        match self {
            ContentType::TextPlain => "text/plain",
            ContentType::OctetStream => "application/octet-stream",
        }
    }
}

impl Response {
    /// A response with no body and no body headers.
    pub fn empty(status: Status) -> (r: Response)
        ensures
            r@ == (ResponseView { status, content_type: None, body: Seq::empty() }),
    {
        Response { status, content_type: None, body: Vec::new() }
    }

    /// A `200 OK` response carrying `body` of type `content_type`.
    pub fn ok_with_body(content_type: ContentType, body: Vec<u8>) -> (r: Response)
        ensures
            r@ == (ResponseView { status: Status::Success, content_type: Some(content_type), body: body@ }),
    {
        Response { status: Status::Success, content_type: Some(content_type), body }
    }

    /// The head of the response as text.
    pub fn head(&self) -> (r: String)
        ensures
            r@ == head_text(self@),
    {
        let mut h = String::from_str(self.status.line());
        match self.content_type {
            Some(c) => {
                h.append("Content-Type: ");
                h.append(c.text());
                h.append("\r\n");
                h.append("Content-Length: ");
                let n = decimal_string(self.body.len());
                h.append(n.as_str());
                h.append("\r\n");
            },
            None => {},
        }
        h.append("\r\n");
        proof {
            let ghost mid = match self.content_type {
                Some(c) => "Content-Type: "@ + content_type_text(c) + "\r\n"@ + "Content-Length: "@
                    + decimal(self.body@.len()) + "\r\n"@,
                None => Seq::empty(),
            };
            assert(h@ =~= status_line(self.status) + mid + "\r\n"@);
        }
        h
    }

    /// The bytes to send: the head in UTF-8, then the body byte for byte.
    pub fn to_bytes(&self) -> (r: Vec<u8>)
        ensures
            r@ == wire(self@),
    {
        let h = self.head();
        let mut out = h.as_str().as_bytes_vec();
        let ghost start = out@;
        let mut i: usize = 0;
        while i < self.body.len()
            invariant
                start == encode_utf8(head_text(self@)),
                i <= self.body@.len(),
                out@ == start + self.body@.subrange(0, i as int),
            decreases self.body@.len() - i,
        {
            out.push(self.body[i]);
            i = i + 1;
            assert(out@ =~= start + self.body@.subrange(0, i as int));
        }
        assert(self.body@.subrange(0, i as int) =~= self.body@);
        out
    }
}

} // verus!
