//! Routing and the route handlers: from a request to what the connection
//! should do next.
use crate::request::{request_of, well_formed_head, Request, RequestError, RequestView};
use crate::response::{content_type_text, head_text, status_line, wire, ContentType, Response, ResponseView, Status};
use crate::text::{decimal, find, find_first, occurs_at, same_chars, starts_with, to_chars};
use vstd::prelude::*;
use vstd::string::StrSliceExecFns;
use vstd::utf8::encode_utf8;

verus! {

/// The handler a path is dispatched to.
#[derive(Debug, PartialEq, Eq, Structural, Clone, Copy)]
pub enum Route {
    Root,
    Echo,
    UserAgent,
    Files,
    NotFound,
}

/// What the connection does next: send a response, or read a file and hand
/// its contents (or the failure) to `file_response`.
pub enum Action {
    Respond(Response),
    ReadFile(String),
}

pub enum ActionView {
    Respond(ResponseView),
    ReadFile(Seq<char>),
}

impl View for Action {
    type V = ActionView;

    open spec fn view(&self) -> ActionView {
        match self {
            Action::Respond(r) => ActionView::Respond(r@),
            Action::ReadFile(p) => ActionView::ReadFile(p@),
        }
    }
}

/// The first rule that matches, in order: `/` exactly, a `/echo` prefix,
/// `/user-agent` exactly, a `/files` prefix; else not found.
pub open spec fn route_of(p: Seq<char>) -> Route {
    if p == "/"@ {
        Route::Root
    } else if occurs_at(p, "/echo"@, 0) {
        Route::Echo
    } else if p == "/user-agent"@ {
        Route::UserAgent
    } else if occurs_at(p, "/files"@, 0) {
        Route::Files
    } else {
        Route::NotFound
    }
}

/// The path with its first `/echo/` taken out; the whole path where there is none.
pub open spec fn echo_text(p: Seq<char>) -> Seq<char> {
    match find_first(p, "/echo/"@) {
        Some(i) => p.subrange(0, i) + p.subrange(i + "/echo/"@.len(), p.len() as int),
        None => p,
    }
}

pub open spec fn bare(s: Status) -> ResponseView {
    ResponseView { status: s, content_type: None, body: Seq::empty() }
}

pub open spec fn plain_text(t: Seq<char>) -> ResponseView {
    ResponseView {
        status: Status::Success,
        content_type: Some(ContentType::TextPlain),
        body: encode_utf8(t),
    }
}

/// The header that the user-agent route reflects.
pub open spec fn user_agent_key() -> Seq<char> {
    "User-Agent"@
}

/// The file a `/files/` path names, below the serving directory.
pub open spec fn file_path(directory: Seq<char>, path: Seq<char>) -> Seq<char> {
    directory + "/"@ + path.subrange("/files/"@.len() as int, path.len() as int)
}

/// The file route: `500` without a serving directory, `404` for a path
/// outside `/files/`, else the file to read.
pub open spec fn files_action(req: RequestView) -> ActionView {
    match req.directory {
        None => ActionView::Respond(bare(Status::InternalServerError)),
        Some(d) => if occurs_at(req.path, "/files/"@, 0) {
            ActionView::ReadFile(file_path(d, req.path))
        } else {
            ActionView::Respond(bare(Status::NotFound))
        },
    }
}

/// The response to a file read: its bytes as they are, or `404` where the
/// read failed.
pub open spec fn file_reply(contents: Option<Seq<u8>>) -> ResponseView {
    match contents {
        Some(b) => ResponseView {
            status: Status::Success,
            content_type: Some(ContentType::OctetStream),
            body: b,
        },
        None => bare(Status::NotFound),
    }
}

/// What a request asks of the connection.
pub open spec fn request_action(req: RequestView) -> ActionView {
    match route_of(req.path) {
        Route::Root => ActionView::Respond(bare(Status::Success)),
        Route::Echo => ActionView::Respond(plain_text(echo_text(req.path))),
        Route::UserAgent => if req.headers.contains_key(user_agent_key()) {
            ActionView::Respond(plain_text(req.headers[user_agent_key()]))
        } else {
            ActionView::Respond(bare(Status::BadRequest))
        },
        Route::Files => files_action(req),
        Route::NotFound => ActionView::Respond(bare(Status::NotFound)),
    }
}

/// What the lines of a request head ask of the connection: `400` where they
/// do not parse.
pub open spec fn head_action(lines: Seq<Seq<char>>, directory: Option<Seq<char>>) -> ActionView {
    match request_of(lines, directory) {
        Some(req) => request_action(req),
        None => ActionView::Respond(bare(Status::BadRequest)),
    }
}

/// The handler for `path`.
pub fn route(path: &str) -> (r: Route)
    ensures
        r == route_of(path@),
{
    let p = to_chars(path);
    if same_chars(&p, &to_chars("/")) {
        Route::Root
    } else if starts_with(&p, &to_chars("/echo")) {
        Route::Echo
    } else if same_chars(&p, &to_chars("/user-agent")) {
        Route::UserAgent
    } else if starts_with(&p, &to_chars("/files")) {
        Route::Files
    } else {
        Route::NotFound
    }
}

/// `text` as a `200 OK` plain-text response.
fn plain_text_response(text: &str) -> (r: Response)
    ensures
        r@ == plain_text(text@),
{
    Response::ok_with_body(ContentType::TextPlain, text.as_bytes_vec())
}

/// The response to a file read: `Some` with the file's bytes, `None` where
/// the file could not be read.
pub fn file_response(contents: Option<Vec<u8>>) -> (r: Response)
    ensures
        r@ == file_reply(contents.deep_view()),
{
    match contents {
        Some(b) => {
            assert(b.deep_view() =~= b@);
            Response::ok_with_body(ContentType::OctetStream, b)
        },
        None => Response::empty(Status::NotFound),
    }
}

impl Request {
    /// `200 OK` with no body.
    pub fn handle_root(&self) -> (r: Response)
        ensures
            r@ == bare(Status::Success),
    {
        Response::empty(Status::Success)
    }

    /// The path with its first `/echo/` taken out, as plain text.
    pub fn handle_echo(&self) -> (r: Response)
        ensures
            r@ == plain_text(echo_text(self@.path)),
    {
        let p = to_chars(self.path.as_str());
        let pat = to_chars("/echo/");
        match find(&p, &pat) {
            Some(i) => {
                let n = p.len();
                let k = pat.len();
                assert(i + k <= n);
                let head = self.path.as_str().substring_char(0, i);
                let tail = self.path.as_str().substring_char(i + k, n);
                let text = head.to_string().concat(tail);
                plain_text_response(text.as_str())
            },
            None => plain_text_response(self.path.as_str()),
        }
    }

    /// The `User-Agent` header's value as plain text; `400` where the
    /// request has none.
    pub fn handle_user_agent(&self) -> (r: Response)
        ensures
            self@.headers.contains_key(user_agent_key()) ==> r@ == plain_text(
                self@.headers[user_agent_key()],
            ),
            !self@.headers.contains_key(user_agent_key()) ==> r@ == bare(Status::BadRequest),
    {
        match self.get_header("User-Agent") {
            Some(v) => plain_text_response(v.as_str()),
            None => Response::empty(Status::BadRequest),
        }
    }

    /// `404 NOT FOUND` with no body.
    pub fn handle_not_found(&self) -> (r: Response)
        ensures
            r@ == bare(Status::NotFound),
    {
        Response::empty(Status::NotFound)
    }

    /// The file route: the file to read, or the response where there is none.
    pub fn handle_files(&self) -> (r: Action)
        ensures
            r@ == files_action(self@),
    {
        match &self.directory {
            None => Action::Respond(Response::empty(Status::InternalServerError)),
            Some(d) => {
                let p = to_chars(self.path.as_str());
                let prefix = to_chars("/files/");
                if starts_with(&p, &prefix) {
                    let mut target = d.clone();
                    target.append("/");
                    target.append(self.path.as_str().substring_char(prefix.len(), p.len()));
                    Action::ReadFile(target)
                } else {
                    Action::Respond(Response::empty(Status::NotFound))
                }
            },
        }
    }

    /// Dispatches the request to its handler.
    pub fn handle_request(&self) -> (r: Action)
        ensures
            r@ == request_action(self@),
    {
        match route(self.path.as_str()) {
            Route::Root => Action::Respond(self.handle_root()),
            Route::Echo => Action::Respond(self.handle_echo()),
            Route::UserAgent => Action::Respond(self.handle_user_agent()),
            Route::Files => self.handle_files(),
            Route::NotFound => Action::Respond(self.handle_not_found()),
        }
    }
}

/// What a connection does with the lines of its request head: the action of
/// the parsed request, or `400` where the head does not parse.
pub fn handle_head(http_request: Vec<String>, directory: Option<String>) -> (r: Action)
    ensures
        r@ == head_action(http_request.deep_view(), directory.deep_view()),
{
    match Request::from_http_request(http_request, directory) {
        Ok(req) => req.handle_request(),
        Err(RequestError::Malformed) => Action::Respond(Response::empty(Status::BadRequest)),
    }
}

/// A path that is not `/`, does not begin with `/echo`, is not `/user-agent`
/// and does not begin with `/files` is answered `404 NOT FOUND`.
pub proof fn lemma_unrouted_path_not_found(req: RequestView)
    requires
        req.path != "/"@,
        !occurs_at(req.path, "/echo"@, 0),
        req.path != "/user-agent"@,
        !occurs_at(req.path, "/files"@, 0),
    ensures
        request_action(req) == ActionView::Respond(bare(Status::NotFound)),
{
}

/// A path under `/files` is answered `500 INTERNAL SERVER ERROR` when no
/// serving directory is configured.
pub proof fn lemma_files_without_directory(req: RequestView)
    requires
        occurs_at(req.path, "/files"@, 0),
        req.directory is None,
    ensures
        request_action(req) == ActionView::Respond(bare(Status::InternalServerError)),
{
    reveal_strlit("/");
    reveal_strlit("/echo");
    reveal_strlit("/files");
    reveal_strlit("/user-agent");
    assert(req.path.subrange(0, 6)[1] == 'f');
    assert(req.path != "/"@);
    assert(!occurs_at(req.path, "/echo"@, 0)) by {
        if occurs_at(req.path, "/echo"@, 0) {
            assert(req.path.subrange(0, 5)[1] == 'e');
        }
    }
}

/// Requesting `/files/<name>` with a serving directory reads
/// `<directory>/<name>`, and whatever bytes that read gives are sent back
/// byte for byte under `200 OK`, with their count as `Content-Length`.
pub proof fn lemma_file_round_trip(req: RequestView, name: Seq<char>, b: Seq<u8>)
    requires
        req.path == "/files/"@ + name,
        req.directory is Some,
    ensures
        request_action(req) == ActionView::ReadFile(req.directory->0 + "/"@ + name),
        file_reply(Some(b)).status == Status::Success,
        file_reply(Some(b)).body == b,
        wire(file_reply(Some(b))) == encode_utf8(
            status_line(Status::Success) + "Content-Type: "@ + content_type_text(
                ContentType::OctetStream,
            ) + "\r\n"@ + "Content-Length: "@ + decimal(b.len()) + "\r\n"@ + "\r\n"@,
        ) + b,
{
    reveal_strlit("/");
    reveal_strlit("/echo");
    reveal_strlit("/files");
    reveal_strlit("/files/");
    reveal_strlit("/user-agent");
    let p = req.path;
    assert(p[1] == 'f');
    assert(p != "/"@);
    assert(p.subrange(0, 6) =~= "/files"@);
    assert(p.subrange(0, 7) =~= "/files/"@);
    assert(!occurs_at(p, "/echo"@, 0)) by {
        if occurs_at(p, "/echo"@, 0) {
            assert(p.subrange(0, 5)[1] == 'e');
        }
    }
    assert(p.subrange(7, p.len() as int) =~= name);
    let r = file_reply(Some(b));
    assert(head_text(r) =~= status_line(Status::Success) + "Content-Type: "@ + content_type_text(
        ContentType::OctetStream,
    ) + "\r\n"@ + "Content-Length: "@ + decimal(b.len()) + "\r\n"@ + "\r\n"@);
}

/// A request head with no lines, or whose request line has fewer than two
/// words, is answered with the head `HTTP/1.1 400 Bad Request` and an empty
/// body.
pub proof fn lemma_malformed_head_bad_request(lines: Seq<Seq<char>>, directory: Option<Seq<char>>)
    requires
        !well_formed_head(lines),
    ensures
        head_action(lines, directory) == ActionView::Respond(bare(Status::BadRequest)),
        head_text(bare(Status::BadRequest)) == "HTTP/1.1 400 Bad Request\r\n"@ + "\r\n"@,
        wire(bare(Status::BadRequest)) == encode_utf8(
            "HTTP/1.1 400 Bad Request\r\n"@ + "\r\n"@,
        ),
{
    assert(head_text(bare(Status::BadRequest)) =~= "HTTP/1.1 400 Bad Request\r\n"@ + "\r\n"@);
    assert(wire(bare(Status::BadRequest)) =~= encode_utf8(
        "HTTP/1.1 400 Bad Request\r\n"@ + "\r\n"@,
    ));
}

} // verus!
