//! The parsed form of a request's head.
use crate::text::{find, find_first, same_chars, split_words, to_chars, words};
use vstd::prelude::*;

verus! {

/// Why a request head could not be parsed.
#[derive(Debug, PartialEq, Eq, Structural, Clone, Copy)]
pub enum RequestError {
    /// No lines, or a request line with fewer than two words.
    Malformed,
}

/// A request: its method, its path, its headers in the order they came, and
/// the directory that files are served from, if any.
pub struct Request {
    pub method: String,
    pub path: String,
    pub headers: Vec<(String, String)>,
    pub directory: Option<String>,
}

/// What a request means: header names map to the value of their last line.
pub struct RequestView {
    pub method: Seq<char>,
    pub path: Seq<char>,
    pub headers: Map<Seq<char>, Seq<char>>,
    pub directory: Option<Seq<char>>,
}

/// The separator between a header's name and its value.
pub open spec fn header_sep() -> Seq<char> {
    ": "@
}

/// A header line split at the first `": "` into name and value; `None` where
/// the line holds no `": "`.
pub open spec fn header_split(line: Seq<char>) -> Option<(Seq<char>, Seq<char>)> {
    match find_first(line, header_sep()) {
        Some(i) => Some((line.subrange(0, i), line.subrange(i + header_sep().len(), line.len() as int))),
        None => None,
    }
}

/// The (name, value) pairs of the header lines that split, in order.
pub open spec fn parsed_headers(lines: Seq<Seq<char>>) -> Seq<(Seq<char>, Seq<char>)>
    decreases lines.len(),
{
    if lines.len() == 0 {
        seq![]
    } else {
        match header_split(lines.last()) {
            Some(h) => parsed_headers(lines.drop_last()).push(h),
            None => parsed_headers(lines.drop_last()),
        }
    }
}

/// The mapping that the pairs give, each later pair overwriting an earlier one
/// of the same name.
pub open spec fn header_map(h: Seq<(Seq<char>, Seq<char>)>) -> Map<Seq<char>, Seq<char>>
    decreases h.len(),
{
    if h.len() == 0 {
        Map::empty()
    } else {
        header_map(h.drop_last()).insert(h.last().0, h.last().1)
    }
}

/// A request head is well formed when it has a request line of at least two words.
pub open spec fn well_formed_head(lines: Seq<Seq<char>>) -> bool {
    lines.len() > 0 && words(lines[0]).len() >= 2
}

/// The request that the lines of a head describe, with the serving directory.
pub open spec fn request_of(lines: Seq<Seq<char>>, directory: Option<Seq<char>>) -> Option<
    RequestView,
> {
    if well_formed_head(lines) {
        Some(
            RequestView {
                method: words(lines[0])[0],
                path: words(lines[0])[1],
                headers: header_map(parsed_headers(lines.drop_first())),
                directory,
            },
        )
    } else {
        None
    }
}

impl View for Request {
    type V = RequestView;

    open spec fn view(&self) -> RequestView {
        RequestView {
            method: self.method@,
            path: self.path@,
            headers: header_map(self.headers.deep_view()),
            directory: self.directory.deep_view(),
        }
    }
}

/// A header line split at its first `": "`.
pub fn split_header(line: &str) -> (r: Option<(String, String)>)
    ensures
        r.deep_view() == header_split(line@),
{
    let cs = to_chars(line);
    let sep = to_chars(": ");
    match find(&cs, &sep) {
        Some(i) => {
            let n = cs.len();
            let k = sep.len();
            assert(i + k <= n);
            let name = line.substring_char(0, i);
            let value = line.substring_char(i + k, n);
            Some((name.to_string(), value.to_string()))
        },
        None => None,
    }
}

impl Request {
    /// Parses the lines of a request head, the request line first.
    pub fn from_http_request(http_request: Vec<String>, directory: Option<String>) -> (r: Result<
        Request,
        RequestError,
    >)
        ensures
            match r {
                Ok(req) => request_of(http_request.deep_view(), directory.deep_view()) == Some(
                    req@,
                ),
                Err(e) => e == RequestError::Malformed && request_of(
                    http_request.deep_view(),
                    directory.deep_view(),
                ) is None,
            },
    {
        let ghost lines = http_request.deep_view();
        if http_request.len() == 0 {
            return Err(RequestError::Malformed);
        }
        let first = split_words(http_request[0].as_str());
        if first.len() < 2 {
            return Err(RequestError::Malformed);
        }
        let mut headers: Vec<(String, String)> = Vec::new();
        let mut i: usize = 1;
        while i < http_request.len()
            invariant
                lines == http_request.deep_view(),
                1 <= i <= lines.len(),
                headers.deep_view() == parsed_headers(lines.subrange(1, i as int)),
            decreases lines.len() - i,
        {
            let ghost cur = lines.subrange(1, i + 1);
            assert(cur.drop_last() =~= lines.subrange(1, i as int));
            assert(cur.last() == http_request[i as int]@);
            match split_header(http_request[i].as_str()) {
                Some(h) => {
                    headers.push(h);
                    assert(headers.deep_view() =~= parsed_headers(cur));
                },
                None => {},
            }
            i = i + 1;
        }
        assert(lines.subrange(1, lines.len() as int) =~= lines.drop_first());
        let req = Request {
            method: first[0].clone(),
            path: first[1].clone(),
            headers,
            directory,
        };
        assert(req@.headers == header_map(parsed_headers(lines.drop_first())));
        Ok(req)
    }

    /// The value of the last header line named `name`.
    pub fn get_header(&self, name: &str) -> (r: Option<&String>)
        ensures
            match r {
                Some(v) => self@.headers.contains_key(name@) && self@.headers[name@] == v@,
                None => !self@.headers.contains_key(name@),
            },
    {
        let ghost h = self.headers.deep_view();
        let key = to_chars(name);
        let mut j: usize = self.headers.len();
        assert(h.subrange(0, j as int) =~= h);
        while j > 0
            invariant
                h == self.headers.deep_view(),
                key@ == name@,
                j <= h.len(),
                header_map(h).contains_key(name@) == header_map(h.subrange(0, j as int)).contains_key(
                    name@,
                ),
                header_map(h).contains_key(name@) ==> header_map(h)[name@] == header_map(
                    h.subrange(0, j as int),
                )[name@],
            decreases j,
        {
            let ghost cur = h.subrange(0, j as int);
            assert(cur.drop_last() =~= h.subrange(0, j - 1));
            let entry = &self.headers[j - 1];
            assert(cur.last() == h[j - 1]);
            if same_chars(&to_chars(entry.0.as_str()), &key) {
                return Some(&entry.1);
            }
            j = j - 1;
        }
        assert(h.subrange(0, 0) =~= Seq::<(Seq<char>, Seq<char>)>::empty());
        None
    }
}

} // verus!
