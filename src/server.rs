use vstd::prelude::*;
use vstd::utf8::{decode_utf8, encode_utf8};
use crate::text::{
    drop_ascii, find_byte, first_of, lemma_split_bytes_nonempty, pieces_bytes, split_ascii,
    split_at_ascii, split_bytes, split_words, str_eq, trim, trim_ws, words,
};
use vstd::string::StringSliceAdditionalSpecFns;

verus! {

/// An HTTP request method.
#[derive(Debug, Clone, Copy, PartialEq, Eq, Structural)]
pub enum Method {
    GET,
    HEAD,
    POST,
    PUT,
    DELETE,
    CONNECT,
    OPTIONS,
    TRACE,
    PATCH,
}

/// A request path split at each `/`; the first piece is what precedes the leading slash.
pub type Url<'a> = Vec<&'a str>;

/// Splits a request path at each `/`.
pub fn parse_url<'a>(url: &'a str) -> (r: Url<'a>)
    ensures
        pieces_bytes(r@) == split_bytes(url.spec_bytes(), 0x2f),
{
    split_ascii(url, 0x2f)
}

/// Why a request head could not be parsed.
#[derive(Debug, Clone, Copy, PartialEq, Eq, Structural)]
pub enum HttpError {
    /// The head ended before its blank line.
    UnexpectedEof,
    /// The request line is not three whitespace-separated words.
    InvalidRequestLine,
    /// A header line without a colon.
    InvalidHeader,
    /// An unknown method name.
    InvalidMethod,
}

/// The method named by `s`, if it names one.
pub open spec fn method_of(s: Seq<char>) -> Option<Method> {
    if s == "GET"@ {
        Some(Method::GET)
    } else if s == "HEAD"@ {
        Some(Method::HEAD)
    } else if s == "POST"@ {
        Some(Method::POST)
    } else if s == "PUT"@ {
        Some(Method::PUT)
    } else if s == "DELETE"@ {
        Some(Method::DELETE)
    } else if s == "CONNECT"@ {
        Some(Method::CONNECT)
    } else if s == "OPTIONS"@ {
        Some(Method::OPTIONS)
    } else if s == "TRACE"@ {
        Some(Method::TRACE)
    } else if s == "PATCH"@ {
        Some(Method::PATCH)
    } else {
        None
    }
}

impl<'a> TryFrom<&'a str> for Method {
    type Error = HttpError;

    fn try_from(value: &'a str) -> (r: Result<Method, HttpError>) {
        if str_eq(value, "GET") {
            Ok(Method::GET)
        } else if str_eq(value, "HEAD") {
            Ok(Method::HEAD)
        } else if str_eq(value, "POST") {
            Ok(Method::POST)
        } else if str_eq(value, "PUT") {
            Ok(Method::PUT)
        } else if str_eq(value, "DELETE") {
            Ok(Method::DELETE)
        } else if str_eq(value, "CONNECT") {
            Ok(Method::CONNECT)
        } else if str_eq(value, "OPTIONS") {
            Ok(Method::OPTIONS)
        } else if str_eq(value, "TRACE") {
            Ok(Method::TRACE)
        } else if str_eq(value, "PATCH") {
            Ok(Method::PATCH)
        } else {
            Err(HttpError::InvalidMethod)
        }
    }
}

impl<'a> vstd::std_specs::convert::TryFromSpecImpl<&'a str> for Method {
    open spec fn obeys_try_from_spec() -> bool {
        true
    }

    open spec fn try_from_spec(v: &'a str) -> Result<Method, HttpError> {
        match method_of(v@) {
            Some(m) => Ok(m),
            None => Err(HttpError::InvalidMethod),
        }
    }
}

/// A header list seen as pairs of character sequences.
pub open spec fn header_view(h: Seq<(String, String)>) -> Seq<(Seq<char>, Seq<char>)> {
    h.map_values(|p: (String, String)| (p.0@, p.1@))
}

/// The value a header list gives `key`: the last pair with that (case-sensitive) name.
pub open spec fn header_lookup(h: Seq<(Seq<char>, Seq<char>)>, key: Seq<char>) -> Option<Seq<char>>
    decreases h.len(),
{
    if h.len() == 0 {
        None
    } else if h.last().0 == key {
        Some(h.last().1)
    } else {
        header_lookup(h.drop_last(), key)
    }
}

/// A parsed HTTP request head.
#[derive(Debug)]
pub struct Request {
    pub method: Method,
    pub path: String,
    pub ver: String,
    /// Header names and values in arrival order; a later pair overrides an earlier one.
    pub headers: Vec<(String, String)>,
}

/// The header pairs given by the lines of a request head from line `i` on, up to the blank
/// line (a lone carriage return). Each line but the last was followed by a line feed.
pub open spec fn header_pairs(p: Seq<Seq<u8>>, i: int) -> Result<
    Seq<(Seq<u8>, Seq<u8>)>,
    HttpError,
>
    decreases p.len() - i,
{
    if i < 0 || i >= p.len() {
        Err(HttpError::UnexpectedEof)
    } else if i == p.len() - 1 {
        if p[i].len() > 0 && first_of(p[i], 58) == p[i].len() {
            Err(HttpError::InvalidHeader)
        } else {
            Err(HttpError::UnexpectedEof)
        }
    } else if p[i] == seq![13u8] {
        Ok(Seq::empty())
    } else {
        let l = p[i];
        let k = first_of(l, 58);
        if k >= l.len() {
            Err(HttpError::InvalidHeader)
        } else {
            match header_pairs(p, i + 1) {
                Ok(h) => Ok(seq![(l.take(k), trim_ws(l.skip(k + 1)))] + h),
                Err(e) => Err(e),
            }
        }
    }
}

/// A request head parsed as bytes: the words of its request line and its header pairs.
pub open spec fn parse_head(b: Seq<u8>) -> Result<(Seq<Seq<u8>>, Seq<(Seq<u8>, Seq<u8>)>), HttpError> {
    let p = split_bytes(b, 10);
    if b.len() == 0 {
        Err(HttpError::UnexpectedEof)
    } else if words(p[0]).len() != 3 {
        Err(HttpError::InvalidRequestLine)
    } else {
        match header_pairs(p, 1) {
            Ok(h) => Ok((words(p[0]), h)),
            Err(e) => Err(e),
        }
    }
}

/// A header list seen as pairs of UTF-8 byte sequences.
pub open spec fn header_bytes_view(h: Seq<(String, String)>) -> Seq<(Seq<u8>, Seq<u8>)> {
    h.map_values(|p: (String, String)| (encode_utf8(p.0@), encode_utf8(p.1@)))
}

impl Request {
    /// Parses a request head: the request line (method, path and version separated by ASCII
    /// whitespace), then `name: value` lines, each ended by a line feed, up to a line holding
    /// only a carriage return. Names are kept as written; values lose surrounding whitespace.
    pub fn parse(head: &str) -> (r: Result<Request, HttpError>)
        ensures
            match parse_head(head.spec_bytes()) {
                Err(e) => r == Err::<Request, HttpError>(e),
                Ok((w, h)) => match method_of(vstd::utf8::decode_utf8(w[0])) {
                    None => r == Err::<Request, HttpError>(HttpError::InvalidMethod),
                    Some(m) => r is Ok && r->Ok_0.method == m && encode_utf8(r->Ok_0.path@) == w[1]
                        && encode_utf8(r->Ok_0.ver@) == w[2] && header_bytes_view(r->Ok_0.headers@)
                        == h,
                },
            },
    {
        broadcast use vstd::utf8::group_utf8_lib;

        if head.as_bytes().len() == 0 {
            return Err(HttpError::UnexpectedEof);
        }
        let lines = split_ascii(head, 10);
        let ghost p = split_bytes(head.spec_bytes(), 10);
        proof {
            lemma_split_bytes_nonempty(head.spec_bytes(), 10);
        }
        assert(lines@[0].spec_bytes() == p[0]);
        let w = split_words(lines[0]);
        if w.len() != 3 {
            return Err(HttpError::InvalidRequestLine);
        }
        let mut headers: Vec<(String, String)> = Vec::new();
        let mut i: usize = 1;
        loop
            invariant
                1 <= i,
                pieces_bytes(lines@) == p,
                p == split_bytes(head.spec_bytes(), 10),
                head.spec_bytes().len() > 0,
                pieces_bytes(w@) == words(p[0]),
                w@.len() == 3,
                p.len() >= 1,
                header_pairs(p, 1) == match header_pairs(p, i as int) {
                    Ok(h) => Ok(header_bytes_view(headers@) + h),
                    Err(e) => Err(e),
                },
            decreases p.len() - i,
        {
            if i >= lines.len() {
                return Err(HttpError::UnexpectedEof);
            }
            let l = lines[i];
            assert(l.spec_bytes() == p[i as int]);
            let k = find_byte(l, 58);
            let n = l.as_bytes().len();
            if i == lines.len() - 1 {
                if n > 0 && k == n {
                    return Err(HttpError::InvalidHeader);
                }
                return Err(HttpError::UnexpectedEof);
            }
            if n == 1 && l.as_bytes()[0] == 13 {
                proof {
                    assert(p[i as int] =~= seq![13u8]);
                    assert(header_bytes_view(headers@) + Seq::<(Seq<u8>, Seq<u8>)>::empty()
                        =~= header_bytes_view(headers@));
                    assert(header_pairs(p, i as int) == Ok::<Seq<(Seq<u8>, Seq<u8>)>, HttpError>(Seq::empty()));
                }
                return Request::finish(&w, headers);
            }
            assert(p[i as int] != seq![13u8]);
            if k == n {
                return Err(HttpError::InvalidHeader);
            }
            let (key, rest) = split_at_ascii(l, k);
            let val = trim(drop_ascii(rest));
            let ghost before = headers@;
            headers.push((key.to_owned(), val.to_owned()));
            proof {
                let lb = p[i as int];
                assert(rest.spec_bytes().skip(1) =~= lb.skip(k + 1));
                assert(header_bytes_view(headers@) =~= header_bytes_view(before).push((lb.take(k as int), trim_ws(lb.skip(k + 1)))));
                match header_pairs(p, i + 1) {
                    Ok(h) => {
                        assert(header_bytes_view(before) + (seq![(lb.take(k as int), trim_ws(lb.skip(k + 1)))] + h) =~= header_bytes_view(headers@) + h);
                    },
                    Err(_) => {},
                }
            }
            i = i + 1;
        }
    }

    fn finish(w: &Vec<&str>, headers: Vec<(String, String)>) -> (r: Result<Request, HttpError>)
        requires
            w@.len() == 3,
        ensures
            match method_of(decode_utf8(w@[0].spec_bytes())) {
                None => r == Err::<Request, HttpError>(HttpError::InvalidMethod),
                Some(m) => r is Ok && r->Ok_0.method == m && encode_utf8(r->Ok_0.path@)
                    == w@[1].spec_bytes() && encode_utf8(r->Ok_0.ver@) == w@[2].spec_bytes()
                    && r->Ok_0.headers@ == headers@,
            },
    {
        broadcast use vstd::utf8::group_utf8_lib;

        assert(decode_utf8(w@[0].spec_bytes()) == w@[0]@);
        let method = match Method::try_from(w[0]) {
            Ok(m) => m,
            Err(_) => {
                return Err(HttpError::InvalidMethod);
            },
        };
        Ok(Request { method, path: w[1].to_owned(), ver: w[2].to_owned(), headers })
    }

    /// The value of header `key`, matched case-sensitively; a later occurrence wins.
    pub fn header(&self, key: &str) -> (r: Option<String>)
        ensures
            match header_lookup(header_view(self.headers@), key@) {
                Some(v) => r is Some && r->Some_0@ == v,
                None => r is None,
            },
    {
        let k: String = key.to_owned();
        let mut i: usize = self.headers.len();
        assert(self.headers@.subrange(0, i as int) =~= self.headers@);
        while i > 0
            invariant
                i <= self.headers@.len(),
                k@ == key@,
                header_lookup(header_view(self.headers@), key@) == header_lookup(
                    header_view(self.headers@.subrange(0, i as int)),
                    key@,
                ),
            decreases i,
        {
            let ghost h = header_view(self.headers@.subrange(0, i as int));
            assert(h.drop_last() =~= header_view(self.headers@.subrange(0, i - 1)));
            if self.headers[i - 1].0 == k {
                return Some(self.headers[i - 1].1.clone());
            }
            i = i - 1;
        }
        None
    }
}

/// Decimal digits of `n`, most significant first, as ASCII bytes.
pub open spec fn decimal(n: nat) -> Seq<u8>
    decreases n,
{
    if n < 10 {
        seq![(48 + n) as u8]
    } else {
        decimal(n / 10).push((48 + n % 10) as u8)
    }
}

fn push_decimal(out: &mut Vec<u8>, n: u16)
    ensures
        final(out)@ == old(out)@ + decimal(n as nat),
    decreases n,
{
    if n >= 10 {
        push_decimal(out, n / 10);
    }
    out.push(48u8 + (n % 10) as u8);
    assert(final(out)@ =~= old(out)@ + decimal(n as nat));
}

/// The header lines of a response: `name: value` and a line feed for each.
pub open spec fn header_lines(h: Seq<(Seq<char>, Seq<char>)>) -> Seq<u8>
    decreases h.len(),
{
    if h.len() == 0 {
        Seq::empty()
    } else {
        header_lines(h.drop_last()) + encode_utf8(h.last().0) + seq![58u8, 32u8] + encode_utf8(
            h.last().1,
        ) + seq![10u8]
    }
}

/// An HTTP response under construction.
#[derive(Debug)]
pub struct Response {
    pub version: String,
    pub status: u16,
    pub headers: Vec<(String, String)>,
    pub body: Option<Vec<u8>>,
}

/// The bytes of a response: status line, header lines, a blank line, then the body.
pub open spec fn response_bytes(
    version: Seq<char>,
    status: u16,
    headers: Seq<(Seq<char>, Seq<char>)>,
    body: Option<Seq<u8>>,
) -> Seq<u8> {
    encode_utf8(version) + seq![32u8] + decimal(status as nat) + seq![10u8] + header_lines(headers)
        + seq![13u8, 10u8] + match body {
        Some(b) => b,
        None => Seq::empty(),
    }
}

impl Response {
    pub open spec fn spec_bytes(&self) -> Seq<u8> {
        response_bytes(
            self.version@,
            self.status,
            header_view(self.headers@),
            match self.body {
                Some(b) => Some(b@),
                None => None,
            },
        )
    }

    /// A response with a status line and nothing else.
    pub fn new(version: &str, status: u16) -> (r: Response)
        ensures
            r.version@ == version@,
            r.status == status,
            r.headers@.len() == 0,
            r.body is None,
    {
        Response { version: version.to_owned(), status, headers: Vec::new(), body: None }
    }

    /// The response with one more header line.
    pub fn header(self, key: &str, value: &str) -> (r: Response)
        ensures
            r.version == self.version,
            r.status == self.status,
            header_view(r.headers@) == header_view(self.headers@).push((key@, value@)),
            r.body == self.body,
    {
        let mut s = self;
        let ghost h0 = s.headers@;
        s.headers.push((key.to_owned(), value.to_owned()));
        assert(header_view(s.headers@) =~= header_view(h0).push((key@, value@)));
        s
    }

    /// The response with a body.
    pub fn body(self, body: &[u8]) -> (r: Response)
        ensures
            r.version == self.version,
            r.status == self.status,
            r.headers == self.headers,
            r.body is Some && r.body->Some_0@ == body@,
    {
        let mut s = self;
        let mut b: Vec<u8> = Vec::new();
        b.extend_from_slice(body);
        s.body = Some(b);
        s
    }

    /// The response as bytes on the wire.
    pub fn bytes(&self) -> (r: Vec<u8>)
        ensures
            r@ == self.spec_bytes(),
    {
        let mut out: Vec<u8> = Vec::new();
        out.extend_from_slice(self.version.as_str().as_bytes());
        out.push(32u8);
        push_decimal(&mut out, self.status);
        out.push(10u8);
        let ghost start = out@;
        let mut i: usize = 0;
        while i < self.headers.len()
            invariant
                i <= self.headers@.len(),
                out@ == start + header_lines(header_view(self.headers@.subrange(0, i as int))),
            decreases self.headers@.len() - i,
        {
            let ghost prev = header_view(self.headers@.subrange(0, i as int));
            let ghost next = header_view(self.headers@.subrange(0, i + 1));
            assert(next.drop_last() =~= prev);
            out.extend_from_slice(self.headers[i].0.as_str().as_bytes());
            out.push(58u8);
            out.push(32u8);
            out.extend_from_slice(self.headers[i].1.as_str().as_bytes());
            out.push(10u8);
            assert(out@ =~= start + header_lines(next));
            i = i + 1;
        }
        assert(self.headers@.subrange(0, i as int) =~= self.headers@);
        out.push(13u8);
        out.push(10u8);
        match &self.body {
            Some(b) => out.extend_from_slice(b.as_slice()),
            None => {},
        }
        assert(out@ =~= self.spec_bytes());
        out
    }
}

} // verus!
