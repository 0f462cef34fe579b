use vstd::prelude::*;
use crate::server::Response;
use crate::text::str_eq;

verus! {

/// What a request path asks for.
#[derive(Debug)]
pub enum Route<'a> {
    Index,
    MainJs,
    OutputCss,
    SymbolsFont,
    Socket,
    /// A directory listing; the pieces of the path after `file-picker`.
    FilePicker(Vec<&'a str>),
    NotFound,
}

/// The characters of each piece.
pub open spec fn piece_views(v: Seq<&str>) -> Seq<Seq<char>> {
    v.map_values(|s: &str| s@)
}

pub open spec fn is_index(u: Seq<Seq<char>>) -> bool {
    u == seq![""@] || u == seq![""@, ""@]
}

pub open spec fn is_file_picker(u: Seq<Seq<char>>) -> bool {
    u.len() >= 1 && u[0] == "file-picker"@
}

/// Whether `route` is what the path pieces `u` (those after the leading slash) ask for.
pub open spec fn route_matches(route: Route, u: Seq<Seq<char>>) -> bool {
    match route {
        Route::Index => is_index(u),
        Route::MainJs => u == seq!["static"@, "main.js"@],
        Route::OutputCss => u == seq!["static"@, "output.css"@],
        Route::SymbolsFont => u == seq!["static"@, "symbols"@, "material-symbols.woff2"@],
        Route::Socket => u == seq!["socket"@],
        Route::FilePicker(rest) => is_file_picker(u) && piece_views(rest@) == u.skip(1),
        Route::NotFound => !is_index(u) && u != seq!["static"@, "main.js"@] && u != seq![
            "static"@,
            "output.css"@,
        ] && u != seq!["static"@, "symbols"@, "material-symbols.woff2"@] && u != seq![
            "socket"@,
        ] && !is_file_picker(u),
    }
}

fn piece_is(v: &Vec<&str>, i: usize, lit: &str) -> (r: bool)
    requires
        i < v@.len(),
    ensures
        r == (v@[i as int]@ == lit@),
{
    str_eq(v[i], lit)
}

/// The pieces of a split path after the one before its leading slash.
pub open spec fn after_root(url: Seq<&str>) -> Seq<Seq<char>> {
    if url.len() == 0 {
        Seq::empty()
    } else {
        piece_views(url).skip(1)
    }
}

/// Decides what a split request path asks for, from the pieces after its leading slash.
pub fn route<'a>(url: &Vec<&'a str>) -> (r: Route<'a>)
    ensures
        route_matches(r, after_root(url@)),
{
    let ghost u = after_root(url@);
    let n = url.len();
    proof {
        assert(n >= 1 ==> u.len() == n - 1);
        assert(forall|k: int| 0 <= k < u.len() ==> u[k] == url@[k + 1]@);
        if n <= 1 {
            assert(u =~= Seq::<Seq<char>>::empty());
        }
        if n == 2 {
            assert(u =~= seq![url@[1]@]);
        }
        if n == 3 {
            assert(u =~= seq![url@[1]@, url@[2]@]);
        }
        if n == 4 {
            assert(u =~= seq![url@[1]@, url@[2]@, url@[3]@]);
        }
    }
    if (n == 2 && piece_is(url, 1, "")) || (n == 3 && piece_is(url, 1, "") && piece_is(url, 2, "")) {
        Route::Index
    } else if n == 3 && piece_is(url, 1, "static") && piece_is(url, 2, "main.js") {
        Route::MainJs
    } else if n == 3 && piece_is(url, 1, "static") && piece_is(url, 2, "output.css") {
        Route::OutputCss
    } else if n == 4 && piece_is(url, 1, "static") && piece_is(url, 2, "symbols") && piece_is(
        url,
        3,
        "material-symbols.woff2",
    ) {
        Route::SymbolsFont
    } else if n == 2 && piece_is(url, 1, "socket") {
        Route::Socket
    } else if n >= 2 && piece_is(url, 1, "file-picker") {
        let mut rest: Vec<&'a str> = Vec::new();
        let mut i: usize = 2;
        while i < n
            invariant
                2 <= i <= n,
                n == url@.len(),
                piece_views(rest@) == piece_views(url@).subrange(2, i as int),
            decreases n - i,
        {
            let ghost before = rest@;
            rest.push(url[i]);
            assert(rest@ == before.push(url@[i as int]));
            assert(piece_views(rest@) =~= piece_views(before).push(url@[i as int]@));
            assert(piece_views(url@).subrange(2, i + 1) =~= piece_views(url@).subrange(2, i as int).push(
                url@[i as int]@,
            ));
            i = i + 1;
        }
        assert(piece_views(url@).subrange(2, n as int) =~= u.skip(1));
        Route::FilePicker(rest)
    } else {
        proof {
            if n >= 2 {
                assert(u[0] == url@[1]@);
            }
        }
        Route::NotFound
    }
}

impl<'a> Route<'a> {
    /// The content type of a static asset route.
    pub fn content_type(&self) -> (r: Option<&'static str>)
        ensures
            match self {
                Route::Index => r == Some("text/html"),
                Route::MainJs => r == Some("text/javascript"),
                Route::OutputCss => r == Some("text/css"),
                Route::SymbolsFont => r == Some("font/woff2"),
                _ => r is None,
            },
    {
        match self {
            Route::Index => Some("text/html"),
            Route::MainJs => Some("text/javascript"),
            Route::OutputCss => Some("text/css"),
            Route::SymbolsFont => Some("font/woff2"),
            _ => None,
        }
    }
}

/// A `200` response carrying a body of the given content type.
pub fn ok_response(content_type: &str, body: &[u8]) -> (r: Response)
    ensures
        r.version@ == "HTTP/1.1"@,
        r.status == 200,
        crate::server::header_view(r.headers@) == seq![("Content-Type"@, content_type@)],
        r.body is Some && r.body->Some_0@ == body@,
{
    let r = Response::new("HTTP/1.1", 200).header("Content-Type", content_type).body(body);
    assert(crate::server::header_view(r.headers@) =~= seq![("Content-Type"@, content_type@)]);
    r
}

/// The `404` response for a path that names nothing.
pub fn not_found_response() -> (r: Response)
    ensures
        r.version@ == "HTTP/1.1"@,
        r.status == 404,
        crate::server::header_view(r.headers@) == seq![("Content-Type"@, "text/html"@)],
        r.body is None,
{
    let r = Response::new("HTTP/1.1", 404).header("Content-Type", "text/html");
    assert(crate::server::header_view(r.headers@) =~= seq![("Content-Type"@, "text/html"@)]);
    r
}

} // verus!
