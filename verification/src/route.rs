use vstd::prelude::*;

verus! {

/// A request that the read side serves, as a mathematical value.
pub enum RouteView {
    InfoRefs { repo: Seq<char> },
    Object { repo: Seq<char>, hash: Seq<char> },
    Blob { repo: Seq<char>, hash: Seq<char> },
    View { repo: Seq<char>, path: Seq<char>, revision: Seq<char> },
    Unknown,
}

/// A request that the read side serves.
pub enum Route {
    /// `/:repo/info/refs`
    InfoRefs { repo: String },
    /// `/:repo/objects/:ha/:hb`, with the two segments joined
    Object { repo: String, hash: String },
    /// `/:repo/blobs/:hash`
    Blob { repo: String, hash: String },
    /// `/:repo/view/*path`, at the revision that the query string names
    View { repo: String, path: String, revision: String },
    /// Any other path
    Unknown,
}

impl View for Route {
    type V = RouteView;

    open spec fn view(&self) -> RouteView {
        match self {
            Route::InfoRefs { repo } => RouteView::InfoRefs { repo: repo@ },
            Route::Object { repo, hash } => RouteView::Object { repo: repo@, hash: hash@ },
            Route::Blob { repo, hash } => RouteView::Blob { repo: repo@, hash: hash@ },
            Route::View { repo, path, revision } => RouteView::View {
                repo: repo@,
                path: path@,
                revision: revision@,
            },
            Route::Unknown => RouteView::Unknown,
        }
    }
}

/// The position of the first `/` at or behind `from`, or the length where
/// there is none.
pub open spec fn segment_end(path: Seq<char>, from: int) -> int
    decreases path.len() - from,
{
    if from >= path.len() {
        path.len() as int
    } else if path[from] == '/' {
        from
    } else {
        segment_end(path, from + 1)
    }
}

/// The revision of a view: what the query string holds, `HEAD` without
/// one.
pub open spec fn revision_of(query: Option<Seq<char>>) -> Seq<char> {
    match query {
        Some(revision) => revision,
        None => "HEAD"@,
    }
}

/// The route of a request path. A path is `/`, a repository name, `/`, a
/// word and, behind another `/`, what the word asks for: `info` the
/// segment `refs`; `objects` two segments; `blobs` one segment; `view` a
/// path of any number of segments. No segment may be empty.
pub open spec fn route_of(path: Seq<char>, query: Option<Seq<char>>) -> RouteView {
    let n = path.len() as int;
    let a = segment_end(path, 1);
    let b = segment_end(path, a + 1);
    let c = segment_end(path, b + 1);
    let d = segment_end(path, c + 1);
    let repo = path.subrange(1, a);
    let word = path.subrange(a + 1, b);
    if n < 1 || path[0] != '/' || a == 1 || a >= n || b >= n {
        RouteView::Unknown
    } else if word == "info"@ {
        if c == n && path.subrange(b + 1, c) == "refs"@ {
            RouteView::InfoRefs { repo }
        } else {
            RouteView::Unknown
        }
    } else if word == "objects"@ {
        if c > b + 1 && c < n && d == n && d > c + 1 {
            RouteView::Object { repo, hash: path.subrange(b + 1, c) + path.subrange(c + 1, d) }
        } else {
            RouteView::Unknown
        }
    } else if word == "blobs"@ {
        if c > b + 1 && c == n {
            RouteView::Blob { repo, hash: path.subrange(b + 1, c) }
        } else {
            RouteView::Unknown
        }
    } else if word == "view"@ {
        if b + 1 < n {
            RouteView::View { repo, path: path.subrange(b + 1, n), revision: revision_of(query) }
        } else {
            RouteView::Unknown
        }
    } else {
        RouteView::Unknown
    }
}

fn find_segment_end(path: &str, n: usize, from: usize) -> (end: usize)
    requires
        n == path@.len(),
    ensures
        end == segment_end(path@, from as int),
        from <= n ==> from <= end <= n,
        from > n ==> end == n,
{
    if from >= n {
        return n;
    }
    let mut i: usize = from;
    while i < n && path.get_char(i) != '/'
        invariant
            n == path@.len(),
            from <= i <= n,
            segment_end(path@, from as int) == segment_end(path@, i as int),
        decreases n - i,
    {
        i = i + 1;
    }
    i
}

fn is_word(text: &str, word: &str) -> (same: bool)
    ensures
        same == (text@ == word@),
{
    String::from_str(text) == String::from_str(word)
}

/// Finds the route of a request from its path and its query string.
pub fn route(path: &str, query: Option<&str>) -> (found: Route)
    ensures
        found@ == route_of(
            path@,
            match query {
                Some(text) => Some(text@),
                None => None,
            },
        ),
{
    let n = path.unicode_len();
    if n < 1 || path.get_char(0) != '/' {
        return Route::Unknown;
    }
    let a = find_segment_end(path, n, 1);
    if a == 1 || a >= n {
        return Route::Unknown;
    }
    let b = find_segment_end(path, n, a + 1);
    if b >= n {
        return Route::Unknown;
    }
    let c = find_segment_end(path, n, b + 1);
    let repo = String::from_str(path.substring_char(1, a));
    let word = path.substring_char(a + 1, b);
    if is_word(word, "info") {
        if c == n && is_word(path.substring_char(b + 1, c), "refs") {
            Route::InfoRefs { repo }
        } else {
            Route::Unknown
        }
    } else if is_word(word, "objects") {
        if c > b + 1 && c < n {
            let d = find_segment_end(path, n, c + 1);
            if d == n && d > c + 1 {
                let mut hash = String::from_str(path.substring_char(b + 1, c));
                hash.append(path.substring_char(c + 1, d));
                Route::Object { repo, hash }
            } else {
                Route::Unknown
            }
        } else {
            Route::Unknown
        }
    } else if is_word(word, "blobs") {
        if c > b + 1 && c == n {
            Route::Blob { repo, hash: String::from_str(path.substring_char(b + 1, c)) }
        } else {
            Route::Unknown
        }
    } else if is_word(word, "view") {
        if b + 1 < n {
            let revision = match query {
                Some(text) => String::from_str(text),
                None => String::from_str("HEAD"),
            };
            Route::View { repo, path: String::from_str(path.substring_char(b + 1, n)), revision }
        } else {
            Route::Unknown
        }
    } else {
        Route::Unknown
    }
}

} // verus!
