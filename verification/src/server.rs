use vstd::prelude::*;
use crate::client::GitSqlClient;
use crate::client::StoreView;
use crate::client::file_at;
use crate::client::lists_refs;
use crate::client::resolved;
use crate::error::Error;
use crate::error::error_text;
use crate::object::ObjectKind;
use crate::object::encoded_bytes;
use crate::route::Route;
use crate::route::RouteView;
use crate::route::route;
use crate::route::route_of;
use crate::table::Table;

verus! {

pub const STATUS_OK: u16 = 200;

pub const STATUS_BAD_REQUEST: u16 = 400;

pub const STATUS_NOT_FOUND: u16 = 404;

pub const STATUS_INTERNAL_ERROR: u16 = 500;

/// The media type of a response body.
#[derive(Debug, Clone, Copy, PartialEq, Eq, Structural)]
pub enum ContentType {
    PlainText,
    OctetStream,
}

/// A response body: text, or raw bytes.
pub enum Body {
    Text(String),
    Bytes(Vec<u8>),
}

/// What a handler answers: a status, a media type and a body.
pub struct Response {
    pub status: u16,
    pub content_type: ContentType,
    pub body: Body,
}

impl ContentType {
    /// The media type as it stands in a header.
    pub fn mime(&self) -> (text: String)
        ensures
            *self == ContentType::PlainText ==> text@ == "text/plain"@,
            *self == ContentType::OctetStream ==> text@ == "application/octet-stream"@,
    {
        match self {
            ContentType::PlainText => String::from_str("text/plain"),
            ContentType::OctetStream => String::from_str("application/octet-stream"),
        }
    }
}

/// The response is plain text `text` under `status`.
pub open spec fn is_text(response: Response, status: u16, text: Seq<char>) -> bool {
    &&& response.status == status
    &&& response.content_type == ContentType::PlainText
    &&& response.body matches Body::Text(body) && body@ == text
}

/// The response is the bytes `bytes` under status 200, with the given
/// media type.
pub open spec fn is_bytes(response: Response, content_type: ContentType, bytes: Seq<u8>) -> bool {
    &&& response.status == STATUS_OK
    &&& response.content_type == content_type
    &&& response.body matches Body::Bytes(body) && body@ == bytes
}

/// What the zlib encoder makes of a byte string at the default compression
/// level: the compressed stream, or nothing where the encoder reports an
/// error.
pub uninterp spec fn zlib_compressed(data: Seq<u8>) -> Option<Seq<u8>>;

/// Calls `flate2::write::ZlibEncoder::new` on an empty `Vec` with
/// `flate2::Compression::default()`, writes the bytes with `write_all` and
/// ends the stream with `finish`. The outcome is a function of the bytes
/// alone: the sink is a `Vec`, which takes every write, so an error can
/// only be the compressor's own status for this input. The contract gives
/// the outcome its name, the stream where there is one and nothing where
/// the encoder reports an error; it does not say that the encoder succeeds.
#[verifier::external_body]
fn zlib_compress(data: &Vec<u8>) -> (out: Option<Vec<u8>>)
    ensures
        match out {
            Some(bytes) => zlib_compressed(data@) == Some(bytes@),
            None => zlib_compressed(data@).is_none(),
        },
{
    let mut encoder = flate2::write::ZlibEncoder::new(Vec::new(), flate2::Compression::default());
    match std::io::Write::write_all(&mut encoder, data.as_slice()) {
        Ok(()) => match encoder.finish() {
            Ok(bytes) => Some(bytes),
            Err(_) => None,
        },
        Err(_) => None,
    }
}

/// A plain-text response.
pub fn text_response(status: u16, text: &str) -> (response: Response)
    ensures
        is_text(response, status, text@),
{
    Response { status, content_type: ContentType::PlainText, body: Body::Text(String::from_str(text)) }
}

/// A failure response that carries the error's text.
pub fn error_response(status: u16, e: &Error) -> (response: Response)
    ensures
        is_text(response, status, error_text(*e)),
{
    let message = e.message();
    text_response(status, message.as_str())
}

/// The answer to an object download, given what the compression of the
/// object's encoding returned: the compressed bytes as an octet stream, or
/// an internal error where there are none.
pub fn download_response(compressed: Option<Vec<u8>>) -> (response: Response)
    ensures
        match compressed {
            Some(bytes) => is_bytes(response, ContentType::OctetStream, bytes@),
            None => is_text(response, STATUS_INTERNAL_ERROR, "Compression failed."@),
        },
{
    match compressed {
        Some(bytes) => Response {
            status: STATUS_OK,
            content_type: ContentType::OctetStream,
            body: Body::Bytes(bytes),
        },
        None => text_response(STATUS_INTERNAL_ERROR, "Compression failed."),
    }
}

/// The answer where no repository of the name is served.
pub fn unknown_repository() -> (response: Response)
    ensures
        is_text(response, STATUS_BAD_REQUEST, "Unknown Repository."@),
{
    text_response(STATUS_BAD_REQUEST, "Unknown Repository.")
}

/// What an object download answers to the outcome of reading the object's
/// encoding.
pub open spec fn download_answers(found: Result<Vec<u8>, Error>, response: Response) -> bool {
    match found {
        Ok(raw) => match zlib_compressed(raw@) {
            Some(bytes) => is_bytes(response, ContentType::OctetStream, bytes),
            None => is_text(response, STATUS_INTERNAL_ERROR, "Compression failed."@),
        },
        Err(e) => is_text(response, STATUS_BAD_REQUEST, error_text(e)),
    }
}

/// Answers an object download from the outcome of reading the object's
/// encoding: the encoding is compressed, a failure is a bad request.
pub fn download_answer(found: Result<Vec<u8>, Error>) -> (response: Response)
    ensures
        download_answers(found, response),
{
    match found {
        Ok(raw) => download_response(zlib_compress(&raw)),
        Err(e) => error_response(STATUS_BAD_REQUEST, &e),
    }
}

/// Answers a refs listing from the outcome of listing the references.
pub fn listing_answer(found: Result<Vec<(String, String)>, Error>) -> (response: Response)
    ensures
        match found {
            Ok(refs) => is_text(response, STATUS_OK, listing_text(refs@)),
            Err(e) => is_text(response, STATUS_BAD_REQUEST, error_text(e)),
        },
{
    match found {
        Ok(refs) => {
            let text = refs_listing(&refs);
            text_response(STATUS_OK, text.as_str())
        },
        Err(e) => error_response(STATUS_BAD_REQUEST, &e),
    }
}

/// Answers a blob fetch from the outcome of reading the object: the
/// payload as it is, or a bad request.
pub fn content_answer(found: Result<(ObjectKind, Vec<u8>), Error>) -> (response: Response)
    ensures
        match found {
            Ok((_, data)) => is_bytes(response, ContentType::PlainText, data@),
            Err(e) => is_text(response, STATUS_BAD_REQUEST, error_text(e)),
        },
{
    match found {
        Ok((_, data)) => Response {
            status: STATUS_OK,
            content_type: ContentType::PlainText,
            body: Body::Bytes(data),
        },
        Err(e) => error_response(STATUS_BAD_REQUEST, &e),
    }
}

/// Reassembles an identifier from the two segments of a download path:
/// its first two characters and the rest.
pub fn join_hash(head: &str, rest: &str) -> (hash: String)
    ensures
        hash@ == head@ + rest@,
{
    let mut hash = String::from_str(head);
    hash.append(rest);
    hash
}

/// One line of a refs listing for each pair of name and target: the
/// target, a tab, the name, a line feed.
pub open spec fn listing_text(refs: Seq<(String, String)>) -> Seq<char>
    decreases refs.len(),
{
    if refs.len() == 0 {
        Seq::empty()
    } else {
        listing_text(refs.drop_last()) + refs.last().1@ + "\t"@ + refs.last().0@ + "\n"@
    }
}

/// Writes a refs listing.
pub fn refs_listing(refs: &Vec<(String, String)>) -> (text: String)
    ensures
        text@ == listing_text(refs@),
{
    let mut text = String::new();
    let mut i: usize = 0;
    while i < refs.len()
        invariant
            i <= refs@.len(),
            text@ == listing_text(refs@.take(i as int)),
        decreases refs@.len() - i,
    {
        assert(refs@.take(i + 1).drop_last() =~= refs@.take(i as int));
        text.append(refs[i].1.as_str());
        text.append("\t");
        text.append(refs[i].0.as_str());
        text.append("\n");
        i = i + 1;
    }
    assert(refs@.take(i as int) =~= refs@);
    text
}

/// The path to try when `path` turned out to be a directory.
pub open spec fn index_path(path: Seq<char>) -> Seq<char> {
    if path.len() > 0 && path.last() == '/' {
        path + "index.html"@
    } else {
        path + "/"@ + "index.html"@
    }
}

/// What a view of `path` at the revision `at` shows: the content, or the
/// text of a failure. A directory is looked up once more, at its index
/// file, unless this is that second lookup already.
pub open spec fn view_content(store: StoreView, path: Seq<char>, at: Seq<char>, again: bool) -> Result<
    Seq<u8>,
    Seq<char>,
>
    decreases
            (if again {
                0nat
            } else {
                1nat
            }),
{
    match file_at(store, path, at) {
        None => Err(error_text(Error::NotFound)),
        Some(object) => if object.kind == ObjectKind::Tree {
            if again {
                Err("Index file not found."@)
            } else {
                view_content(store, index_path(path), at, true)
            }
        } else {
            Ok(object.data)
        },
    }
}

/// What a tree view does after a lookup: answer, or look up once more at
/// another path.
pub enum ViewStep {
    Respond(Response),
    Retry(String),
}

/// Decides a tree view from the outcome of the lookup of `path`. What was
/// found is shown, unless it is a directory: then the first lookup is
/// followed by one of the directory's index file, and the second is not
/// found. A lookup that failed is not found.
pub fn view_step(path: &String, again: bool, found: Result<(ObjectKind, Vec<u8>), Error>) -> (step:
    ViewStep)
    ensures
        match found {
            Err(e) => step matches ViewStep::Respond(response) && is_text(
                response,
                STATUS_NOT_FOUND,
                error_text(e),
            ),
            Ok((kind, data)) => if kind != ObjectKind::Tree {
                step matches ViewStep::Respond(response) && is_bytes(
                    response,
                    ContentType::PlainText,
                    data@,
                )
            } else if again {
                step matches ViewStep::Respond(response) && is_text(
                    response,
                    STATUS_NOT_FOUND,
                    "Index file not found."@,
                )
            } else {
                step matches ViewStep::Retry(index) && index@ == index_path(path@)
            },
        },
{
    match found {
        Err(e) => ViewStep::Respond(error_response(STATUS_NOT_FOUND, &e)),
        Ok((kind, data)) => {
            if kind == ObjectKind::Tree {
                if again {
                    ViewStep::Respond(text_response(STATUS_NOT_FOUND, "Index file not found."))
                } else {
                    ViewStep::Retry(index_path_of(path))
                }
            } else {
                ViewStep::Respond(
                    Response {
                        status: STATUS_OK,
                        content_type: ContentType::PlainText,
                        body: Body::Bytes(data),
                    },
                )
            }
        },
    }
}

/// Builds the path of a directory's index file.
pub fn index_path_of(path: &String) -> (index: String)
    ensures
        index@ == index_path(path@),
{
    let mut index = path.clone();
    let n = path.as_str().unicode_len();
    let slash = n > 0 && path.as_str().get_char(n - 1) == '/';
    if !slash {
        index.append("/");
    }
    index.append("index.html");
    index
}

/// What an object download answers: a bad request for an unknown
/// repository or object, else the compressed encoding of the object, or an
/// internal error where the compression failed.
pub open spec fn download_outcome(
    repos: Map<Seq<char>, StoreView>,
    repo: Seq<char>,
    hash: Seq<char>,
    response: Response,
) -> bool {
    if !repos.contains_key(repo) {
        is_text(response, STATUS_BAD_REQUEST, "Unknown Repository."@)
    } else if !repos[repo].objects.contains_key(hash) {
        is_text(response, STATUS_BAD_REQUEST, error_text(Error::NotFound))
    } else {
        let object = repos[repo].objects[hash];
        match zlib_compressed(encoded_bytes(object.kind, object.size, object.data)) {
            Some(bytes) => is_bytes(response, ContentType::OctetStream, bytes),
            None => is_text(response, STATUS_INTERNAL_ERROR, "Compression failed."@),
        }
    }
}

/// What a refs listing answers: a bad request for an unknown repository
/// or where a reference's chain does not end, else the listing of every
/// reference, in some order.
pub open spec fn listing_outcome(
    repos: Map<Seq<char>, StoreView>,
    repo: Seq<char>,
    response: Response,
) -> bool {
    if !repos.contains_key(repo) {
        is_text(response, STATUS_BAD_REQUEST, "Unknown Repository."@)
    } else {
        ||| exists|refs: Seq<(String, String)>|
            lists_refs(refs, repos[repo]) && #[trigger] is_text(
                response,
                STATUS_OK,
                listing_text(refs),
            )
        ||| (is_text(response, STATUS_BAD_REQUEST, error_text(Error::NotFound)) && exists|
            name: Seq<char>,
        | #[trigger]
            repos[repo].refs.contains_key(name) && resolved(repos[repo].refs, name).is_none())
    }
}

/// What a blob fetch answers: a bad request for an unknown repository or
/// object, else the payload.
pub open spec fn content_outcome(
    repos: Map<Seq<char>, StoreView>,
    repo: Seq<char>,
    hash: Seq<char>,
    response: Response,
) -> bool {
    if !repos.contains_key(repo) {
        is_text(response, STATUS_BAD_REQUEST, "Unknown Repository."@)
    } else if !repos[repo].objects.contains_key(hash) {
        is_text(response, STATUS_BAD_REQUEST, error_text(Error::NotFound))
    } else {
        is_bytes(response, ContentType::PlainText, repos[repo].objects[hash].data)
    }
}

/// What a tree view answers: a bad request for an unknown repository,
/// else the content that the view shows, or not found.
pub open spec fn view_outcome(
    repos: Map<Seq<char>, StoreView>,
    repo: Seq<char>,
    path: Seq<char>,
    at: Seq<char>,
    again: bool,
    response: Response,
) -> bool {
    if !repos.contains_key(repo) {
        is_text(response, STATUS_BAD_REQUEST, "Unknown Repository."@)
    } else {
        match view_content(repos[repo], path, at, again) {
            Ok(data) => is_bytes(response, ContentType::PlainText, data),
            Err(text) => is_text(response, STATUS_NOT_FOUND, text),
        }
    }
}

/// What the server answers to a request.
pub open spec fn handle_outcome(
    repos: Map<Seq<char>, StoreView>,
    path: Seq<char>,
    query: Option<Seq<char>>,
    response: Response,
) -> bool {
    match route_of(path, query) {
        RouteView::InfoRefs { repo } => listing_outcome(repos, repo, response),
        RouteView::Object { repo, hash } => download_outcome(repos, repo, hash, response),
        RouteView::Blob { repo, hash } => content_outcome(repos, repo, hash, response),
        RouteView::View { repo, path, revision } => view_outcome(
            repos,
            repo,
            path,
            revision,
            false,
            response,
        ),
        RouteView::Unknown => is_text(response, STATUS_NOT_FOUND, "Not Found"@),
    }
}

/// The read-side server: the repositories that it serves, by name.
pub struct GitSqlServer {
    repos: Table<GitSqlClient>,
}

impl GitSqlServer {
    /// The store of each repository that the server can resolve.
    pub closed spec fn repos(&self) -> Map<Seq<char>, StoreView> {
        self.repos.map()
    }

    /// The table of repositories and every session in it are consistent.
    pub closed spec fn wf(&self) -> bool {
        &&& self.repos.wf()
        &&& forall|i: int| 0 <= i < self.repos.rows@.len() ==> (#[trigger] self.repos.rows@[i]).value.wf()
    }

    /// A server without repositories.
    pub fn new() -> (server: GitSqlServer)
        ensures
            server.wf(),
            server.repos() == Map::<Seq<char>, StoreView>::empty(),
    {
        GitSqlServer { repos: Table::new() }
    }

    /// Serves a repository under a name; an earlier one of that name makes
    /// way.
    pub fn mount(&mut self, name: String, client: GitSqlClient)
        requires
            old(self).wf(),
            client.wf(),
        ensures
            final(self).wf(),
            final(self).repos() == old(self).repos().insert(name@, client@),
    {
        self.repos.put(name, client);
    }

    /// Resolves a repository name to its session.
    pub fn resolve(&self, repo: &String) -> (client: Option<&GitSqlClient>)
        requires
            self.wf(),
        ensures
            match client {
                Some(c) => c.wf() && self.repos().contains_key(repo@) && c@ == self.repos()[repo@],
                None => !self.repos().contains_key(repo@),
            },
    {
        match self.repos.find(repo) {
            Some(i) => Some(&self.repos.rows[i].value),
            None => None,
        }
    }

    /// Object download: the canonical encoding of the object, compressed.
    /// An unknown repository or object is a bad request.
    pub fn download_object(&self, repo: &String, hash: &String) -> (response: Response)
        requires
            self.wf(),
        ensures
            download_outcome(self.repos(), repo@, hash@, response),
    {
        let client = match self.resolve(repo) {
            Some(client) => client,
            None => {
                return unknown_repository();
            },
        };
        download_answer(client.read_raw_object(hash))
    }

    /// Refs listing: one line for each reference. An unknown repository,
    /// or a reference whose chain does not end, is a bad request.
    pub fn list_refs(&self, repo: &String) -> (response: Response)
        requires
            self.wf(),
        ensures
            listing_outcome(self.repos(), repo@, response),
    {
        let client = match self.resolve(repo) {
            Some(client) => client,
            None => {
                return unknown_repository();
            },
        };
        let found = client.list_refs();
        let ghost listed = found;
        let response = listing_answer(found);
        proof {
            if listed is Ok {
                let refs = listed->Ok_0;
                assert(lists_refs(refs@, self.repos()[repo@]) && is_text(
                    response,
                    STATUS_OK,
                    listing_text(refs@),
                ));
            }
        }
        response
    }

    /// Blob content: the payload of an object, as it is. An unknown
    /// repository or object is a bad request.
    pub fn fetch_content_of(&self, repo: &String, hash: &String) -> (response: Response)
        requires
            self.wf(),
        ensures
            content_outcome(self.repos(), repo@, hash@, response),
    {
        let client = match self.resolve(repo) {
            Some(client) => client,
            None => {
                return unknown_repository();
            },
        };
        content_answer(client.read_object(hash))
    }

    /// Tree view: the content at `path` in the revision `at`. A directory
    /// is answered with its index file, looked up once; `again` says that
    /// this is that second lookup. What does not resolve is not found.
    pub fn view_content_of(&self, repo: &String, path: &String, at: &String, again: bool) -> (response:
        Response)
        requires
            self.wf(),
        ensures
            view_outcome(self.repos(), repo@, path@, at@, again, response),
        decreases
                (if again {
                    0nat
                } else {
                    1nat
                }),
    {
        let client = match self.resolve(repo) {
            Some(client) => client,
            None => {
                return unknown_repository();
            },
        };
        match view_step(path, again, client.read_file_at(path, at)) {
            ViewStep::Respond(response) => response,
            ViewStep::Retry(index) => self.view_content_of(repo, &index, at, true),
        }
    }

    /// Serves a request: finds its route and hands it to the route's
    /// handler. A path without a route is not found.
    pub fn handle(&self, path: &str, query: Option<&str>) -> (response: Response)
        requires
            self.wf(),
        ensures
            handle_outcome(
                self.repos(),
                path@,
                match query {
                    Some(text) => Some(text@),
                    None => None,
                },
                response,
            ),
    {
        match route(path, query) {
            Route::InfoRefs { repo } => self.list_refs(&repo),
            Route::Object { repo, hash } => self.download_object(&repo, &hash),
            Route::Blob { repo, hash } => self.fetch_content_of(&repo, &hash),
            Route::View { repo, path, revision } => self.view_content_of(
                &repo,
                &path,
                &revision,
                false,
            ),
            Route::Unknown => text_response(STATUS_NOT_FOUND, "Not Found"),
        }
    }
}

} // verus!
