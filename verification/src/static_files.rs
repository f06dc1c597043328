//! Serving the files that are embedded in the program: the routing between
//! the client bundle, the prerendered pages and the static directory, the
//! response for an embedded file, and the loader of the server's JavaScript
//! modules.

use vstd::prelude::*;
use vstd::utf8::encode_utf8;
use vstd::string::*;
use vstd::slice::slice_to_vec;
use crate::http::{
    HeaderList, bytes_deep_view, content_type_name, content_length_name, content_type_bytes,
    content_length_bytes,
};
use crate::text::{decimal_value, decimal_round_trip, trim_leading_slashes, strip_leading_slashes, decimal, decimal_bytes, str_eq};

verus! {

broadcast use bytes_deep_view;

/// A directory tree embedded in the program by `include_dir!`.
#[verifier::external_type_specification]
#[verifier::external_body]
pub struct ExDir<'a>(include_dir::Dir<'a>);

/// The `Clone` that `Dir` derives copies its two borrowed fields, so the
/// clone is the same directory.
pub assume_specification<'a>[ <include_dir::Dir<'a> as core::clone::Clone>::clone ](
    dir: &include_dir::Dir<'a>,
) -> (res: include_dir::Dir<'a>)
    ensures
        res == *dir,
;

/// The files of an embedded directory tree.
pub type StaticFiles = include_dir::Dir<'static>;

/// What `Dir::get_file` finds in `dir`: for each path under which it finds a
/// file, the file's own path and its contents.
pub uninterp spec fn dir_files(dir: include_dir::Dir<'static>) -> Map<Seq<char>, (Seq<char>, Seq<u8>)>;

/// The first MIME type that `mime_guess` associates with the extension of
/// `path`, if any.
pub uninterp spec fn mime_type_for_path(path: Seq<char>) -> Option<Seq<char>>;

/// `Dir::get_file`: the path and contents of the file found under `path`;
/// nothing exactly where `dir_files` has no entry for it.
#[verifier::external_body]
fn dir_get_file(dir: &StaticFiles, path: &str) -> (r: Option<(String, &'static [u8])>)
    ensures
        match r {
            Some(file) => dir_files(*dir).contains_key(path@) && dir_files(*dir)[path@] == (
            file.0@,
            file.1@,
            ),
            None => !dir_files(*dir).contains_key(path@),
        },
{
    match dir.get_file(path) {
        Some(file) => Some((file.path().to_string_lossy().into_owned(), file.contents())),
        None => None,
    }
}

/// `mime_guess::from_path(path).first_raw()`: the first MIME type guessed
/// from the extension of `path`, as `mime_type_for_path` names it.
#[verifier::external_body]
fn guess_mime_type(path: &str) -> (r: Option<&'static str>)
    ensures
        match r {
            Some(m) => mime_type_for_path(path@) == Some(m@),
            None => mime_type_for_path(path@) is None,
        },
{
    mime_guess::from_path(path).first_raw()
}

/// `mime::APPLICATION_OCTET_STREAM`, written out.
#[verifier::external_body]
fn octet_stream_mime() -> (r: String)
    ensures
        r@ == "application/octet-stream"@,
{
    mime::APPLICATION_OCTET_STREAM.as_ref().to_string()
}

/// A response whose body is embedded in the program.
pub struct StaticResponse {
    pub status: u16,
    pub headers: HeaderList,
    pub body: &'static [u8],
}

/// The abstract value of a `StaticResponse`.
pub struct StaticResponseView {
    pub status: u16,
    pub headers: Seq<(Seq<u8>, Seq<u8>)>,
    pub body: Seq<u8>,
}

impl View for StaticResponse {
    type V = StaticResponseView;

    open spec fn view(&self) -> StaticResponseView {
        StaticResponseView { status: self.status, headers: self.headers.deep_view(), body: self.body@ }
    }
}

/// The content type of a file at `path`: the guessed MIME type, else
/// `application/octet-stream`.
pub open spec fn content_type_for(path: Seq<char>) -> Seq<char> {
    match mime_type_for_path(path) {
        Some(m) => m,
        None => "application/octet-stream"@,
    }
}

/// The response for the embedded file at `path` with `contents`: status 200,
/// its content type and its length in headers, and the contents as body for
/// a GET request, no body otherwise.
pub open spec fn static_file_response(path: Seq<char>, contents: Seq<u8>, method: Seq<char>) -> StaticResponseView {
    StaticResponseView {
        status: 200,
        headers: seq![
            (content_type_name(), encode_utf8(content_type_for(path))),
            (content_length_name(), decimal_bytes(contents.len())),
        ],
        body: if method == "GET"@ {
            contents
        } else {
            Seq::empty()
        },
    }
}

/// A HEAD request for an embedded file gets the same status and headers as a
/// GET request, with an empty body; the GET body is the file, and the
/// content length read back from its header is the file's length.
pub proof fn head_matches_get(path: Seq<char>, contents: Seq<u8>)
    ensures
        static_file_response(path, contents, "HEAD"@).status == static_file_response(path, contents, "GET"@).status,
        static_file_response(path, contents, "HEAD"@).headers == static_file_response(path, contents, "GET"@).headers,
        static_file_response(path, contents, "HEAD"@).body.len() == 0,
        static_file_response(path, contents, "GET"@).body == contents,
        decimal_value(static_file_response(path, contents, "GET"@).headers[1].1) == contents.len(),
{
    reveal_strlit("GET");
    reveal_strlit("HEAD");
    assert("HEAD"@.len() != "GET"@.len());
    decimal_round_trip(contents.len());
}

/// Builds the response for the embedded file at `path` with `contents`.
pub fn build_static_file_response(path: &str, contents: &'static [u8], method: &str) -> (r: StaticResponse)
    ensures
        r@ == static_file_response(path@, contents@, method@),
{
    let mime: Vec<u8> = match guess_mime_type(path) {
        Some(m) => slice_to_vec(m.as_bytes()),
        None => {
            let m = octet_stream_mime();
            slice_to_vec(m.as_str().as_bytes())
        },
    };
    let mut headers: HeaderList = Vec::new();
    headers.push((content_type_bytes(), mime));
    headers.push((content_length_bytes(), decimal(contents.len())));
    let empty: &'static [u8] = &[];
    let body = if str_eq(method, "GET") {
        contents
    } else {
        empty
    };
    assert(empty@ =~= Seq::<u8>::empty());
    let r = StaticResponse { status: 200, headers, body };
    assert(r@.headers =~= static_file_response(path@, contents@, method@).headers);
    r
}


/// The state that the request handler shares: the JavaScript renderer, the
/// embedded client bundle, the embedded prerendered pages and the directory
/// of further static files.
#[derive(Debug, Clone)]
pub struct SveltekitData<R> {
    pub js_runner: R,
    pub client_js: StaticFiles,
    pub prerendered: StaticFiles,
    pub static_dir: &'static str,
}

/// Where the prerendered page for the request path `stripped` (without
/// leading slashes) lies: `index.html` for the root, else the path with
/// `.html` appended.
pub open spec fn prerendered_path(stripped: Seq<char>) -> Seq<char> {
    (if stripped.len() == 0 {
        "index"@
    } else {
        stripped
    }) + ".html"@
}

/// Computes where the prerendered page for `stripped` lies.
pub fn prerendered_file_path(stripped: &str) -> (r: String)
    ensures
        r@ == prerendered_path(stripped@),
{
    let mut html_path = String::from_str(stripped);
    if stripped.unicode_len() == 0 {
        html_path = String::from_str("index");
    }
    html_path.append(".html");
    html_path
}

/// The outcome of looking for a request's file among the embedded files.
pub enum StaticLookup {
    /// An embedded file answers the request.
    Found(StaticResponse),
    /// No embedded file does; the static directory is to be tried next.
    TryStaticDir,
}

/// The abstract value of a `StaticLookup`.
pub enum StaticLookupView {
    Found(StaticResponseView),
    TryStaticDir,
}

impl View for StaticLookup {
    type V = StaticLookupView;

    open spec fn view(&self) -> StaticLookupView {
        match self {
            StaticLookup::Found(r) => StaticLookupView::Found(r@),
            StaticLookup::TryStaticDir => StaticLookupView::TryStaticDir,
        }
    }
}

/// The embedded file that answers a request for `path`: first the client
/// bundle, under the path without leading slashes; then the prerendered
/// pages, under `prerendered_path`, served whole with status 200 and no
/// headers; else the static directory is to be tried.
pub open spec fn static_lookup(
    client: Map<Seq<char>, (Seq<char>, Seq<u8>)>,
    prerendered: Map<Seq<char>, (Seq<char>, Seq<u8>)>,
    method: Seq<char>,
    path: Seq<char>,
) -> StaticLookupView {
    let stripped = trim_leading_slashes(path);
    if client.contains_key(stripped) {
        StaticLookupView::Found(
            static_file_response(client[stripped].0, client[stripped].1, method),
        )
    } else if prerendered.contains_key(prerendered_path(stripped)) {
        StaticLookupView::Found(
            StaticResponseView {
                status: 200,
                headers: Seq::empty(),
                body: prerendered[prerendered_path(stripped)].1,
            },
        )
    } else {
        StaticLookupView::TryStaticDir
    }
}

/// The prerendered page for a non-empty path is the path with `.html`
/// appended; for the root it is `index.html`.
pub proof fn prerendered_path_law(s: Seq<char>)
    ensures
        s.len() > 0 ==> prerendered_path(s).len() == s.len() + 5 && prerendered_path(s).take(
            s.len() as int,
        ) == s && prerendered_path(s).skip(s.len() as int) == seq!['.', 'h', 't', 'm', 'l'],
        s.len() == 0 ==> prerendered_path(s) == seq!['i', 'n', 'd', 'e', 'x', '.', 'h', 't', 'm', 'l'],
{
    reveal_strlit("index");
    reveal_strlit(".html");
    if s.len() > 0 {
        assert(prerendered_path(s).take(s.len() as int) =~= s);
        assert(prerendered_path(s).skip(s.len() as int) =~= seq!['.', 'h', 't', 'm', 'l']);
    } else {
        assert(prerendered_path(s) =~= seq!['i', 'n', 'd', 'e', 'x', '.', 'h', 't', 'm', 'l']);
    }
}

/// Which embedded file answers a request: a client-bundle file at the path
/// without its leading slashes, served as an embedded file; failing that,
/// the prerendered page for that very path, whole, with status 200 and no
/// headers; failing both, the static directory.
pub proof fn static_lookup_law(
    client: Map<Seq<char>, (Seq<char>, Seq<u8>)>,
    prerendered: Map<Seq<char>, (Seq<char>, Seq<u8>)>,
    method: Seq<char>,
    path: Seq<char>,
)
    ensures
        client.contains_key(trim_leading_slashes(path)) ==> static_lookup(client, prerendered, method, path)
            == StaticLookupView::Found(
            static_file_response(
                client[trim_leading_slashes(path)].0,
                client[trim_leading_slashes(path)].1,
                method,
            ),
        ),
        !client.contains_key(trim_leading_slashes(path)) && prerendered.contains_key(
            prerendered_path(trim_leading_slashes(path)),
        ) ==> static_lookup(client, prerendered, method, path) == StaticLookupView::Found(
            StaticResponseView {
                status: 200,
                headers: Seq::empty(),
                body: prerendered[prerendered_path(trim_leading_slashes(path))].1,
            },
        ),
        !client.contains_key(trim_leading_slashes(path)) && !prerendered.contains_key(
            prerendered_path(trim_leading_slashes(path)),
        ) ==> static_lookup(client, prerendered, method, path) == StaticLookupView::TryStaticDir,
{
}

/// Looks for the file that a request for `path` asks for among the embedded
/// client bundle and prerendered pages.
pub fn serve_static_files<R>(state: &SveltekitData<R>, method: &str, path: &str) -> (r: StaticLookup)
    ensures
        r@ == static_lookup(dir_files(state.client_js), dir_files(state.prerendered), method@, path@),
{
    let stripped = strip_leading_slashes(path);
    if let Some(file) = dir_get_file(&state.client_js, stripped) {
        return StaticLookup::Found(build_static_file_response(file.0.as_str(), file.1, method));
    }
    let html_path = prerendered_file_path(stripped);
    if let Some(file) = dir_get_file(&state.prerendered, html_path.as_str()) {
        let r = StaticResponse { status: 200, headers: Vec::new(), body: file.1 };
        assert(r@.headers =~= Seq::<(Seq<u8>, Seq<u8>)>::empty());
        return StaticLookup::Found(r);
    }
    StaticLookup::TryStaticDir
}

/// Only GET and HEAD requests are answered from static files.
pub open spec fn serves_static(method: Seq<char>) -> bool {
    method == "GET"@ || method == "HEAD"@
}

/// The next step of the request handler.
pub enum HandlerStep {
    /// Answer with an embedded file.
    Respond(StaticResponse),
    /// Ask the static directory; render with JavaScript if it has no file.
    ServeStaticDir,
    /// Render with JavaScript (which also answers every unknown route).
    Render,
}

/// The abstract value of a `HandlerStep`.
pub enum HandlerStepView {
    Respond(StaticResponseView),
    ServeStaticDir,
    Render,
}

impl View for HandlerStep {
    type V = HandlerStepView;

    open spec fn view(&self) -> HandlerStepView {
        match self {
            HandlerStep::Respond(r) => HandlerStepView::Respond(r@),
            HandlerStep::ServeStaticDir => HandlerStepView::ServeStaticDir,
            HandlerStep::Render => HandlerStepView::Render,
        }
    }
}

/// The first step for a request with `method` and `path`: a GET or HEAD
/// request is looked up among the static files, any other is rendered.
pub open spec fn handler_step(
    client: Map<Seq<char>, (Seq<char>, Seq<u8>)>,
    prerendered: Map<Seq<char>, (Seq<char>, Seq<u8>)>,
    method: Seq<char>,
    path: Seq<char>,
) -> HandlerStepView {
    if serves_static(method) {
        match static_lookup(client, prerendered, method, path) {
            StaticLookupView::Found(r) => HandlerStepView::Respond(r),
            StaticLookupView::TryStaticDir => HandlerStepView::ServeStaticDir,
        }
    } else {
        HandlerStepView::Render
    }
}

/// Only GET and HEAD requests reach the static files: any other method is
/// rendered whatever the path and the embedded files, and a GET or HEAD
/// request is answered by the static-file lookup.
pub proof fn only_get_and_head_are_static(
    client: Map<Seq<char>, (Seq<char>, Seq<u8>)>,
    prerendered: Map<Seq<char>, (Seq<char>, Seq<u8>)>,
    method: Seq<char>,
    path: Seq<char>,
)
    ensures
        method != "GET"@ && method != "HEAD"@ ==> handler_step(client, prerendered, method, path)
            == HandlerStepView::Render,
        (method == "GET"@ || method == "HEAD"@) ==> handler_step(client, prerendered, method, path)
            == match static_lookup(client, prerendered, method, path) {
            StaticLookupView::Found(r) => HandlerStepView::Respond(r),
            StaticLookupView::TryStaticDir => HandlerStepView::ServeStaticDir,
        },
{
}

/// Decides the first step of handling a request that no Axum route matched.
pub fn route_request<R>(state: &SveltekitData<R>, method: &str, path: &str) -> (r: HandlerStep)
    ensures
        r@ == handler_step(dir_files(state.client_js), dir_files(state.prerendered), method@, path@),
{
    if str_eq(method, "GET") || str_eq(method, "HEAD") {
        match serve_static_files(state, method, path) {
            StaticLookup::Found(r) => HandlerStep::Respond(r),
            StaticLookup::TryStaticDir => HandlerStep::ServeStaticDir,
        }
    } else {
        HandlerStep::Render
    }
}

/// After the static directory answered with `status`: its response is used
/// unless it is 404 Not Found, in which case the page is rendered.
pub fn static_dir_serves(status: u16) -> (b: bool)
    ensures
        b == (status != 404),
{
    status != 404
}

/// Loads the server's JavaScript modules from an embedded directory.
#[derive(Debug, Clone)]
pub struct StaticModuleLoader {
    pub files: StaticFiles,
}

/// Why a module could not be loaded.
#[derive(Debug, PartialEq, Eq, Structural)]
pub enum ModuleLoadError {
    /// No embedded file lies at the module's path.
    NotFound,
}

impl StaticModuleLoader {
    /// The source of the module whose URL has the path `url_path`: the
    /// embedded file at that path without its leading slashes.
    pub fn load(&self, url_path: &str) -> (r: Result<&'static [u8], ModuleLoadError>)
        ensures
            match r {
                Ok(code) => dir_files(self.files).contains_key(trim_leading_slashes(url_path@))
                    && code@ == dir_files(self.files)[trim_leading_slashes(url_path@)].1,
                Err(e) => !dir_files(self.files).contains_key(trim_leading_slashes(url_path@))
                    && e == ModuleLoadError::NotFound,
            },
    {
        let path = strip_leading_slashes(url_path);
        match dir_get_file(&self.files, path) {
            Some(file) => Ok(file.1),
            None => Err(ModuleLoadError::NotFound),
        }
    }
}

} // verus!
