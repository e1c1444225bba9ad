//! The request pipeline as a sequence of steps. Each step either finishes
//! with a response or asks the caller one question about the file system;
//! the caller answers with a [`Fact`] and resumes the pipeline with it.
//!
//! The order of the steps: method and credentials, then the resolution of
//! the request path, which refuses a path that climbs out of the root by its
//! `..` components and, once the file system has given its canonical form
//! (or that of its nearest existing ancestor), one that lies outside the
//! root; then the redirect of a directory named without a trailing `/`, then the resolution of a
//! directory to its `index.html`, the containment check, the opening of the
//! file, and last the developer extensions.

use vstd::prelude::*;
use vstd::string::*;
use crate::config::Config;
use crate::error::{Error, IoError};
use crate::ext;
use crate::path::{is_markdown_path, join, join_path, local_path_for_request, local_path_spec};
use crate::response::{
    make_error_response_from_code_and_headers, render_spec, status_text, Body, Reply,
};
use crate::text::chars_of;
use crate::ext::{
    list_dir, listing_outcome, listing_paths, md_path_to_html, paths_view, serve_spec,
    sorted_by_bytes, github_html,
};
use vstd::utf8::*;

verus! {

/// A request, as plain values.
#[derive(Debug)]
pub struct Request {
    /// The method, such as `GET`.
    pub method: String,
    /// The path of the request URI, without the query.
    pub path: String,
    /// The query of the request URI, if any.
    pub query: Option<String>,
    /// The bytes of the `Authorization` header, if any.
    pub authorization: Option<Vec<u8>>,
}

/// Where the pipeline stands while it waits for a fact, and what it asks.
#[derive(Debug, PartialEq, Eq, Structural)]
pub enum Step {
    /// The canonical form of the local path `path`, or, where it does not
    /// exist, that of its nearest existing ancestor. (`Fact::Canonical`) A
    /// path outside the root is refused before anything else is asked.
    Resolve,
    /// Is `path` a directory? (`Fact::Metadata`) A directory named without
    /// a trailing `/` is redirected.
    Redirect,
    /// Is `path` a directory? (`Fact::Metadata`) A directory is served by
    /// its `index.html`.
    Index,
    /// The canonical form of `path`. (`Fact::Canonical`)
    Contain,
    /// Open the file at `path` and give its length. (`Fact::Opened`)
    Open,
    /// The canonical form of the markdown file at `path`.
    /// (`Fact::Canonical`)
    MarkdownCheck,
    /// The contents of the markdown file at `path`. (`Fact::Contents`)
    Markdown,
    /// Open the root `index.html` at `path` and give its length.
    /// (`Fact::Opened`)
    Spa,
    /// The canonical form of the directory `path` to list.
    /// (`Fact::Canonical`) A directory outside the root is not listed.
    ListCheck,
    /// Is `path` a directory? (`Fact::Metadata`) A directory is listed.
    ListKind,
    /// The names of the entries of the directory at `path`.
    /// (`Fact::Entries`)
    List,
}

/// A paused pipeline.
#[derive(Debug)]
pub struct Stage {
    /// The step it waits at.
    pub step: Step,
    /// The path it asks about.
    pub path: String,
    /// The local path of the request.
    pub local: String,
    /// The error of the file serving that the extensions are handling, if
    /// any.
    pub primary: Option<Error>,
}

/// A fact about the file system, as the caller found it.
#[derive(Debug)]
pub enum Fact {
    /// The metadata of a path: whether it is a directory.
    Metadata(Result<bool, IoError>),
    /// The canonical form of a path.
    Canonical(Result<String, IoError>),
    /// The file was opened; its length in bytes.
    Opened(Result<u64, IoError>),
    /// The contents of a file.
    Contents(Result<Vec<u8>, IoError>),
    /// The names of the entries of a directory (those that are UTF-8).
    Entries(Result<Vec<String>, IoError>),
}

/// What the pipeline does next.
#[derive(Debug)]
pub enum Next {
    /// It is done: the response, or the error to answer with.
    Done(Result<Reply, Error>),
    /// It asks the caller for a fact.
    Ask(Stage),
}

impl Next {
    /// The pipeline asks, at this step, about this path.
    pub open spec fn asks(&self, step: Step, path: Seq<char>) -> bool {
        self is Ask && self->Ask_0.step == step && self->Ask_0.path@ == path
    }

    /// The pipeline is done with the error page for this status code and
    /// these further headers, or with `TemplateRender` where that page does
    /// not render.
    pub open spec fn is_error_page(&self, code: u16, headers: Seq<(Seq<char>, Seq<char>)>) -> bool {
        &&& self is Done
        &&& match render_spec(status_text(code), seq![]) {
            Some(_) => self->Done_0 is Ok && self->Done_0->Ok_0.is_error_page(code, headers),
            None => self->Done_0 is Err && self->Done_0->Err_0 is TemplateRender,
        }
    }
}

/// The challenge of a 401 response.
pub open spec fn auth_challenge() -> Seq<char> {
    "Basic realm=\"User Visible Realm\", charset=\"UTF-8\""@
}

impl Request {
    /// The bytes of the `Authorization` header, if any.
    pub open spec fn authorization_view(&self) -> Option<Seq<u8>> {
        match self.authorization {
            Some(h) => Some(h@),
            None => None,
        }
    }
}

/// The path ends with `/`.
pub open spec fn ends_with_slash(p: Seq<char>) -> bool {
    p.len() > 0 && p.last() == '/'
}

/// Where a directory named without a trailing `/` is redirected: the path
/// with `/` appended, then `?` and the query where there is one.
pub open spec fn redirect_location(path: Seq<char>, query: Option<Seq<char>>) -> Seq<char> {
    match query {
        Some(q) => path + "/"@ + "?"@ + q,
        None => path + "/"@,
    }
}

/// The MIME type guessed from a path's extension.
pub uninterp spec fn guessed_mime(path: Seq<char>) -> Seq<char>;

/// Relies on `mime_guess::from_path(..).first_or_octet_stream()`: the first
/// MIME type known for the path's extension, `application/octet-stream` for
/// an unknown one. The result depends on the path alone.
#[verifier::external_body]
fn file_path_mime(path: &str) -> (r: String)
    ensures
        r@ == guessed_mime(path@),
{
    mime_guess::from_path(path).first_or_octet_stream().as_ref().to_string()
}

/// A 200 response that streams the file at `path`, `len` bytes long.
pub open spec fn is_file_reply(r: Reply, path: Seq<char>, len: u64) -> bool {
    &&& r.status == 200
    &&& r.content_length == Some(len)
    &&& r.content_type is Some && r.content_type->0@ == guessed_mime(path)
    &&& r.headers@.len() == 0
    &&& r.body is File && r.body->File_0@ == path
}

/// The response for a file that was opened: 200, its length, this MIME
/// type, and its contents streamed.
pub fn file_response(path: String, len: u64, mime: String) -> (r: Reply)
    ensures
        r.status == 200,
        r.content_length == Some(len),
        r.content_type is Some && r.content_type->0@ == mime@,
        r.headers@.len() == 0,
        r.body is File && r.body->File_0@ == path@,
{
    Reply {
        status: 200,
        content_type: Some(mime),
        content_length: Some(len),
        headers: Vec::new(),
        body: Body::File(path),
    }
}

/// The response for a file whose canonical form has been checked to lie
/// under the root, given the outcome of opening it: the I/O error where it
/// did not open (a missing file is `NotFound`), else 200 with its length,
/// the MIME type guessed from its extension, and its contents streamed.
pub fn respond_with_file(path: String, opened: Result<u64, IoError>) -> (r: Result<Reply, Error>)
    ensures
        match opened {
            Err(io) => r == Err::<Reply, Error>(Error::Io(io)),
            Ok(len) => r is Ok && is_file_reply(r->Ok_0, path@, len),
        },
{
    let len = match opened {
        Ok(len) => len,
        Err(io) => return Err(Error::Io(io)),
    };
    let mime = file_path_mime(path.as_str());
    Ok(file_response(path, len, mime))
}

/// The answer to a request this server does not support: 405 with
/// `Allow: GET` for any method but `GET`.
pub fn handle_unsupported_request(req: &Request) -> (r: Option<Result<Reply, Error>>)
    ensures
        req.method@ == "GET"@ <==> r is None,
        r is Some ==> (Next::Done(r->0)).is_error_page(405, seq![("allow"@, "GET"@)]),
{
    if is_get(req.method.as_str()) {
        return None;
    }
    let mut headers: Vec<(String, String)> = Vec::new();
    headers.push(("allow".to_owned(), "GET".to_owned()));
    proof {
        reveal_strlit("allow");
        reveal_strlit("GET");
    }
    assert(crate::response::headers_view(headers@) =~= seq![("allow"@, "GET"@)]);
    Some(make_error_response_from_code_and_headers(405, headers))
}

/// A 302 to `location`, with no body.
pub open spec fn is_redirect(r: Reply, location: Seq<char>) -> bool {
    &&& r.status == 302
    &&& r.content_type is None
    &&& r.content_length is None
    &&& r.headers@.len() == 1
    &&& r.headers@[0].0@ == "location"@
    &&& r.headers@[0].1@ == location
    &&& r.body is Empty
}

/// The 302 to the path with `/` appended, and the query kept.
pub fn redirect_response(path: &str, query: &Option<String>) -> (r: Reply)
    ensures
        is_redirect(r, redirect_location(path@, match query {
            Some(q) => Some(q@),
            None => None,
        })),
{
    let mut loc = path.to_owned();
    loc.append("/");
    match query {
        Some(q) => {
            loc.append("?");
            loc.append(q.as_str());
        },
        None => {},
    }
    let mut headers: Vec<(String, String)> = Vec::new();
    headers.push(("location".to_owned(), loc));
    Reply { status: 302, content_type: None, content_length: None, headers, body: Body::Empty }
}

/// The redirect policy: a request whose path does not end with `/` and
/// names a directory is redirected to the path with `/` appended, the query
/// kept; any other request is not redirected.
pub fn try_dir_redirect(req: &Request, is_dir: bool) -> (r: Option<Reply>)
    ensures
        r is Some <==> (is_dir && !ends_with_slash(req.path@)),
        r is Some ==> is_redirect(r->0, redirect_location(req.path@, query_view(req.query))),
{
    if ends_with_slash_exec(req.path.as_str()) || !is_dir {
        return None;
    }
    Some(redirect_response(req.path.as_str(), &req.query))
}

/// The file to serve for a local path: its `index.html` where it is a
/// directory, else the path itself.
pub fn local_path_with_maybe_index(path: &str, is_dir: bool) -> (r: String)
    ensures
        r@ == if is_dir {
            join(path@, "index.html"@)
        } else {
            path@
        },
{
    if is_dir {
        join_path(path, "index.html")
    } else {
        path.to_owned()
    }
}

/// The request path ends with `/`.
fn ends_with_slash_exec(p: &str) -> (r: bool)
    ensures
        r == ends_with_slash(p@),
{
    let v = chars_of(p);
    v.len() > 0 && v[v.len() - 1] == '/'
}

/// The method is `GET`.
fn is_get(m: &str) -> (r: bool)
    ensures
        r == (m@ == "GET"@),
{
    let v = chars_of(m);
    let g = chars_of("GET");
    crate::path::same_chars(&v, &g)
}

/// A paused pipeline.
fn ask(step: Step, path: String, local: String, primary: Option<Error>) -> (r: Next)
    ensures
        r is Ask,
        r->Ask_0.step == step,
        r->Ask_0.path == path,
        r->Ask_0.local == local,
        r->Ask_0.primary == primary,
{
    Next::Ask(Stage { step, path, local, primary })
}

/// How the pipeline starts for a request.
pub open spec fn begin_spec(config: Config, req: Request, r: Next) -> bool {
    if req.method@ != "GET"@ {
        r.is_error_page(405, seq![("allow"@, "GET"@)])
    } else if !config.authorised(req.authorization_view()) {
        r.is_error_page(401, seq![("www-authenticate"@, auth_challenge())])
    } else {
        match local_path_spec(req.path@, config.root_dir@, config.allow_escape_root) {
            Ok(p) => r.asks(Step::Resolve, p) && r->Ask_0.local@ == p && r->Ask_0.primary is None,
            Err(e) => r == Next::Done(Err(e)),
        }
    }
}

/// Starts the pipeline for a request. A method other than `GET` gets 405
/// with `Allow: GET`; a request without the configured credentials gets 401
/// with a Basic challenge. Otherwise the request path is resolved under the
/// root: where that fails, that error; where it names a path, the pipeline
/// asks whether that path is a directory, to redirect it where the request
/// path has no trailing `/`, or to serve its `index.html` where it has one.
pub fn begin(config: &Config, req: &Request) -> (r: Next)
    ensures
        begin_spec(*config, *req, r),
{
    if let Some(resp) = handle_unsupported_request(req) {
        return Next::Done(resp);
    }
    let header = match &req.authorization {
        Some(h) => Some(h.as_slice()),
        None => None,
    };
    if !config.check_auth(header) {
        let mut headers: Vec<(String, String)> = Vec::new();
        headers.push(
            (
                "www-authenticate".to_owned(),
                "Basic realm=\"User Visible Realm\", charset=\"UTF-8\"".to_owned(),
            ),
        );
        assert(crate::response::headers_view(headers@) =~= seq![
            ("www-authenticate"@, auth_challenge()),
        ]);
        return Next::Done(make_error_response_from_code_and_headers(401, headers));
    }
    match local_path_for_request(req.path.as_str(), config.root_dir.as_str(), config.allow_escape_root) {
        Err(e) => Next::Done(Err(e)),
        Ok(p) => {
            let local = p.clone();
            ask(Step::Resolve, p, local, None)
        },
    }
}

/// The fact answers the question of the step.
pub open spec fn answers(step: Step, fact: Fact) -> bool {
    match step {
        Step::Redirect | Step::Index | Step::ListKind => fact is Metadata,
        Step::Resolve | Step::Contain | Step::MarkdownCheck | Step::ListCheck => fact is Canonical,
        Step::Open | Step::Spa => fact is Opened,
        Step::Markdown => fact is Contents,
        Step::List => fact is Entries,
    }
}

/// A metadata fact says "directory".
pub open spec fn says_dir(m: Result<bool, IoError>) -> bool {
    m is Ok && m->Ok_0
}

/// The query as text.
pub open spec fn query_view(q: Option<String>) -> Option<Seq<char>> {
    match q {
        Some(s) => Some(s@),
        None => None,
    }
}

impl Stage {
    /// The pipeline may be resumed from this stage with this fact: the fact
    /// answers the step's question, and a stage that decides on a listing
    /// carries the error it handles.
    pub fn accepts(&self, fact: &Fact) -> (r: bool)
        ensures
            r == (answers(self.step, *fact) && (self.step == Step::ListKind ==> self.primary is Some)),
    {
        let fits = match self.step {
            Step::Redirect | Step::Index | Step::ListKind => match fact {
                Fact::Metadata(_) => true,
                _ => false,
            },
            Step::Resolve | Step::Contain | Step::MarkdownCheck | Step::ListCheck => match fact {
                Fact::Canonical(_) => true,
                _ => false,
            },
            Step::Open | Step::Spa => match fact {
                Fact::Opened(_) => true,
                _ => false,
            },
            Step::Markdown => match fact {
                Fact::Contents(_) => true,
                _ => false,
            },
            Step::List => match fact {
                Fact::Entries(_) => true,
                _ => false,
            },
        };
        let carries = match self.step {
            Step::ListKind => self.primary.is_some(),
            _ => true,
        };
        fits && carries
    }
}

/// What the pipeline does with the answer to its question.
pub open spec fn resume_spec(config: Config, req: Request, stage: Stage, fact: Fact, r: Next) -> bool {
    let path = stage.path@;
    match (stage.step, fact) {
        (Step::Resolve, Fact::Canonical(c)) => match c {
            Err(io) => r == Next::Done(Err(Error::Io(io))),
            Ok(q) => if config.may_serve(q@) {
                r.asks(
                    if ends_with_slash(req.path@) {
                        Step::Index
                    } else {
                        Step::Redirect
                    },
                    path,
                ) && r->Ask_0.local == stage.local && r->Ask_0.primary is None
            } else {
                r == Next::Done(Err(Error::EntityNotInRoot))
            },
        },
        (Step::Redirect, Fact::Metadata(m)) => if says_dir(m) && !ends_with_slash(req.path@) {
            exists|resp: Reply|
                #[trigger] is_redirect(resp, redirect_location(req.path@, query_view(req.query)))
                    && serve_spec(config, req, Ok(resp), r)
        } else {
            r.asks(Step::Contain, path) && r->Ask_0.local == stage.local
        },
        (Step::Index, Fact::Metadata(m)) => r.asks(
            Step::Contain,
            if says_dir(m) {
                join(path, "index.html"@)
            } else {
                path
            },
        ) && r->Ask_0.local == stage.local,
        (Step::Contain, Fact::Canonical(c)) => match c {
            Err(io) => serve_spec(config, req, Err(Error::Io(io)), r),
            Ok(q) => if config.may_serve(q@) {
                r.asks(Step::Open, path) && r->Ask_0.local == stage.local
            } else {
                serve_spec(config, req, Err(Error::EntityNotInRoot), r)
            },
        },
        (Step::Open, Fact::Opened(o)) => match o {
            Err(io) => serve_spec(config, req, Err(Error::Io(io)), r),
            Ok(len) => exists|resp: Reply|
                #[trigger] is_file_reply(resp, path, len) && serve_spec(config, req, Ok(resp), r),
        },
        (Step::MarkdownCheck, Fact::Canonical(c)) => match c {
            Err(io) => r == Next::Done(Err(Error::Io(io))),
            Ok(q) => if config.may_serve(q@) {
                r.asks(Step::Markdown, path)
            } else {
                r == Next::Done(Err(Error::EntityNotInRoot))
            },
        },
        (Step::Markdown, Fact::Contents(c)) => match c {
            Err(io) => r == Next::Done(Err(Error::Ext(ext::Error::Io(io)))),
            Ok(bytes) => r is Done && if !valid_utf8(bytes@) {
                r->Done_0 == Err::<Reply, Error>(Error::Ext(ext::Error::MarkdownUtf8))
            } else {
                match render_spec(seq![], github_html(decode_utf8(bytes@))) {
                    Some(page) => r->Done_0 is Ok && r->Done_0->Ok_0.is_html(200, seq![], page),
                    None => r->Done_0 is Err && ext::is_engine_render_failure(r->Done_0->Err_0),
                }
            },
        },
        (Step::Spa, Fact::Opened(o)) => match o {
            Ok(len) => r is Done && r->Done_0 is Ok && is_file_reply(r->Done_0->Ok_0, path, len),
            Err(_) => r.asks(Step::ListCheck, stage.local@) && r->Ask_0.primary == stage.primary,
        },
        (Step::ListCheck, Fact::Canonical(c)) => match c {
            Err(io) => r == Next::Done(Err(Error::Ext(ext::Error::Io(io)))),
            Ok(q) => if config.may_serve(q@) {
                r.asks(Step::ListKind, path) && r->Ask_0.primary == stage.primary
            } else {
                r == Next::Done(Err(Error::EntityNotInRoot))
            },
        },
        (Step::ListKind, Fact::Metadata(m)) => match m {
            Ok(true) => r.asks(Step::List, path),
            Ok(false) => r == Next::Done(Err(stage.primary->0)),
            Err(io) => r == Next::Done(Err(Error::Ext(ext::Error::Io(io)))),
        },
        (Step::List, Fact::Entries(e)) => match e {
            Err(io) => r == Next::Done(Err(Error::Ext(ext::Error::Io(io)))),
            Ok(names) => r is Done && exists|sorted: Seq<Seq<char>>|
                #[trigger] sorted_by_bytes(sorted) && sorted.to_multiset() == paths_view(names@).to_multiset()
                    && listing_outcome(config.root_dir@, listing_paths(path, sorted), r->Done_0),
        },
        _ => false,
    }
}

/// Resumes the pipeline with the answer to its question.
///
/// A directory named without a trailing `/` is redirected there, the query
/// kept; else the path (or a directory's `index.html`) is checked to lie
/// under the root, opened and served. The outcome goes through the
/// extensions, whose own steps render markdown (after a containment check),
/// fall back to the root `index.html`, or list a directory.
pub fn resume(config: &Config, req: &Request, stage: Stage, fact: Fact) -> (r: Next)
    requires
        answers(stage.step, fact),
        stage.step == Step::ListKind ==> stage.primary is Some,
    ensures
        resume_spec(*config, *req, stage, fact, r),
{
    let ghost stage0 = stage;
    let Stage { step, path, local, primary } = stage;
    match (step, fact) {
        (Step::Resolve, Fact::Canonical(c)) => {
            match config.check_in_root_dir(c) {
                Ok(_) => {
                    let step = if ends_with_slash_exec(req.path.as_str()) {
                        Step::Index
                    } else {
                        Step::Redirect
                    };
                    ask(step, path, local, None)
                },
                Err(e) => Next::Done(Err(e)),
            }
        },
        (Step::Redirect, Fact::Metadata(m)) => {
            let is_dir = match m {
                Ok(d) => d,
                Err(_) => false,
            };
            match try_dir_redirect(req, is_dir) {
                Some(resp) => {
                    let ghost resp_v = resp;
                    let r = ext::serve(config, req, Ok(resp));
                    assert(is_redirect(resp_v, redirect_location(req.path@, query_view(req.query))));
                    r
                },
                None => ask(Step::Contain, path, local, None),
            }
        },
        (Step::Index, Fact::Metadata(m)) => {
            let is_dir = match m {
                Ok(d) => d,
                Err(_) => false,
            };
            let candidate = local_path_with_maybe_index(path.as_str(), is_dir);
            ask(Step::Contain, candidate, local, None)
        },
        (Step::Contain, Fact::Canonical(c)) => {
            match config.check_in_root_dir(c) {
                Ok(_) => ask(Step::Open, path, local, None),
                Err(e) => ext::serve(config, req, Err(e)),
            }
        },
        (Step::Open, Fact::Opened(o)) => {
            let served = respond_with_file(path, o);
            let ghost served_v = served;
            let r = ext::serve(config, req, served);
            proof {
                if served_v is Ok {
                    assert(is_file_reply(served_v->Ok_0, stage0.path@, fact->Opened_0->Ok_0));
                }
            }
            r
        },
        (Step::MarkdownCheck, Fact::Canonical(c)) => {
            match config.check_in_root_dir(c) {
                Ok(_) => ask(Step::Markdown, path, local, None),
                Err(e) => Next::Done(Err(e)),
            }
        },
        (Step::Markdown, Fact::Contents(c)) => {
            match c {
                Err(io) => Next::Done(Err(Error::Ext(ext::Error::Io(io)))),
                Ok(bytes) => Next::Done(md_path_to_html(bytes)),
            }
        },
        (Step::Spa, Fact::Opened(o)) => {
            match o {
                Ok(len) => Next::Done(respond_with_file(path, Ok(len))),
                Err(_) => {
                    let target = local.clone();
                    ask(Step::ListCheck, target, local, primary)
                },
            }
        },
        (Step::ListCheck, Fact::Canonical(c)) => {
            match c {
                Err(io) => Next::Done(Err(Error::Ext(ext::Error::Io(io)))),
                Ok(q) => if config.is_servable(q.as_str()) {
                    ask(Step::ListKind, path, local, primary)
                } else {
                    Next::Done(Err(Error::EntityNotInRoot))
                },
            }
        },
        (Step::ListKind, Fact::Metadata(m)) => {
            match m {
                Ok(true) => ask(Step::List, path, local, primary),
                Ok(false) => match primary {
                    Some(e) => Next::Done(Err(e)),
                    None => Next::Done(Err(Error::Io(IoError::Other(String::new())))),
                },
                Err(io) => Next::Done(Err(Error::Ext(ext::Error::Io(io)))),
            }
        },
        (Step::List, Fact::Entries(e)) => {
            match e {
                Err(io) => Next::Done(Err(Error::Ext(ext::Error::Io(io)))),
                Ok(names) => Next::Done(list_dir(config.root_dir.as_str(), path.as_str(), names)),
            }
        },
        (_, _) => {
            proof {
                assert(false);
            }
            Next::Done(Err(Error::Io(IoError::Other(String::new()))))
        },
    }
}

/// The local path of a request, where it has one.
pub open spec fn local_of(config: Config, req: Request) -> Seq<char> {
    local_path_spec(req.path@, config.root_dir@, config.allow_escape_root)->Ok_0
}

/// With the extensions off, or on a path that is not markdown, a response
/// of the file serving passes the extensions with its status, headers,
/// length and body.
proof fn lemma_response_passes(config: Config, req: Request, primary: Result<Reply, Error>, r: Next)
    requires
        serve_spec(config, req, primary, r),
        primary is Ok,
        local_path_spec(req.path@, config.root_dir@, config.allow_escape_root) is Ok,
        !is_markdown_path(local_of(config, req)),
    ensures
        r is Done && r->Done_0 is Ok,
        r->Done_0->Ok_0.status == primary->Ok_0.status,
        r->Done_0->Ok_0.headers == primary->Ok_0.headers,
        r->Done_0->Ok_0.content_length == primary->Ok_0.content_length,
        r->Done_0->Ok_0.body == primary->Ok_0.body,
{
}

/// A GET for a regular file under the root is answered 200, with the length
/// of the file and its contents streamed from its local path.
pub proof fn lemma_file_is_served(
    config: Config,
    req: Request,
    resolved: String,
    rr: Next,
    canonical: String,
    len: u64,
    r0: Next,
    r1: Next,
    r2: Next,
    r3: Next,
)
    requires
        req.method@ == "GET"@,
        config.authorised(req.authorization_view()),
        local_path_spec(req.path@, config.root_dir@, config.allow_escape_root) is Ok,
        !is_markdown_path(local_of(config, req)),
        begin_spec(config, req, r0),
        resume_spec(config, req, r0->Ask_0, Fact::Canonical(Ok(resolved)), rr),
        config.may_serve(resolved@),
        resume_spec(config, req, rr->Ask_0, Fact::Metadata(Ok(false)), r1),
        resume_spec(config, req, r1->Ask_0, Fact::Canonical(Ok(canonical)), r2),
        config.may_serve(canonical@),
        resume_spec(config, req, r2->Ask_0, Fact::Opened(Ok(len)), r3),
    ensures
        r3 is Done && r3->Done_0 is Ok,
        r3->Done_0->Ok_0.status == 200,
        r3->Done_0->Ok_0.content_length == Some(len),
        r3->Done_0->Ok_0.body is File,
        r3->Done_0->Ok_0.body->File_0@ == local_of(config, req),
{
    let resp = choose|resp: Reply|
        #[trigger] is_file_reply(resp, local_of(config, req), len) && serve_spec(config, req, Ok(resp), r3);
    lemma_response_passes(config, req, Ok(resp), r3);
}

/// A GET for a directory named without a trailing `/` is answered 302 to
/// the request path with `/` appended and the query kept.
pub proof fn lemma_directory_redirect(config: Config, req: Request,
    resolved: String,
    rr: Next, r0: Next, r1: Next)
    requires
        req.method@ == "GET"@,
        config.authorised(req.authorization_view()),
        local_path_spec(req.path@, config.root_dir@, config.allow_escape_root) is Ok,
        !is_markdown_path(local_of(config, req)),
        !ends_with_slash(req.path@),
        begin_spec(config, req, r0),
        resume_spec(config, req, r0->Ask_0, Fact::Canonical(Ok(resolved)), rr),
        config.may_serve(resolved@),
        resume_spec(config, req, rr->Ask_0, Fact::Metadata(Ok(true)), r1),
    ensures
        r1 is Done && r1->Done_0 is Ok,
        r1->Done_0->Ok_0.status == 302,
        r1->Done_0->Ok_0.headers@.len() == 1,
        r1->Done_0->Ok_0.headers@[0].0@ == "location"@,
        r1->Done_0->Ok_0.headers@[0].1@ == redirect_location(req.path@, query_view(req.query)),
        r1->Done_0->Ok_0.body is Empty,
{
    let resp = choose|resp: Reply|
        #[trigger] is_redirect(resp, redirect_location(req.path@, query_view(req.query))) && serve_spec(
            config,
            req,
            Ok(resp),
            r1,
        );
    lemma_response_passes(config, req, Ok(resp), r1);
}

/// A GET for a directory with a trailing `/` is served by the directory's
/// `index.html`: 200 with that file where it exists under the root, and,
/// with the extensions off, 404 where it does not.
pub proof fn lemma_directory_index(
    config: Config,
    req: Request,
    resolved: String,
    rr: Next,
    index: Fact,
    opened: Fact,
    r0: Next,
    r1: Next,
    r2: Next,
    r3: Next,
)
    requires
        req.method@ == "GET"@,
        config.authorised(req.authorization_view()),
        local_path_spec(req.path@, config.root_dir@, config.allow_escape_root) is Ok,
        !is_markdown_path(local_of(config, req)),
        ends_with_slash(req.path@),
        begin_spec(config, req, r0),
        resume_spec(config, req, r0->Ask_0, Fact::Canonical(Ok(resolved)), rr),
        config.may_serve(resolved@),
        resume_spec(config, req, rr->Ask_0, Fact::Metadata(Ok(true)), r1),
        index is Canonical,
        resume_spec(config, req, r1->Ask_0, index, r2),
        index->Canonical_0 is Ok ==> config.may_serve(index->Canonical_0->Ok_0@),
        opened is Opened && opened->Opened_0 is Ok,
        index->Canonical_0 is Ok ==> resume_spec(config, req, r2->Ask_0, opened, r3),
    ensures
        r1.asks(Step::Contain, join(local_of(config, req), "index.html"@)),
        index->Canonical_0 is Ok ==> {
            &&& r3 is Done && r3->Done_0 is Ok
            &&& r3->Done_0->Ok_0.status == 200
            &&& r3->Done_0->Ok_0.body is File
            &&& r3->Done_0->Ok_0.body->File_0@ == join(local_of(config, req), "index.html"@)
        },
        index->Canonical_0 is Err && index->Canonical_0->Err_0 is NotFound && !config.use_extensions
            ==> r2 is Done && r2->Done_0 is Err && crate::error::status_of(r2->Done_0->Err_0) == 404,
{
    if index->Canonical_0 is Ok {
        let len = opened->Opened_0->Ok_0;
        let resp = choose|resp: Reply|
            #[trigger] is_file_reply(resp, join(local_of(config, req), "index.html"@), len)
                && serve_spec(config, req, Ok(resp), r3);
        lemma_response_passes(config, req, Ok(resp), r3);
    }
}

/// With the extensions on in single-page-app mode, a request for a missing
/// file (not markdown) is answered 200 with the root `index.html`, where
/// that opens.
pub proof fn lemma_single_page_fallback(
    config: Config,
    req: Request,
    stage: Stage,
    missing: IoError,
    len: u64,
    r1: Next,
    r2: Next,
)
    requires
        config.use_extensions,
        config.single_page_app,
        local_path_spec(req.path@, config.root_dir@, config.allow_escape_root) is Ok,
        !is_markdown_path(local_of(config, req)),
        stage.step == Step::Contain,
        missing is NotFound,
        resume_spec(config, req, stage, Fact::Canonical(Err(missing)), r1),
        resume_spec(config, req, r1->Ask_0, Fact::Opened(Ok(len)), r2),
    ensures
        r1.asks(Step::Spa, ext::spa_index(config.root_dir@)),
        r2 is Done && r2->Done_0 is Ok,
        is_file_reply(r2->Done_0->Ok_0, ext::spa_index(config.root_dir@), len),
{
}

/// A request whose path climbs out of the root by its `..` components (or
/// names an absolute path) is answered 403 where escaping the root is not
/// allowed, before the file system is asked anything.
pub proof fn lemma_climbing_request_forbidden(config: Config, req: Request, r: Next)
    requires
        req.method@ == "GET"@,
        config.authorised(req.authorization_view()),
        !config.allow_escape_root,
        crate::text::percent_decoded(crate::path::before_query(req.path@)) is Some,
        ({
            let d = crate::text::percent_decoded(crate::path::before_query(req.path@))->0;
            d.len() > 0 && d[0] == '/' && crate::path::leaves_base(d.drop_first())
        }),
        begin_spec(config, req, r),
    ensures
        r == Next::Done(Err(Error::EntityNotInRoot)),
        crate::error::status_of(Error::EntityNotInRoot) == 403,
{
}

/// A path whose canonical form lies outside the root is answered 403 where
/// escaping the root is not allowed: at the first question about the local
/// path (whose answer, for a path that does not exist, is the canonical form
/// of its nearest existing ancestor), before a listing, and at the file and
/// markdown checks, whether it names a file or a directory and whether it is
/// markdown or not.
pub proof fn lemma_outside_root_forbidden(config: Config, req: Request, stage: Stage, canonical: String, r: Next)
    requires
        stage.step == Step::Resolve || stage.step == Step::Contain || stage.step == Step::MarkdownCheck
            || stage.step == Step::ListCheck,
        stage.step == Step::Contain && config.use_extensions ==> local_path_spec(req.path@, config.root_dir@, config.allow_escape_root) is Ok
            && !is_markdown_path(local_of(config, req)),
        !config.allow_escape_root,
        !crate::path::within(canonical@, config.root_dir@),
        resume_spec(config, req, stage, Fact::Canonical(Ok(canonical)), r),
    ensures
        r == Next::Done(Err(Error::EntityNotInRoot)),
        crate::error::status_of(Error::EntityNotInRoot) == 403,
{
}

/// Serving the same file twice, with the same answers from the file system,
/// gives the same response: with the extensions off, or on for a path that
/// is not markdown.
pub proof fn lemma_same_file_same_response(
    config: Config,
    req: Request,
    stage: Stage,
    len: u64,
    r: Next,
    s: Next,
)
    requires
        stage.step == Step::Open,
        config.use_extensions ==> local_path_spec(req.path@, config.root_dir@, config.allow_escape_root) is Ok
            && !is_markdown_path(local_of(config, req)),
        resume_spec(config, req, stage, Fact::Opened(Ok(len)), r),
        resume_spec(config, req, stage, Fact::Opened(Ok(len)), s),
    ensures
        r is Done && r->Done_0 is Ok && s is Done && s->Done_0 is Ok,
        r->Done_0->Ok_0.status == s->Done_0->Ok_0.status,
        r->Done_0->Ok_0.content_length == s->Done_0->Ok_0.content_length,
        r->Done_0->Ok_0.content_type is Some && s->Done_0->Ok_0.content_type is Some,
        r->Done_0->Ok_0.content_type->0@ == s->Done_0->Ok_0.content_type->0@,
        r->Done_0->Ok_0.headers@.len() == 0 && s->Done_0->Ok_0.headers@.len() == 0,
        r->Done_0->Ok_0.body is File && s->Done_0->Ok_0.body is File,
        r->Done_0->Ok_0.body->File_0@ == s->Done_0->Ok_0.body->File_0@,
{
    let path = stage.path@;
    let a = choose|resp: Reply| #[trigger] is_file_reply(resp, path, len) && serve_spec(config, req, Ok(resp), r);
    let b = choose|resp: Reply| #[trigger] is_file_reply(resp, path, len) && serve_spec(config, req, Ok(resp), s);
    if config.use_extensions {
        lemma_response_passes(config, req, Ok(a), r);
        lemma_response_passes(config, req, Ok(b), s);
    }
}

} // verus!
