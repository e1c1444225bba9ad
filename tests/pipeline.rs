use basic_http_server::ext::{list_dir, maybe_convert_mime_type_to_text, md_path_to_html};
use basic_http_server::path::local_path_for_request;
use basic_http_server::response::{make_error_response, transform_error};
use basic_http_server::serve::{begin, resume, Fact, Next, Request, Stage, Step};
use basic_http_server::text::{encode_path, percent_decode};
use basic_http_server::{log_error_chain, Auth, Body, Config, Error, IoError, Reply};

fn config(ext: bool, spa: bool) -> Config {
    Config {
        addr: "127.0.0.1:4000".to_string(),
        root_dir: "/srv".to_string(),
        use_extensions: ext,
        allow_escape_root: false,
        single_page_app: spa,
        auth: None,
    }
}

fn get(path: &str) -> Request {
    Request { method: "GET".to_string(), path: path.to_string(), query: None, authorization: None }
}

fn stage(next: Next) -> Stage {
    match next {
        Next::Ask(s) => s,
        Next::Done(r) => panic!("expected a question, got {:?}", r),
    }
}

fn done(next: Next) -> Result<Reply, Error> {
    match next {
        Next::Done(r) => r,
        Next::Ask(s) => panic!("expected an answer, got {:?}", s),
    }
}

fn not_found() -> IoError {
    IoError::NotFound("No such file or directory".to_string())
}

fn header<'a>(r: &'a Reply, name: &str) -> Option<&'a str> {
    r.headers.iter().find(|(n, _)| n == name).map(|(_, v)| v.as_str())
}

fn text_body(r: &Reply) -> &str {
    match &r.body {
        Body::Text(t) => t.as_str(),
        other => panic!("expected text, got {:?}", other),
    }
}

fn file_body(r: &Reply) -> &str {
    match &r.body {
        Body::File(p) => p.as_str(),
        other => panic!("expected a file, got {:?}", other),
    }
}

/// Starts a request whose local path lies under the root, answering the
/// first question with that path itself as its canonical form.
fn start(c: &Config, req: &Request) -> Stage {
    let s = stage(begin(c, req));
    assert_eq!(s.step, Step::Resolve);
    let canonical = s.path.trim_end_matches('/').to_string();
    stage(resume(c, req, s, Fact::Canonical(Ok(canonical))))
}

/// Runs a request whose path is a plain file that exists under the root.
fn serve_existing_file(c: &Config, req: &Request, len: u64) -> Reply {
    let s = start(c, req);
    let s = stage(resume(c, req, s, Fact::Metadata(Ok(false))));
    assert_eq!(s.step, Step::Contain);
    let canonical = s.path.clone();
    let s = stage(resume(c, req, s, Fact::Canonical(Ok(canonical))));
    assert_eq!(s.step, Step::Open);
    done(resume(c, req, s, Fact::Opened(Ok(len)))).unwrap()
}

#[test]
fn existing_file_is_served_whole() {
    let c = config(false, false);
    let r = serve_existing_file(&c, &get("/a/page.html"), 1234);
    assert_eq!(r.status, 200);
    assert_eq!(file_body(&r), "/srv/a/page.html");
    assert_eq!(r.content_length, Some(1234));
    assert_eq!(r.content_type.as_deref(), Some("text/html"));
}

#[test]
fn unknown_extension_is_octet_stream() {
    let c = config(false, false);
    let r = serve_existing_file(&c, &get("/blob.zzzq"), 3);
    assert_eq!(r.content_type.as_deref(), Some("application/octet-stream"));
}

#[test]
fn scenario_index_at_root() {
    let c = config(false, false);
    let req = get("/");
    let s = start(&c, &req);
    assert_eq!(s.step, Step::Index);
    assert_eq!(s.path, "/srv/");
    let s = stage(resume(&c, &req, s, Fact::Metadata(Ok(true))));
    assert_eq!(s.step, Step::Contain);
    assert_eq!(s.path, "/srv/index.html");
    let s = stage(resume(&c, &req, s, Fact::Canonical(Ok("/srv/index.html".to_string()))));
    let r = done(resume(&c, &req, s, Fact::Opened(Ok("<h1>hi</h1>".len() as u64)))).unwrap();
    assert_eq!(r.status, 200);
    assert_eq!(file_body(&r), "/srv/index.html");
    assert_eq!(r.content_length, Some(11));
}

#[test]
fn scenario_docs_redirect_then_index() {
    let c = config(false, false);
    let req = get("/docs");
    let s = start(&c, &req);
    assert_eq!(s.step, Step::Redirect);
    let r = done(resume(&c, &req, s, Fact::Metadata(Ok(true)))).unwrap();
    assert_eq!(r.status, 302);
    assert_eq!(header(&r, "location"), Some("/docs/"));

    let req = get("/docs/");
    let s = start(&c, &req);
    assert_eq!(s.step, Step::Index);
    let s = stage(resume(&c, &req, s, Fact::Metadata(Ok(true))));
    assert_eq!(s.path, "/srv/docs/index.html");
    let s = stage(resume(&c, &req, s, Fact::Canonical(Ok("/srv/docs/index.html".to_string()))));
    let r = done(resume(&c, &req, s, Fact::Opened(Ok(20)))).unwrap();
    assert_eq!(r.status, 200);
    assert_eq!(file_body(&r), "/srv/docs/index.html");
}

#[test]
fn redirect_keeps_query() {
    let c = config(false, false);
    let mut req = get("/docs");
    req.query = Some("a=1&b=2".to_string());
    let s = start(&c, &req);
    let r = done(resume(&c, &req, s, Fact::Metadata(Ok(true)))).unwrap();
    assert_eq!(r.status, 302);
    assert_eq!(header(&r, "location"), Some("/docs/?a=1&b=2"));
    assert!(matches!(r.body, Body::Empty));
}

#[test]
fn directory_without_index_is_not_found() {
    let c = config(false, false);
    let req = get("/empty/");
    let s = start(&c, &req);
    let s = stage(resume(&c, &req, s, Fact::Metadata(Ok(true))));
    let out = done(resume(&c, &req, s, Fact::Canonical(Err(not_found()))));
    let (r, lines) = transform_error(out);
    assert_eq!(r.status, 404);
    assert_eq!(lines, vec!["error: I/O error".to_string(), "caused by: No such file or directory".to_string()]);
    assert!(text_body(&r).contains("404 Not Found"));
}

#[test]
fn scenario_markdown_rendered() {
    let c = config(true, false);
    let req = get("/notes.md");
    let s = start(&c, &req);
    let s = stage(resume(&c, &req, s, Fact::Metadata(Ok(false))));
    let s = stage(resume(&c, &req, s, Fact::Canonical(Ok("/srv/notes.md".to_string()))));
    let s = stage(resume(&c, &req, s, Fact::Opened(Ok(4))));
    assert_eq!(s.step, Step::MarkdownCheck);
    assert_eq!(s.path, "/srv/notes.md");
    let s = stage(resume(&c, &req, s, Fact::Canonical(Ok("/srv/notes.md".to_string()))));
    assert_eq!(s.step, Step::Markdown);
    let r = done(resume(&c, &req, s, Fact::Contents(Ok(b"# Hi".to_vec())))).unwrap();
    assert_eq!(r.status, 200);
    assert_eq!(r.content_type.as_deref(), Some("text/html"));
    let body = text_body(&r);
    assert!(body.contains("<h1 id=\"user-content-hi\">Hi"), "{}", body);
    assert!(!body.contains("# Hi"), "{}", body);
    assert_eq!(r.content_length, Some(body.len() as u64));
}

#[test]
fn markdown_not_utf8() {
    let r = md_path_to_html(vec![0x23, 0x20, 0xff, 0xfe]);
    assert!(matches!(r, Err(Error::Ext(basic_http_server::ext::Error::MarkdownUtf8))));
    let (reply, lines) = transform_error(r);
    assert_eq!(reply.status, 500);
    assert_eq!(lines, vec!["error: Extension error".to_string(), "caused by: markdown is not UTF-8".to_string()]);
}

#[test]
fn markdown_outside_root_forbidden() {
    let c = config(true, false);
    let req = get("/link.md");
    let s = start(&c, &req);
    let s = stage(resume(&c, &req, s, Fact::Metadata(Ok(false))));
    let s = stage(resume(&c, &req, s, Fact::Canonical(Ok("/home/secret.md".to_string()))));
    assert_eq!(s.step, Step::MarkdownCheck);
    let out = done(resume(&c, &req, s, Fact::Canonical(Ok("/home/secret.md".to_string()))));
    let (r, _) = transform_error(out);
    assert_eq!(r.status, 403);
}

#[test]
fn scenario_missing_without_extensions() {
    let c = config(false, false);
    let req = get("/missing");
    let s = start(&c, &req);
    let s = stage(resume(&c, &req, s, Fact::Metadata(Err(not_found()))));
    let out = done(resume(&c, &req, s, Fact::Canonical(Err(not_found()))));
    let (r, _) = transform_error(out);
    assert_eq!(r.status, 404);
}

#[test]
fn scenario_missing_with_single_page_app() {
    let c = config(true, true);
    let req = get("/missing");
    let s = start(&c, &req);
    let s = stage(resume(&c, &req, s, Fact::Metadata(Err(not_found()))));
    let s = stage(resume(&c, &req, s, Fact::Canonical(Err(not_found()))));
    assert_eq!(s.step, Step::Spa);
    assert_eq!(s.path, "/srv/index.html");
    let r = done(resume(&c, &req, s, Fact::Opened(Ok(11)))).unwrap();
    assert_eq!(r.status, 200);
    assert_eq!(file_body(&r), "/srv/index.html");
    assert_eq!(r.content_length, Some(11));
}

#[test]
fn scenario_auth_required() {
    let mut c = config(false, false);
    c.auth = Some(Auth::from_str("user:pass"));
    let r = done(begin(&c, &get("/"))).unwrap();
    assert_eq!(r.status, 401);
    assert_eq!(
        header(&r, "www-authenticate"),
        Some("Basic realm=\"User Visible Realm\", charset=\"UTF-8\"")
    );
}

#[test]
fn auth_accepted_and_rejected() {
    let mut c = config(false, false);
    c.auth = Some(Auth::from_str("user:pass"));
    let mut req = get("/");
    req.authorization = Some(b"Basic dXNlcjpwYXNz".to_vec());
    assert!(matches!(begin(&c, &req), Next::Ask(_)));
    req.authorization = Some(b"bAsIc   dXNlcjpwYXNz  ".to_vec());
    assert!(matches!(begin(&c, &req), Next::Ask(_)));
    req.authorization = Some(b"Basic dXNlcjp3cm9uZw==".to_vec());
    assert_eq!(done(begin(&c, &req)).unwrap().status, 401);
    req.authorization = Some(b"Bearer dXNlcjpwYXNz".to_vec());
    assert_eq!(done(begin(&c, &req)).unwrap().status, 401);
    req.authorization = Some(b"Basic !!!".to_vec());
    assert_eq!(done(begin(&c, &req)).unwrap().status, 401);
}

#[test]
fn auth_from_str_splits_at_first_colon() {
    let a = Auth::from_str("user:pa:ss");
    assert_eq!(a.username(), "user");
    assert_eq!(a.password(), "pa:ss");
    let b = Auth::from_str("alone");
    assert_eq!(b.username(), "alone");
    assert_eq!(b.password(), "");
}

#[test]
fn method_not_allowed() {
    let c = config(false, false);
    let mut req = get("/");
    req.method = "POST".to_string();
    let r = done(begin(&c, &req)).unwrap();
    assert_eq!(r.status, 405);
    assert_eq!(header(&r, "allow"), Some("GET"));
    assert!(text_body(&r).contains("405 Method Not Allowed"));
}

#[test]
fn escaping_root_is_forbidden() {
    let c = config(false, false);
    let req = get("/passwd-link");
    let s = start(&c, &req);
    let s = stage(resume(&c, &req, s, Fact::Metadata(Ok(false))));
    let out = done(resume(&c, &req, s, Fact::Canonical(Ok("/etc/passwd".to_string()))));
    assert!(matches!(out, Err(Error::EntityNotInRoot)));
    let (r, _) = transform_error(out);
    assert_eq!(r.status, 403);
}

#[test]
fn sibling_with_common_prefix_is_outside() {
    let c = config(false, false);
    assert!(c.check_in_root_dir(Ok("/srv/a".to_string())).is_ok());
    assert!(c.check_in_root_dir(Ok("/srv".to_string())).is_ok());
    assert!(matches!(c.check_in_root_dir(Ok("/srvx/a".to_string())), Err(Error::EntityNotInRoot)));
    let mut open = config(false, false);
    open.allow_escape_root = true;
    assert!(open.check_in_root_dir(Ok("/etc/passwd".to_string())).is_ok());
}

#[test]
fn same_file_twice_same_response() {
    let c = config(false, false);
    let a = serve_existing_file(&c, &get("/x.txt"), 5);
    let b = serve_existing_file(&c, &get("/x.txt"), 5);
    assert_eq!(format!("{:?}", a), format!("{:?}", b));
}

#[test]
fn request_path_errors() {
    assert!(matches!(local_path_for_request("abc", "/srv", false), Err(Error::UriNotAbsolute)));
    assert!(matches!(local_path_for_request("/%FF", "/srv", false), Err(Error::UriNotUtf8)));
    assert_eq!(local_path_for_request("/a%20b?x=1", "/srv", false).unwrap(), "/srv/a b");
    assert!(matches!(local_path_for_request("//etc", "/srv", false), Err(Error::EntityNotInRoot)));
    assert_eq!(local_path_for_request("//etc", "/srv", true).unwrap(), "/etc");
    assert!(matches!(local_path_for_request("/../etc", "/srv", false), Err(Error::EntityNotInRoot)));
    assert!(matches!(local_path_for_request("/%2e%2e/x", "/srv", false), Err(Error::EntityNotInRoot)));
    assert!(matches!(local_path_for_request("/a/../../x", "/srv", false), Err(Error::EntityNotInRoot)));
    assert!(matches!(local_path_for_request("/a/..", "/srv", false), Ok(_)));
    assert_eq!(local_path_for_request("/a/./../b/..x", "/srv", false).unwrap(), "/srv/a/./../b/..x");
    assert_eq!(local_path_for_request("/../etc", "/srv", true).unwrap(), "/srv/../etc");
    let (r, _) = transform_error(Err(Error::UriNotUtf8));
    assert_eq!(r.status, 400);
}

#[test]
fn internal_error_is_logged() {
    let e = Error::Io(IoError::Other("permission denied".to_string()));
    let (r, lines) = transform_error(Err(e));
    assert_eq!(r.status, 500);
    assert_eq!(lines, vec!["error: I/O error".to_string(), "caused by: permission denied".to_string()]);
}

#[test]
fn error_chain_lines() {
    let e = Error::Ext(basic_http_server::ext::Error::Io(IoError::Other("disk".to_string())));
    assert_eq!(
        log_error_chain(&e),
        vec!["error: Extension error".to_string(), "caused by: I/O error".to_string(), "caused by: disk".to_string()]
    );
    assert_eq!(log_error_chain(&Error::EntityNotInRoot).len(), 1);
    assert_eq!(make_error_response(&e).unwrap().status, 500);
}

#[test]
fn link_round_trip() {
    let names = ["a b", "q\"uote", "<tag>", "back`tick", "hash#", "what?", "{brace}", "naïve é"];
    for n in names.iter() {
        let enc = encode_path(n);
        assert!(!enc.contains(' '));
        assert_eq!(percent_decode(&enc).as_deref(), Some(*n));
    }
    assert_eq!(encode_path("a b#c"), "a%20b%23c");
    assert_eq!(encode_path("é"), "%C3%A9");
    assert_eq!(percent_decode("%41%4a%zz%"), Some("AJ%zz%".to_string()));
}

#[test]
fn directory_listing_sorted_and_encoded() {
    let r = list_dir("/srv", "/srv/docs", vec!["b.txt".to_string(), "a b.txt".to_string()]).unwrap();
    assert_eq!(r.status, 200);
    let body = text_body(&r);
    let up = body.find("<a href='/docs/..'>..</a>").expect("parent link");
    let a = body.find("<a href='/docs/a%20b.txt'>a b.txt</a>").expect("first entry");
    let b = body.find("<a href='/docs/b.txt'>b.txt</a>").expect("second entry");
    assert!(up < a && a < b);
}

#[test]
fn listing_outside_root_fails() {
    let r = list_dir("/srv", "/other", vec!["x".to_string()]);
    assert!(matches!(r, Err(Error::Ext(basic_http_server::ext::Error::StripPrefixInDirList(_)))));
}

#[test]
fn listing_through_pipeline() {
    let c = config(true, false);
    let req = get("/docs/");
    let s = start(&c, &req);
    let s = stage(resume(&c, &req, s, Fact::Metadata(Ok(true))));
    let s = stage(resume(&c, &req, s, Fact::Canonical(Err(not_found()))));
    assert_eq!(s.step, Step::ListCheck);
    assert_eq!(s.path, "/srv/docs/");
    let s = stage(resume(&c, &req, s, Fact::Canonical(Ok("/srv/docs".to_string()))));
    assert_eq!(s.step, Step::ListKind);
    let s = stage(resume(&c, &req, s, Fact::Metadata(Ok(true))));
    assert_eq!(s.step, Step::List);
    let r = done(resume(&c, &req, s, Fact::Entries(Ok(vec!["z".to_string()])))).unwrap();
    assert!(text_body(&r).contains("<a href='/docs/z'>z</a>"));
}

#[test]
fn source_files_served_as_text() {
    let c = config(true, false);
    let r = serve_existing_file(&c, &get("/src/main.rs"), 10);
    assert_eq!(r.content_type.as_deref(), Some("text/plain"));
    let r = serve_existing_file(&c, &get("/Makefile"), 10);
    assert_eq!(r.content_type.as_deref(), Some("text/plain"));
    let r = serve_existing_file(&c, &get("/pic.png"), 10);
    assert_eq!(r.content_type.as_deref(), Some("image/png"));
    let mut reply = serve_existing_file(&config(false, false), &get("/LICENSE"), 1);
    maybe_convert_mime_type_to_text("/LICENSE", &mut reply);
    assert_eq!(reply.content_type.as_deref(), Some("text/plain"));
}

#[test]
fn canonical_root_dir_set_or_failed() {
    let mut c = config(false, false);
    c.root_dir = "./site".to_string();
    assert!(c.canonical_root_dir(Ok("/home/me/site".to_string())).is_ok());
    assert_eq!(c.root_dir, "/home/me/site");
    let r = c.canonical_root_dir(Err(not_found()));
    assert!(matches!(r, Err(Error::Io(IoError::NotFound(_)))));
    assert_eq!(c.root_dir, "/home/me/site");
}

#[test]
fn startup_errors_report_their_cause() {
    let e = Error::AddrParse("invalid socket address syntax".to_string());
    assert_eq!(
        log_error_chain(&e),
        vec![
            "error: failed to parse IP address".to_string(),
            "caused by: invalid socket address syntax".to_string()
        ]
    );
    assert_eq!(Error::UriNotAbsolute.message(), "requested URI is not an absolute path");
    assert_eq!(Error::UriNotAbsolute.status(), 400);
    assert_eq!(Error::Hyper("closed".to_string()).status(), 500);
}

#[test]
fn not_absolute_request_is_bad_request() {
    let c = config(true, false);
    let req = get("relative/path");
    let out = done(begin(&c, &req));
    assert!(matches!(out, Err(Error::UriNotAbsolute)));
    let (r, lines) = transform_error(out);
    assert_eq!(r.status, 400);
    assert_eq!(lines, vec!["error: requested URI is not an absolute path".to_string()]);
}

#[test]
fn other_io_error_on_open_is_internal() {
    let c = config(false, false);
    let req = get("/locked.txt");
    let s = start(&c, &req);
    let s = stage(resume(&c, &req, s, Fact::Metadata(Ok(false))));
    let s = stage(resume(&c, &req, s, Fact::Canonical(Ok("/srv/locked.txt".to_string()))));
    let out = done(resume(&c, &req, s, Fact::Opened(Err(IoError::Other("permission denied".to_string())))));
    let (r, lines) = transform_error(out);
    assert_eq!(r.status, 500);
    assert_eq!(lines.len(), 2);
}

#[test]
fn climbing_request_is_forbidden_before_any_question() {
    for path in ["/../etc/passwd", "/%2e%2e/x", "/a/../../x", "//etc/passwd", "/../missing"].iter() {
        for ext in [false, true].iter() {
            let c = config(*ext, false);
            let out = done(begin(&c, &get(path)));
            assert!(matches!(out, Err(Error::EntityNotInRoot)), "{}", path);
            assert_eq!(transform_error(out).0.status, 403);
        }
    }
}

#[test]
fn outside_directory_is_not_redirected() {
    let c = config(false, false);
    let req = get("/link");
    let s = stage(begin(&c, &req));
    assert_eq!(s.step, Step::Resolve);
    let out = done(resume(&c, &req, s, Fact::Canonical(Ok("/home/other".to_string()))));
    assert_eq!(transform_error(out).0.status, 403);
}

#[test]
fn missing_target_under_outside_link_is_forbidden() {
    // the nearest existing ancestor of /srv/link/missing is the link, which
    // resolves outside the root
    let c = config(true, false);
    let req = get("/link/missing");
    let s = stage(begin(&c, &req));
    let out = done(resume(&c, &req, s, Fact::Canonical(Ok("/home/other".to_string()))));
    assert!(matches!(out, Err(Error::EntityNotInRoot)));
    assert_eq!(transform_error(out).0.status, 403);
}

#[test]
fn outside_directory_is_not_listed() {
    let c = config(true, false);
    let req = get("/docs/");
    let s = start(&c, &req);
    let s = stage(resume(&c, &req, s, Fact::Metadata(Ok(true))));
    let s = stage(resume(&c, &req, s, Fact::Canonical(Err(not_found()))));
    assert_eq!(s.step, Step::ListCheck);
    let out = done(resume(&c, &req, s, Fact::Canonical(Ok("/elsewhere".to_string()))));
    assert!(matches!(out, Err(Error::EntityNotInRoot)));
}

#[test]
fn engine_error_reports_inner_chain() {
    let inner = Error::TemplateRender("unclosed tag".to_string());
    let e = Error::Ext(basic_http_server::ext::Error::Engine(Box::new(inner)));
    assert_eq!(
        log_error_chain(&e),
        vec![
            "error: Extension error".to_string(),
            "caused by: engine error".to_string(),
            "caused by: failed to render template".to_string(),
            "caused by: unclosed tag".to_string()
        ]
    );
    assert_eq!(e.status(), 500);
}

#[test]
fn stage_accepts_only_its_answer() {
    let c = config(false, false);
    let req = get("/x");
    let s = stage(begin(&c, &req));
    assert!(s.accepts(&Fact::Canonical(Ok("/srv/x".to_string()))));
    assert!(!s.accepts(&Fact::Metadata(Ok(true))));
}
