//! Responses: the plain response value handed back to the HTTP layer, the
//! HTML page template, and the translation of errors into error pages.

use vstd::prelude::*;
use vstd::string::*;
use vstd::utf8::*;
use crate::error::{chain_lines, lines_view, log_error_chain, status_of, Error};

verus! {

/// The body of a response.
#[derive(Debug)]
pub enum Body {
    /// No body.
    Empty,
    /// This text.
    Text(String),
    /// The contents of the file at this path, streamed.
    File(String),
}

/// A response, as plain values.
#[derive(Debug)]
pub struct Reply {
    /// The status code.
    pub status: u16,
    /// The `Content-Type` header, if any.
    pub content_type: Option<String>,
    /// The `Content-Length` header, if any.
    pub content_length: Option<u64>,
    /// Further headers, as lower-case name and value.
    pub headers: Vec<(String, String)>,
    /// The body.
    pub body: Body,
}

/// The page template: a title, which is escaped, and a body of HTML, which
/// is not.
pub const HTML_TEMPLATE: &'static str = "<!DOCTYPE html>
<html>
<head>
<meta charset=\"utf-8\">
<title>{{title}}</title>
</head>
<body>
{{#if title}}<h1>{{title}}</h1>{{/if}}
{{{body}}}
</body>
</html>
";

/// The headers as pairs of texts.
pub open spec fn headers_view(h: Seq<(String, String)>) -> Seq<(Seq<char>, Seq<char>)> {
    h.map_values(|p: (String, String)| (p.0@, p.1@))
}

/// What the page template gives for a title and a body, if it renders.
pub uninterp spec fn rendered_page(template: Seq<char>, title: Seq<char>, body: Seq<char>) -> Option<Seq<char>>;

/// The status line text of a status code: the code and its reason phrase.
pub uninterp spec fn status_text(code: u16) -> Seq<char>;

/// Relies on `handlebars::Handlebars::render_template` of a fresh registry,
/// with `title` and `body` as the data: the page, or the renderer's message.
/// The result depends on the three texts alone.
#[verifier::external_body]
fn render_template(template: &str, title: &str, body: &str) -> (r: Result<String, String>)
    ensures
        match r {
            Ok(s) => rendered_page(template@, title@, body@) == Some(s@),
            Err(_) => rendered_page(template@, title@, body@) is None,
        },
{
    let mut data = std::collections::BTreeMap::new();
    data.insert("title", title);
    data.insert("body", body);
    match handlebars::Handlebars::new().render_template(template, &data) {
        Ok(s) => Ok(s),
        Err(e) => Err(e.to_string()),
    }
}

/// Relies on `http::StatusCode::from_u16` and its `Display`: the code, a
/// space and the reason phrase. `from_u16` accepts the codes from 100 to 999.
#[verifier::external_body]
fn status_code_text(code: u16) -> (r: String)
    requires
        100 <= code <= 999,
    ensures
        r@ == status_text(code),
{
    match http::StatusCode::from_u16(code) {
        Ok(s) => s.to_string(),
        Err(_) => String::new(),
    }
}

/// Relies on `mime::TEXT_HTML`, which is `text/html`.
#[verifier::external_body]
pub(crate) fn text_html() -> (r: String)
    ensures
        r@ == "text/html"@,
{
    mime::TEXT_HTML.as_ref().to_string()
}

/// Relies on `mime::TEXT_PLAIN`, which is `text/plain`.
#[verifier::external_body]
pub(crate) fn text_plain() -> (r: String)
    ensures
        r@ == "text/plain"@,
{
    mime::TEXT_PLAIN.as_ref().to_string()
}

/// The length in bytes of a text.
pub fn byte_len(s: &str) -> (r: u64)
    ensures
        r as int == encode_utf8(s@).len(),
{
    let b = s.as_bytes();
    b.len() as u64
}

impl Reply {
    /// An HTML page with this status, these further headers and this text.
    pub open spec fn is_html(&self, status: u16, headers: Seq<(Seq<char>, Seq<char>)>, html: Seq<char>) -> bool {
        &&& self.status == status
        &&& self.content_type is Some && self.content_type->0@ == "text/html"@
        &&& self.content_length == Some(encode_utf8(html).len() as u64)
        &&& headers_view(self.headers@) == headers
        &&& self.body is Text && self.body->Text_0@ == html
    }

    /// The error page for a status code with these further headers.
    pub open spec fn is_error_page(&self, status: u16, headers: Seq<(Seq<char>, Seq<char>)>) -> bool {
        &&& rendered_page(HTML_TEMPLATE@, status_text(status), seq![]) is Some
        &&& self.is_html(status, headers, rendered_page(HTML_TEMPLATE@, status_text(status), seq![])->0)
    }
}

/// The rendered page for this title and body, or `TemplateRender`.
pub open spec fn render_spec(title: Seq<char>, body: Seq<char>) -> Option<Seq<char>> {
    rendered_page(HTML_TEMPLATE@, title, body)
}

/// Renders the page template with a title and a body of HTML.
pub fn render_html(title: &str, body: &str) -> (r: Result<String, Error>)
    ensures
        match render_spec(title@, body@) {
            Some(s) => r is Ok && r->Ok_0@ == s,
            None => r is Err && r->Err_0 is TemplateRender,
        },
{
    match render_template(HTML_TEMPLATE, title, body) {
        Ok(s) => Ok(s),
        Err(m) => Err(Error::TemplateRender(m)),
    }
}

/// Renders the error page for a status code: its status line as the title,
/// an empty body.
pub fn render_error_html(status: u16) -> (r: Result<String, Error>)
    requires
        100 <= status <= 999,
    ensures
        match render_spec(status_text(status), seq![]) {
            Some(s) => r is Ok && r->Ok_0@ == s,
            None => r is Err && r->Err_0 is TemplateRender,
        },
{
    let title = status_code_text(status);
    let empty = String::new();
    render_html(title.as_str(), empty.as_str())
}

/// An HTML response with this text, status and further headers.
pub fn html_str_to_response_with_headers(body: String, status: u16, headers: Vec<(String, String)>) -> (r: Reply)
    ensures
        r.is_html(status, headers_view(headers@), body@),
{
    let len = byte_len(body.as_str());
    Reply { status, content_type: Some(text_html()), content_length: Some(len), headers, body: Body::Text(body) }
}

/// An HTML response with this text and status.
pub fn html_str_to_response(body: String, status: u16) -> (r: Reply)
    ensures
        r.is_html(status, seq![], body@),
{
    let r = html_str_to_response_with_headers(body, status, Vec::new());
    assert(headers_view(Seq::<(String, String)>::empty()) =~= seq![]);
    r
}

/// The error page for a status code, with further headers.
pub fn make_error_response_from_code_and_headers(status: u16, headers: Vec<(String, String)>) -> (r: Result<Reply, Error>)
    requires
        100 <= status <= 999,
    ensures
        match render_spec(status_text(status), seq![]) {
            Some(_) => r is Ok && r->Ok_0.is_error_page(status, headers_view(headers@)),
            None => r is Err && r->Err_0 is TemplateRender,
        },
{
    let body = render_error_html(status)?;
    Ok(html_str_to_response_with_headers(body, status, headers))
}

/// The error page for a status code.
pub fn make_error_response_from_code(status: u16) -> (r: Result<Reply, Error>)
    requires
        100 <= status <= 999,
    ensures
        match render_spec(status_text(status), seq![]) {
            Some(_) => r is Ok && r->Ok_0.is_error_page(status, seq![]),
            None => r is Err && r->Err_0 is TemplateRender,
        },
{
    let r = make_error_response_from_code_and_headers(status, Vec::new());
    assert(headers_view(Seq::<(String, String)>::empty()) =~= seq![]);
    r
}

/// The error page for an error: 404 for a missing file, 403 for a path
/// outside the root, 400 for a malformed request path, 500 otherwise.
pub fn make_error_response(e: &Error) -> (r: Result<Reply, Error>)
    ensures
        match render_spec(status_text(status_of(*e)), seq![]) {
            Some(_) => r is Ok && r->Ok_0.is_error_page(status_of(*e), seq![]),
            None => r is Err && r->Err_0 is TemplateRender,
        },
{
    make_error_response_from_code(e.status())
}

/// The 500 page for an error, with the lines that report it.
pub fn make_internal_server_error_response(e: &Error) -> (r: (Result<Reply, Error>, Vec<String>))
    ensures
        match render_spec(status_text(500), seq![]) {
            Some(_) => r.0 is Ok && r.0->Ok_0.is_error_page(500, seq![]),
            None => r.0 is Err && r.0->Err_0 is TemplateRender,
        },
        lines_view(r.1@) == chain_lines(*e),
{
    let lines = log_error_chain(e);
    (make_error_response_from_code(500), lines)
}

/// The response for the outcome of a request, with the lines to report at
/// error level. A response passes unchanged, with nothing to report. An
/// error becomes its error page and is reported with its causes. Where even
/// the error page fails to render, the answer is a 500 in plain text that
/// names that failure, which is reported after the error.
pub fn transform_error(resp: Result<Reply, Error>) -> (r: (Reply, Vec<String>))
    ensures
        resp is Ok ==> r.0 == resp->Ok_0 && r.1@.len() == 0,
        resp is Err && render_spec(status_text(status_of(resp->Err_0)), seq![]) is Some ==> {
            &&& r.0.is_error_page(status_of(resp->Err_0), seq![])
            &&& lines_view(r.1@) == chain_lines(resp->Err_0)
        },
        resp is Err && render_spec(status_text(status_of(resp->Err_0)), seq![]) is None ==> {
            &&& r.0.status == 500
            &&& r.0.content_type is Some && r.0.content_type->0@ == "text/plain"@
            &&& r.0.body is Text
            &&& r.0.body->Text_0@ == "unexpected internal error: "@ + "failed to render template"@
            &&& lines_view(r.1@) == chain_lines(resp->Err_0).push(r.0.body->Text_0@)
        },
{
    match resp {
        Ok(r) => (r, Vec::new()),
        Err(e) => {
            let (page, lines) = if e.status() == 500 {
                make_internal_server_error_response(&e)
            } else {
                (make_error_response(&e), log_error_chain(&e))
            };
            match page {
                Ok(r) => (r, lines),
                Err(e2) => {
                    let mut text = "unexpected internal error: ".to_owned();
                    text.append(e2.message().as_str());
                    let mut report = lines;
                    report.push(text.clone());
                    assert(lines_view(report@) =~= chain_lines(e).push(text@));
                    let reply = Reply {
                        status: 500,
                        content_type: Some(text_plain()),
                        content_length: Some(byte_len(text.as_str())),
                        headers: Vec::new(),
                        body: Body::Text(text),
                    };
                    (reply, report)
                },
            }
        },
    }
}

} // verus!
