//! Developer extensions: markdown rendering, the single-page-app fallback,
//! directory listings and serving source files as plain text.

use vstd::prelude::*;
use vstd::string::*;
use vstd::utf8::*;
use crate::error::IoError;
use crate::path::{
    after_last, after_last_char, file_name, file_name_of, is_within, join,
    join_path, tail_from, within,
};
use crate::response::{
    html_str_to_response, render_html, render_spec, text_plain, Reply,
};
use crate::text::{chars_of, encode_path, path_encoded, string_of, utf8_string};
use crate::config::Config;
use crate::path::{is_markdown, is_markdown_path, local_path_for_request, local_path_spec};
use crate::serve::{Next, Request, Stage, Step};

verus! {

/// The error of the developer extensions.
#[derive(Debug)]
pub enum Error {
    /// An error of the main pipeline, met by an extension.
    Engine(Box<crate::Error>),
    /// The HTTP layer refused to build a response; its message.
    Http(String),
    /// A file-system operation failed.
    Io(IoError),
    /// A markdown file is not UTF-8.
    MarkdownUtf8,
    /// A listed path does not lie under the root directory; the cause.
    StripPrefixInDirList(String),
    /// Writing the directory listing failed; the cause.
    WriteInDirList(String),
}

/// The text an extension error is displayed with.
pub open spec fn error_text(e: Error) -> Seq<char> {
    match e {
        Error::Engine(_) => "engine error"@,
        Error::Http(_) => "HTTP error"@,
        Error::Io(_) => "I/O error"@,
        Error::MarkdownUtf8 => "markdown is not UTF-8"@,
        Error::StripPrefixInDirList(_) => "failed to strip prefix in directory listing"@,
        Error::WriteInDirList(_) => "formatting error while creating directory listing"@,
    }
}

/// The texts of an extension error and of its cause, outermost first.
pub open spec fn error_chain(e: Error) -> Seq<Seq<char>>
    decreases e,
{
    match e {
        Error::Engine(b) => seq![error_text(e)] + crate::error::error_chain(*b),
        Error::Http(m) => seq![error_text(e), m@],
        Error::Io(io) => seq![error_text(e), io.spec_message()],
        Error::StripPrefixInDirList(m) => seq![error_text(e), m@],
        Error::WriteInDirList(m) => seq![error_text(e), m@],
        Error::MarkdownUtf8 => seq![error_text(e)],
    }
}

impl Error {
    /// The text this error is displayed with.
    pub fn message(&self) -> (r: String)
        ensures
            r@ == error_text(*self),
    {
        let s = match self {
            Error::Engine(_) => "engine error",
            Error::Http(_) => "HTTP error",
            Error::Io(_) => "I/O error",
            Error::MarkdownUtf8 => "markdown is not UTF-8",
            Error::StripPrefixInDirList(_) => "failed to strip prefix in directory listing",
            Error::WriteInDirList(_) => "formatting error while creating directory listing",
        };
        s.to_owned()
    }

    /// The texts of this error and of its cause, outermost first.
    pub fn chain(&self) -> (r: Vec<String>)
        ensures
            r@.len() == error_chain(*self).len(),
            forall|i| 0 <= i < r@.len() ==> #[trigger] r@[i]@ == error_chain(*self)[i],
        decreases self,
    {
        let mut v: Vec<String> = Vec::new();
        v.push(self.message());
        match self {
            Error::Engine(b) => {
                let inner: &crate::Error = b;
                let rest = inner.chain();
                let mut i: usize = 0;
                while i < rest.len()
                    invariant
                        0 <= i <= rest@.len(),
                        rest@.len() == crate::error::error_chain(**b).len(),
                        forall|j: int| 0 <= j < rest@.len() ==> #[trigger] rest@[j]@ == crate::error::error_chain(**b)[j],
                        v@.len() == i + 1,
                        v@[0]@ == error_text(*self),
                        forall|j: int| 1 <= j <= i ==> #[trigger] v@[j]@ == rest@[j - 1]@,
                    decreases rest@.len() - i,
                {
                    v.push(rest[i].clone());
                    i = i + 1;
                }
            },
            Error::Http(m) => v.push(m.clone()),
            Error::Io(io) => v.push(io.message()),
            Error::StripPrefixInDirList(m) => v.push(m.clone()),
            Error::WriteInDirList(m) => v.push(m.clone()),
            Error::MarkdownUtf8 => {},
        }
        v
    }
}

/// Extensions of files that are served as plain text.
pub open spec fn is_text_extension(e: Seq<char>) -> bool {
    e == "c"@ || e == "cc"@ || e == "cpp"@ || e == "csv"@ || e == "fst"@ || e == "h"@ || e
        == "java"@ || e == "md"@ || e == "mk"@ || e == "proto"@ || e == "py"@ || e == "rb"@ || e
        == "rs"@ || e == "rst"@ || e == "sh"@ || e == "toml"@ || e == "yml"@
}

/// Names of files that are served as plain text.
pub open spec fn is_text_file_name(n: Seq<char>) -> bool {
    n == ".gitattributes"@ || n == ".gitignore"@ || n == ".mailmap"@ || n == "AUTHORS"@ || n
        == "CODE_OF_CONDUCT"@ || n == "CONTRIBUTING"@ || n == "COPYING"@ || n == "COPYRIGHT"@ || n
        == "Cargo.lock"@ || n == "LICENSE"@ || n == "LICENSE-APACHE"@ || n == "LICENSE-MIT"@ || n
        == "Makefile"@ || n == "rust-toolchain"@
}

/// A request path names a source or text file: what follows its last `/`
/// is a known file name, or what follows the last `.` of that is a known
/// extension (the whole name where it has no `.`).
pub open spec fn is_text_source(request_path: Seq<char>) -> bool {
    let name = after_last(request_path, '/');
    is_text_extension(after_last(name, '.')) || is_text_file_name(name)
}

/// The text holds the characters of the literal.
fn is(v: &Vec<char>, lit: &str) -> (r: bool)
    ensures
        r == (v@ == lit@),
{
    let w = chars_of(lit);
    crate::path::same_chars(v, &w)
}

/// Executable form of `is_text_extension`.
pub fn text_extension(e: &Vec<char>) -> (r: bool)
    ensures
        r == is_text_extension(e@),
{
    is(e, "c") || is(e, "cc") || is(e, "cpp") || is(e, "csv") || is(e, "fst") || is(e, "h") || is(
        e,
        "java",
    ) || is(e, "md") || is(e, "mk") || is(e, "proto") || is(e, "py") || is(e, "rb") || is(e, "rs")
        || is(e, "rst") || is(e, "sh") || is(e, "toml") || is(e, "yml")
}

/// Executable form of `is_text_file_name`.
pub fn text_file_name(n: &Vec<char>) -> (r: bool)
    ensures
        r == is_text_file_name(n@),
{
    is(n, ".gitattributes") || is(n, ".gitignore") || is(n, ".mailmap") || is(n, "AUTHORS") || is(
        n,
        "CODE_OF_CONDUCT",
    ) || is(n, "CONTRIBUTING") || is(n, "COPYING") || is(n, "COPYRIGHT") || is(n, "Cargo.lock")
        || is(n, "LICENSE") || is(n, "LICENSE-APACHE") || is(n, "LICENSE-MIT") || is(n, "Makefile")
        || is(n, "rust-toolchain")
}

/// The response is the one before, but that where the request path names a
/// source or text file its `Content-Type` is `text/plain`.
pub open spec fn text_override(request_path: Seq<char>, before: Reply, after: Reply) -> bool {
    &&& after.status == before.status
    &&& after.content_length == before.content_length
    &&& after.headers == before.headers
    &&& after.body == before.body
    &&& if is_text_source(request_path) {
        after.content_type is Some && after.content_type->0@ == "text/plain"@
    } else {
        after.content_type == before.content_type
    }
}

/// Serves source and text files as `text/plain`, so that browsers show them
/// rather than download them.
pub fn maybe_convert_mime_type_to_text(request_path: &str, resp: &mut Reply)
    ensures
        text_override(request_path@, *old(resp), *final(resp)),
{
    let v = chars_of(request_path);
    let name = after_last_char(&v, '/');
    let ext = after_last_char(&name, '.');
    if text_extension(&ext) || text_file_name(&name) {
        resp.content_type = Some(text_plain());
    }
}

/// The options of the markdown renderer.
#[derive(Debug)]
pub struct MarkdownOptions {
    /// Bare URLs become links.
    pub autolink: bool,
    /// Tables.
    pub table: bool,
    /// `~~strikethrough~~`.
    pub strikethrough: bool,
    /// `- [ ]` task lists.
    pub tasklist: bool,
    /// Fenced code blocks carry their language as `lang` on `pre`.
    pub github_pre_lang: bool,
    /// Headings get anchors with ids that start with this prefix.
    pub header_id_prefix: Option<String>,
}

impl MarkdownOptions {
    /// The switches, in the order `autolink`, `table`, `strikethrough`,
    /// `tasklist`, `github_pre_lang`.
    pub open spec fn flags(&self) -> Seq<bool> {
        seq![self.autolink, self.table, self.strikethrough, self.tasklist, self.github_pre_lang]
    }

    /// The heading id prefix, as text.
    pub open spec fn prefix(&self) -> Option<Seq<char>> {
        match self.header_id_prefix {
            Some(p) => Some(p@),
            None => None,
        }
    }

    /// Markdown rendered as GitHub renders it: every switch on, and heading
    /// ids prefixed with `user-content-`.
    pub fn github() -> (r: MarkdownOptions)
        ensures
            r.flags() == seq![true, true, true, true, true],
            r.prefix() == Some("user-content-"@),
    {
        MarkdownOptions {
            autolink: true,
            table: true,
            strikethrough: true,
            tasklist: true,
            github_pre_lang: true,
            header_id_prefix: Some("user-content-".to_owned()),
        }
    }
}

/// A listed path did not lie under the root: `StripPrefixInDirList` with
/// the cause `prefix not found`.
pub open spec fn is_strip_failure(e: crate::Error) -> bool {
    e is Ext && e->Ext_0 is StripPrefixInDirList && e->Ext_0->StripPrefixInDirList_0@ == "prefix not found"@
}

/// An extension met a failure to render the page template.
pub open spec fn is_engine_render_failure(e: crate::Error) -> bool {
    e is Ext && e->Ext_0 is Engine && *(e->Ext_0->Engine_0) is TemplateRender
}

/// Renders the page template for an extension; a failure is the main
/// pipeline's, met by an extension.
fn render_page(body: &str) -> (r: Result<String, crate::Error>)
    ensures
        match render_spec(seq![], body@) {
            Some(s) => r is Ok && r->Ok_0@ == s,
            None => r is Err && is_engine_render_failure(r->Err_0),
        },
{
    let title = String::new();
    match render_html(title.as_str(), body) {
        Ok(s) => Ok(s),
        Err(e) => Err(crate::Error::Ext(Error::Engine(Box::new(e)))),
    }
}

/// The HTML that the markdown renderer gives for a text under these
/// switches and heading id prefix.
pub uninterp spec fn markdown_html(text: Seq<char>, flags: Seq<bool>, prefix: Option<Seq<char>>) -> Seq<char>;

/// Relies on `comrak::markdown_to_html`, with the options set from ours one
/// by one. The result depends on the text and the options alone.
#[verifier::external_body]
fn render_markdown(text: &str, o: &MarkdownOptions) -> (r: String)
    ensures
        r@ == markdown_html(text@, o.flags(), o.prefix()),
{
    let mut opts = comrak::Options::default();
    opts.extension.autolink = o.autolink;
    opts.extension.table = o.table;
    opts.extension.strikethrough = o.strikethrough;
    opts.extension.tasklist = o.tasklist;
    opts.extension.header_id_prefix = o.header_id_prefix.clone();
    opts.render.github_pre_lang = o.github_pre_lang;
    comrak::markdown_to_html(text, &opts)
}

/// The HTML of a markdown text, as GitHub renders it.
pub open spec fn github_html(text: Seq<char>) -> Seq<char> {
    markdown_html(text, seq![true, true, true, true, true], Some("user-content-"@))
}

/// The page for rendered markdown: the page template around the HTML, with
/// an empty title, as a 200 response.
pub fn markdown_page(html: String) -> (r: Result<Reply, crate::Error>)
    ensures
        match render_spec(seq![], html@) {
            Some(page) => r is Ok && r->Ok_0.is_html(200, seq![], page),
            None => r is Err && is_engine_render_failure(r->Err_0),
        },
{
    let page = render_page(html.as_str())?;
    Ok(html_str_to_response(page, 200))
}

/// The response for a markdown file with these contents: `MarkdownUtf8`
/// where they are not UTF-8, else the rendered page.
pub fn md_path_to_html(contents: Vec<u8>) -> (r: Result<Reply, crate::Error>)
    ensures
        !valid_utf8(contents@) ==> r == Err::<Reply, crate::Error>(crate::Error::Ext(Error::MarkdownUtf8)),
        valid_utf8(contents@) ==> match render_spec(seq![], github_html(decode_utf8(contents@))) {
            Some(page) => r is Ok && r->Ok_0.is_html(200, seq![], page),
            None => r is Err && is_engine_render_failure(r->Err_0),
        },
{
    let text = match utf8_string(contents) {
        Some(t) => t,
        None => return Err(crate::Error::Ext(Error::MarkdownUtf8)),
    };
    let options = MarkdownOptions::github();
    let html = render_markdown(text.as_str(), &options);
    markdown_page(html)
}

/// `s` without its leading `/`s.
pub open spec fn trim_leading_slashes(s: Seq<char>) -> Seq<char>
    decreases s.len(),
{
    if s.len() > 0 && s[0] == '/' {
        trim_leading_slashes(s.drop_first())
    } else {
        s
    }
}

/// A path relative to the root: what follows the root, where the path lies
/// under it.
pub open spec fn strip_root(p: Seq<char>, root: Seq<char>) -> Option<Seq<char>> {
    if within(p, root) {
        Some(trim_leading_slashes(p.subrange(root.len() as int, p.len() as int)))
    } else {
        None
    }
}

/// One entry of a listing: a link to the percent-encoded path relative to
/// the root, showing the entry's name.
pub open spec fn listing_line(url: Seq<char>, name: Seq<char>) -> Seq<char> {
    "<div><a href='/"@ + path_encoded(url) + "'>"@ + name + "</a></div>\n"@
}

/// The entries of a listing, or `None` where a path does not lie under the
/// root.
pub open spec fn listing_lines(root: Seq<char>, paths: Seq<Seq<char>>) -> Option<Seq<char>>
    decreases paths.len(),
{
    if paths.len() == 0 {
        Some(seq![])
    } else {
        match (listing_lines(root, paths.drop_last()), strip_root(paths.last(), root)) {
            (Some(a), Some(u)) => Some(a + listing_line(u, file_name_of(paths.last()))),
            _ => None,
        }
    }
}

/// The HTML body of a listing of these paths.
pub open spec fn listing_body(root: Seq<char>, paths: Seq<Seq<char>>) -> Option<Seq<char>> {
    match listing_lines(root, paths) {
        Some(l) => Some("<div>\n"@ + l + "</div>\n"@),
        None => None,
    }
}

/// `s` without its leading `/`s.
fn trim_leading(v: &Vec<char>) -> (r: Vec<char>)
    ensures
        r@ == trim_leading_slashes(v@),
{
    let mut i: usize = 0;
    assert(v@.subrange(0, v@.len() as int) =~= v@);
    while i < v.len() && v[i] == '/'
        invariant
            0 <= i <= v@.len(),
            trim_leading_slashes(v@) == trim_leading_slashes(v@.subrange(i as int, v@.len() as int)),
        decreases v@.len() - i,
    {
        assert(v@.subrange(i as int, v@.len() as int).drop_first() =~= v@.subrange(
            i + 1,
            v@.len() as int,
        ));
        i = i + 1;
    }
    let r = tail_from(v, i);
    assert(trim_leading_slashes(r@) == r@);
    r
}

/// The path relative to the root, where it lies under it.
pub fn strip_root_dir(p: &str, root: &str) -> (r: Option<String>)
    ensures
        match strip_root(p@, root@) {
            Some(u) => r is Some && r->0@ == u,
            None => r is None,
        },
{
    if !is_within(p, root) {
        return None;
    }
    let v = chars_of(p);
    let rt = chars_of(root);
    let rest = tail_from(&v, rt.len());
    Some(string_of(&trim_leading(&rest)))
}

/// The HTML page listing these paths, each linked by its path relative to
/// the root and shown by its name; `StripPrefixInDirList` where a path does
/// not lie under the root.
pub fn make_dir_list_body(root_dir: &str, paths: &Vec<String>) -> (r: Result<String, crate::Error>)
    ensures
        match listing_body(root_dir@, paths_view(paths@)) {
            None => r is Err && is_strip_failure(r->Err_0),
            Some(body) => match render_spec(seq![], body) {
                Some(page) => r is Ok && r->Ok_0@ == page,
                None => r is Err && is_engine_render_failure(r->Err_0),
            },
        },
{
    let mut buf = "<div>\n".to_owned();
    let ghost start = buf@;
    let mut i: usize = 0;
    while i < paths.len()
        invariant
            0 <= i <= paths@.len(),
            listing_lines(root_dir@, paths_view(paths@).take(i as int)) is Some,
            buf@ == "<div>\n"@ + listing_lines(root_dir@, paths_view(paths@).take(i as int))->0,
        decreases paths@.len() - i,
    {
        let p = &paths[i];
        let ghost pv = paths_view(paths@);
        assert(pv.take(i + 1).drop_last() =~= pv.take(i as int));
        assert(pv.take(i + 1).last() == p@);
        let url = match strip_root_dir(p.as_str(), root_dir) {
            Some(u) => u,
            None => {
                proof {
                    lemma_lines_fail(root_dir@, pv, i as int + 1);
                }
                let cause = "prefix not found".to_owned();
                return Err(crate::Error::Ext(Error::StripPrefixInDirList(cause)));
            },
        };
        let name = string_of(&file_name(p.as_str()));
        let mut line = "<div><a href='/".to_owned();
        line.append(encode_path(url.as_str()).as_str());
        line.append("'>");
        line.append(name.as_str());
        line.append("</a></div>\n");
        buf.append(line.as_str());
        i = i + 1;
    }
    buf.append("</div>\n");
    assert(paths_view(paths@).take(paths@.len() as int) =~= paths_view(paths@));
    render_page(buf.as_str())
}

/// Where the lines of a prefix fail, the lines of every longer prefix fail.
proof fn lemma_lines_fail(root: Seq<char>, paths: Seq<Seq<char>>, n: int)
    requires
        0 < n <= paths.len(),
        listing_lines(root, paths.take(n)) is None,
    ensures
        listing_lines(root, paths) is None,
    decreases paths.len() - n,
{
    if n < paths.len() {
        assert(paths.take(n + 1).drop_last() =~= paths.take(n));
        lemma_lines_fail(root, paths, n + 1);
    } else {
        assert(paths.take(n) =~= paths);
    }
}

/// The paths as texts.
pub open spec fn paths_view(p: Seq<String>) -> Seq<Seq<char>> {
    p.map_values(|s: String| s@)
}

/// `a` comes before `b`, or equals it, in the order of their bytes.
pub open spec fn bytes_le(a: Seq<u8>, b: Seq<u8>) -> bool
    decreases a.len(),
{
    if a.len() == 0 {
        true
    } else if b.len() == 0 {
        false
    } else if a[0] != b[0] {
        a[0] < b[0]
    } else {
        bytes_le(a.drop_first(), b.drop_first())
    }
}

/// The texts are in ascending order of their UTF-8 bytes.
pub open spec fn sorted_by_bytes(s: Seq<Seq<char>>) -> bool {
    forall|i, j| 0 <= i < j < s.len() ==> bytes_le(encode_utf8(#[trigger] s[i]), encode_utf8(#[trigger] s[j]))
}

/// Relies on `slice::sort` on `String`s: the same strings, in ascending
/// order, which for `String` is the order of their bytes.
#[verifier::external_body]
fn sort_strings(v: &mut Vec<String>)
    ensures
        paths_view(final(v)@).to_multiset() == paths_view(old(v)@).to_multiset(),
        sorted_by_bytes(paths_view(final(v)@)),
{
    v.sort()
}

/// Where the single-page-app fallback finds its page: `index.html` in the
/// root directory.
pub open spec fn spa_index(root: Seq<char>) -> Seq<char> {
    join(root, "index.html"@)
}

/// What the extensions make of the outcome of the file serving.
pub open spec fn serve_spec(config: Config, req: Request, primary: Result<Reply, crate::Error>, r: Next) -> bool {
    if !config.use_extensions {
        r == Next::Done(primary)
    } else {
        match local_path_spec(req.path@, config.root_dir@, config.allow_escape_root) {
            Err(e) => r == Next::Done(Err(e)),
            Ok(p) => if is_markdown_path(p) {
                r.asks(Step::MarkdownCheck, p) && r->Ask_0.local@ == p && r->Ask_0.primary is None
            } else {
                match primary {
                    Ok(resp) => r is Done && r->Done_0 is Ok && text_override(
                        req.path@,
                        resp,
                        r->Done_0->Ok_0,
                    ),
                    Err(e) => if e is Io && e->Io_0 is NotFound {
                        if config.single_page_app {
                            r.asks(Step::Spa, spa_index(config.root_dir@)) && r->Ask_0.local@ == p
                                && r->Ask_0.primary == Some(e)
                        } else {
                            r.asks(Step::ListCheck, p) && r->Ask_0.local@ == p && r->Ask_0.primary
                                == Some(e)
                        }
                    } else {
                        r == Next::Done(Err(e))
                    },
                }
            },
        }
    }
}

/// The entry point of the extensions: they are given the request and the
/// outcome of the file serving, and may replace it. With the extensions on,
/// a markdown path is rendered (after a containment check); a response is
/// served as plain text where it is a source file; a missing file falls
/// back to the root `index.html` in single-page-app mode, or to a listing
/// where the path is a directory. Any other outcome passes unchanged.
pub fn serve(config: &Config, req: &Request, primary: Result<Reply, crate::Error>) -> (r: Next)
    ensures
        serve_spec(*config, *req, primary, r),
{
    if !config.use_extensions {
        return Next::Done(primary);
    }
    let p = match local_path_for_request(req.path.as_str(), config.root_dir.as_str(), config.allow_escape_root) {
        Ok(p) => p,
        Err(e) => return Next::Done(Err(e)),
    };
    if is_markdown(p.as_str()) {
        let local = p.clone();
        return Next::Ask(Stage { step: Step::MarkdownCheck, path: p, local, primary: None });
    }
    match primary {
        Ok(mut resp) => {
            maybe_convert_mime_type_to_text(req.path.as_str(), &mut resp);
            Next::Done(Ok(resp))
        },
        Err(e) => {
            let not_found = match &e {
                crate::Error::Io(IoError::NotFound(_)) => true,
                _ => false,
            };
            if !not_found {
                return Next::Done(Err(e));
            }
            if config.single_page_app {
                let index = join_path(config.root_dir.as_str(), "index.html");
                Next::Ask(Stage { step: Step::Spa, path: index, local: p, primary: Some(e) })
            } else {
                let local = p.clone();
                Next::Ask(Stage { step: Step::ListCheck, path: p, local, primary: Some(e) })
            }
        },
    }
}

/// The paths a listing of a directory shows: its parent `..`, then each
/// entry, in this order.
pub open spec fn listing_paths(dir: Seq<char>, names: Seq<Seq<char>>) -> Seq<Seq<char>> {
    seq![join(dir, ".."@)] + names.map_values(|n: Seq<char>| join(dir, n))
}

/// The outcome of listing these paths: `StripPrefixInDirList` where one
/// lies outside the root, else the rendered page as a 200 response.
pub open spec fn listing_outcome(root: Seq<char>, paths: Seq<Seq<char>>, r: Result<Reply, crate::Error>) -> bool {
    match listing_body(root, paths) {
        None => r is Err && is_strip_failure(r->Err_0),
        Some(body) => match render_spec(seq![], body) {
            Some(page) => r is Ok && r->Ok_0.is_html(200, seq![], page),
            None => r is Err && is_engine_render_failure(r->Err_0),
        },
    }
}

/// Lists a directory as an HTML page: a link to its parent, then a link to
/// each entry, the entries in ascending order of their bytes.
pub fn list_dir(root_dir: &str, path: &str, names: Vec<String>) -> (r: Result<Reply, crate::Error>)
    ensures
        exists|sorted: Seq<Seq<char>>|
            #[trigger] sorted_by_bytes(sorted) && sorted.to_multiset() == paths_view(names@).to_multiset()
                && listing_outcome(root_dir@, listing_paths(path@, sorted), r),
{
    let mut names = names;
    sort_strings(&mut names);
    let ghost sorted = paths_view(names@);
    let mut paths: Vec<String> = Vec::new();
    paths.push(join_path(path, ".."));
    let mut i: usize = 0;
    while i < names.len()
        invariant
            0 <= i <= names@.len(),
            sorted == paths_view(names@),
            paths_view(paths@) == listing_paths(path@, sorted.take(i as int)),
        decreases names@.len() - i,
    {
        let ghost before = paths_view(paths@);
        let entry = join_path(path, names[i].as_str());
        paths.push(entry);
        assert(sorted[i as int] == names@[i as int]@);
        assert(sorted.take(i + 1) =~= sorted.take(i as int).push(sorted[i as int]));
        assert(paths_view(paths@) =~= before.push(entry@));
        assert(listing_paths(path@, sorted.take(i + 1)) =~= listing_paths(path@, sorted.take(i as int)).push(join(path@, sorted[i as int])));
        i = i + 1;
    }
    assert(sorted.take(names@.len() as int) =~= sorted);
    let html = make_dir_list_body(root_dir, &paths)?;
    Ok(html_str_to_response(html, 200))
}

} // verus!
