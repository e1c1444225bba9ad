//! The error type of the pipeline, its messages, its cause chain and the
//! status code that each error is answered with.

use vstd::prelude::*;
use vstd::string::*;
use crate::ext;

verus! {

/// A failed file-system operation, as the caller observed it, with its
/// message.
#[derive(Clone, Debug)]
pub enum IoError {
    /// The file or directory does not exist.
    NotFound(String),
    /// Any other failure.
    Other(String),
}

/// The error of the pipeline.
#[derive(Debug)]
pub enum Error {
    /// An error of the developer extensions.
    Ext(ext::Error),
    /// The HTTP layer refused to build a response; its message.
    Http(String),
    /// The HTTP server failed; its message.
    Hyper(String),
    /// A file-system operation failed.
    Io(IoError),
    /// The address to listen on does not parse; the parser's message.
    AddrParse(String),
    /// The page template could not be rendered; the renderer's message.
    TemplateRender(String),
    /// The request path does not start with `/`.
    UriNotAbsolute,
    /// The percent-decoded request path is not UTF-8.
    UriNotUtf8,
    /// The requested file or directory lies outside the root directory.
    EntityNotInRoot,
}

pub type Result<T> = core::result::Result<T, Error>;

impl IoError {
    pub open spec fn spec_message(&self) -> Seq<char> {
        match self {
            IoError::NotFound(m) => m@,
            IoError::Other(m) => m@,
        }
    }

    /// The message of the failed operation.
    pub fn message(&self) -> (r: String)
        ensures
            r@ == self.spec_message(),
    {
        match self {
            IoError::NotFound(m) => m.clone(),
            IoError::Other(m) => m.clone(),
        }
    }
}

/// The text an error is displayed with.
pub open spec fn error_text(e: Error) -> Seq<char> {
    match e {
        Error::Ext(_) => "Extension error"@,
        Error::Http(_) => "HTTP error"@,
        Error::Hyper(_) => "Hyper error"@,
        Error::Io(_) => "I/O error"@,
        Error::AddrParse(_) => "failed to parse IP address"@,
        Error::TemplateRender(_) => "failed to render template"@,
        Error::UriNotAbsolute => "requested URI is not an absolute path"@,
        Error::UriNotUtf8 => "requested URI is not UTF-8"@,
        Error::EntityNotInRoot => "requested file or directory is not in the root directory"@,
    }
}

/// The texts of an error and of each of its causes, outermost first.
pub open spec fn error_chain(e: Error) -> Seq<Seq<char>>
    decreases e,
{
    match e {
        Error::Ext(x) => seq![error_text(e)] + ext::error_chain(x),
        Error::Http(m) => seq![error_text(e), m@],
        Error::Hyper(m) => seq![error_text(e), m@],
        Error::Io(io) => seq![error_text(e), io.spec_message()],
        Error::AddrParse(m) => seq![error_text(e), m@],
        Error::TemplateRender(m) => seq![error_text(e), m@],
        _ => seq![error_text(e)],
    }
}

/// The status code an error is answered with: a missing file 404, a path
/// outside the root 403, a malformed request path 400, anything else 500.
pub open spec fn status_of(e: Error) -> u16 {
    match e {
        Error::Io(IoError::NotFound(_)) => 404,
        Error::Ext(ext::Error::Io(IoError::NotFound(_))) => 404,
        Error::EntityNotInRoot => 403,
        Error::UriNotAbsolute => 400,
        Error::UriNotUtf8 => 400,
        _ => 500,
    }
}

impl Error {
    /// The text this error is displayed with.
    pub fn message(&self) -> (r: String)
        ensures
            r@ == error_text(*self),
    {
        let s = match self {
            Error::Ext(_) => "Extension error",
            Error::Http(_) => "HTTP error",
            Error::Hyper(_) => "Hyper error",
            Error::Io(_) => "I/O error",
            Error::AddrParse(_) => "failed to parse IP address",
            Error::TemplateRender(_) => "failed to render template",
            Error::UriNotAbsolute => "requested URI is not an absolute path",
            Error::UriNotUtf8 => "requested URI is not UTF-8",
            Error::EntityNotInRoot => "requested file or directory is not in the root directory",
        };
        s.to_owned()
    }

    /// The texts of this error and of each of its causes, outermost first.
    pub fn chain(&self) -> (r: Vec<String>)
        ensures
            r@.len() == error_chain(*self).len(),
            forall|i| 0 <= i < r@.len() ==> #[trigger] r@[i]@ == error_chain(*self)[i],
        decreases self,
    {
        let mut v: Vec<String> = Vec::new();
        v.push(self.message());
        match self {
            Error::Ext(x) => {
                let rest = x.chain();
                let mut i: usize = 0;
                while i < rest.len()
                    invariant
                        0 <= i <= rest@.len(),
                        v@.len() == i + 1,
                        v@[0]@ == error_text(*self),
                        forall|j: int| 1 <= j <= i ==> #[trigger] v@[j]@ == rest@[j - 1]@,
                    decreases rest@.len() - i,
                {
                    v.push(rest[i].clone());
                    i = i + 1;
                }
                proof {
                    assert forall|k| 0 <= k < v@.len() implies #[trigger] v@[k]@ == error_chain(
                        *self,
                    )[k] by {
                    }
                }
            },
            Error::Http(m) => v.push(m.clone()),
            Error::Hyper(m) => v.push(m.clone()),
            Error::Io(io) => v.push(io.message()),
            Error::AddrParse(m) => v.push(m.clone()),
            Error::TemplateRender(m) => v.push(m.clone()),
            _ => {},
        }
        v
    }

    /// The status code this error is answered with.
    pub fn status(&self) -> (r: u16)
        ensures
            r == status_of(*self),
    {
        match self {
            Error::Io(IoError::NotFound(_)) => 404,
            Error::Ext(ext::Error::Io(IoError::NotFound(_))) => 404,
            Error::EntityNotInRoot => 403,
            Error::UriNotAbsolute => 400,
            Error::UriNotUtf8 => 400,
            _ => 500,
        }
    }
}

/// The line that reports the `i`-th text of an error's chain.
pub open spec fn chain_line(e: Error, i: int) -> Seq<char> {
    if i == 0 {
        "error: "@ + error_chain(e)[0]
    } else {
        "caused by: "@ + error_chain(e)[i]
    }
}

/// The lines that report an error and its causes.
pub open spec fn chain_lines(e: Error) -> Seq<Seq<char>> {
    Seq::new(error_chain(e).len(), |i: int| chain_line(e, i))
}

/// Lines as texts.
pub open spec fn lines_view(v: Seq<String>) -> Seq<Seq<char>> {
    v.map_values(|s: String| s@)
}

/// The lines that report an error and its causes: `error: ` and the error,
/// then `caused by: ` and each cause in turn.
pub fn log_error_chain(e: &Error) -> (r: Vec<String>)
    ensures
        lines_view(r@) == chain_lines(*e),
        r@.len() == error_chain(*e).len(),
        r@.len() > 0 ==> r@[0]@ == "error: "@ + error_chain(*e)[0],
        forall|i| 0 < i < r@.len() ==> #[trigger] r@[i]@ == "caused by: "@ + error_chain(*e)[i],
{
    let chain = e.chain();
    let mut out: Vec<String> = Vec::new();
    let mut i: usize = 0;
    while i < chain.len()
        invariant
            0 <= i <= chain@.len(),
            chain@.len() == error_chain(*e).len(),
            forall|j| 0 <= j < chain@.len() ==> #[trigger] chain@[j]@ == error_chain(*e)[j],
            out@.len() == i,
            i > 0 ==> out@[0]@ == "error: "@ + error_chain(*e)[0],
            forall|j| 0 < j < i ==> #[trigger] out@[j]@ == "caused by: "@ + error_chain(*e)[j],
        decreases chain@.len() - i,
    {
        let mut line = if i == 0 {
            "error: ".to_owned()
        } else {
            "caused by: ".to_owned()
        };
        line.append(chain[i].as_str());
        out.push(line);
        i = i + 1;
    }
    assert(lines_view(out@) =~= chain_lines(*e));
    out
}

} // verus!
