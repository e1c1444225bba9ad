//! The server's configuration, and the two checks it decides: whether a
//! canonical path may be served, and whether a request is authorised.

use vstd::prelude::*;
use crate::auth::{header_grants, Auth};
use crate::error::{Error, IoError};
use crate::path::{is_within, within};

verus! {

/// The configuration, fixed at start-up and shared by every request.
#[derive(Debug)]
pub struct Config {
    /// The address to listen on, `IP:PORT`.
    pub addr: String,
    /// The root directory; canonical once `canonical_root_dir` has run.
    pub root_dir: String,
    /// The developer extensions are on.
    pub use_extensions: bool,
    /// Files outside the root directory may be served.
    pub allow_escape_root: bool,
    /// A request for a missing file gets the root `index.html` (with the
    /// extensions on).
    pub single_page_app: bool,
    /// The credentials that requests must carry, if any.
    pub auth: Option<Auth>,
}

impl Config {
    /// A canonical path may be served: it lies under the root directory, or
    /// escaping the root is allowed.
    pub open spec fn may_serve(&self, canonical: Seq<char>) -> bool {
        self.allow_escape_root || within(canonical, self.root_dir@)
    }

    /// A request with this `Authorization` header (its bytes, if any) may
    /// proceed: no credentials are configured, or the header carries them.
    pub open spec fn authorised(&self, header: Option<Seq<u8>>) -> bool {
        match self.auth {
            None => true,
            Some(a) => header is Some && header_grants(header->0, a.view().0, a.view().1),
        }
    }

    /// Sets the root directory to its canonical form, as the file system
    /// gave it; the failure to find one is an I/O error.
    pub fn canonical_root_dir(&mut self, canonical: Result<String, IoError>) -> (r: Result<(), Error>)
        ensures
            match canonical {
                Ok(p) => r is Ok && final(self).root_dir@ == p@,
                Err(io) => r == Err::<(), Error>(Error::Io(io)) && final(self).root_dir@ == old(self).root_dir@,
            },
            final(self).use_extensions == old(self).use_extensions,
            final(self).allow_escape_root == old(self).allow_escape_root,
            final(self).single_page_app == old(self).single_page_app,
            final(self).addr@ == old(self).addr@,
            final(self).auth == old(self).auth,
    {
        match canonical {
            Ok(p) => {
                self.root_dir = p;
                Ok(())
            },
            Err(io) => Err(Error::Io(io)),
        }
    }

    /// Checks the canonical form of a path, as the file system gave it: the
    /// path itself where it may be served, `EntityNotInRoot` where it lies
    /// outside the root, and the I/O error where there is no canonical form.
    pub fn check_in_root_dir(&self, canonical: Result<String, IoError>) -> (r: Result<String, Error>)
        ensures
            match canonical {
                Ok(p) => if self.may_serve(p@) {
                    r is Ok && r->Ok_0@ == p@
                } else {
                    r is Err && r->Err_0 is EntityNotInRoot
                },
                Err(io) => r == Err::<String, Error>(Error::Io(io)),
            },
    {
        let path = match canonical {
            Ok(p) => p,
            Err(io) => return Err(Error::Io(io)),
        };
        if self.allow_escape_root || is_within(path.as_str(), self.root_dir.as_str()) {
            Ok(path)
        } else {
            Err(Error::EntityNotInRoot)
        }
    }

    /// A canonical path may be served.
    pub fn is_servable(&self, canonical: &str) -> (r: bool)
        ensures
            r == self.may_serve(canonical@),
    {
        self.allow_escape_root || is_within(canonical, self.root_dir.as_str())
    }

    /// A request with this `Authorization` header may proceed.
    pub fn check_auth(&self, header: Option<&[u8]>) -> (r: bool)
        ensures
            r == self.authorised(match header {
                Some(h) => Some(h@),
                None => None,
            }),
    {
        match &self.auth {
            None => true,
            Some(a) => a.check_header(header),
        }
    }
}

} // verus!
