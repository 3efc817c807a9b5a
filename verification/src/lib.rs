//! Core of a URL-shortening service: identifier generation, URL validation,
//! and an in-memory store that keeps URL records and per-identifier
//! hit-count metadata, with the increment-or-create update done as one
//! atomic operation on the store.

use vstd::prelude::*;

pub mod error;
pub mod ids;
pub mod laws;
pub mod store;
pub mod strings;
pub mod urls;

verus! {

/// The text served on the help route: a short description of the service's
/// three operations.
pub open spec fn help_text() -> Seq<char> {
    "\n  [POST] /shorten      - Shortens a URL                  | Body should contain the URL in raw text.\n  [GET]  /:id          - Redirects to the URL\n  [GET]  /metadata/:id - Returns the metadata of the URL"@
}

/// Returns the usage text describing the service's routes.
pub fn help() -> (r: &'static str)
    ensures
        r@ == help_text(),
{
    "\n  [POST] /shorten      - Shortens a URL                  | Body should contain the URL in raw text.\n  [GET]  /:id          - Redirects to the URL\n  [GET]  /metadata/:id - Returns the metadata of the URL"
}

/// Composes the fully qualified short link handed to the end user: the
/// configured base URL, a slash, and the identifier.
pub fn short_link(base: &str, id: &str) -> (r: String)
    ensures
        r@ == base@ + "/"@ + id@,
{
    let mut link = base.to_owned();
    link.push_str("/");
    link.push_str(id);
    link
}

} // verus!
