//! URL validation: a raw string is accepted exactly when it parses as an
//! absolute URL, and is then kept in its canonical serialized form.

use vstd::prelude::*;
use crate::error::ServiceError;

verus! {

/// Whether a raw string parses as a well-formed absolute URL.
pub uninterp spec fn url_parses(s: Seq<char>) -> bool;

/// The canonical serialization of a string that parses as an absolute URL.
pub uninterp spec fn url_canon(s: Seq<char>) -> Seq<char>;

/// Relies on `url::Url::parse` and `url::Url::as_str`: whether parsing
/// succeeds, and the canonical serialization it yields, are functions of the
/// input string alone. On failure the parser's diagnostic is returned as
/// text.
#[verifier::external_body]
fn parse_url(raw: &str) -> (r: Result<String, String>)
    ensures
        r is Ok <==> url_parses(raw@),
        r matches Ok(c) ==> c@ == url_canon(raw@),
{
    match url::Url::parse(raw) {
        Ok(u) => Ok(u.as_str().to_owned()),
        Err(e) => Err(e.to_string()),
    }
}

/// Validates `raw` as an absolute URL.
///
/// Returns its canonical string form, or `InvalidURL` with the parser's
/// diagnostic exactly when `raw` does not parse.
pub fn validate_url(raw: &str) -> (r: Result<String, ServiceError>)
    ensures
        r is Ok <==> url_parses(raw@),
        r matches Ok(c) ==> c@ == url_canon(raw@),
        r matches Err(e) ==> e is InvalidURL,
{
    match parse_url(raw) {
        Ok(c) => Ok(c),
        Err(msg) => Err(ServiceError::InvalidURL(msg)),
    }
}

} // verus!
