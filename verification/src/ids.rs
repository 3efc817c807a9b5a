//! Identifier generation: short, URL-safe, random tokens.

use vstd::prelude::*;

verus! {

/// Length of every generated identifier.
pub const ID_LENGTH: usize = 6;

/// The characters of the URL-safe identifier alphabet: ASCII letters,
/// digits, `-` and `_` (a 64-symbol set).
pub open spec fn is_id_char(c: char) -> bool {
    ||| 'a' <= c && c <= 'z'
    ||| 'A' <= c && c <= 'Z'
    ||| '0' <= c && c <= '9'
    ||| c == '_'
    ||| c == '-'
}

/// A well-formed identifier: exactly `ID_LENGTH` characters, all drawn from
/// the URL-safe alphabet.
pub open spec fn valid_id(s: Seq<char>) -> bool {
    &&& s.len() == ID_LENGTH
    &&& forall|i: int| 0 <= i < s.len() ==> is_id_char(s[i])
}

/// Relies on `nanoid::format` with `nanoid::alphabet::SAFE` (64 URL-safe
/// symbols) and its default cryptographic random source: the result holds
/// exactly `size` characters, each drawn from that alphabet. The result is
/// random, so nothing connects two calls.
#[verifier::external_body]
fn nanoid_format(size: usize) -> (r: String)
    ensures
        r@.len() == size,
        forall|i: int| 0 <= i < r@.len() ==> is_id_char(r@[i]),
{
    nanoid::format(nanoid::rngs::default, &nanoid::alphabet::SAFE, size)
}

/// Generates a fresh random identifier of `ID_LENGTH` URL-safe characters.
///
/// Near-uniform over the alphabet, but with no global uniqueness guarantee:
/// collisions are caught by the store's uniqueness constraint on insert.
pub fn generate_id() -> (r: String)
    ensures
        valid_id(r@),
{
    nanoid_format(ID_LENGTH)
}

} // verus!
