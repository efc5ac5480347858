//! Parsing of `KEY=VALUE` command-line pairs.

use vstd::prelude::*;

verus! {

/// Why a `KEY=VALUE` pair cannot be parsed.
#[derive(Debug, PartialEq, Eq, Structural)]
pub enum KeyValError {
    /// The text holds no `=` at all.
    MissingSeparator,
}

/// Parse a single key-value pair of `X=Y` into a tuple of `(X, Y)`,
/// splitting at the first `=`.
///
/// Returns an error if and only if no `=` is found.
pub fn parse_key_val(s: &str) -> (r: Result<(String, String), KeyValError>)
    ensures
        match r {
            Ok(kv) => {
                let i = kv.0@.len() as int;
                &&& 0 <= i < s@.len()
                &&& s@[i] == '='
                &&& (forall|j: int| 0 <= j < i ==> s@[j] != '=')
                &&& kv.0@ == s@.subrange(0, i)
                &&& kv.1@ == s@.subrange(i + 1, s@.len() as int)
            },
            Err(e) => {
                &&& e == KeyValError::MissingSeparator
                &&& (forall|j: int| 0 <= j < s@.len() ==> s@[j] != '=')
            },
        },
{
    let len = s.unicode_len();
    let mut i: usize = 0;
    while i < len
        invariant
            len == s@.len(),
            i <= len,
            forall|j: int| 0 <= j < i ==> s@[j] != '=',
        decreases len - i,
    {
        if s.get_char(i) == '=' {
            let key = s.substring_char(0, i).to_owned();
            let value = s.substring_char(i + 1, len).to_owned();
            proof {
                assert(key@.len() == i);
            }
            return Ok((key, value));
        }
        i = i + 1;
    }
    Err(KeyValError::MissingSeparator)
}

} // verus!
