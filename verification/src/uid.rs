//! Content-hash identifiers.
//!
//! String nodes are keyed by the SHA-256 digest of their normalized value,
//! rendered as lowercase hex. The digest itself comes from an outside
//! implementation; everything around it (hex rendering, prefixing) is
//! verified here.

use sha2::Digest;
use vstd::prelude::*;
use vstd::string::StringExecFns;

use crate::text::digit_char;
use crate::text::digit_char_exec;
use crate::text::string_of_chars;

verus! {

/// The lowercase-hex rendering of a byte string, two digits per byte.
pub open spec fn hex_of_bytes(b: Seq<u8>) -> Seq<char>
    decreases b.len(),
{
    if b.len() == 0 {
        Seq::empty()
    } else {
        hex_of_bytes(b.drop_last()) + seq![
            digit_char((b.last() / 16) as nat),
            digit_char((b.last() % 16) as nat),
        ]
    }
}

/// The SHA-256 digest of the UTF-8 encoding of the given characters: a
/// function of the characters alone.
pub uninterp spec fn sha256_of(s: Seq<char>) -> Seq<u8>;

/// Relies on `sha2::Sha256::digest`: the digest depends only on the input
/// bytes and is exactly 32 bytes long.
#[verifier::external_body]
fn sha256_bytes(value: &str) -> (r: Vec<u8>)
    ensures
        r@ == sha256_of(value@),
        r@.len() == 32,
{
    sha2::Sha256::digest(value.as_bytes()).to_vec()
}

/// The lowercase-hex SHA-256 digest of a string value.
pub open spec fn spec_sha256_hex(s: Seq<char>) -> Seq<char> {
    hex_of_bytes(sha256_of(s))
}

pub(crate) fn sha256_hex(value: &str) -> (r: String)
    ensures
        r@ == spec_sha256_hex(value@),
        r@.len() == 64,
{
    let bytes = sha256_bytes(value);
    let n: usize = bytes.len();
    let mut v: Vec<char> = Vec::new();
    let mut i: usize = 0;
    while i < n
        invariant
            i <= n,
            n == bytes@.len(),
            v@ == hex_of_bytes(bytes@.subrange(0, i as int)),
            v@.len() == 2 * i,
        decreases n - i,
    {
        let b: u8 = bytes[i];
        v.push(digit_char_exec((b / 16) as u64));
        v.push(digit_char_exec((b % 16) as u64));
        i = i + 1;
        proof {
            let pre = bytes@.subrange(0, i - 1);
            let cur = bytes@.subrange(0, i as int);
            assert(cur.drop_last() =~= pre);
            assert(v@ =~= hex_of_bytes(cur));
        }
    }
    proof {
        assert(bytes@.subrange(0, n as int) =~= bytes@);
    }
    string_of_chars(&v)
}

/// The content-hash identifier of a string value: `str:` followed by the
/// lowercase-hex SHA-256 digest of the value.
pub open spec fn spec_string_uid(s: Seq<char>) -> Seq<char> {
    seq!['s', 't', 'r', ':'] + spec_sha256_hex(s)
}

/// Derives the content-hash identifier of a string value.
pub fn generate_string_uid(value: &str) -> (r: String)
    ensures
        r@ == spec_string_uid(value@),
        r@.len() == 68,
{
    let mut out = String::new();
    crate::text::push_char(&mut out, 's');
    crate::text::push_char(&mut out, 't');
    crate::text::push_char(&mut out, 'r');
    crate::text::push_char(&mut out, ':');
    let hex = sha256_hex(value);
    out.append(hex.as_str());
    proof {
        assert(out@ =~= spec_string_uid(value@));
    }
    out
}

} // verus!
