//! SHA-256 digests.

use sha2::Digest;
use vstd::prelude::*;

verus! {

/// `0` to `9` and `a` to `f`.
pub open spec fn is_hex(c: char) -> bool {
    '0' <= c <= '9' || 'a' <= c <= 'f'
}

/// 64 lower-case hexadecimal digits.
pub open spec fn is_digest(s: Seq<char>) -> bool {
    s.len() == 64 && forall|i: int| 0 <= i < s.len() ==> is_hex(#[trigger] s[i])
}

/// The SHA-256 digest of `data`, in hexadecimal.
pub uninterp spec fn sha256_hex(data: Seq<u8>) -> Seq<char>;

/// `sha2::Sha256` over the whole of `data`, printed with `{:x}`: the digest is
/// a function of the data, named `sha256_hex`, and has two lower-case
/// hexadecimal digits for each of its 32 bytes.
#[verifier::external_body]
pub(crate) fn sha256(data: &[u8]) -> (r: String)
    ensures
        r@ == sha256_hex(data@),
        is_digest(r@),
{
    let mut hasher = sha2::Sha256::new();
    hasher.update(data);
    format!("{:x}", hasher.finalize())
}

/// A digest is 64 digits, each a decimal digit or one of `a` to `f`.
pub proof fn law_shape_of_a_digest(s: Seq<char>, i: int)
    requires
        is_digest(s),
        0 <= i < s.len(),
    ensures
        s.len() == 2 * 32,
        '0' <= s[i] <= '9' || 'a' <= s[i] <= 'f',
{
}

} // verus!
