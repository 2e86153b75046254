//! Padding-free base64url encoding of identifier segments.
//!
//! Identifier strings are two fixed-width, un-padded base64url segments, so
//! that a caller can prefix-match on the partition-key segment without
//! decoding the whole string.  The contracts speak of the encoding as ASCII
//! bytes: the string form of an identifier is handled byte-wise, as it is on
//! the wire.

use base64::Engine;
use vstd::prelude::*;

verus! {

/// The canonical un-padded base64url encoding of `b`, as its ASCII bytes.
pub uninterp spec fn b64url_of(b: Seq<u8>) -> Seq<u8>;

/// The length of the un-padded base64url encoding of `n` bytes.
pub open spec fn b64url_len(n: nat) -> nat {
    ((4 * n + 2) / 3) as nat
}

#[verifier::external_type_specification]
#[verifier::external_body]
pub struct ExDecodeError(base64::DecodeError);

/// Relies on base64's URL_SAFE_NO_PAD engine: `encode` returns the un-padded
/// URL-safe encoding of the input, one fixed function of the bytes alone,
/// ceil(4n/3) characters long and all ASCII, so the string's UTF-8 bytes are
/// the encoding itself.
#[verifier::external_body]
pub(crate) fn b64url_encode(b: &[u8]) -> (r: String)
    ensures
        vstd::utf8::encode_utf8(r@) == b64url_of(b@),
        r@.len() == b64url_len(b@.len()),
        vstd::utf8::encode_utf8(r@).len() == b64url_len(b@.len()),
{
    base64::prelude::BASE64_URL_SAFE_NO_PAD.encode(b)
}

/// Relies on base64's URL_SAFE_NO_PAD engine: `decode` is strict (padding
/// refused, non-zero trailing bits refused), so it succeeds exactly on the
/// canonical encoding of one byte string and then returns that byte string.
#[verifier::external_body]
pub(crate) fn b64url_decode(b: &[u8]) -> (r: Result<Vec<u8>, base64::DecodeError>)
    ensures
        r is Ok ==> b@ == b64url_of(r->Ok_0@) && b@.len() == b64url_len(r->Ok_0@.len()),
        forall|x: Seq<u8>| b@ == #[trigger] b64url_of(x) ==> r is Ok && r->Ok_0@ == x,
{
    base64::prelude::BASE64_URL_SAFE_NO_PAD.decode(b)
}

} // verus!
