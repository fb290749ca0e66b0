use vstd::prelude::*;

verus! {

/// Every character is a lowercase hexadecimal digit.
pub open spec fn is_lower_hex(s: Seq<char>) -> bool {
    forall|i: int| 0 <= i < s.len() ==> ('0' <= #[trigger] s[i] <= '9') || ('a' <= s[i] <= 'f')
}

/// The lowercase hexadecimal MD5 digest of a string's UTF-8 bytes.
pub uninterp spec fn md5_of(s: Seq<char>) -> Seq<char>;

/// The lowercase hexadecimal SHA-1 digest of a string's UTF-8 bytes.
pub uninterp spec fn sha1_of(s: Seq<char>) -> Seq<char>;

/// The lowercase hexadecimal SHA-256 digest of a string's UTF-8 bytes.
pub uninterp spec fn sha256_of(s: Seq<char>) -> Seq<char>;

/// The lowercase hexadecimal SHA-512 digest of a string's UTF-8 bytes.
pub uninterp spec fn sha512_of(s: Seq<char>) -> Seq<char>;

/// Relies on hashy::md5: it hashes the string's bytes and formats the
/// sixteen-byte digest with `{:x}`, two lowercase hex digits per byte, so the
/// result depends on the characters alone.
#[verifier::external_body]
pub(crate) fn md5_hex(s: &String) -> (r: String)
    ensures
        r@ == md5_of(s@),
        r@.len() == 32,
        is_lower_hex(r@),
{
    hashy::md5(s.clone())
}

/// Relies on hashy::sha1: it hashes the string's bytes and formats the
/// twenty-byte digest with `{:x}`, two lowercase hex digits per byte, so the
/// result depends on the characters alone.
#[verifier::external_body]
pub(crate) fn sha1_hex(s: &String) -> (r: String)
    ensures
        r@ == sha1_of(s@),
        r@.len() == 40,
        is_lower_hex(r@),
{
    hashy::sha1(s.clone())
}

/// Relies on hashy::sha256: it hashes the string's bytes and formats the
/// 32-byte digest with `{:x}`, two lowercase hex digits per byte, so the
/// result depends on the characters alone.
#[verifier::external_body]
pub(crate) fn sha256_hex(s: &String) -> (r: String)
    ensures
        r@ == sha256_of(s@),
        r@.len() == 64,
        is_lower_hex(r@),
{
    hashy::sha256(s.clone())
}

/// Relies on hashy::sha512: it hashes the string's bytes and formats the
/// 64-byte digest with `{:x}`, two lowercase hex digits per byte, so the
/// result depends on the characters alone.
#[verifier::external_body]
pub(crate) fn sha512_hex(s: &String) -> (r: String)
    ensures
        r@ == sha512_of(s@),
        r@.len() == 128,
        is_lower_hex(r@),
{
    hashy::sha512(s.clone())
}

} // verus!
