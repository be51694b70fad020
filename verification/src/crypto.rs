use vstd::prelude::*;

verus! {

/// Whether `plain` matches the bcrypt digest `digest`. bcrypt's check is a
/// function of the two arguments alone; a malformed digest counts as no
/// match.
pub uninterp spec fn bcrypt_verifies(plain: Seq<char>, digest: Seq<char>) -> bool;

/// Relies on bcrypt::verify: it deterministically re-derives the digest for
/// `plain` from the parameters embedded in `digest` and compares; an error
/// (malformed digest) is reported as no match.
#[verifier::external_body]
pub(crate) fn bcrypt_check(plain: &String, digest: &String) -> (r: bool)
    ensures
        r == bcrypt_verifies(plain@, digest@),
{
    bcrypt::verify(plain, digest).unwrap_or(false)
}

/// Relies on bcrypt::hash with the crate's default cost: on success it
/// returns a freshly salted digest that bcrypt::verify accepts for the same
/// plaintext. The salt is random, so nothing else is known of the digest.
#[verifier::external_body]
pub(crate) fn bcrypt_digest(plain: &String) -> (r: Option<String>)
    ensures
        r matches Some(d) ==> bcrypt_verifies(plain@, d@),
{
    bcrypt::hash(plain, bcrypt::DEFAULT_COST).ok()
}

} // verus!
