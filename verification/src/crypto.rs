//! Checking an authority's signature.

use crate::identity::{AuthorityId, Signature};
use vstd::prelude::*;

verus! {

/// Whether sr25519 accepts `signature` as made over `message` with the secret
/// key that belongs to `public`.
pub uninterp spec fn sr25519_accepts(signature: Seq<u8>, message: Seq<u8>, public: Seq<u8>) -> bool;

/// Calls `sp_core::sr25519::Pair::verify`. That function decides from the
/// three byte strings alone, and answers `false` for bytes that are no
/// signature or no key; what it answers is taken on trust and has a name.
#[verifier::external_body]
pub(crate) fn sr25519_verify(signature: &Signature, message: &[u8], public: &AuthorityId) -> (valid:
    bool)
    ensures
        valid == sr25519_accepts(signature@, message@, public@),
{
    let signature = sp_core::sr25519::Signature::from_raw(*signature);
    let public = sp_core::sr25519::Public::from_raw(*public);
    <sp_core::sr25519::Pair as sp_core::Pair>::verify(&signature, message, &public)
}

} // verus!
