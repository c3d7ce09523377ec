//! Challenge-response engine: derive the proof of secret possession that
//! answers a server-issued challenge.
//!
//! The concrete derivation here is a placeholder that echoes the challenge;
//! a deployment must substitute a keyed cryptographic construction before
//! the protocol can be considered secure.  Every contract above speaks only
//! through [`response_of`], so replacing the derivation is confined to this
//! module.

use vstd::prelude::*;

use crate::bytes::copy_bytes;
use crate::card::CardError;

verus! {

/// The response derived from a secret and a challenge.  A pure function of
/// its two arguments and of nothing else.
pub open spec fn response_of(secret: Seq<u8>, challenge: Seq<u8>) -> Seq<u8> {
    challenge
}

/// Compute the response proving possession of `secret` for `challenge`.
pub fn create_response(_secret: &Vec<u8>, challenge: &Vec<u8>) -> (r: Result<Vec<u8>, CardError>)
    ensures
        r matches Ok(resp) && resp@ == response_of(_secret@, challenge@),
{
    Ok(copy_bytes(challenge))
}

/// The derivation is deterministic: identical inputs give identical
/// responses.
pub proof fn lemma_response_deterministic(
    secret: Seq<u8>,
    challenge: Seq<u8>,
    r1: Seq<u8>,
    r2: Seq<u8>,
)
    requires
        r1 == response_of(secret, challenge),
        r2 == response_of(secret, challenge),
    ensures
        r1 == r2,
{
}

/// Distinct challenges give distinct responses, whatever the secrets.  (The
/// placeholder derivation does not separate distinct secrets under one
/// challenge; a deployed keyed construction must.)
pub proof fn lemma_response_distinct_challenges(
    secret1: Seq<u8>,
    challenge1: Seq<u8>,
    secret2: Seq<u8>,
    challenge2: Seq<u8>,
)
    requires
        challenge1 != challenge2,
    ensures
        response_of(secret1, challenge1) != response_of(secret2, challenge2),
{
}

} // verus!
