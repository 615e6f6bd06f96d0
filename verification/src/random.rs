//! Randomness from the operating system, through *ring*.
use vstd::prelude::*;

use ring::rand::SecureRandom;

verus! {

#[verifier::external_type_specification]
#[verifier::external_body]
pub struct ExUnspecified(ring::error::Unspecified);

/// The operating system's random number generator could not be read.
#[derive(Clone, Copy, Debug, PartialEq, Eq)]
pub enum RandomError {
    Unavailable,
}

/// Fills a fresh buffer of `len` bytes from `ring::rand::SystemRandom::fill`.
/// The contract claims only the length of a filled buffer: its contents come
/// from the operating system and nothing is said of them.
#[verifier::external_body]
fn system_random_fill(len: usize) -> (res: Result<Vec<u8>, ring::error::Unspecified>)
    ensures
        res matches Ok(v) ==> v@.len() == len,
{
    let mut buf = vec![0u8; len];
    match ring::rand::SystemRandom::new().fill(&mut buf) {
        Ok(()) => Ok(buf),
        Err(e) => Err(e),
    }
}

/// `len` random bytes from the operating system, or an error when its
/// generator cannot be read.
pub fn random_bytes(len: usize) -> (res: Result<Vec<u8>, RandomError>)
    ensures
        res matches Ok(v) ==> v@.len() == len,
{
    match system_random_fill(len) {
        Ok(v) => Ok(v),
        Err(_) => Err(RandomError::Unavailable),
    }
}

} // verus!
